use zonky::tui::{App, Key, Tab};

fn app() -> App {
    App::new(vec!["m1".to_string(), "m2".to_string()])
}

#[test]
fn tabs_titles_and_positions() {
    let all = Tab::all();
    assert_eq!(all, vec![Tab::Models, Tab::Chat, Tab::Dashboard, Tab::Settings]);
    let titles: Vec<&str> = all.iter().map(|t| t.title()).collect();
    assert_eq!(titles, vec!["Models", "Chat", "Dashboard", "Settings"]);
    for (i, t) in all.iter().enumerate() {
        assert_eq!(t.index(), i);
    }
}

#[test]
fn new_app_state() {
    let a = app();
    assert_eq!(a.active_tab, Tab::Models);
    assert!(!a.input_mode);
    assert_eq!(a.local_models, vec!["m1", "m2"]);
    assert_eq!(a.status_message, "Welcome to Zonky TUI! Press Tab to switch tabs.");
}

#[test]
fn tab_cycling() {
    let mut a = app();
    a.next_tab();
    assert_eq!(a.active_tab, Tab::Chat);
    a.next_tab();
    a.next_tab();
    assert_eq!(a.active_tab, Tab::Settings);
    a.next_tab();
    assert_eq!(a.active_tab, Tab::Models);
    a.prev_tab();
    assert_eq!(a.active_tab, Tab::Settings);
    a.next_tab();
    assert_eq!(a.active_tab, Tab::Models);
}

#[test]
fn chat_typing_and_sending() {
    let mut a = app();
    a.next_tab();
    a.handle_key(Key::Char('x'));
    assert!(!a.input_mode);
    a.handle_key(Key::Char('i'));
    assert!(a.input_mode);
    for c in "hey".chars() {
        a.handle_key(Key::Char(c));
    }
    a.handle_key(Key::Char('!'));
    a.handle_key(Key::Backspace);
    assert_eq!(a.input_buffer, "hey");
    a.handle_key(Key::Enter);
    assert_eq!(a.input_buffer, "");
    assert_eq!(a.chat_messages.len(), 1);
    assert_eq!(a.chat_messages[0].role, "user");
    assert_eq!(a.chat_messages[0].content, "hey");
    assert_eq!(a.status_message, "Generating response...");
    a.handle_key(Key::Enter);
    assert_eq!(a.chat_messages.len(), 1);
    a.handle_key(Key::Backspace);
    assert_eq!(a.input_buffer, "");
    a.handle_key(Key::Esc);
    assert!(!a.input_mode);
    a.handle_key(Key::Enter);
    assert!(a.input_mode);
}

#[test]
fn model_search_line() {
    let mut a = app();
    a.handle_key(Key::Char('q'));
    assert!(!a.input_mode);
    a.handle_key(Key::Char('/'));
    assert!(a.input_mode);
    for c in "llama".chars() {
        a.handle_key(Key::Char(c));
    }
    a.handle_key(Key::Enter);
    assert!(!a.input_mode);
    assert_eq!(a.status_message, "Searching for 'llama'...");
    a.handle_key(Key::Char('/'));
    assert_eq!(a.search_query, "");
    a.handle_key(Key::Enter);
    assert!(!a.input_mode);
    assert_eq!(a.status_message, "Searching for 'llama'...");
}

#[test]
fn other_tabs_ignore_keys() {
    let mut a = app();
    a.prev_tab();
    a.handle_key(Key::Char('i'));
    a.handle_key(Key::Enter);
    assert!(!a.input_mode);
    assert!(a.chat_messages.is_empty());
}
