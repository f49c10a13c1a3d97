//! State of the terminal UI: tabs, the chat input line, the model search
//! line, and what each key does to them.
use vstd::prelude::*;

use crate::text::{owned, push_char};

verus! {

/// Active tab in the TUI.
#[derive(Debug, Clone, Copy, PartialEq, Eq, Structural)]
pub enum Tab {
    Models,
    Chat,
    Dashboard,
    Settings,
}

/// The tabs in display order.
pub open spec fn tabs() -> Seq<Tab> {
    seq![Tab::Models, Tab::Chat, Tab::Dashboard, Tab::Settings]
}

pub open spec fn tab_index(t: Tab) -> nat {
    match t {
        Tab::Models => 0,
        Tab::Chat => 1,
        Tab::Dashboard => 2,
        Tab::Settings => 3,
    }
}

pub open spec fn tab_title(t: Tab) -> Seq<char> {
    match t {
        Tab::Models => "Models"@,
        Tab::Chat => "Chat"@,
        Tab::Dashboard => "Dashboard"@,
        Tab::Settings => "Settings"@,
    }
}

/// The tab after `t`, wrapping around.
pub open spec fn next_of(t: Tab) -> Tab {
    tabs()[((tab_index(t) + 1) % 4) as int]
}

/// The tab before `t`, wrapping around.
pub open spec fn prev_of(t: Tab) -> Tab {
    tabs()[((tab_index(t) + 4 - 1) % 4) as int]
}

impl Tab {
    /// All tabs, in display order.
    pub fn all() -> (r: &'static [Tab])
        ensures
            r@ == tabs(),
    {
        let r: &'static [Tab] = &[Tab::Models, Tab::Chat, Tab::Dashboard, Tab::Settings];
        assert(r@ =~= tabs());
        r
    }

    pub fn title(&self) -> (r: &'static str)
        ensures
            r@ == tab_title(*self),
    {
        match self {
            Tab::Models => "Models",
            Tab::Chat => "Chat",
            Tab::Dashboard => "Dashboard",
            Tab::Settings => "Settings",
        }
    }

    /// Position of the tab in [`Tab::all`].
    pub fn index(&self) -> (r: usize)
        ensures
            r == tab_index(*self),
            r < tabs().len(),
            tabs()[r as int] == *self,
    {
        match self {
            Tab::Models => 0,
            Tab::Chat => 1,
            Tab::Dashboard => 2,
            Tab::Settings => 3,
        }
    }
}

/// Switching forward then back (or back then forward) returns to the same
/// tab.
pub proof fn lemma_next_prev(t: Tab)
    ensures
        prev_of(next_of(t)) == t,
        next_of(prev_of(t)) == t,
{
}

/// Switching forward once per tab returns to the starting tab, and every
/// tab in between differs from it.
pub proof fn lemma_next_cycle(t: Tab)
    ensures
        next_of(next_of(next_of(next_of(t)))) == t,
        next_of(t) != t,
        next_of(next_of(t)) != t,
        next_of(next_of(next_of(t))) != t,
{
}

/// Every tab sits at its own index in the display order.
pub proof fn lemma_tab_positions()
    ensures
        forall|i: int| 0 <= i < 4 ==> tab_index(#[trigger] tabs()[i]) == i,
        forall|t: Tab| tabs()[tab_index(t) as int] == t,
{
    assert forall|i: int| 0 <= i < 4 implies tab_index(#[trigger] tabs()[i]) == i by {
        if i == 0 {
        } else if i == 1 {
        } else if i == 2 {
        } else {
        }
    }
}

/// Chat message for the TUI.
pub struct ChatMessage {
    pub role: String,
    pub content: String,
}

/// A key press, as far as the TUI tells keys apart.
#[derive(Debug, Clone, Copy, PartialEq, Eq, Structural)]
pub enum Key {
    Enter,
    Char(char),
    Backspace,
    Esc,
    Other,
}

/// The value of an [`App`].
pub struct AppView {
    pub tab: Tab,
    pub input_mode: bool,
    pub input: Seq<char>,
    pub chat: Seq<(Seq<char>, Seq<char>)>,
    pub query: Seq<char>,
    pub results: Seq<Seq<char>>,
    pub local: Seq<Seq<char>>,
    pub selected: Option<Seq<char>>,
    pub status: Seq<char>,
}

/// Main TUI application state (what the screens show and what keys edit).
pub struct App {
    pub active_tab: Tab,
    pub input_mode: bool,
    pub input_buffer: String,
    pub chat_messages: Vec<ChatMessage>,
    pub search_query: String,
    pub search_results: Vec<String>,
    pub local_models: Vec<String>,
    pub selected_model: Option<String>,
    pub status_message: String,
}

pub open spec fn chat_views(v: Seq<ChatMessage>) -> Seq<(Seq<char>, Seq<char>)> {
    v.map_values(|m: ChatMessage| (m.role@, m.content@))
}

pub open spec fn string_views(v: Seq<String>) -> Seq<Seq<char>> {
    v.map_values(|s: String| s@)
}

impl View for App {
    type V = AppView;

    open spec fn view(&self) -> AppView {
        AppView {
            tab: self.active_tab,
            input_mode: self.input_mode,
            input: self.input_buffer@,
            chat: chat_views(self.chat_messages@),
            query: self.search_query@,
            results: string_views(self.search_results@),
            local: string_views(self.local_models@),
            selected: match self.selected_model {
                Some(s) => Some(s@),
                None => None,
            },
            status: self.status_message@,
        }
    }
}

/// Removes the last character of a line being edited.
pub open spec fn backspace(s: Seq<char>) -> Seq<char> {
    if s.len() > 0 {
        s.drop_last()
    } else {
        s
    }
}

/// A key on the chat tab.
pub open spec fn chat_key(v: AppView, key: Key) -> AppView {
    if v.input_mode {
        match key {
            Key::Enter => if v.input.len() > 0 {
                AppView {
                    chat: v.chat.push(("user"@, v.input)),
                    input: seq![],
                    status: "Generating response..."@,
                    ..v
                }
            } else {
                v
            },
            Key::Char(c) => AppView { input: v.input.push(c), ..v },
            Key::Backspace => AppView { input: backspace(v.input), ..v },
            Key::Esc => AppView { input_mode: false, ..v },
            Key::Other => v,
        }
    } else {
        match key {
            Key::Char(c) => if c == 'i' {
                AppView { input_mode: true, ..v }
            } else {
                v
            },
            Key::Enter => AppView { input_mode: true, ..v },
            _ => v,
        }
    }
}

/// A key on the models tab: `/` opens a fresh search line, Enter runs it.
pub open spec fn models_key(v: AppView, key: Key) -> AppView {
    if v.input_mode {
        match key {
            Key::Enter => if v.query.len() > 0 {
                AppView {
                    status: "Searching for '"@ + v.query + "'..."@,
                    input_mode: false,
                    ..v
                }
            } else {
                AppView { input_mode: false, ..v }
            },
            Key::Char(c) => AppView { query: v.query.push(c), ..v },
            Key::Backspace => AppView { query: backspace(v.query), ..v },
            Key::Esc => AppView { input_mode: false, ..v },
            Key::Other => v,
        }
    } else {
        match key {
            Key::Char(c) => if c == '/' {
                AppView { input_mode: true, query: seq![], ..v }
            } else {
                v
            },
            _ => v,
        }
    }
}

/// What a key does: the chat and models tabs take keys, the others ignore
/// them.
pub open spec fn key_step(v: AppView, key: Key) -> AppView {
    match v.tab {
        Tab::Chat => chat_key(v, key),
        Tab::Models => models_key(v, key),
        _ => v,
    }
}

/// Removes the last character of a string (`String::pop`).
#[verifier::external_body]
fn pop_char(s: &mut String) -> (r: Option<char>)
    ensures
        old(s)@.len() > 0 ==> final(s)@ == old(s)@.drop_last() && r == Some(old(s)@.last()),
        old(s)@.len() == 0 ==> final(s)@ == old(s)@ && r is None,
{
    s.pop()
}

/// The welcome line of the status bar.
pub open spec fn welcome() -> Seq<char> {
    "Welcome to Zonky TUI! Press Tab to switch tabs."@
}

impl App {
    /// A fresh UI on the models tab listing the ids of the local models.
    pub fn new(local_models: Vec<String>) -> (r: App)
        ensures
            r@ == (AppView {
                tab: Tab::Models,
                input_mode: false,
                input: seq![],
                chat: seq![],
                query: seq![],
                results: seq![],
                local: string_views(local_models@),
                selected: None,
                status: welcome(),
            }),
    {
        let r = App {
            active_tab: Tab::Models,
            input_mode: false,
            input_buffer: String::new(),
            chat_messages: Vec::new(),
            search_query: String::new(),
            search_results: Vec::new(),
            local_models,
            selected_model: None,
            status_message: owned("Welcome to Zonky TUI! Press Tab to switch tabs."),
        };
        assert(chat_views(r.chat_messages@) =~= seq![]);
        assert(string_views(r.search_results@) =~= seq![]);
        r
    }

    pub fn next_tab(&mut self)
        ensures
            final(self)@ == (AppView { tab: next_of(old(self)@.tab), ..old(self)@ }),
    {
        let tabs = Tab::all();
        let current = self.active_tab.index();
        self.active_tab = tabs[(current + 1) % tabs.len()];
    }

    pub fn prev_tab(&mut self)
        ensures
            final(self)@ == (AppView { tab: prev_of(old(self)@.tab), ..old(self)@ }),
    {
        let tabs = Tab::all();
        let current = self.active_tab.index();
        self.active_tab = tabs[(current + tabs.len() - 1) % tabs.len()];
    }

    pub fn handle_key(&mut self, key: Key)
        ensures
            final(self)@ == key_step(old(self)@, key),
    {
        match self.active_tab {
            Tab::Chat => self.handle_chat_key(key),
            Tab::Models => self.handle_models_key(key),
            _ => {},
        }
    }

    fn handle_chat_key(&mut self, key: Key)
        ensures
            final(self)@ == chat_key(old(self)@, key),
    {
        if self.input_mode {
            match key {
                Key::Enter => {
                    if self.input_buffer.unicode_len() > 0 {
                        let mut msg = String::new();
                        std::mem::swap(&mut msg, &mut self.input_buffer);
                        let ghost before = self.chat_messages@;
                        let m = ChatMessage { role: owned("user"), content: msg };
                        let ghost mv = (m.role@, m.content@);
                        self.chat_messages.push(m);
                        assert(chat_views(self.chat_messages@) =~= chat_views(before).push(mv));
                        self.status_message = owned("Generating response...");
                    }
                },
                Key::Char(c) => push_char(&mut self.input_buffer, c),
                Key::Backspace => {
                    let _ = pop_char(&mut self.input_buffer);
                },
                Key::Esc => self.input_mode = false,
                Key::Other => {},
            }
        } else {
            match key {
                Key::Char(c) => {
                    if c == 'i' {
                        self.input_mode = true;
                    }
                },
                Key::Enter => self.input_mode = true,
                _ => {},
            }
        }
    }

    fn handle_models_key(&mut self, key: Key)
        ensures
            final(self)@ == models_key(old(self)@, key),
    {
        if self.input_mode {
            match key {
                Key::Enter => {
                    if self.search_query.unicode_len() > 0 {
                        let mut msg = String::new();
                        push_str(&mut msg, "Searching for '");
                        push_str(&mut msg, self.search_query.as_str());
                        push_str(&mut msg, "'...");
                        self.status_message = msg;
                    }
                    self.input_mode = false;
                },
                Key::Char(c) => push_char(&mut self.search_query, c),
                Key::Backspace => {
                    let _ = pop_char(&mut self.search_query);
                },
                Key::Esc => self.input_mode = false,
                Key::Other => {},
            }
        } else {
            match key {
                Key::Char(c) => {
                    if c == '/' {
                        self.input_mode = true;
                        self.search_query = String::new();
                    }
                },
                _ => {},
            }
        }
    }
}

/// Appends a string slice to a string.
fn push_str(s: &mut String, tail: &str)
    ensures
        final(s)@ == old(s)@ + tail@,
{
    let n = tail.unicode_len();
    let mut i: usize = 0;
    let ghost start = s@;
    while i < n
        invariant
            i <= n,
            n == tail@.len(),
            s@ == start + tail@.subrange(0, i as int),
        decreases n - i,
    {
        let c = tail.get_char(i);
        push_char(s, c);
        assert(tail@.subrange(0, i + 1) =~= tail@.subrange(0, i as int).push(c));
        i = i + 1;
    }
    assert(tail@.subrange(0, n as int) =~= tail@);
}

/// Typing a character on an input line and erasing it leaves the line as it
/// was.
pub proof fn lemma_type_then_erase(v: AppView, c: char)
    requires
        v.input_mode,
        v.tab == Tab::Chat || v.tab == Tab::Models,
    ensures
        key_step(key_step(v, Key::Char(c)), Key::Backspace) == v,
{
    if v.tab == Tab::Chat {
        assert(v.input.push(c).drop_last() =~= v.input);
        assert(AppView { input: v.input, ..v } == v);
    } else {
        assert(v.query.push(c).drop_last() =~= v.query);
        assert(AppView { query: v.query, ..v } == v);
    }
}

/// Sending a chat line appends it as the user's message and empties the
/// input line; an empty line sends nothing.
pub proof fn lemma_send_line(v: AppView)
    requires
        v.tab == Tab::Chat,
        v.input_mode,
    ensures
        v.input.len() > 0 ==> key_step(v, Key::Enter).chat == v.chat.push(("user"@, v.input))
            && key_step(v, Key::Enter).input.len() == 0,
        v.input.len() == 0 ==> key_step(v, Key::Enter) == v,
{
}

/// Only the chat and models tabs react to keys.
pub proof fn lemma_other_tabs_ignore_keys(v: AppView, key: Key)
    requires
        v.tab == Tab::Dashboard || v.tab == Tab::Settings,
    ensures
        key_step(v, key) == v,
{
}

} // verus!
