use zonky::cli::{recheck_advice, RecheckAdvice};
use zonky::cli::{about, find_local_info, install_step, install_tail, setup_advice, size_text, tags_line, usage_line, ChatAction, ChatSession, InstallStep, SetupAdvice};
use zonky::setup::{Dependency, SetupStatus};
use zonky::types::{LocalModel, Role, Usage};

#[test]
fn help_text_has_no_mojibake() {
    let about = about().to_string();
    assert!(about.contains("Zonky -"));
    assert!(!about.contains('\u{00E2}'));
    assert!(!about.contains('\u{00F0}'));
    assert!(!about.contains('\u{00C2}'));
}

#[test]
fn about_is_the_full_description() {
    assert_eq!(about(), "Zonky - High-performance local LLM inference engine");
}

#[test]
fn small_sizes_print_in_bytes() {
    assert_eq!(size_text(Some(512), "?"), "512 B");
    assert_eq!(size_text(Some(0), "?"), "0 B");
    assert_eq!(size_text(None, "unknown size"), "unknown size");
}

#[test]
fn large_sizes_use_units() {
    assert_eq!(size_text(Some(1_500_000), "?"), "1.5 MB");
    assert_eq!(size_text(Some(2_000), "?"), "2.0 KB");
}

#[test]
fn usage_line_lists_all_counts() {
    let u = Usage { prompt_tokens: 12, completion_tokens: 30, total_tokens: 42 };
    assert_eq!(usage_line(&u), "(12 prompt + 30 completion = 42 total tokens)");
}

#[test]
fn tags_line_takes_five_tags() {
    let tags: Vec<String> = ["a", "b", "c", "d", "e", "f"].iter().map(|s| s.to_string()).collect();
    assert_eq!(tags_line(&tags), Some("a, b, c, d, e".to_string()));
    let two: Vec<String> = vec!["gguf".to_string(), "llama".to_string()];
    assert_eq!(tags_line(&two), Some("gguf, llama".to_string()));
    assert_eq!(tags_line(&Vec::new()), None);
}

fn local(id: &str, repo: &str) -> LocalModel {
    LocalModel {
        id: id.to_string(),
        repo_id: repo.to_string(),
        filename: format!("{id}.gguf"),
        path: format!("/cache/{id}.gguf"),
        file_size: 10,
        alias: None,
        quantization: None,
        architecture: None,
        downloaded_at: "2024-01-01T00:00:00Z".to_string(),
    }
}

#[test]
fn info_finds_by_id_or_repo() {
    let ms = vec![local("a", "org/A"), local("b", "org/B")];
    assert_eq!(find_local_info(&ms, "b"), Some(1));
    assert_eq!(find_local_info(&ms, "org/A"), Some(0));
    assert_eq!(find_local_info(&ms, "c"), None);
}

#[test]
fn chat_session_handles_commands() {
    let mut s = ChatSession::new();
    assert_eq!(s.on_input("   \n"), ChatAction::Skip);
    assert!(s.messages.is_empty());
    assert_eq!(s.on_input("  hello  \n"), ChatAction::Send);
    assert_eq!(s.messages.len(), 1);
    assert_eq!(s.messages[0].role, Role::User);
    assert_eq!(s.messages[0].content, "hello");
    s.on_reply("hi there".to_string());
    assert_eq!(s.messages.len(), 2);
    assert_eq!(s.messages[1].role, Role::Assistant);
    assert_eq!(s.on_input("/clear"), ChatAction::Cleared);
    assert!(s.messages.is_empty());
    assert_eq!(s.on_input("exit\n"), ChatAction::Quit);
    assert_eq!(s.on_input("quit"), ChatAction::Quit);
}

fn dep(name: &str, installed: bool) -> Dependency {
    Dependency {
        name: name.to_string(),
        description: format!("{name} desc"),
        installed,
        install_cmd: Some(format!("apt:{name}")),
        required_by: "x".to_string(),
    }
}

fn status(deps: Vec<Dependency>, ready: bool, reboot: bool) -> SetupStatus {
    SetupStatus {
        gpu_vendor: "AMD".to_string(),
        gpu_name: "gpu".to_string(),
        compute_ready: ready,
        needs_reboot: reboot,
        deps,
        summary: "s".to_string(),
    }
}

#[test]
fn setup_advice_order() {
    assert_eq!(setup_advice(&status(vec![], false, false)), SetupAdvice::NothingNeeded);
    assert_eq!(setup_advice(&status(vec![dep("a", true)], false, true)), SetupAdvice::RebootNeeded);
    assert_eq!(setup_advice(&status(vec![dep("a", true)], true, false)), SetupAdvice::Ready);
    assert_eq!(setup_advice(&status(vec![dep("a", false)], false, false)), SetupAdvice::Missing);
}

#[test]
fn missing_deps_lists_uninstalled_only() {
    let s = status(vec![dep("a", true), dep("b", false), dep("c", false)], false, false);
    let m = zonky::cli::missing_deps(&s);
    assert_eq!(m, vec![("b".to_string(), "b desc".to_string()), ("c".to_string(), "c desc".to_string())]);
}

#[test]
fn install_tail_keeps_last_lines() {
    let out = "l1\nl2\nl3\nl4\nl5\nl6\nl7\n";
    assert_eq!(install_tail(out, 5), vec!["l3", "l4", "l5", "l6", "l7"]);
    assert_eq!(install_tail("one\ntwo", 5), vec!["one", "two"]);
    assert!(install_tail("  \n ", 5).is_empty());
}

#[test]
fn recheck_advice_prefers_ready() {
    assert_eq!(recheck_advice(&status(vec![], true, true)), RecheckAdvice::Ready);
    assert_eq!(recheck_advice(&status(vec![], false, true)), RecheckAdvice::RebootNeeded);
    assert_eq!(recheck_advice(&status(vec![], false, false)), RecheckAdvice::StillMissing);
}

#[test]
fn install_step_follows_flag_and_status() {
    let missing = status(vec![dep("a", true), dep("b", false)], false, false);
    match install_step(&missing, true) {
        InstallStep::Install(cmd) => assert_eq!(cmd, "sudo apt install -y b"),
        other => panic!("expected an install, got {other:?}"),
    }
    match install_step(&missing, false) {
        InstallStep::Suggest(cmd) => assert_eq!(cmd, "sudo apt install -y b"),
        other => panic!("expected a suggestion, got {other:?}"),
    }
    assert!(matches!(install_step(&status(vec![dep("a", true)], true, false), true), InstallStep::Nothing));
    assert!(matches!(install_step(&status(vec![dep("a", false)], false, true), true), InstallStep::Nothing));
    let mut no_cmd = dep("c", false);
    no_cmd.install_cmd = None;
    assert!(matches!(install_step(&status(vec![no_cmd], false, false), true), InstallStep::Nothing));
}
