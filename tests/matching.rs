use focuslock::matcher::{add_exe_suffix, normalize_target, path_hit, target_base_of};
use focuslock::{BlockRule, ProcessDescriptor};

fn rule(app_id: &str, match_kind: &str, mode: &str) -> BlockRule {
    BlockRule {
        id: "r1".to_string(),
        app_id: app_id.to_string(),
        match_kind: match_kind.to_string(),
        mode: mode.to_string(),
    }
}

fn process(name: &str, path: Option<&str>, pid: u32) -> ProcessDescriptor {
    ProcessDescriptor { name: name.to_string(), path: path.map(|p| p.to_string()), pid }
}

#[test]
fn exe_rule_matches_same_name() {
    let r = rule("game.exe", "exe", "hard");
    assert!(focuslock::matcher::matches(&process("game.exe", None, 7), &r));
}

#[test]
fn exe_rule_ignores_ascii_case() {
    let r = rule("Game.EXE", "exe", "hard");
    assert!(focuslock::matcher::matches(&process("GAME.exe", None, 7), &r));
}

#[test]
fn exe_rule_appends_suffix_to_bare_name() {
    let r = rule("game", "exe", "hard");
    assert!(focuslock::matcher::matches(&process("game.exe", None, 7), &r));
    assert!(!focuslock::matcher::matches(&process("game", None, 7), &r));
}

#[test]
fn exe_rule_takes_last_path_component() {
    let r = rule("C:\\Games\\Steam/launcher", "exe", "hard");
    assert!(focuslock::matcher::matches(&process("launcher.exe", None, 7), &r));
    assert!(!focuslock::matcher::matches(&process("steam.exe", None, 7), &r));
}

#[test]
fn exe_rule_is_exact_not_substring() {
    let r = rule("game.exe", "exe", "hard");
    assert!(!focuslock::matcher::matches(&process("mygame.exe", None, 7), &r));
}

#[test]
fn path_rule_matches_case_insensitively() {
    let r = rule("C:\\Games\\app", "path", "soft");
    let p = process("app.exe", Some("C:\\Games\\App\\app.exe"), 9);
    assert!(focuslock::matcher::matches(&p, &r));
}

#[test]
fn path_rule_never_matches_missing_or_empty_path() {
    let r = rule("C:\\Games\\app", "path", "soft");
    assert!(!focuslock::matcher::matches(&process("app.exe", None, 9), &r));
    assert!(!focuslock::matcher::matches(&process("app.exe", Some(""), 9), &r));
}

#[test]
fn path_rule_rejects_other_directory() {
    let r = rule("C:\\Games\\app", "path", "soft");
    let p = process("app.exe", Some("D:\\Work\\app.exe"), 9);
    assert!(!focuslock::matcher::matches(&p, &r));
}

#[test]
fn other_kind_looks_for_target_in_name() {
    let r = rule("chat", "contains", "soft");
    assert!(focuslock::matcher::matches(&process("MyChat.exe", None, 3), &r));
    assert!(!focuslock::matcher::matches(&process("chatter.exe", None, 3), &r));
}

#[test]
fn normalize_examples() {
    assert_eq!(normalize_target("game"), "game.exe");
    assert_eq!(normalize_target("Game.EXE"), "Game.EXE");
    assert_eq!(normalize_target("C:\\Games\\app"), "app.exe");
    assert_eq!(normalize_target("/opt/tools/run.Exe"), "run.Exe");
    assert_eq!(normalize_target("C:\\Games\\"), ".exe");
}

#[test]
fn target_base_examples() {
    assert_eq!(target_base_of("a/b\\c"), "c");
    assert_eq!(target_base_of("plain"), "plain");
    assert_eq!(target_base_of(""), "");
}

#[test]
fn suffix_uses_the_folded_form() {
    assert_eq!(add_exe_suffix("Tool.EXE", "tool.exe"), "Tool.EXE");
    assert_eq!(add_exe_suffix("Tool", "tool"), "Tool.exe");
}

#[test]
fn path_hit_examples() {
    assert!(path_hit("C:\\A\\b.exe", "c:\\a\\b.exe", "c:\\a"));
    assert!(!path_hit("", "", ""));
    assert!(!path_hit("C:\\A\\b.exe", "c:\\a\\b.exe", "c:\\z"));
}

#[test]
fn exe_rule_compares_lowercase_forms_beyond_ascii() {
    let r = rule("ÉDITEUR", "exe", "hard");
    assert!(focuslock::matcher::matches(&process("éditeur.exe", None, 7), &r));
    assert!(!focuslock::matcher::matches(&process("editeur.exe", None, 7), &r));
}
