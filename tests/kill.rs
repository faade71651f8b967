use focuslock::kill::{decimal_text, kill_report, kill_targets};
use focuslock::ProcessDescriptor;

fn process(name: &str, pid: u32) -> ProcessDescriptor {
    ProcessDescriptor { name: name.to_string(), path: None, pid }
}

#[test]
fn decimal_rendering() {
    assert_eq!(decimal_text(0), "0");
    assert_eq!(decimal_text(7), "7");
    assert_eq!(decimal_text(120), "120");
    assert_eq!(decimal_text(u64::MAX), u64::MAX.to_string());
}

#[test]
fn targets_match_ignoring_ascii_case() {
    let procs = vec![process("Game.exe", 1), process("game.exe", 2), process("games.exe", 3)];
    assert_eq!(kill_targets(&procs, "GAME.EXE"), vec![1, 2]);
    assert!(kill_targets(&procs, "none.exe").is_empty());
}

#[test]
fn kill_replies() {
    assert_eq!(kill_report(2, "game.exe"), Ok("Killed 2 instance(s) of game.exe".to_string()));
    assert_eq!(kill_report(0, "game.exe"), Err("Process 'game.exe' not found".to_string()));
}
