use focuslock::listing::{
    is_left_out, select_entries, select_installed_apps, select_running_processes,
    sort_by_folded_name, text_le_exec, Listing,
};
use focuslock::AppInfo;

fn app(name: &str, path: Option<&str>) -> AppInfo {
    AppInfo { name: name.to_string(), path: path.map(|p| p.to_string()), icon: None }
}

fn names(v: &[AppInfo]) -> Vec<&str> {
    v.iter().map(|a| a.name.as_str()).collect()
}

#[test]
fn installed_filters_updates_hotfixes_and_kb() {
    assert!(is_left_out(Listing::Installed, "Security Update for Office"));
    assert!(is_left_out(Listing::Installed, "Hotfix 123"));
    assert!(is_left_out(Listing::Installed, "KB5001234"));
    assert!(!is_left_out(Listing::Installed, "update helper"));
    assert!(!is_left_out(Listing::Installed, "Firefox"));
}

#[test]
fn running_filters_system_and_unnamed() {
    assert!(is_left_out(Listing::Running, ""));
    assert!(is_left_out(Listing::Running, "svchost.exe"));
    assert!(is_left_out(Listing::Running, "System Idle Process"));
    assert!(!is_left_out(Listing::Running, "system.exe"));
    assert!(!is_left_out(Listing::Running, "game.exe"));
}

#[test]
fn selection_keeps_first_of_each_name() {
    let kept = select_entries(
        Listing::Running,
        vec![app("b.exe", Some("first")), app("a.exe", None), app("b.exe", Some("second"))],
    );
    assert_eq!(names(&kept), vec!["b.exe", "a.exe"]);
    assert_eq!(kept[0].path.as_deref(), Some("first"));
}

#[test]
fn installed_list_is_filtered_deduplicated_and_sorted() {
    let out = select_installed_apps(vec![
        app("zoom", None),
        app("Audacity", None),
        app("KB123", None),
        app("blender", None),
        app("Zoom Update", None),
        app("zoom", None),
    ]);
    assert_eq!(names(&out), vec!["Audacity", "blender", "zoom"]);
}

#[test]
fn running_list_sorts_ignoring_case() {
    let out = select_running_processes(vec![
        app("beta.exe", None),
        app("Alpha.exe", None),
        app("svchost.exe", None),
        app("alpha2.exe", None),
        app("", None),
    ]);
    assert_eq!(names(&out), vec!["Alpha.exe", "alpha2.exe", "beta.exe"]);
}

#[test]
fn sort_is_stable_for_equal_folded_names() {
    let out = sort_by_folded_name(vec![app("B", Some("1")), app("a", None), app("b", Some("2"))]);
    assert_eq!(names(&out), vec!["a", "B", "b"]);
    let empty: Vec<AppInfo> = sort_by_folded_name(vec![]);
    assert!(empty.is_empty());
}

#[test]
fn code_point_order() {
    assert!(text_le_exec("abc", "abd"));
    assert!(text_le_exec("ab", "abc"));
    assert!(text_le_exec("", ""));
    assert!(!text_le_exec("b", "a"));
    assert!(text_le_exec("Z", "a"));
}
