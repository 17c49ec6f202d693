use process_guard::{clone_names, dedup_names, is_observed_process, lowercase_names};

fn strings(items: &[&str]) -> Vec<String> {
    items.iter().map(|item| item.to_string()).collect()
}

#[test]
fn observed_name_matches_in_any_ascii_case() {
    let names = strings(&["taskmgr.exe", "mspaint.exe"]);
    assert!(is_observed_process("taskmgr.exe", &names));
    assert!(is_observed_process("TaskMgr.EXE", &names));
    assert!(is_observed_process("MSPAINT.EXE", &names));
}

#[test]
fn observed_name_matches_an_entry_in_upper_case() {
    let names = strings(&["TASKMGR.EXE"]);
    assert!(is_observed_process("taskmgr.exe", &names));
}

#[test]
fn other_name_is_not_observed() {
    let names = strings(&["taskmgr.exe", "mspaint.exe"]);
    assert!(!is_observed_process("calc.exe", &names));
    assert!(!is_observed_process("taskmgr", &names));
    assert!(!is_observed_process("taskmgr.exe ", &names));
    assert!(!is_observed_process("", &names));
}

#[test]
fn nothing_is_observed_by_an_empty_list() {
    let names: Vec<String> = Vec::new();
    assert!(!is_observed_process("taskmgr.exe", &names));
    assert!(!is_observed_process("", &names));
}

#[test]
fn empty_name_matches_only_an_empty_entry() {
    let names = strings(&["a.exe", ""]);
    assert!(is_observed_process("", &names));
}

#[test]
fn letters_outside_ascii_keep_their_case_in_comparison() {
    let names = strings(&["\u{e9}.exe"]);
    assert!(is_observed_process("\u{e9}.EXE", &names));
    assert!(!is_observed_process("\u{c9}.exe", &names));
}

#[test]
fn characters_next_to_the_ascii_letters_are_not_folded() {
    let names = strings(&["@[`{"]);
    assert!(is_observed_process("@[`{", &names));
    assert!(!is_observed_process("`{@[", &names));
    assert!(!is_observed_process("@{`[", &names));
}

#[test]
fn lowercase_names_lowers_each_name_in_order() {
    let names = strings(&["A.EXE", "b.exe", "MiXed.Exe", ""]);
    assert_eq!(lowercase_names(&names), strings(&["a.exe", "b.exe", "mixed.exe", ""]));
}

#[test]
fn lowercase_names_follows_unicode() {
    let names = strings(&["\u{c9}T\u{c9}.EXE"]);
    assert_eq!(lowercase_names(&names), strings(&["\u{e9}t\u{e9}.exe"]));
}

#[test]
fn lowercase_names_of_nothing_is_nothing() {
    let names: Vec<String> = Vec::new();
    assert_eq!(lowercase_names(&names), Vec::<String>::new());
}

#[test]
fn dedup_names_keeps_first_occurrences_in_order() {
    let names = strings(&["b", "A", "a", "B", "c", "b"]);
    assert_eq!(dedup_names(&names), strings(&["b", "A", "c"]));
}

#[test]
fn dedup_names_leaves_distinct_names_alone() {
    let names = strings(&["taskmgr.exe", "mspaint.exe", "calc.exe"]);
    assert_eq!(dedup_names(&names), names);
}

#[test]
fn dedup_names_of_nothing_is_nothing() {
    let names: Vec<String> = Vec::new();
    assert_eq!(dedup_names(&names), Vec::<String>::new());
}

#[test]
fn dedup_names_of_one_repeated_name_is_that_name() {
    let names = strings(&["x.exe", "X.EXE", "x.Exe", "X.exe"]);
    assert_eq!(dedup_names(&names), strings(&["x.exe"]));
}

#[test]
fn dedup_names_twice_is_dedup_names_once() {
    let names = strings(&["b", "A", "a", "B", "c", "b"]);
    let once = dedup_names(&names);
    assert_eq!(dedup_names(&once), once);
}

#[test]
fn clone_names_copies_the_list() {
    let names = strings(&["/C", "start", "", "C:/Windows/System32/calc.exe"]);
    assert_eq!(clone_names(&names), names);
    assert_eq!(clone_names(&Vec::<String>::new()), Vec::<String>::new());
}
