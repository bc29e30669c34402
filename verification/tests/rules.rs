use kepler::control::auto_matches;
use kepler::process_list::ProcessInfo;
use kepler::rules::{lowered_rule_matches, process_matches, RuleSet};

fn names(list: &[&str]) -> Vec<String> {
    list.iter().map(|n| n.to_string()).collect()
}

fn process(pid: u32, name: &str, path: &str) -> ProcessInfo {
    ProcessInfo { pid, name: name.into(), exe_path: path.into(), icon: None }
}

#[test]
fn a_rule_names_a_process_with_or_without_extension() {
    let path = "";
    assert!(process_matches("chrome.exe", path, &names(&["chrome"])));
    assert!(process_matches("chrome", path, &names(&["chrome.exe"])));
    assert!(process_matches("chrome", path, &names(&["chrome"])));
    assert!(!process_matches("chrome.exe.exe", path, &names(&["chrome"])));
    assert!(!process_matches("chromium", path, &names(&["chrome"])));
    assert!(!process_matches("chrome", path, &names(&[])));
}

#[test]
fn case_does_not_matter() {
    assert!(process_matches("CHROME.EXE", "", &names(&["Chrome"])));
    assert!(process_matches("x", "C:\\Games\\ACME\\x.exe", &names(&["games\\acme"])));
    assert!(process_matches("ÄPFEL", "", &names(&["äpfel"])));
}

#[test]
fn a_rule_may_stand_in_the_path() {
    assert!(process_matches("helper.exe", "C:\\Steam\\bin\\helper.exe", &names(&["steam"])));
    assert!(!process_matches("helper.exe", "C:\\Stea\\m", &names(&["steam"])));
    assert!(process_matches("helper", "abc", &names(&["zzz", "bc"])));
    assert!(process_matches("helper", "abc", &names(&[""])));
}

#[test]
fn lowered_texts_are_compared_as_they_are() {
    let s = |t: &str| t.to_string();
    assert!(lowered_rule_matches(&s("a"), &s(""), &s("a")));
    assert!(!lowered_rule_matches(&s("A"), &s(""), &s("a")));
    assert!(lowered_rule_matches(&s("b"), &s("xay"), &s("a")));
}

#[test]
fn typed_rules_are_trimmed_and_kept_once() {
    let r = RuleSet::from_input(&names(&[" a ", "", "b", "a", " \t\n", "\u{3000}b\u{a0}", "A"]));
    assert_eq!(r.list(), &names(&["a", "b", "A"]));
    assert!(!r.is_empty());
    assert!(RuleSet::from_input(&names(&["  "])).is_empty());
    assert!(RuleSet::new().is_empty());
}

#[test]
fn saved_rules_are_kept_as_they_are() {
    let r = RuleSet::from_saved(&names(&["x", " y ", "x", ""]));
    assert_eq!(r.list(), &names(&["x", " y ", ""]));
    let again = RuleSet::from_saved(r.list());
    assert_eq!(again.list(), r.list());
}

#[test]
fn running_processes_are_matched_in_order() {
    let running = vec![
        process(3, "Steam.exe", "C:\\Steam\\Steam.exe"),
        process(1, "explorer.exe", "C:\\Windows\\explorer.exe"),
        process(2, "game.exe", "C:\\steam\\game.exe"),
    ];
    assert_eq!(auto_matches(&running, &RuleSet::from_input(&names(&["steam"]))), vec![3, 2]);
    assert_eq!(auto_matches(&running, &RuleSet::new()), Vec::<u32>::new());
}
