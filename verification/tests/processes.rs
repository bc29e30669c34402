use kepler::process_list::{
    named_processes, show_processes, sort_keyed, sort_processes, IconCache, IconLookup, ProcessInfo,
    RawProcess,
};

fn process(pid: u32, name: &str) -> ProcessInfo {
    ProcessInfo { pid, name: name.into(), exe_path: String::new(), icon: None }
}

fn pids(list: &[ProcessInfo]) -> Vec<u32> {
    list.iter().map(|p| p.pid).collect()
}

#[test]
fn nameless_processes_are_left_out() {
    let raw = |pid: u32, name: &str| RawProcess { pid, name: name.into(), exe_path: String::new() };
    let kept = named_processes(vec![raw(1, "a"), raw(2, ""), raw(3, " ")]);
    assert_eq!(kept.iter().map(|p| p.pid).collect::<Vec<u32>>(), vec![1, 3]);
}

#[test]
fn processes_are_sorted_whatever_the_case() {
    let sorted = sort_processes(vec![
        process(1, "zeta"),
        process(2, "Alpha"),
        process(3, "beta"),
        process(4, "ALPHA"),
        process(5, "Beta"),
        process(6, "alpha2"),
        process(7, "Äpfel"),
    ]);
    assert_eq!(pids(&sorted), vec![2, 4, 6, 3, 5, 1, 7]);
    assert_eq!(sort_processes(vec![]), vec![]);
}

#[test]
fn sorting_agrees_with_the_standard_sort() {
    let list: Vec<ProcessInfo> = ["b", "A", "a", "B", "aa", "", "Z", "_", "é", "日本", "E", "b1"]
        .iter()
        .enumerate()
        .map(|(i, n)| process(i as u32, n))
        .collect();
    let mut expected = list.clone();
    expected.sort_by(|a, b| a.name.to_lowercase().cmp(&b.name.to_lowercase()));
    assert_eq!(sort_processes(list), expected);
}

#[test]
fn items_with_one_key_keep_their_order() {
    let item = |key: &str, pid: u32| (key.to_string(), process(pid, ""));
    let sorted = sort_keyed(vec![item("b", 1), item("a", 2), item("b", 3), item("a", 4)]);
    assert_eq!(sorted.iter().map(|i| i.1.pid).collect::<Vec<u32>>(), vec![2, 4, 1, 3]);
}

#[test]
fn icons_are_extracted_once() {
    let mut cache = IconCache::new();
    let path = "C:\\a.exe".to_string();
    assert_eq!(cache.lookup(&String::new()), IconLookup::NoPath);
    assert_eq!(cache.lookup(&path), IconLookup::Extract);
    cache.learn(&path, &None);
    assert_eq!(cache.lookup(&path), IconLookup::Extract);
    cache.learn(&path, &Some("base64".to_string()));
    cache.learn(&"other".to_string(), &Some("x".to_string()));
    assert_eq!(cache.lookup(&path), IconLookup::Known("base64".to_string()));
    assert_eq!(cache.lookup(&"third".to_string()), IconLookup::Extract);
}

#[test]
fn a_clone_is_the_same_process() {
    let mut p = process(9, "n");
    p.icon = Some("i".into());
    assert_eq!(p.clone(), p);
}

#[test]
fn the_list_shows_every_named_process() {
    let raw = |pid: u32, name: &str, path: &str| RawProcess {
        pid,
        name: name.into(),
        exe_path: path.into(),
    };
    let kept = named_processes(vec![
        raw(4, "System", ""),
        raw(9, "", "C:\\x.exe"),
        raw(2, "b.exe", "C:\\b.exe"),
        raw(3, "A.exe", "C:\\a.exe"),
        raw(2, "b.exe", "C:\\b.exe"),
    ]);
    let icon = |text: &str| Some(text.to_string());
    let list = show_processes(kept, vec![icon("none"), icon("b"), None, icon("b")]);
    let shown = |pid: u32, name: &str, path: &str, icon: Option<String>| ProcessInfo {
        pid,
        name: name.into(),
        exe_path: path.into(),
        icon,
    };
    assert_eq!(
        list,
        vec![
            shown(3, "A.exe", "C:\\a.exe", None),
            shown(2, "b.exe", "C:\\b.exe", icon("b")),
            shown(2, "b.exe", "C:\\b.exe", icon("b")),
            shown(4, "System", "", None),
        ]
    );
    assert_eq!(show_processes(vec![], vec![]), vec![]);
}
