//! The snapshot pipeline: classification, filtering, stable sorting,
//! and their composition.

use procsnipe::pipeline::build_view;
use procsnipe::record::{RawProcess, SortMode};

fn raw(pid: u32, name: &str, cpu_centi: u32, memory: u64) -> RawProcess {
    RawProcess {
        pid,
        name: name.as_bytes().to_vec(),
        cpu_centi,
        memory,
    }
}

fn sample() -> Vec<RawProcess> {
    vec![
        raw(1, "chrome.exe", 3000, 200 * 1024 * 1024),
        raw(2, "steam.exe", 500, 100 * 1024 * 1024),
        raw(3, "notepad.exe", 100, 10 * 1024 * 1024),
    ]
}

fn names(view: &Vec<procsnipe::record::ProcessInfo>) -> Vec<String> {
    let mut out: Vec<String> = Vec::new();
    let mut i = 0;
    while i < view.len() {
        out.push(String::from_utf8(view[i].name.clone()).unwrap());
        i += 1;
    }
    out
}

#[test]
fn cpu_sort_without_filters() {
    let view = build_view(sample(), false, &Vec::new(), SortMode::Cpu);
    assert_eq!(
        names(&view),
        vec!["chrome.exe", "steam.exe", "notepad.exe"]
    );
}

#[test]
fn games_only_keeps_the_flagged_record() {
    let view = build_view(sample(), true, &Vec::new(), SortMode::Cpu);
    assert_eq!(names(&view), vec!["steam.exe"]);
    assert!(view[0].is_game);
    assert_eq!(view[0].pid, 2);
}

#[test]
fn name_sort_is_lexicographic_ascending() {
    let view = build_view(sample(), false, &Vec::new(), SortMode::Name);
    assert_eq!(
        names(&view),
        vec!["chrome.exe", "notepad.exe", "steam.exe"]
    );
}

#[test]
fn memory_sort_is_descending() {
    let view = build_view(sample(), false, &Vec::new(), SortMode::Memory);
    assert_eq!(
        names(&view),
        vec!["chrome.exe", "steam.exe", "notepad.exe"]
    );
}

#[test]
fn equal_keys_keep_enumeration_order() {
    let input = vec![
        raw(10, "bbb", 500, 7),
        raw(11, "aaa", 500, 7),
        raw(12, "ccc", 300, 7),
        raw(13, "ddd", 500, 7),
    ];
    let view = build_view(input, false, &Vec::new(), SortMode::Cpu);
    // the three records tied at 5.00% keep their enumeration order
    assert_eq!(names(&view), vec!["bbb", "aaa", "ddd", "ccc"]);

    let input = vec![
        raw(10, "bbb", 500, 7),
        raw(11, "aaa", 500, 7),
        raw(12, "ccc", 300, 7),
        raw(13, "ddd", 500, 7),
    ];
    let view = build_view(input, false, &Vec::new(), SortMode::Memory);
    // all memory values tie, so the whole enumeration order is kept
    assert_eq!(names(&view), vec!["bbb", "aaa", "ccc", "ddd"]);
}

#[test]
fn search_filter_is_case_insensitive() {
    let query = "CHRO".as_bytes().to_vec();
    let view = build_view(sample(), false, &query, SortMode::Cpu);
    assert_eq!(names(&view), vec!["chrome.exe"]);
}

#[test]
fn empty_query_matches_everything() {
    let view = build_view(sample(), false, &Vec::new(), SortMode::Cpu);
    assert_eq!(view.len(), 3);
}

#[test]
fn both_filters_compose_as_intersection() {
    let input = vec![
        raw(1, "steamwebhelper.exe", 100, 1),
        raw(2, "steam.exe", 200, 2),
        raw(3, "webhelper.exe", 300, 3),
        raw(4, "notepad.exe", 400, 4),
    ];
    let query = "web".as_bytes().to_vec();
    let view = build_view(input, true, &query, SortMode::Cpu);
    // flagged-only keeps 1 and 2; the query keeps 1 and 3; both keep 1
    assert_eq!(names(&view), vec!["steamwebhelper.exe"]);
}

#[test]
fn unmatched_query_gives_empty_view() {
    let query = "zzzz".as_bytes().to_vec();
    let view = build_view(sample(), false, &query, SortMode::Cpu);
    assert_eq!(view.len(), 0);
}
