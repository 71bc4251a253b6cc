//! Selection reconciliation, circular navigation, the keyboard state
//! machine, and refresh rate limiting.

use procsnipe::app::{Action, App, Key, KeyKind};
use procsnipe::record::{Mode, RawProcess, SortMode};
use procsnipe::selection::reconcile;

fn raw(pid: u32, name: &str, cpu_centi: u32, memory: u64) -> RawProcess {
    RawProcess {
        pid,
        name: name.as_bytes().to_vec(),
        cpu_centi,
        memory,
    }
}

fn sample() -> Vec<RawProcess> {
    vec![
        raw(1, "chrome.exe", 3000, 200 * 1024 * 1024),
        raw(2, "steam.exe", 500, 100 * 1024 * 1024),
        raw(3, "notepad.exe", 100, 10 * 1024 * 1024),
    ]
}

/// An app that has refreshed once, at t = 1000 ms, over `sample()`.
fn app_with_view() -> App {
    let mut app = App::new(0);
    app.refresh_processes(1000, sample());
    assert_eq!(app.processes.len(), 3);
    app
}

#[test]
fn reconcile_empty_clears() {
    assert_eq!(reconcile(None, 0), None);
    assert_eq!(reconcile(Some(2), 0), None);
}

#[test]
fn reconcile_clamps_and_keeps() {
    assert_eq!(reconcile(Some(5), 3), Some(2));
    assert_eq!(reconcile(Some(3), 3), Some(2));
    assert_eq!(reconcile(Some(1), 3), Some(1));
    assert_eq!(reconcile(None, 3), Some(0));
}

#[test]
fn navigation_wraps_both_ways() {
    let mut app = app_with_view();
    assert_eq!(app.selected, Some(0));
    app.previous();
    assert_eq!(app.selected, Some(2));
    app.next();
    assert_eq!(app.selected, Some(0));
    app.next();
    app.next();
    assert_eq!(app.selected, Some(2));
    app.next();
    assert_eq!(app.selected, Some(0));
}

#[test]
fn navigation_on_empty_view_is_a_no_op() {
    let mut app = App::new(0);
    app.next();
    assert_eq!(app.selected, None);
    app.previous();
    assert_eq!(app.selected, None);
}

#[test]
fn selection_survives_shrinking_view() {
    let mut app = app_with_view();
    app.next();
    app.next();
    assert_eq!(app.selected, Some(2));
    // the next refresh keeps only one record
    let shrunk = vec![raw(9, "steam.exe", 100, 1)];
    app.refresh_processes(2500, shrunk);
    assert_eq!(app.processes.len(), 1);
    assert_eq!(app.selected, Some(0));
}

#[test]
fn quit_key_in_normal_mode() {
    let mut app = app_with_view();
    let act = app.on_event(2000, Key::Char(b'q'), KeyKind::Press);
    assert_eq!(act, Action::Quit);
}

#[test]
fn release_and_repeat_events_are_discarded() {
    let mut app = app_with_view();
    assert_eq!(
        app.on_event(2000, Key::Char(b'q'), KeyKind::Release),
        Action::Noop
    );
    assert_eq!(
        app.on_event(2001, Key::Char(b'q'), KeyKind::Repeat),
        Action::Noop
    );
    assert_eq!(app.mode, Mode::Normal);
}

#[test]
fn debounce_drops_fast_repeats_of_non_navigation_keys() {
    let mut app = app_with_view();
    app.on_event(2000, Key::Char(b'g'), KeyKind::Press);
    assert!(app.show_games_only);
    // 50 ms later: within the debounce window, ignored
    app.on_event(2050, Key::Char(b'g'), KeyKind::Press);
    assert!(app.show_games_only);
    // 150 ms later: accepted again
    app.on_event(2150, Key::Char(b'g'), KeyKind::Press);
    assert!(!app.show_games_only);
}

#[test]
fn navigation_keys_are_exempt_from_debouncing() {
    let mut app = app_with_view();
    app.on_event(2000, Key::Char(b'j'), KeyKind::Press);
    app.on_event(2010, Key::Char(b'j'), KeyKind::Press);
    assert_eq!(app.selected, Some(2));
    app.on_event(2020, Key::Up, KeyKind::Press);
    assert_eq!(app.selected, Some(1));
}

#[test]
fn sort_key_cycles() {
    let mut app = app_with_view();
    assert_eq!(app.sort_mode, SortMode::Cpu);
    app.on_event(2000, Key::Char(b's'), KeyKind::Press);
    assert_eq!(app.sort_mode, SortMode::Memory);
    app.on_event(2200, Key::Char(b's'), KeyKind::Press);
    assert_eq!(app.sort_mode, SortMode::Name);
    app.on_event(2400, Key::Char(b's'), KeyKind::Press);
    assert_eq!(app.sort_mode, SortMode::Cpu);
}

#[test]
fn kill_key_names_the_selected_process() {
    let mut app = app_with_view();
    // cursor on the second row: steam.exe, pid 2
    app.on_event(2000, Key::Char(b'j'), KeyKind::Press);
    let act = app.on_event(2200, Key::Char(b'd'), KeyKind::Press);
    assert_eq!(act, Action::Kill(2));
}

#[test]
fn kill_key_with_empty_view_does_nothing() {
    let mut app = App::new(0);
    let act = app.on_event(2000, Key::Char(b'd'), KeyKind::Press);
    assert_eq!(act, Action::Noop);
}

#[test]
fn search_mode_edits_the_query() {
    let mut app = app_with_view();
    app.on_event(2000, Key::Char(b'/'), KeyKind::Press);
    assert_eq!(app.mode, Mode::Search);
    assert!(app.search_query.is_empty());
    app.on_event(2200, Key::Char(b's'), KeyKind::Press);
    app.on_event(2400, Key::Char(b't'), KeyKind::Press);
    app.on_event(2600, Key::Char(b'x'), KeyKind::Press);
    app.on_event(2800, Key::Backspace, KeyKind::Press);
    assert_eq!(app.search_query, b"st".to_vec());
    app.on_event(3000, Key::Enter, KeyKind::Press);
    assert_eq!(app.mode, Mode::Normal);
    assert_eq!(app.search_query, b"st".to_vec());
}

#[test]
fn escape_cancels_the_search() {
    let mut app = app_with_view();
    app.on_event(2000, Key::Char(b'/'), KeyKind::Press);
    app.on_event(2200, Key::Char(b'a'), KeyKind::Press);
    app.on_event(2400, Key::Esc, KeyKind::Press);
    assert_eq!(app.mode, Mode::Normal);
    assert!(app.search_query.is_empty());
}

#[test]
fn help_toggles_and_closes() {
    let mut app = app_with_view();
    app.on_event(2000, Key::Char(b'?'), KeyKind::Press);
    assert_eq!(app.mode, Mode::Help);
    // navigation keys are ignored in help mode
    app.on_event(2200, Key::Char(b'j'), KeyKind::Press);
    assert_eq!(app.mode, Mode::Help);
    assert_eq!(app.selected, Some(0));
    app.on_event(2400, Key::Char(b'?'), KeyKind::Press);
    assert_eq!(app.mode, Mode::Normal);
    app.on_event(2600, Key::Char(b'?'), KeyKind::Press);
    app.on_event(2800, Key::Esc, KeyKind::Press);
    assert_eq!(app.mode, Mode::Normal);
}

#[test]
fn refresh_is_rate_limited() {
    let mut app = App::new(0);
    app.refresh_processes(1000, sample());
    assert_eq!(app.processes.len(), 3);
    assert!(!app.refresh_due(1500));
    // a second refresh within the interval changes nothing, whatever it carries
    app.refresh_processes(1500, vec![raw(9, "late.exe", 1, 1)]);
    assert_eq!(app.processes.len(), 3);
    assert_eq!(app.last_refresh_ms, 1000);
    // once the interval has passed the new enumeration is taken
    assert!(app.refresh_due(2000));
    app.refresh_processes(2000, vec![raw(9, "late.exe", 1, 1)]);
    assert_eq!(app.processes.len(), 1);
    assert_eq!(app.last_refresh_ms, 2000);
}

#[test]
fn first_refresh_after_construction_is_rate_limited_too() {
    let mut app = App::new(500);
    app.refresh_processes(600, sample());
    assert_eq!(app.processes.len(), 0);
    app.refresh_processes(1500, sample());
    assert_eq!(app.processes.len(), 3);
}

#[test]
fn query_filters_on_next_refresh() {
    let mut app = app_with_view();
    app.on_event(2000, Key::Char(b'/'), KeyKind::Press);
    app.on_event(2200, Key::Char(b's'), KeyKind::Press);
    app.on_event(2400, Key::Char(b't'), KeyKind::Press);
    app.on_event(2600, Key::Enter, KeyKind::Press);
    app.refresh_processes(3000, sample());
    // "st" matches steam.exe alone (case-insensitive substring)
    assert_eq!(app.processes.len(), 1);
    assert_eq!(app.processes[0].pid, 2);
}
