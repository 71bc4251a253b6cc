//! The interactive monitor's state and its keyboard-driven state
//! machine.
//!
//! `App` owns the view settings, the current snapshot view, and the
//! cursor. `refresh_processes` runs the snapshot pipeline, rate
//! limited; `on_event` is one step of the interaction loop: it
//! discards non-press events, debounces non-navigation keys, and
//! dispatches by mode. Both are specified as relations between the
//! state before and after, so a caller knows the whole effect of each
//! call. Terminal, clock, and process-table access stay outside; time
//! comes in as milliseconds, keys as plain values, and the one
//! side effect the machine can ask for — killing a process — goes back
//! out as an `Action`.

use crate::pipeline::{build_view, view_spec};
use crate::record::{Mode, ProcessInfo, RawProcess, SortMode};
use crate::selection::{next_spec, previous_spec, reconcile, reconcile_spec};
use vstd::prelude::*;

verus! {

/// How often the process table is re-enumerated at most.
pub const DEFAULT_REFRESH_RATE_MS: u64 = 1000;

/// Non-navigation key presses arriving closer together than this are
/// treated as duplicate input artifacts and dropped.
pub const DEBOUNCE_MS: u64 = 150;

/// The character bindings of normal mode, as byte values: `q` quits.
pub const KEY_QUIT: u8 = 113;

/// `?` toggles the help panel.
pub const KEY_HELP: u8 = 63;

/// `/` opens the search prompt.
pub const KEY_SEARCH: u8 = 47;

/// `j` moves the cursor down.
pub const KEY_NAV_DOWN: u8 = 106;

/// `k` moves the cursor up.
pub const KEY_NAV_UP: u8 = 107;

/// `d` kills the selected process.
pub const KEY_KILL: u8 = 100;

/// `g` toggles the games-only filter.
pub const KEY_FILTER_TOGGLE: u8 = 103;

/// `s` cycles the sort key.
pub const KEY_SORT_CYCLE: u8 = 115;

/// One keyboard key, reduced to what the dispatch distinguishes.
#[derive(PartialEq, Eq, Structural, Clone, Copy, Debug)]
pub enum Key {
    Char(u8),
    Up,
    Down,
    Esc,
    Enter,
    Backspace,
    Other,
}

/// What kind of key event arrived; only presses are acted on.
#[derive(PartialEq, Eq, Structural, Clone, Copy, Debug)]
pub enum KeyKind {
    Press,
    Release,
    Repeat,
}

/// What the caller is asked to do after a dispatch step.
#[derive(PartialEq, Eq, Structural, Clone, Copy, Debug)]
pub enum Action {
    Noop,
    Quit,
    Kill(u32),
}

/// The monitor's whole interactive state.
pub struct App {
    pub mode: Mode,
    pub processes: Vec<ProcessInfo>,
    pub selected: Option<usize>,
    pub search_query: Vec<u8>,
    pub sort_mode: SortMode,
    pub show_games_only: bool,
    pub refresh_rate_ms: u64,
    pub last_refresh_ms: u64,
    pub last_key_ms: u64,
}

/// The next sort key in the fixed cycle name, CPU, memory.
pub open spec fn cycle_spec(sk: SortMode) -> SortMode {
    match sk {
        SortMode::Name => SortMode::Cpu,
        SortMode::Cpu => SortMode::Memory,
        SortMode::Memory => SortMode::Name,
    }
}

/// Navigation keys: exempt from debouncing so scrolling stays
/// responsive.
pub open spec fn is_navigation(key: Key) -> bool {
    key == Key::Char(KEY_NAV_DOWN) || key == Key::Char(KEY_NAV_UP) || key == Key::Up || key == Key::Down
}

/// Is the event acted on at all? Only presses; non-navigation keys
/// only when the debounce window since the last accepted key has
/// passed.
pub open spec fn accepts(pre: App, now_ms: u64, key: Key, kind: KeyKind) -> bool {
    kind == KeyKind::Press && (is_navigation(key) || now_ms - pre.last_key_ms >= DEBOUNCE_MS)
}

/// What the kill key asks for: the identifier of the selected record,
/// nothing when no row is selected.
pub open spec fn kill_action(pre: App) -> Action {
    match pre.selected {
        Some(i) => if (i as int) < pre.processes@.len() {
            Action::Kill(pre.processes@[i as int].pid)
        } else {
            Action::Noop
        },
        None => Action::Noop,
    }
}

/// The fields a dispatch step never touches.
pub open spec fn same_core(pre: App, post: App) -> bool {
    &&& post.processes == pre.processes
    &&& post.refresh_rate_ms == pre.refresh_rate_ms
    &&& post.last_refresh_ms == pre.last_refresh_ms
}

/// State change of an accepted key in normal mode.
pub open spec fn normal_state(pre: App, post: App, key: Key) -> bool {
    &&& post.mode == (if key == Key::Char(KEY_HELP) {
        Mode::Help
    } else if key == Key::Char(KEY_SEARCH) {
        Mode::Search
    } else {
        Mode::Normal
    })
    &&& post.search_query@ == (if key == Key::Char(KEY_SEARCH) {
        Seq::<u8>::empty()
    } else {
        pre.search_query@
    })
    &&& post.sort_mode == (if key == Key::Char(KEY_SORT_CYCLE) {
        cycle_spec(pre.sort_mode)
    } else {
        pre.sort_mode
    })
    &&& post.show_games_only == (if key == Key::Char(KEY_FILTER_TOGGLE) {
        !pre.show_games_only
    } else {
        pre.show_games_only
    })
    &&& post.selected == (if key == Key::Char(KEY_NAV_DOWN) || key == Key::Down {
        next_spec(pre.selected, pre.processes@.len() as usize)
    } else if key == Key::Char(KEY_NAV_UP) || key == Key::Up {
        previous_spec(pre.selected, pre.processes@.len() as usize)
    } else {
        pre.selected
    })
}

/// What an accepted key in normal mode asks the caller to do.
pub open spec fn normal_action(pre: App, key: Key) -> Action {
    if key == Key::Char(KEY_QUIT) {
        Action::Quit
    } else if key == Key::Char(KEY_KILL) {
        kill_action(pre)
    } else {
        Action::Noop
    }
}

/// State change of an accepted key in search mode: characters grow the
/// query, backspace shrinks it, escape cancels it, enter keeps it.
pub open spec fn search_state(pre: App, post: App, key: Key) -> bool {
    &&& post.sort_mode == pre.sort_mode
    &&& post.show_games_only == pre.show_games_only
    &&& post.selected == pre.selected
    &&& match key {
        Key::Esc => post.mode == Mode::Normal && post.search_query@ == Seq::<u8>::empty(),
        Key::Enter => post.mode == Mode::Normal && post.search_query@ == pre.search_query@,
        Key::Char(c) => post.mode == Mode::Search && post.search_query@ == pre.search_query@.push(
            c,
        ),
        Key::Backspace => post.mode == Mode::Search && post.search_query@ == (if pre.search_query@
            .len() == 0 {
            pre.search_query@
        } else {
            pre.search_query@.drop_last()
        }),
        _ => post.mode == Mode::Search && post.search_query@ == pre.search_query@,
    }
}

/// State change of an accepted key in help mode: the toggle key or
/// escape leaves, everything else is ignored.
pub open spec fn help_state(pre: App, post: App, key: Key) -> bool {
    &&& post.sort_mode == pre.sort_mode
    &&& post.show_games_only == pre.show_games_only
    &&& post.selected == pre.selected
    &&& post.search_query@ == pre.search_query@
    &&& post.mode == (if key == Key::Esc || key == Key::Char(KEY_HELP) {
        Mode::Normal
    } else {
        Mode::Help
    })
}

/// The whole effect of one dispatch step: a rejected event changes
/// nothing; an accepted one stamps the debounce clock and steps the
/// active mode's machine.
pub open spec fn on_event_rel(
    pre: App,
    now_ms: u64,
    key: Key,
    kind: KeyKind,
    post: App,
    act: Action,
) -> bool {
    if !accepts(pre, now_ms, key, kind) {
        post == pre && act == Action::Noop
    } else {
        &&& same_core(pre, post)
        &&& post.last_key_ms == now_ms
        &&& match pre.mode {
            Mode::Normal => normal_state(pre, post, key) && act == normal_action(pre, key),
            Mode::Search => search_state(pre, post, key) && act == Action::Noop,
            Mode::Help => help_state(pre, post, key) && act == Action::Noop,
        }
    }
}

/// The whole effect of one refresh call: within the rate limit nothing
/// changes at all; otherwise the view is rebuilt by the pipeline from
/// the enumeration and the current settings, the cursor is
/// reconciled against the new view, and the refresh clock is stamped.
pub open spec fn refresh_rel(pre: App, now_ms: u64, raw: Seq<RawProcess>, post: App) -> bool {
    if now_ms - pre.last_refresh_ms < pre.refresh_rate_ms {
        post == pre
    } else {
        &&& post.processes@ == view_spec(raw, pre.show_games_only, pre.search_query@, pre.sort_mode)
        &&& post.selected == reconcile_spec(pre.selected, post.processes@.len() as usize)
        &&& post.last_refresh_ms == now_ms
        &&& post.mode == pre.mode
        &&& post.search_query == pre.search_query
        &&& post.sort_mode == pre.sort_mode
        &&& post.show_games_only == pre.show_games_only
        &&& post.refresh_rate_ms == pre.refresh_rate_ms
        &&& post.last_key_ms == pre.last_key_ms
    }
}

impl App {
    /// The cursor is coherent with the view: no selection exactly when
    /// the view is empty, an in-bounds selection otherwise.
    pub open spec fn wf(self) -> bool {
        &&& (self.selected is None <==> self.processes@.len() == 0)
        &&& (self.selected is Some ==> (self.selected->0 as int) < self.processes@.len())
    }

    /// A fresh monitor: normal mode, empty view, no cursor, empty
    /// query, CPU sort, all processes shown, default refresh rate,
    /// both clocks stamped with the present.
    pub fn new(now_ms: u64) -> (app: App)
        ensures
            app.wf(),
            app.mode == Mode::Normal,
            app.processes@.len() == 0,
            app.selected is None,
            app.search_query@.len() == 0,
            app.sort_mode == SortMode::Cpu,
            !app.show_games_only,
            app.refresh_rate_ms == DEFAULT_REFRESH_RATE_MS,
            app.last_refresh_ms == now_ms,
            app.last_key_ms == now_ms,
    {
        App {
            mode: Mode::Normal,
            processes: Vec::new(),
            selected: None,
            search_query: Vec::new(),
            sort_mode: SortMode::Cpu,
            show_games_only: false,
            refresh_rate_ms: DEFAULT_REFRESH_RATE_MS,
            last_refresh_ms: now_ms,
            last_key_ms: now_ms,
        }
    }

    /// Has the rate limit passed, so that a refresh would re-enumerate?
    /// The caller asks this before enumerating the process table, so a
    /// rate-limited tick has no enumeration side effect at all.
    pub fn refresh_due(&self, now_ms: u64) -> (r: bool)
        requires
            now_ms >= self.last_refresh_ms,
        ensures
            r == (now_ms - self.last_refresh_ms >= self.refresh_rate_ms),
    {
        now_ms - self.last_refresh_ms >= self.refresh_rate_ms
    }

    /// One refresh: within the rate limit this is a no-op keeping the
    /// prior view; otherwise the view is rebuilt from `raw` and the
    /// cursor reconciled. The whole effect is `refresh_rel`.
    pub fn refresh_processes(&mut self, now_ms: u64, raw: Vec<RawProcess>)
        requires
            old(self).wf(),
            now_ms >= old(self).last_refresh_ms,
        ensures
            final(self).wf(),
            refresh_rel(*old(self), now_ms, raw@, *final(self)),
    {
        if now_ms - self.last_refresh_ms < self.refresh_rate_ms {
            return ;
        }
        let view = build_view(raw, self.show_games_only, &self.search_query, self.sort_mode);
        let len = view.len();
        self.processes = view;
        self.selected = reconcile(self.selected, len);
        self.last_refresh_ms = now_ms;
    }

    /// Step the cursor one row down, wrapping from the last row to the
    /// first; a no-op on an empty view.
    pub fn next(&mut self)
        requires
            old(self).wf(),
        ensures
            final(self).wf(),
            final(self).selected == next_spec(
                old(self).selected,
                old(self).processes@.len() as usize,
            ),
            old(self).processes@.len() > 0 && old(self).selected == Some(
                (old(self).processes@.len() - 1) as usize,
            ) ==> final(self).selected == Some(0usize),
            final(self).mode == old(self).mode,
            final(self).processes == old(self).processes,
            final(self).search_query == old(self).search_query,
            final(self).sort_mode == old(self).sort_mode,
            final(self).show_games_only == old(self).show_games_only,
            final(self).refresh_rate_ms == old(self).refresh_rate_ms,
            final(self).last_refresh_ms == old(self).last_refresh_ms,
            final(self).last_key_ms == old(self).last_key_ms,
    {
        if self.processes.len() == 0 {
            return ;
        }
        let i: usize = match self.selected {
            Some(i) => if i >= self.processes.len() - 1 {
                0
            } else {
                i + 1
            },
            None => 0,
        };
        self.selected = Some(i);
    }

    /// Step the cursor one row up, wrapping from the first row to the
    /// last; a no-op on an empty view.
    pub fn previous(&mut self)
        requires
            old(self).wf(),
        ensures
            final(self).wf(),
            final(self).selected == previous_spec(
                old(self).selected,
                old(self).processes@.len() as usize,
            ),
            old(self).processes@.len() > 0 && old(self).selected == Some(0usize)
                ==> final(self).selected == Some((old(self).processes@.len() - 1) as usize),
            final(self).mode == old(self).mode,
            final(self).processes == old(self).processes,
            final(self).search_query == old(self).search_query,
            final(self).sort_mode == old(self).sort_mode,
            final(self).show_games_only == old(self).show_games_only,
            final(self).refresh_rate_ms == old(self).refresh_rate_ms,
            final(self).last_refresh_ms == old(self).last_refresh_ms,
            final(self).last_key_ms == old(self).last_key_ms,
    {
        if self.processes.len() == 0 {
            return ;
        }
        let i: usize = match self.selected {
            Some(i) => if i == 0 {
                self.processes.len() - 1
            } else {
                i - 1
            },
            None => 0,
        };
        self.selected = Some(i);
    }

    /// Advance the sort key one step in its fixed cycle.
    pub fn toggle_sort(&mut self)
        requires
            old(self).wf(),
        ensures
            final(self).wf(),
            final(self).sort_mode == cycle_spec(old(self).sort_mode),
            final(self).mode == old(self).mode,
            final(self).processes == old(self).processes,
            final(self).selected == old(self).selected,
            final(self).search_query == old(self).search_query,
            final(self).show_games_only == old(self).show_games_only,
            final(self).refresh_rate_ms == old(self).refresh_rate_ms,
            final(self).last_refresh_ms == old(self).last_refresh_ms,
            final(self).last_key_ms == old(self).last_key_ms,
    {
        self.sort_mode = match self.sort_mode {
            SortMode::Name => SortMode::Cpu,
            SortMode::Cpu => SortMode::Memory,
            SortMode::Memory => SortMode::Name,
        };
    }

    /// What the kill key asks for right now.
    fn kill_target(&self) -> (act: Action)
        ensures
            act == kill_action(*self),
    {
        match self.selected {
            Some(i) => {
                if i < self.processes.len() {
                    Action::Kill(self.processes[i].pid)
                } else {
                    Action::Noop
                }
            },
            None => Action::Noop,
        }
    }

    /// One step of the interaction loop for one key event. Non-press
    /// events are discarded outright; non-navigation presses within
    /// the debounce window are dropped; an accepted press is
    /// dispatched by the active mode. The returned action is what the
    /// caller must carry out. The whole effect is `on_event_rel`.
    pub fn on_event(&mut self, now_ms: u64, key: Key, kind: KeyKind) -> (act: Action)
        requires
            old(self).wf(),
            now_ms >= old(self).last_key_ms,
        ensures
            final(self).wf(),
            on_event_rel(*old(self), now_ms, key, kind, *final(self), act),
    {
        let is_press = matches!(kind, KeyKind::Press);
        if !is_press {
            return Action::Noop;
        }
        let nav = matches!(key, Key::Up | Key::Down) || key == Key::Char(KEY_NAV_DOWN) || key == Key::Char(
            KEY_NAV_UP,
        );
        if !nav && now_ms - self.last_key_ms < DEBOUNCE_MS {
            return Action::Noop;
        }
        self.last_key_ms = now_ms;
        match self.mode {
            Mode::Normal => {
                match key {
                    Key::Char(c) => {
                        if c == KEY_QUIT {
                            Action::Quit
                        } else if c == KEY_HELP {
                            self.mode = Mode::Help;
                            Action::Noop
                        } else if c == KEY_SEARCH {
                            self.mode = Mode::Search;
                            self.search_query.clear();
                            Action::Noop
                        } else if c == KEY_NAV_DOWN {
                            self.next();
                            Action::Noop
                        } else if c == KEY_NAV_UP {
                            self.previous();
                            Action::Noop
                        } else if c == KEY_KILL {
                            self.kill_target()
                        } else if c == KEY_FILTER_TOGGLE {
                            self.show_games_only = !self.show_games_only;
                            Action::Noop
                        } else if c == KEY_SORT_CYCLE {
                            self.toggle_sort();
                            Action::Noop
                        } else {
                            Action::Noop
                        }
                    },
                    Key::Down => {
                        self.next();
                        Action::Noop
                    },
                    Key::Up => {
                        self.previous();
                        Action::Noop
                    },
                    _ => Action::Noop,
                }
            },
            Mode::Search => {
                match key {
                    Key::Esc => {
                        self.mode = Mode::Normal;
                        self.search_query.clear();
                        Action::Noop
                    },
                    Key::Enter => {
                        self.mode = Mode::Normal;
                        Action::Noop
                    },
                    Key::Char(c) => {
                        self.search_query.push(c);
                        Action::Noop
                    },
                    Key::Backspace => {
                        let _popped = self.search_query.pop();
                        Action::Noop
                    },
                    _ => Action::Noop,
                }
            },
            Mode::Help => {
                if key == Key::Esc || key == Key::Char(KEY_HELP) {
                    self.mode = Mode::Normal;
                }
                Action::Noop
            },
        }
    }
}

/// Rate limiting: when a second refresh follows a first one within the
/// refresh interval, it is a no-op — the state, and with it the view,
/// is identical after both calls. The one case left out is a first
/// call that was itself rate limited while the second falls beyond the
/// original window; there the second call refreshes, as the interval
/// since the last successful refresh has passed.
pub proof fn lemma_rate_limited(
    pre: App,
    t1: u64,
    raw1: Seq<RawProcess>,
    mid: App,
    t2: u64,
    raw2: Seq<RawProcess>,
    post: App,
)
    requires
        t1 >= pre.last_refresh_ms,
        t2 >= t1,
        refresh_rel(pre, t1, raw1, mid),
        refresh_rel(mid, t2, raw2, post),
        t2 - t1 < pre.refresh_rate_ms,
        t1 - pre.last_refresh_ms >= pre.refresh_rate_ms || t2 - pre.last_refresh_ms
            < pre.refresh_rate_ms,
    ensures
        post == mid,
        post.processes@ == mid.processes@,
{
}

} // verus!
