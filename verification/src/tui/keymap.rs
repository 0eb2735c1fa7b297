//! Key dispatch: which key does what depends on the screen, the focused pane,
//! and whether a search, a snooze choice or the help is open. The caller reads
//! the key, applies the returned action (database, search, threads) and draws.

use vstd::prelude::*;

use crate::tui::app::{spec_snooze_until, spec_sidebar_selection_at, sidebar_selection_at, FOLDER_COUNT, Pane, Screen, SidebarSelection};

verus! {

/// A key as the interface sees it.
#[derive(Debug, Clone, Copy, PartialEq, Eq, Structural)]
pub enum Key {
    Char(char),
    Enter,
    Esc,
    Tab,
    BackTab,
    Up,
    Down,
    Other,
}

/// A key press: the key and whether Control was held.
#[derive(Debug, Clone, Copy, PartialEq, Eq, Structural)]
pub struct KeyPress {
    pub key: Key,
    pub ctrl: bool,
}

/// The part of the interface's state that keys read and change.
#[derive(Debug, Clone, Copy, PartialEq, Eq, Structural)]
pub struct UiState {
    /// Keys go to the search box.
    pub search_mode: bool,
    /// `z` was pressed: the next key picks the snooze length.
    pub awaiting_snooze_choice: bool,
    pub show_help: bool,
    pub should_quit: bool,
    pub screen: Screen,
    pub focus: Pane,
    pub sidebar_cursor: usize,
}

/// The snooze lengths offered after `z`.
#[derive(Debug, Clone, Copy, PartialEq, Eq, Structural)]
pub enum SnoozePreset {
    OneDay,
    ThreeDays,
    OneWeek,
}

/// A preset's name, as `snooze_until` reads it.
pub open spec fn spec_preset_code(p: SnoozePreset) -> Seq<char> {
    match p {
        SnoozePreset::OneDay => "1d"@,
        SnoozePreset::ThreeDays => "3d"@,
        SnoozePreset::OneWeek => "1w"@,
    }
}

impl SnoozePreset {
    /// The preset's name, as `snooze_until` reads it.
    pub fn code(self) -> (code: &'static str)
        ensures
            code@ == spec_preset_code(self),
            self == SnoozePreset::OneDay ==> code@ == "1d"@,
            self == SnoozePreset::ThreeDays ==> code@ == "3d"@,
            self == SnoozePreset::OneWeek ==> code@ == "1w"@,
    {
        match self {
            SnoozePreset::OneDay => "1d",
            SnoozePreset::ThreeDays => "3d",
            SnoozePreset::OneWeek => "1w",
        }
    }
}

/// What the caller does for a key, besides the state change.
#[derive(Debug, Clone, Copy, PartialEq, Eq, Structural)]
pub enum KeyAction {
    Nothing,
    /// Run the search typed so far.
    RunSearch,
    /// Leave the search and its results.
    CancelSearch,
    /// Hand the key to the search box, then run the search.
    EditSearch,
    /// Snooze the selected message.
    Snooze(SnoozePreset),
    /// Rebuild the search index.
    Reindex,
    /// Delete the messages past the retention period now.
    Purge,
    /// Open the search box.
    StartSearch,
    /// Synchronise all accounts now.
    SyncNow,
    /// Show this folder or label (the focus moves to the list).
    Select(SidebarSelection),
    /// Move the list cursor by this many rows.
    MoveCursor(i64),
    /// Mark the message with this id read or unread.
    SetRead(i64, bool),
    ToggleFlagged,
    ToggleArchived,
    ToggleDeleted,
}

/// The sidebar's entries: the folders, then the labels.
pub open spec fn spec_sidebar_len(label_count: int) -> int {
    FOLDER_COUNT + label_count
}

/// The sidebar keys: up and down within the entries, Enter selects.
pub open spec fn spec_sidebar_key(s: UiState, key: Key, label_ids: Seq<i64>) -> (UiState, KeyAction) {
    match key {
        Key::Up | Key::Char('k') => if s.sidebar_cursor > 0 {
            (UiState { sidebar_cursor: (s.sidebar_cursor - 1) as usize, ..s }, KeyAction::Nothing)
        } else {
            (s, KeyAction::Nothing)
        },
        Key::Down | Key::Char('j') => if s.sidebar_cursor + 1 < spec_sidebar_len(label_ids.len() as int) {
            (UiState { sidebar_cursor: (s.sidebar_cursor + 1) as usize, ..s }, KeyAction::Nothing)
        } else {
            (s, KeyAction::Nothing)
        },
        Key::Enter => match spec_sidebar_selection_at(s.sidebar_cursor as int, label_ids) {
            Some(sel) => (UiState { focus: Pane::List, ..s }, KeyAction::Select(sel)),
            None => (s, KeyAction::Nothing),
        },
        _ => (s, KeyAction::Nothing),
    }
}

/// The list and detail keys: moving, read/flag/archive/delete, `z` to snooze,
/// and Control-C to quit.
pub open spec fn spec_list_key(s: UiState, k: KeyPress, selected: Option<(i64, bool)>) -> (UiState, KeyAction) {
    let (s1, action) = match k.key {
        Key::Up | Key::Char('k') => (s, KeyAction::MoveCursor(-1i64)),
        Key::Down | Key::Char('j') => (s, KeyAction::MoveCursor(1i64)),
        Key::Char('r') => match selected {
            Some((id, is_read)) => (s, KeyAction::SetRead(id, !is_read)),
            None => (s, KeyAction::Nothing),
        },
        Key::Char('s') => (s, KeyAction::ToggleFlagged),
        Key::Char('a') => (s, KeyAction::ToggleArchived),
        Key::Char('d') => (s, KeyAction::ToggleDeleted),
        Key::Char('z') => (UiState { awaiting_snooze_choice: true, ..s }, KeyAction::Nothing),
        _ => (s, KeyAction::Nothing),
    };
    if k.key == Key::Char('c') && k.ctrl {
        (UiState { should_quit: true, ..s1 }, action)
    } else {
        (s1, action)
    }
}

/// The keys of the messages screen: `/` searches, `S` syncs, Tab and
/// Shift-Tab cycle the panes; the rest go to the focused pane.
pub open spec fn spec_messages_key(
    s: UiState,
    k: KeyPress,
    label_ids: Seq<i64>,
    selected: Option<(i64, bool)>,
) -> (UiState, KeyAction) {
    match k.key {
        Key::Char('/') => (UiState { search_mode: true, focus: Pane::List, ..s }, KeyAction::StartSearch),
        Key::Char('S') => (s, KeyAction::SyncNow),
        Key::Tab => (
            UiState {
                focus: match s.focus {
                    Pane::Sidebar => Pane::List,
                    Pane::List => Pane::Detail,
                    Pane::Detail => Pane::Sidebar,
                },
                ..s
            },
            KeyAction::Nothing,
        ),
        Key::BackTab => (
            UiState {
                focus: match s.focus {
                    Pane::Sidebar => Pane::Detail,
                    Pane::List => Pane::Sidebar,
                    Pane::Detail => Pane::List,
                },
                ..s
            },
            KeyAction::Nothing,
        ),
        _ => match s.focus {
            Pane::Sidebar => spec_sidebar_key(s, k.key, label_ids),
            _ => spec_list_key(s, k, selected),
        },
    }
}

/// What a key does, in order of precedence: while searching every key but
/// Enter and Esc is text; after `z` the key picks 1, 3 or 7 days (any other
/// key cancels); an open help closes on any key; then `q` quits, `?` opens
/// the help and `,` switches between the messages and the settings; on the
/// settings screen Esc goes back, `R` rebuilds the index and `P` purges.
pub open spec fn spec_handle_key(
    s: UiState,
    k: KeyPress,
    label_ids: Seq<i64>,
    selected: Option<(i64, bool)>,
) -> (UiState, KeyAction) {
    if s.search_mode {
        match k.key {
            Key::Enter => (s, KeyAction::RunSearch),
            Key::Esc => (UiState { search_mode: false, ..s }, KeyAction::CancelSearch),
            _ => (s, KeyAction::EditSearch),
        }
    } else if s.awaiting_snooze_choice {
        let s1 = UiState { awaiting_snooze_choice: false, ..s };
        match k.key {
            Key::Char('1') => (s1, KeyAction::Snooze(SnoozePreset::OneDay)),
            Key::Char('3') => (s1, KeyAction::Snooze(SnoozePreset::ThreeDays)),
            Key::Char('7') => (s1, KeyAction::Snooze(SnoozePreset::OneWeek)),
            _ => (s1, KeyAction::Nothing),
        }
    } else if s.show_help {
        (UiState { show_help: false, ..s }, KeyAction::Nothing)
    } else if k.key == Key::Char('q') {
        (UiState { should_quit: true, ..s }, KeyAction::Nothing)
    } else if k.key == Key::Char('?') {
        (UiState { show_help: true, ..s }, KeyAction::Nothing)
    } else if k.key == Key::Char(',') {
        (
            UiState {
                screen: match s.screen {
                    Screen::Messages => Screen::Settings,
                    Screen::Settings => Screen::Messages,
                },
                ..s
            },
            KeyAction::Nothing,
        )
    } else {
        match s.screen {
            Screen::Settings => match k.key {
                Key::Esc => (UiState { screen: Screen::Messages, ..s }, KeyAction::Nothing),
                Key::Char('R') => (s, KeyAction::Reindex),
                Key::Char('P') => (s, KeyAction::Purge),
                _ => (s, KeyAction::Nothing),
            },
            Screen::Messages => spec_messages_key(s, k, label_ids, selected),
        }
    }
}

fn sidebar_key(state: &mut UiState, key: Key, label_ids: &[i64]) -> (action: KeyAction)
    requires
        old(state).sidebar_cursor < usize::MAX,
    ensures
        (*final(state), action) == spec_sidebar_key(*old(state), key, label_ids@),
{
    match key {
        Key::Up | Key::Char('k') => {
            if state.sidebar_cursor > 0 {
                state.sidebar_cursor = state.sidebar_cursor - 1;
            }
            KeyAction::Nothing
        },
        Key::Down | Key::Char('j') => {
            if state.sidebar_cursor < FOLDER_COUNT - 1 || state.sidebar_cursor - (FOLDER_COUNT - 1) < label_ids.len() {
                state.sidebar_cursor = state.sidebar_cursor + 1;
            }
            KeyAction::Nothing
        },
        Key::Enter => {
            match sidebar_selection_at(state.sidebar_cursor, label_ids) {
                Some(sel) => {
                    state.focus = Pane::List;
                    KeyAction::Select(sel)
                },
                None => KeyAction::Nothing,
            }
        },
        _ => KeyAction::Nothing,
    }
}

fn list_key(state: &mut UiState, k: KeyPress, selected: Option<(i64, bool)>) -> (action: KeyAction)
    ensures
        (*final(state), action) == spec_list_key(*old(state), k, selected),
{
    let action = match k.key {
        Key::Up | Key::Char('k') => KeyAction::MoveCursor(-1),
        Key::Down | Key::Char('j') => KeyAction::MoveCursor(1),
        Key::Char('r') => match selected {
            Some((id, is_read)) => KeyAction::SetRead(id, !is_read),
            None => KeyAction::Nothing,
        },
        Key::Char('s') => KeyAction::ToggleFlagged,
        Key::Char('a') => KeyAction::ToggleArchived,
        Key::Char('d') => KeyAction::ToggleDeleted,
        Key::Char('z') => {
            state.awaiting_snooze_choice = true;
            KeyAction::Nothing
        },
        _ => KeyAction::Nothing,
    };
    if k.key == Key::Char('c') && k.ctrl {
        state.should_quit = true;
    }
    action
}

fn messages_key(state: &mut UiState, k: KeyPress, label_ids: &[i64], selected: Option<(i64, bool)>) -> (action: KeyAction)
    requires
        old(state).sidebar_cursor < usize::MAX,
    ensures
        (*final(state), action) == spec_messages_key(*old(state), k, label_ids@, selected),
{
    match k.key {
        Key::Char('/') => {
            state.search_mode = true;
            state.focus = Pane::List;
            KeyAction::StartSearch
        },
        Key::Char('S') => KeyAction::SyncNow,
        Key::Tab => {
            state.focus = match state.focus {
                Pane::Sidebar => Pane::List,
                Pane::List => Pane::Detail,
                Pane::Detail => Pane::Sidebar,
            };
            KeyAction::Nothing
        },
        Key::BackTab => {
            state.focus = match state.focus {
                Pane::Sidebar => Pane::Detail,
                Pane::List => Pane::Sidebar,
                Pane::Detail => Pane::List,
            };
            KeyAction::Nothing
        },
        _ => match state.focus {
            Pane::Sidebar => sidebar_key(state, k.key, label_ids),
            _ => list_key(state, k, selected),
        },
    }
}

/// Applies a key press to the interface state and says what the caller must
/// do (see `spec_handle_key`). `label_ids` are the sidebar's labels in order;
/// `selected` is the message under the list cursor, by id and read flag.
pub fn handle_key(state: &mut UiState, key: KeyPress, label_ids: &[i64], selected: Option<(i64, bool)>) -> (action: KeyAction)
    requires
        old(state).sidebar_cursor < usize::MAX,
    ensures
        (*final(state), action) == spec_handle_key(*old(state), key, label_ids@, selected),
{
    if state.search_mode {
        return match key.key {
            Key::Enter => KeyAction::RunSearch,
            Key::Esc => {
                state.search_mode = false;
                KeyAction::CancelSearch
            },
            _ => KeyAction::EditSearch,
        };
    }
    if state.awaiting_snooze_choice {
        state.awaiting_snooze_choice = false;
        return match key.key {
            Key::Char('1') => KeyAction::Snooze(SnoozePreset::OneDay),
            Key::Char('3') => KeyAction::Snooze(SnoozePreset::ThreeDays),
            Key::Char('7') => KeyAction::Snooze(SnoozePreset::OneWeek),
            _ => KeyAction::Nothing,
        };
    }
    if state.show_help {
        state.show_help = false;
        return KeyAction::Nothing;
    }
    if key.key == Key::Char('q') {
        state.should_quit = true;
        return KeyAction::Nothing;
    }
    if key.key == Key::Char('?') {
        state.show_help = true;
        return KeyAction::Nothing;
    }
    if key.key == Key::Char(',') {
        state.screen = match state.screen {
            Screen::Messages => Screen::Settings,
            Screen::Settings => Screen::Messages,
        };
        return KeyAction::Nothing;
    }
    match state.screen {
        Screen::Settings => match key.key {
            Key::Esc => {
                state.screen = Screen::Messages;
                KeyAction::Nothing
            },
            Key::Char('R') => KeyAction::Reindex,
            Key::Char('P') => KeyAction::Purge,
            _ => KeyAction::Nothing,
        },
        Screen::Messages => messages_key(state, key, label_ids, selected),
    }
}

/// The help stays shut after any key it was open for, and `q` quits from any
/// screen unless a search or a snooze choice takes the key.
pub proof fn lemma_quit_and_help_keys(s: UiState, k: KeyPress, label_ids: Seq<i64>, selected: Option<(i64, bool)>)
    ensures
        s.show_help && !s.search_mode && !s.awaiting_snooze_choice ==> !spec_handle_key(s, k, label_ids, selected).0.show_help
            && spec_handle_key(s, k, label_ids, selected).1 == KeyAction::Nothing,
        !s.search_mode && !s.awaiting_snooze_choice && !s.show_help && k.key == Key::Char('q')
            ==> spec_handle_key(s, k, label_ids, selected).0.should_quit,
        s.search_mode && k.key != Key::Enter && k.key != Key::Esc ==> spec_handle_key(s, k, label_ids, selected)
            == (s, KeyAction::EditSearch),
{
}

/// Tab and Shift-Tab undo each other on the messages screen, and the
/// sidebar cursor stays on an entry: moving it keeps it below the number of
/// entries.
pub proof fn lemma_pane_cycle_and_sidebar_bounds(s: UiState, label_ids: Seq<i64>, selected: Option<(i64, bool)>)
    requires
        s.screen == Screen::Messages,
        !s.search_mode,
        !s.awaiting_snooze_choice,
        !s.show_help,
    ensures
        ({
            let tab = KeyPress { key: Key::Tab, ctrl: false };
            let back = KeyPress { key: Key::BackTab, ctrl: false };
            let s1 = spec_handle_key(s, tab, label_ids, selected).0;
            spec_handle_key(s1, back, label_ids, selected).0 == s
        }),
        s.focus == Pane::Sidebar && s.sidebar_cursor < spec_sidebar_len(label_ids.len() as int) ==> ({
            let up = spec_handle_key(s, KeyPress { key: Key::Up, ctrl: false }, label_ids, selected).0;
            let down = spec_handle_key(s, KeyPress { key: Key::Down, ctrl: false }, label_ids, selected).0;
            up.sidebar_cursor < spec_sidebar_len(label_ids.len() as int)
                && down.sidebar_cursor < spec_sidebar_len(label_ids.len() as int)
        }),
{
}

/// After `z`, a digit key snoozes the selected message for that many days:
/// `1`, `3` and `7` pick a preset whose deadline is 1, 3 and 7 days (a week)
/// after `now`, whatever the rest of the state, and the choice is over.
pub proof fn lemma_snooze_digit_gives_that_many_days(
    s: UiState,
    d: char,
    ctrl: bool,
    label_ids: Seq<i64>,
    selected: Option<(i64, bool)>,
    now: int,
)
    requires
        !s.search_mode,
        s.awaiting_snooze_choice,
        d == '1' || d == '3' || d == '7',
        i64::MIN <= now,
        now + 7 * 24 * 60 * 60 <= i64::MAX,
    ensures
        ({
            let (s2, action) = spec_handle_key(s, KeyPress { key: Key::Char(d), ctrl }, label_ids, selected);
            &&& !s2.awaiting_snooze_choice
            &&& match action {
                KeyAction::Snooze(p) => spec_snooze_until(spec_preset_code(p), now) == Some(
                    (now + (d as int - '0' as int) * 24 * 60 * 60) as i64,
                ),
                _ => false,
            }
        }),
{
    reveal_strlit("1d");
    reveal_strlit("3d");
    reveal_strlit("1w");
    assert("3d"@[0] != "1d"@[0]);
    assert("1w"@[0] != "3d"@[0]);
    assert("1w"@[1] != "1d"@[1]);
    if d == '1' {
        assert(d as int - '0' as int == 1);
    } else if d == '3' {
        assert(d as int - '0' as int == 3);
    } else {
        assert(d as int - '0' as int == 7);
    }
}

} // verus!
