use ferro_core::db::messages::Folder;
use ferro_core::tui::app::{Pane, Screen, SidebarSelection};
use ferro_core::tui::keymap::{handle_key, Key, KeyAction, KeyPress, SnoozePreset, UiState};

fn state() -> UiState {
    UiState {
        search_mode: false,
        awaiting_snooze_choice: false,
        show_help: false,
        should_quit: false,
        screen: Screen::Messages,
        focus: Pane::List,
        sidebar_cursor: 0,
    }
}

fn key(k: Key) -> KeyPress {
    KeyPress { key: k, ctrl: false }
}

#[test]
fn search_mode_takes_every_key_but_enter_and_esc() {
    let mut s = UiState { search_mode: true, ..state() };
    assert_eq!(handle_key(&mut s, key(Key::Char('q')), &[], None), KeyAction::EditSearch);
    assert!(!s.should_quit);
    assert_eq!(handle_key(&mut s, key(Key::Enter), &[], None), KeyAction::RunSearch);
    assert_eq!(handle_key(&mut s, key(Key::Esc), &[], None), KeyAction::CancelSearch);
    assert!(!s.search_mode);
}

#[test]
fn snooze_choice_follows_z() {
    let mut s = state();
    assert_eq!(handle_key(&mut s, key(Key::Char('z')), &[], Some((1, false))), KeyAction::Nothing);
    assert!(s.awaiting_snooze_choice);
    assert_eq!(
        handle_key(&mut s, key(Key::Char('3')), &[], None),
        KeyAction::Snooze(SnoozePreset::ThreeDays)
    );
    assert!(!s.awaiting_snooze_choice);
    assert_eq!(SnoozePreset::OneWeek.code(), "1w");
    // Any other key cancels the choice.
    s.awaiting_snooze_choice = true;
    assert_eq!(handle_key(&mut s, key(Key::Char('x')), &[], None), KeyAction::Nothing);
    assert!(!s.awaiting_snooze_choice);
}

#[test]
fn help_closes_on_any_key_and_q_quits() {
    let mut s = state();
    handle_key(&mut s, key(Key::Char('?')), &[], None);
    assert!(s.show_help);
    handle_key(&mut s, key(Key::Char('q')), &[], None);
    assert!(!s.show_help);
    assert!(!s.should_quit);
    handle_key(&mut s, key(Key::Char('q')), &[], None);
    assert!(s.should_quit);
}

#[test]
fn comma_switches_screens_and_settings_keys_act() {
    let mut s = state();
    handle_key(&mut s, key(Key::Char(',')), &[], None);
    assert_eq!(s.screen, Screen::Settings);
    assert_eq!(handle_key(&mut s, key(Key::Char('R')), &[], None), KeyAction::Reindex);
    assert_eq!(handle_key(&mut s, key(Key::Char('P')), &[], None), KeyAction::Purge);
    handle_key(&mut s, key(Key::Esc), &[], None);
    assert_eq!(s.screen, Screen::Messages);
}

#[test]
fn tab_cycles_panes_both_ways() {
    let mut s = state();
    handle_key(&mut s, key(Key::Tab), &[], None);
    assert_eq!(s.focus, Pane::Detail);
    handle_key(&mut s, key(Key::Tab), &[], None);
    assert_eq!(s.focus, Pane::Sidebar);
    handle_key(&mut s, key(Key::BackTab), &[], None);
    assert_eq!(s.focus, Pane::Detail);
}

#[test]
fn sidebar_moves_within_folders_and_labels_and_selects() {
    let mut s = UiState { focus: Pane::Sidebar, ..state() };
    let labels = [42i64, 43];
    handle_key(&mut s, key(Key::Up), &labels, None);
    assert_eq!(s.sidebar_cursor, 0);
    for _ in 0..10 {
        handle_key(&mut s, key(Key::Char('j')), &labels, None);
    }
    assert_eq!(s.sidebar_cursor, 6);
    assert_eq!(
        handle_key(&mut s, key(Key::Enter), &labels, None),
        KeyAction::Select(SidebarSelection::Label(43))
    );
    assert_eq!(s.focus, Pane::List);
    let mut s = UiState { focus: Pane::Sidebar, sidebar_cursor: 1, ..state() };
    assert_eq!(
        handle_key(&mut s, key(Key::Enter), &labels, None),
        KeyAction::Select(SidebarSelection::Folder(Folder::Starred))
    );
}

#[test]
fn list_keys_act_on_the_selected_message() {
    let mut s = state();
    assert_eq!(handle_key(&mut s, key(Key::Char('j')), &[], None), KeyAction::MoveCursor(1));
    assert_eq!(handle_key(&mut s, key(Key::Up), &[], None), KeyAction::MoveCursor(-1));
    assert_eq!(handle_key(&mut s, key(Key::Char('r')), &[], Some((9, false))), KeyAction::SetRead(9, true));
    assert_eq!(handle_key(&mut s, key(Key::Char('r')), &[], None), KeyAction::Nothing);
    assert_eq!(handle_key(&mut s, key(Key::Char('s')), &[], None), KeyAction::ToggleFlagged);
    assert_eq!(handle_key(&mut s, key(Key::Char('a')), &[], None), KeyAction::ToggleArchived);
    assert_eq!(handle_key(&mut s, key(Key::Char('d')), &[], None), KeyAction::ToggleDeleted);
    assert_eq!(handle_key(&mut s, key(Key::Char('/')), &[], None), KeyAction::StartSearch);
    assert!(s.search_mode);
    let mut s = state();
    assert_eq!(handle_key(&mut s, key(Key::Char('S')), &[], None), KeyAction::SyncNow);
    handle_key(&mut s, KeyPress { key: Key::Char('c'), ctrl: true }, &[], None);
    assert!(s.should_quit);
}
