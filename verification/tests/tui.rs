use ferro_core::db::messages::Folder;
use ferro_core::tui::app::{move_list_cursor, sidebar_selection_at, snooze_until, SidebarSelection};
use ferro_core::tui::ui::{cursor_row_for_sidebar, format_date};

#[test]
fn list_cursor_stays_within_the_rows_and_prefetches_near_the_end() {
    assert_eq!(move_list_cursor(0, 0, 1, false), None);
    assert_eq!(move_list_cursor(0, 100, -1, false), Some((0, false)));
    assert_eq!(move_list_cursor(99, 100, 1, false), Some((99, true)));
    assert_eq!(move_list_cursor(79, 100, 1, false), Some((80, true)));
    assert_eq!(move_list_cursor(78, 100, 1, false), Some((79, false)));
    assert_eq!(move_list_cursor(99, 100, 1, true), Some((99, false)));
}

#[test]
fn sidebar_entries_are_folders_then_labels() {
    assert_eq!(sidebar_selection_at(0, &[7]), Some(SidebarSelection::Folder(Folder::Inbox)));
    assert_eq!(sidebar_selection_at(4, &[7]), Some(SidebarSelection::Folder(Folder::Trash)));
    assert_eq!(sidebar_selection_at(5, &[7]), Some(SidebarSelection::Label(7)));
    assert_eq!(sidebar_selection_at(6, &[7]), None);
    assert_eq!(cursor_row_for_sidebar(4), 4);
    assert_eq!(cursor_row_for_sidebar(5), 6);
}

#[test]
fn snooze_presets_count_from_now() {
    assert_eq!(snooze_until("1d", 1000), Some(1000 + 86400));
    assert_eq!(snooze_until("3d", 0), Some(3 * 86400));
    assert_eq!(snooze_until("1w", 0), Some(7 * 86400));
    assert_eq!(snooze_until("2d", 0), None);
}

#[test]
fn list_dates_are_utc_to_the_minute() {
    assert_eq!(format_date(0), "1970-01-01 00:00");
    assert_eq!(format_date(1_700_000_000), "2023-11-14 22:13");
    assert_eq!(format_date(-5), "1970-01-01 00:00");
    assert_eq!(format_date(951_782_400), "2000-02-29 00:00");
}
