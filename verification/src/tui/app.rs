//! Application state types of the terminal user interface.

use vstd::prelude::*;

use crate::db::labels::Label;
use crate::db::messages::{Folder, Message};
use crate::mail::attachments::AttachmentInfo;
use crate::text::str_eq;

verus! {

/// What the sidebar selects: a folder or a label, never both.
#[derive(Debug, Clone, Copy, PartialEq, Eq, Structural)]
pub enum SidebarSelection {
    Folder(Folder),
    Label(i64),
}

#[derive(Debug, Clone, Copy, PartialEq, Eq, Structural)]
pub enum Pane {
    Sidebar,
    List,
    Detail,
}

#[derive(Debug, Clone, Copy, PartialEq, Eq, Structural)]
pub enum Screen {
    Messages,
    Settings,
}

/// The message shown in the detail pane.
#[derive(Debug, Clone)]
pub struct MessageDetail {
    pub message: Message,
    pub body: Option<String>,
    pub attachments: Vec<AttachmentInfo>,
    pub labels: Vec<Label>,
}

/// How many folders the sidebar lists before the labels.
pub const FOLDER_COUNT: usize = 5;

/// How close to the end of the loaded rows the cursor may come before the
/// next page is loaded.
pub const PREFETCH_ROWS: usize = 20;

/// How many rows a page of the message list holds.
pub const PAGE_SIZE: u32 = 200;

/// The folders in the order the sidebar lists them.
pub open spec fn spec_folder_at(index: int) -> Option<Folder> {
    if index == 0 {
        Some(Folder::Inbox)
    } else if index == 1 {
        Some(Folder::Starred)
    } else if index == 2 {
        Some(Folder::Snoozed)
    } else if index == 3 {
        Some(Folder::Archive)
    } else if index == 4 {
        Some(Folder::Trash)
    } else {
        None
    }
}

/// The folder at a row of the sidebar's folder part.
pub fn folder_at(index: usize) -> (f: Option<Folder>)
    ensures
        f == spec_folder_at(index as int),
{
    if index == 0 {
        Some(Folder::Inbox)
    } else if index == 1 {
        Some(Folder::Starred)
    } else if index == 2 {
        Some(Folder::Snoozed)
    } else if index == 3 {
        Some(Folder::Archive)
    } else if index == 4 {
        Some(Folder::Trash)
    } else {
        None
    }
}

/// What the sidebar entry at `index` selects: the folders first, then the
/// labels (given by id, in the sidebar's order); `None` past the end.
pub open spec fn spec_sidebar_selection_at(index: int, label_ids: Seq<i64>) -> Option<SidebarSelection> {
    if index < FOLDER_COUNT {
        match spec_folder_at(index) {
            Some(f) => Some(SidebarSelection::Folder(f)),
            None => None,
        }
    } else if index - FOLDER_COUNT < label_ids.len() {
        Some(SidebarSelection::Label(label_ids[index - FOLDER_COUNT]))
    } else {
        None
    }
}

/// The selection of the sidebar entry at `index` (see
/// `spec_sidebar_selection_at`).
pub fn sidebar_selection_at(index: usize, label_ids: &[i64]) -> (sel: Option<SidebarSelection>)
    ensures
        sel == spec_sidebar_selection_at(index as int, label_ids@),
{
    if index < FOLDER_COUNT {
        match folder_at(index) {
            Some(f) => Some(SidebarSelection::Folder(f)),
            None => None,
        }
    } else if index - FOLDER_COUNT < label_ids.len() {
        Some(SidebarSelection::Label(label_ids[index - FOLDER_COUNT]))
    } else {
        None
    }
}

/// Where the list cursor goes when moved by `delta` over `len` rows, kept
/// within the rows, and whether the next page is to be loaded (not while
/// search results are shown, and only near the end of the loaded rows).
pub open spec fn spec_move_list_cursor(cursor: int, len: int, delta: int, searching: bool) -> Option<(usize, bool)> {
    if len == 0 {
        None
    } else {
        let moved = cursor + delta;
        let c = if moved < 0 { 0 } else if moved > len - 1 { len - 1 } else { moved };
        Some((c as usize, !searching && len - c <= PREFETCH_ROWS))
    }
}

/// Moves the list cursor by `delta` over the `len` rows shown (see
/// `spec_move_list_cursor`); `None` when there are no rows, and nothing moves.
pub fn move_list_cursor(cursor: usize, len: usize, delta: i64, searching: bool) -> (r: Option<(usize, bool)>)
    requires
        cursor <= i64::MAX,
        i64::MIN <= cursor + delta <= i64::MAX,
        len <= i64::MAX,
    ensures
        r == spec_move_list_cursor(cursor as int, len as int, delta as int, searching),
{
    if len == 0 {
        return None;
    }
    let moved: i64 = cursor as i64 + delta;
    let last: i64 = len as i64 - 1;
    let c: i64 = if moved < 0 { 0 } else if moved > last { last } else { moved };
    let new_cursor: usize = c as usize;
    let prefetch = !searching && len - new_cursor <= PREFETCH_ROWS;
    Some((new_cursor, prefetch))
}

/// The snooze deadline for a preset: `1d`, `3d` or `1w` from `now`; any other
/// text clears the snooze.
pub open spec fn spec_snooze_until(preset: Seq<char>, now: int) -> Option<i64> {
    if preset == "1d"@ {
        Some((now + 24 * 60 * 60) as i64)
    } else if preset == "3d"@ {
        Some((now + 3 * 24 * 60 * 60) as i64)
    } else if preset == "1w"@ {
        Some((now + 7 * 24 * 60 * 60) as i64)
    } else {
        None
    }
}

/// The snooze deadline of a preset (see `spec_snooze_until`).
pub fn snooze_until(preset: &str, now: i64) -> (until: Option<i64>)
    requires
        now + 7 * 24 * 60 * 60 <= i64::MAX,
    ensures
        until == spec_snooze_until(preset@, now as int),
{
    if str_eq(preset, "1d") {
        Some(now + 24 * 60 * 60)
    } else if str_eq(preset, "3d") {
        Some(now + 3 * 24 * 60 * 60)
    } else if str_eq(preset, "1w") {
        Some(now + 7 * 24 * 60 * 60)
    } else {
        None
    }
}

} // verus!
