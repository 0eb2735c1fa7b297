//! What the drawing code computes before it draws: dates in the list and the
//! sidebar row under the cursor.

use vstd::prelude::*;

use crate::logging::{
    civil_from_days, days_from_civil, is_civil_date, push_date, spec_clamped_seconds,
    spec_date_text, spec_padded,
};
use crate::text::{join, push_char, push_decimal_padded, spec_join, spec_views};
use crate::tui::app::FOLDER_COUNT;

verus! {

/// `unix_seconds` (negative ones as the epoch) as UTC `YYYY-MM-DD HH:MM`, for
/// the date `y`-`m`-`d` of its day.
pub open spec fn spec_list_date(unix_seconds: i64, y: int, m: int, d: int) -> Seq<char> {
    let sod = spec_clamped_seconds(unix_seconds) % 86400;
    spec_date_text(y, m, d) + seq![' '] + spec_padded(sod / 3600, 2) + seq![':'] + spec_padded(
        (sod % 3600) / 60,
        2,
    )
}

/// Formats a time stamp for the message list as UTC `YYYY-MM-DD HH:MM`: the
/// date is the calendar date `seconds / 86400` days after 1970-01-01.
pub fn format_date(unix_seconds: i64) -> (text: String)
    ensures
        exists|y: int, m: int, d: int|
            is_civil_date(y, m, d) && days_from_civil(y, m, d) == spec_clamped_seconds(unix_seconds)
                / 86400 && text@ == spec_list_date(unix_seconds, y, m, d),
{
    let secs: u64 = if unix_seconds < 0 { 0 } else { unix_seconds as u64 };
    let days_since_epoch: u64 = secs / 86400;
    let secs_of_day: u64 = secs % 86400;
    let (year, month, day) = civil_from_days(days_since_epoch as i64);
    let hour: u64 = secs_of_day / 3600;
    let minute: u64 = (secs_of_day % 3600) / 60;
    let mut text = String::new();
    push_date(&mut text, year as u64, month as u64, day as u64);
    let ghost date = text@;
    push_char(&mut text, ' ');
    push_decimal_padded(&mut text, hour, 2);
    let ghost hh = text@;
    crate::logging::push_colon_field(&mut text, minute);
    proof {
        let y = year as int;
        let m = month as int;
        let d = day as int;
        assert(secs == spec_clamped_seconds(unix_seconds));
        assert(hh =~= date + seq![' '] + spec_padded(hour as int, 2));
        assert(text@ =~= spec_list_date(unix_seconds, y, m, d));
    }
    text
}

/// The row of the sidebar that entry `cursor` is drawn on: the folders come
/// first, then one heading row, then the labels.
pub open spec fn spec_cursor_row_for_sidebar(cursor: int) -> int {
    if cursor < FOLDER_COUNT {
        cursor
    } else {
        cursor + 1
    }
}

/// The sidebar row of the entry under the cursor (see
/// `spec_cursor_row_for_sidebar`).
pub fn cursor_row_for_sidebar(sidebar_cursor: usize) -> (row: usize)
    requires
        sidebar_cursor < usize::MAX,
    ensures
        row == spec_cursor_row_for_sidebar(sidebar_cursor as int),
{
    if sidebar_cursor < FOLDER_COUNT {
        sidebar_cursor
    } else {
        FOLDER_COUNT + 1 + (sidebar_cursor - FOLDER_COUNT)
    }
}

/// Who a message is shown as from: its sender's name, else the address,
/// else `(unknown)`.
pub open spec fn spec_sender_label(from_name: Option<Seq<char>>, from_addr: Option<Seq<char>>) -> Seq<char> {
    match from_name {
        Some(n) => n,
        None => match from_addr {
            Some(a) => a,
            None => "(unknown)"@,
        },
    }
}

/// A row of the message list before it is shortened to the pane's width:
/// a star for flagged messages, the date, the sender and the subject.
pub open spec fn spec_list_row(
    is_flagged: bool,
    date: Seq<char>,
    from_name: Option<Seq<char>>,
    from_addr: Option<Seq<char>>,
    subject: Option<Seq<char>>,
) -> Seq<char> {
    (if is_flagged { "★"@ } else { " "@ }) + seq![' '] + date + "  "@ + spec_sender_label(from_name, from_addr) + "  "@
        + match subject {
        Some(s) => s,
        None => "(no subject)"@,
    }
}

pub open spec fn spec_opt(t: Option<&str>) -> Option<Seq<char>> {
    match t {
        Some(s) => Some(s@),
        None => None,
    }
}

/// Who a message is from, as the list and the detail show it (see
/// `spec_sender_label`).
pub fn sender_label<'a>(from_name: Option<&'a str>, from_addr: Option<&'a str>) -> (label: &'a str)
    ensures
        label@ == spec_sender_label(spec_opt(from_name), spec_opt(from_addr)),
{
    match from_name {
        Some(n) => n,
        None => match from_addr {
            Some(a) => a,
            None => "(unknown)",
        },
    }
}

/// The text of a message-list row (see `spec_list_row`).
pub fn list_row_text(
    is_flagged: bool,
    date_header: i64,
    from_name: Option<&str>,
    from_addr: Option<&str>,
    subject: Option<&str>,
) -> (text: String)
    ensures
        exists|date: Seq<char>|
            text@ == spec_list_row(is_flagged, date, spec_opt(from_name), spec_opt(from_addr), spec_opt(subject))
                && #[trigger] spec_is_list_date(date_header, date),
{
    let date = format_date(date_header);
    let mut text = String::new();
    if is_flagged {
        text.append("★");
    } else {
        text.append(" ");
    }
    push_char(&mut text, ' ');
    text.append(date.as_str());
    text.append("  ");
    text.append(sender_label(from_name, from_addr));
    text.append("  ");
    match subject {
        Some(s) => text.append(s),
        None => text.append("(no subject)"),
    }
    proof {
        assert(spec_is_list_date(date_header, date@));
        assert(text@ =~= spec_list_row(is_flagged, date@, spec_opt(from_name), spec_opt(from_addr), spec_opt(subject)));
    }
    text
}

/// `date` is how the list writes the time stamp (see `format_date`).
pub open spec fn spec_is_list_date(unix_seconds: i64, date: Seq<char>) -> bool {
    exists|y: int, m: int, d: int|
        is_civil_date(y, m, d) && days_from_civil(y, m, d) == spec_clamped_seconds(unix_seconds) / 86400
            && date == spec_list_date(unix_seconds, y, m, d)
}

/// The state line of the detail pane: the states that apply, in a fixed
/// order, joined with ` / `; `None` when none applies.
pub open spec fn spec_detail_status(flagged: bool, archived: bool, snoozed: bool, deleted: bool) -> Seq<Seq<char>> {
    let a: Seq<Seq<char>> = if flagged { seq!["★スター付き"@] } else { Seq::empty() };
    let b: Seq<Seq<char>> = if archived { seq!["アーカイブ済み"@] } else { Seq::empty() };
    let c: Seq<Seq<char>> = if snoozed { seq!["スヌーズ中"@] } else { Seq::empty() };
    let e: Seq<Seq<char>> = if deleted { seq!["ゴミ箱"@] } else { Seq::empty() };
    a + b + c + e
}

/// The detail pane's state line (see `spec_detail_status`).
pub fn detail_status_text(flagged: bool, archived: bool, snoozed: bool, deleted: bool) -> (text: Option<String>)
    ensures
        spec_detail_status(flagged, archived, snoozed, deleted).len() == 0 ==> text is None,
        spec_detail_status(flagged, archived, snoozed, deleted).len() > 0 ==> (text matches Some(t) && t@
            == spec_join(spec_detail_status(flagged, archived, snoozed, deleted), " / "@)),
{
    let mut parts: Vec<String> = Vec::new();
    if flagged {
        parts.push(String::from_str("★スター付き"));
    }
    if archived {
        parts.push(String::from_str("アーカイブ済み"));
    }
    if snoozed {
        parts.push(String::from_str("スヌーズ中"));
    }
    if deleted {
        parts.push(String::from_str("ゴミ箱"));
    }
    proof {
        assert(spec_views(parts@) =~= spec_detail_status(flagged, archived, snoozed, deleted));
    }
    if parts.len() == 0 {
        None
    } else {
        Some(join(parts.as_slice(), " / "))
    }
}

} // verus!
