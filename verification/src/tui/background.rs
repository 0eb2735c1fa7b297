//! What the background work reports to the main loop, and the status line
//! each report shows.

use vstd::prelude::*;

use crate::sync::SyncSummary;
use crate::text::{push_char, push_decimal, push_signed_decimal, spec_decimal, spec_signed_decimal};

verus! {

#[derive(Debug)]
pub enum BackgroundEvent {
    SyncProgress { account_id: i64, fetched: u32, total: u32 },
    SyncFinished { account_id: i64, result: Result<SyncSummary, String> },
    RetentionPurged { count: usize },
    ManualPurgeFinished { result: Result<usize, String> },
    ReindexFinished { result: Result<usize, String> },
}

/// `account #<id>: `
pub open spec fn spec_account_prefix(id: i64) -> Seq<char> {
    "account #"@ + spec_signed_decimal(id as int) + ": "@
}

/// The status line of a report, and whether the sidebar's counts are read
/// again afterwards (after a sync or a purge).
pub open spec fn spec_status(event: BackgroundEvent) -> (Seq<char>, bool) {
    match event {
        BackgroundEvent::SyncProgress { account_id, fetched, total } => (
            spec_account_prefix(account_id) + "syncing… "@ + spec_decimal(fetched as nat) + seq!['/']
                + spec_decimal(total as nat),
            false,
        ),
        BackgroundEvent::SyncFinished { account_id, result } => (
            spec_account_prefix(account_id) + match result {
                Ok(s) => "fetched "@ + spec_decimal(s.fetched as nat) + ", "@ + spec_decimal(s.remaining as nat)
                    + " remaining"@,
                Err(e) => "error: "@ + e@,
            },
            true,
        ),
        BackgroundEvent::RetentionPurged { count } => (
            "保持期間切れメッセージを"@ + spec_decimal(count as nat) + "件削除しました"@,
            true,
        ),
        BackgroundEvent::ManualPurgeFinished { result } => (
            match result {
                Ok(n) => if n == 0 {
                    "保持期間が無期限のため、何も削除されませんでした"@
                } else {
                    spec_decimal(n as nat) + "件を削除しました"@
                },
                Err(e) => "整理に失敗しました: "@ + e@,
            },
            true,
        ),
        BackgroundEvent::ReindexFinished { result } => (
            match result {
                Ok(n) => spec_decimal(n as nat) + "件を再構築しました"@,
                Err(e) => "再構築に失敗しました: "@ + e@,
            },
            false,
        ),
    }
}

fn push_account_prefix(text: &mut String, id: i64)
    ensures
        final(text)@ == old(text)@ + spec_account_prefix(id),
{
    text.append("account #");
    push_signed_decimal(text, id);
    text.append(": ");
    proof {
        assert(final(text)@ =~= old(text)@ + spec_account_prefix(id));
    }
}

/// The status line of a background report (see `spec_status`), and whether
/// to read the sidebar's counts again.
pub fn status_for(event: &BackgroundEvent) -> (r: (String, bool))
    ensures
        r.0@ == spec_status(*event).0,
        r.1 == spec_status(*event).1,
{
    let mut text = String::new();
    match event {
        BackgroundEvent::SyncProgress { account_id, fetched, total } => {
            push_account_prefix(&mut text, *account_id);
            text.append("syncing… ");
            push_decimal(&mut text, *fetched as u64);
            push_char(&mut text, '/');
            push_decimal(&mut text, *total as u64);
            (text, false)
        },
        BackgroundEvent::SyncFinished { account_id, result } => {
            push_account_prefix(&mut text, *account_id);
            let ghost head = text@;
            match result {
                Ok(s) => {
                    text.append("fetched ");
                    push_decimal(&mut text, s.fetched as u64);
                    text.append(", ");
                    push_decimal(&mut text, s.remaining as u64);
                    text.append(" remaining");
                },
                Err(e) => {
                    text.append("error: ");
                    text.append(e.as_str());
                },
            }
            proof {
                assert(text@ =~= spec_status(*event).0);
            }
            (text, true)
        },
        BackgroundEvent::RetentionPurged { count } => {
            text.append("保持期間切れメッセージを");
            push_decimal(&mut text, *count as u64);
            text.append("件削除しました");
            (text, true)
        },
        BackgroundEvent::ManualPurgeFinished { result } => {
            match result {
                Ok(n) => {
                    if *n == 0 {
                        text.append("保持期間が無期限のため、何も削除されませんでした");
                    } else {
                        push_decimal(&mut text, *n as u64);
                        text.append("件を削除しました");
                    }
                },
                Err(e) => {
                    text.append("整理に失敗しました: ");
                    text.append(e.as_str());
                },
            }
            proof {
                assert(text@ =~= spec_status(*event).0);
            }
            (text, true)
        },
        BackgroundEvent::ReindexFinished { result } => {
            match result {
                Ok(n) => {
                    push_decimal(&mut text, *n as u64);
                    text.append("件を再構築しました");
                },
                Err(e) => {
                    text.append("再構築に失敗しました: ");
                    text.append(e.as_str());
                },
            }
            proof {
                assert(text@ =~= spec_status(*event).0);
            }
            (text, false)
        },
    }
}

} // verus!
