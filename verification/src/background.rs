//! The schedule of the background work that the desktop and terminal
//! interfaces run: how long to wait between syncs, where the search-index
//! catch-up goes next, and from when on retention deletes mail.

use vstd::prelude::*;

use crate::text::str_eq;
use crate::tui::app::spec_snooze_until;

verus! {

/// Minutes between syncs when no sensible value is set.
pub const DEFAULT_SYNC_INTERVAL_MINUTES: u64 = 5;

/// How many messages one background sync fetches per account; the rest wait
/// for the next cycle.
pub const BACKGROUND_SYNC_LIMIT: u32 = 200;

/// An upper bound on the rounds of the start-up catch-up; it stops much
/// earlier, as soon as a whole lap makes no progress.
pub const MAX_CATCHUP_ITERATIONS: u32 = 5000;

/// The seconds to wait before the next sync: the configured minutes when
/// they are positive, else the default.
pub open spec fn spec_sync_interval_seconds(minutes: Option<i64>) -> int {
    match minutes {
        Some(m) => if m > 0 { m * 60 } else { DEFAULT_SYNC_INTERVAL_MINUTES * 60 },
        None => DEFAULT_SYNC_INTERVAL_MINUTES * 60,
    }
}

/// The wait before the next sync, in seconds (see
/// `spec_sync_interval_seconds`); `minutes` is the setting, when it could be
/// read.
pub fn sync_interval_seconds(minutes: Option<i64>) -> (secs: u64)
    requires
        minutes matches Some(m) ==> m * 60 <= u64::MAX,
    ensures
        secs == spec_sync_interval_seconds(minutes),
{
    let m: u64 = match minutes {
        Some(m) => if m > 0 { m as u64 } else { DEFAULT_SYNC_INTERVAL_MINUTES },
        None => DEFAULT_SYNC_INTERVAL_MINUTES,
    };
    m * 60
}

/// The date before which messages are deleted: `retention_days` days before
/// `now`; `None` when retention is unlimited (zero or negative days).
pub open spec fn spec_retention_cutoff(retention_days: i64, now: i64) -> Option<i64> {
    if retention_days <= 0 {
        None
    } else {
        Some((now - retention_days * 24 * 60 * 60) as i64)
    }
}

/// The retention cutoff (see `spec_retention_cutoff`).
pub fn retention_cutoff(retention_days: i64, now: i64) -> (cutoff: Option<i64>)
    requires
        retention_days > 0 ==> i64::MIN <= now - retention_days * 24 * 60 * 60,
        retention_days * 24 * 60 * 60 <= i64::MAX,
    ensures
        cutoff == spec_retention_cutoff(retention_days, now),
{
    if retention_days <= 0 {
        None
    } else {
        Some(now - retention_days * 24 * 60 * 60)
    }
}

/// The snooze deadline that the desktop interface's command asks for: no
/// preset clears the snooze, `1d`, `3d` and `1w` count from `now`, and any
/// other preset is refused with an error that names it.
pub open spec fn spec_snooze_command(preset: Option<Seq<char>>, now: int) -> Result<Option<i64>, Seq<char>> {
    match preset {
        None => Ok(None),
        Some(p) => if p == "1d"@ {
            Ok(Some((now + 24 * 60 * 60) as i64))
        } else if p == "3d"@ {
            Ok(Some((now + 3 * 24 * 60 * 60) as i64))
        } else if p == "1w"@ {
            Ok(Some((now + 7 * 24 * 60 * 60) as i64))
        } else {
            Err("unknown snooze preset: "@ + p)
        },
    }
}

/// The deadline of a snooze preset, or the error for an unknown one (see
/// `spec_snooze_command`).
pub fn snooze_command(preset: Option<&str>, now: i64) -> (r: Result<Option<i64>, String>)
    requires
        now + 7 * 24 * 60 * 60 <= i64::MAX,
    ensures
        spec_snooze_command(
            match preset {
                Some(p) => Some(p@),
                None => None,
            },
            now as int,
        ) matches Ok(v) ==> r == Ok::<Option<i64>, String>(v),
        spec_snooze_command(
            match preset {
                Some(p) => Some(p@),
                None => None,
            },
            now as int,
        ) matches Err(m) ==> (r matches Err(e) && e@ == m),
{
    match preset {
        None => Ok(None),
        Some(p) => {
            if str_eq(p, "1d") {
                Ok(Some(now + 24 * 60 * 60))
            } else if str_eq(p, "3d") {
                Ok(Some(now + 3 * 24 * 60 * 60))
            } else if str_eq(p, "1w") {
                Ok(Some(now + 7 * 24 * 60 * 60))
            } else {
                let mut m = String::from_str("unknown snooze preset: ");
                m.append(p);
                Err(m)
            }
        },
    }
}

/// The desktop's snooze command means what the terminal's snooze keys mean:
/// for every preset it accepts, its deadline is the one `snooze_until` gives;
/// `1d`, `3d` and `1w` put the deadline 1, 3 and 7 days after `now`, no
/// preset clears the snooze, and exactly the presets `snooze_until` does not
/// know are refused.
pub proof fn lemma_snooze_command_agrees_with_snooze_until(p: Seq<char>, now: int)
    requires
        i64::MIN <= now,
        now + 7 * 24 * 60 * 60 <= i64::MAX,
    ensures
        spec_snooze_command(Some(p), now) is Ok <==> spec_snooze_until(p, now) is Some,
        spec_snooze_command(Some(p), now) matches Ok(v) ==> v == spec_snooze_until(p, now),
        spec_snooze_command(Some("1d"@), now) == Ok::<Option<i64>, Seq<char>>(Some((now + 1 * 24 * 60 * 60) as i64)),
        spec_snooze_command(Some("3d"@), now) == Ok::<Option<i64>, Seq<char>>(Some((now + 3 * 24 * 60 * 60) as i64)),
        spec_snooze_command(Some("1w"@), now) == Ok::<Option<i64>, Seq<char>>(Some((now + 7 * 24 * 60 * 60) as i64)),
        spec_snooze_command(None, now) == Ok::<Option<i64>, Seq<char>>(None),
{
    reveal_strlit("1d");
    reveal_strlit("3d");
    reveal_strlit("1w");
    assert("3d"@[0] != "1d"@[0]);
    assert("1w"@[0] != "3d"@[0]);
    assert("1w"@[1] != "1d"@[1]);
}

/// Where a catch-up of the search index resumes: after the message with this
/// id (0 from the start). `indexed` is what the call indexed, `next` where
/// the listing stopped (`None` at the end), and `None` for a failed call.
pub open spec fn spec_catchup_cursor(after_id: i64, result: Option<(usize, Option<i64>)>) -> (i64, usize) {
    match result {
        Some((indexed, Some(next))) => (next, indexed),
        Some((indexed, None)) => (0, indexed),
        None => (after_id, 0),
    }
}

/// Moves the periodic catch-up's cursor: forward to where the call stopped,
/// back to the start at the end, unchanged after a failure (the same place
/// is tried again). Returns the cursor and how many were indexed.
pub fn catchup_cursor(after_id: i64, result: Option<(usize, Option<i64>)>) -> (r: (i64, usize))
    ensures
        r == spec_catchup_cursor(after_id, result),
{
    match result {
        Some((indexed, Some(next))) => (next, indexed),
        Some((indexed, None)) => (0, indexed),
        None => (after_id, 0),
    }
}

/// Where the start-up catch-up stands: the cursor and what this lap indexed.
#[derive(Debug, Clone, Copy, PartialEq, Eq, Structural)]
pub struct CatchupLap {
    pub after_id: i64,
    pub indexed_this_lap: usize,
}

/// What the start-up catch-up does next.
#[derive(Debug, Clone, Copy, PartialEq, Eq, Structural)]
pub enum CatchupNext {
    /// Wait briefly and go on.
    Continue,
    /// A failure: wait longer and try the same place again.
    RetryLater,
    /// A whole lap indexed nothing: the index has caught up.
    Finished,
}

/// The lap and the decision after one call of the start-up catch-up.
pub open spec fn spec_catchup_step(lap: CatchupLap, result: Option<(usize, Option<i64>)>) -> (CatchupLap, CatchupNext) {
    match result {
        Some((indexed, Some(next))) => (
            CatchupLap { after_id: next, indexed_this_lap: (lap.indexed_this_lap + indexed) as usize },
            CatchupNext::Continue,
        ),
        Some((indexed, None)) => if lap.indexed_this_lap + indexed == 0 {
            (CatchupLap { after_id: lap.after_id, indexed_this_lap: 0 }, CatchupNext::Finished)
        } else {
            (CatchupLap { after_id: 0, indexed_this_lap: 0 }, CatchupNext::Continue)
        },
        None => (lap, CatchupNext::RetryLater),
    }
}

/// One round of the start-up catch-up: count what was indexed, move the
/// cursor; at the end of a lap, stop if the lap indexed nothing, else start
/// another lap from the beginning.
pub fn catchup_step(lap: &mut CatchupLap, result: Option<(usize, Option<i64>)>) -> (next: CatchupNext)
    requires
        result matches Some((indexed, _)) ==> old(lap).indexed_this_lap + indexed <= usize::MAX,
    ensures
        (*final(lap), next) == spec_catchup_step(*old(lap), result),
{
    match result {
        Some((indexed, Some(next))) => {
            lap.indexed_this_lap = lap.indexed_this_lap + indexed;
            lap.after_id = next;
            CatchupNext::Continue
        },
        Some((indexed, None)) => {
            if lap.indexed_this_lap + indexed == 0 {
                lap.indexed_this_lap = 0;
                CatchupNext::Finished
            } else {
                lap.after_id = 0;
                lap.indexed_this_lap = 0;
                CatchupNext::Continue
            }
        },
        None => CatchupNext::RetryLater,
    }
}

/// The catch-up stops only at the end of a lap that indexed nothing, and a
/// lap that indexed something is followed by another lap from the start.
pub proof fn lemma_catchup_finishes_only_after_an_idle_lap(lap: CatchupLap, result: Option<(usize, Option<i64>)>)
    ensures
        spec_catchup_step(lap, result).1 == CatchupNext::Finished ==> (result matches Some((indexed, None))
            && lap.indexed_this_lap == 0 && indexed == 0),
        (result matches Some((indexed, None)) && lap.indexed_this_lap + indexed > 0)
            ==> spec_catchup_step(lap, result) == (CatchupLap { after_id: 0, indexed_this_lap: 0 }, CatchupNext::Continue),
{
}

} // verus!
