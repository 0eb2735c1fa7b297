//! Synchronising an account: fetch what the server has and the database does
//! not, in batches, reconnecting when the server drops the connection.
//!
//! The caller talks to the server, the database and the disk; the decisions
//! between those steps are made here. A call of the caller's sync loop starts
//! with [`SyncProgress::start`]; after a failed handshake step it asks
//! [`after_handshake_error`]. It lists the server's messages as
//! [`listing_mode`] says: by `UIDL`, or, on a server without it, by `LIST`
//! and a hash of each message's content ([`name_by_content`]); a failed
//! `UIDL` goes to [`after_uidl_error`], which falls back to content names
//! while the account's support is unknown. After listing it asks
//! [`pending_messages`] and [`plan_fetch`], and after fetching it asks
//! [`after_fetch`]. Within a fetch, [`FetchRun`] decides per batch and per
//! message.

use vstd::prelude::*;

use crate::maildir::hash::{fnv1a64, spec_fnv1a64};
use crate::pop3::error::Pop3Error;

verus! {

/// How many `RETR` commands are sent before their replies are read.
pub const RETR_BATCH_SIZE: usize = 20;

/// How many fetched messages wait before they are committed to the search
/// index together.
pub const SEARCH_COMMIT_BATCH_SIZE: usize = 500;

/// How many times one sync call reconnects before it gives up.
pub const MAX_RECONNECTS: u32 = 5;

/// Why a sync call failed.
#[derive(Debug, Clone, PartialEq, Eq)]
pub enum SyncError {
    Pop3(Pop3Error),
    Db(String),
    Io(String),
    Search(String),
}

#[derive(Debug, Clone, Copy, PartialEq, Eq, Structural)]
pub struct SyncSummary {
    /// Messages fetched and stored by this call.
    pub fetched: u32,
    /// Messages on the server not fetched yet; a later call picks them up.
    pub remaining: u32,
    /// Whether the call gave up after reconnecting did not help.
    pub ended_early: bool,
}

/// A failure that means the connection is gone (and reconnecting may help):
/// a socket error or the server closing the connection.
pub open spec fn spec_is_disconnect(err: Pop3Error) -> bool {
    err is Io || err is ConnectionClosed
}

/// Whether a POP3 failure is a lost connection (see `spec_is_disconnect`).
pub fn is_disconnect(err: &Pop3Error) -> (r: bool)
    ensures
        r == spec_is_disconnect(*err),
{
    match err {
        Pop3Error::Io(_) | Pop3Error::ConnectionClosed => true,
        _ => false,
    }
}

/// Where a sync call stands between connections.
#[derive(Debug, Clone, Copy, PartialEq, Eq, Structural)]
pub struct SyncProgress {
    /// Messages fetched so far by this call.
    pub total_fetched: u32,
    /// How many more may be fetched; `None` for no limit.
    pub budget: Option<u32>,
    /// Reconnections so far.
    pub reconnects: u32,
}

/// The budget agrees with the limit the call was made with: what is left of
/// it is the limit less what was fetched, which never exceeds the limit.
pub open spec fn spec_within_limit(p: SyncProgress, limit: Option<u32>) -> bool {
    match limit {
        None => p.budget is None,
        Some(l) => p.total_fetched <= l && p.budget == Some((l - p.total_fetched) as u32),
    }
}

/// A progress that a sync call can be in: within its limit, and not past the
/// reconnect allowance.
pub open spec fn spec_progress_ok(p: SyncProgress, limit: Option<u32>) -> bool {
    spec_within_limit(p, limit) && p.reconnects <= MAX_RECONNECTS
}

impl SyncProgress {
    /// The start of a sync call that may fetch up to `limit` messages.
    pub fn start(limit: Option<u32>) -> (p: SyncProgress)
        ensures
            p == (SyncProgress { total_fetched: 0, budget: limit, reconnects: 0 }),
            spec_progress_ok(p, limit),
    {
        SyncProgress { total_fetched: 0, budget: limit, reconnects: 0 }
    }
}

/// What to do after connecting, logging in or listing failed.
#[derive(Debug, Clone, Copy, PartialEq, Eq, Structural)]
pub enum HandshakeStep {
    /// Connect again.
    Retry,
    /// Give up and return the error.
    Fail,
}

/// The reconnect count after a failed handshake step, and the decision.
pub open spec fn spec_after_handshake_error(p: SyncProgress, disconnect: bool) -> (SyncProgress, HandshakeStep) {
    if !disconnect {
        (p, HandshakeStep::Fail)
    } else {
        let q = SyncProgress { reconnects: (p.reconnects + 1) as u32, ..p };
        if q.reconnects > MAX_RECONNECTS {
            (q, HandshakeStep::Fail)
        } else {
            (q, HandshakeStep::Retry)
        }
    }
}

/// A step of the handshake (connect, `USER`, `PASS`, `UIDL`) failed. A lost
/// connection counts as a reconnect and is retried while the allowance lasts;
/// any other failure ends the call.
pub fn after_handshake_error(progress: &mut SyncProgress, disconnect: bool) -> (step: HandshakeStep)
    requires
        old(progress).reconnects <= MAX_RECONNECTS,
    ensures
        (*final(progress), step) == spec_after_handshake_error(*old(progress), disconnect),
{
    if !disconnect {
        return HandshakeStep::Fail;
    }
    progress.reconnects = progress.reconnects + 1;
    if progress.reconnects > MAX_RECONNECTS {
        HandshakeStep::Fail
    } else {
        HandshakeStep::Retry
    }
}

/// How the server's messages are named, to be compared with the stored ones.
#[derive(Debug, Clone, Copy, PartialEq, Eq, Structural)]
pub enum ListingMode {
    /// By the server's `UIDL` ids.
    Uidl,
    /// `LIST`, then each message named by a hash of its content
    /// (see `spec_content_uidl`).
    ContentHash,
}

/// An account known not to support `UIDL` is listed by content; any other
/// (supported, or not yet known) by `UIDL`.
pub open spec fn spec_listing_mode(uidl_supported: Option<bool>) -> ListingMode {
    if uidl_supported == Some(false) {
        ListingMode::ContentHash
    } else {
        ListingMode::Uidl
    }
}

/// How to list the server's messages for an account (see `spec_listing_mode`).
pub fn listing_mode(uidl_supported: Option<bool>) -> (m: ListingMode)
    ensures
        m == spec_listing_mode(uidl_supported),
{
    match uidl_supported {
        Some(false) => ListingMode::ContentHash,
        _ => ListingMode::Uidl,
    }
}

/// What to do after the `UIDL` command failed.
#[derive(Debug, Clone, Copy, PartialEq, Eq, Structural)]
pub enum UidlStep {
    /// The server refused `UIDL`: record that it does not support it, and
    /// list this connection's messages by content instead.
    FallBackHere,
    /// The server dropped the connection at `UIDL`: record that it does not
    /// support it, connect again and list by content.
    FallBackReconnect,
    /// Connect again and try `UIDL` again.
    Retry,
    /// Give up and return the error.
    Fail,
}

/// The server answered `-ERR`.
pub open spec fn spec_is_refusal(err: Pop3Error) -> bool {
    err is ServerError
}

/// The reconnect count and the decision after `UIDL` failed. While the
/// account's support is not known, a refusal or a dropped connection at
/// `UIDL` means the server does not support it: the call falls back to naming
/// messages by content (a dropped connection counting as a reconnect). Once
/// support is known, `UIDL` failures are handled like any handshake failure.
pub open spec fn spec_after_uidl_error(p: SyncProgress, uidl_supported: Option<bool>, err: Pop3Error) -> (SyncProgress, UidlStep) {
    if uidl_supported is None && spec_is_refusal(err) {
        (p, UidlStep::FallBackHere)
    } else if uidl_supported is None && spec_is_disconnect(err) {
        let q = SyncProgress { reconnects: (p.reconnects + 1) as u32, ..p };
        if q.reconnects > MAX_RECONNECTS {
            (q, UidlStep::Fail)
        } else {
            (q, UidlStep::FallBackReconnect)
        }
    } else {
        let (q, step) = spec_after_handshake_error(p, spec_is_disconnect(err));
        (q, if step == HandshakeStep::Retry { UidlStep::Retry } else { UidlStep::Fail })
    }
}

/// Decides after a failed `UIDL` (see `spec_after_uidl_error`).
pub fn after_uidl_error(progress: &mut SyncProgress, uidl_supported: Option<bool>, err: &Pop3Error) -> (step: UidlStep)
    requires
        old(progress).reconnects <= MAX_RECONNECTS,
    ensures
        (*final(progress), step) == spec_after_uidl_error(*old(progress), uidl_supported, *err),
{
    let refused = match err {
        Pop3Error::ServerError(_) => true,
        _ => false,
    };
    let disconnect = is_disconnect(err);
    if uidl_supported.is_none() && refused {
        return UidlStep::FallBackHere;
    }
    if uidl_supported.is_none() && disconnect {
        progress.reconnects = progress.reconnects + 1;
        if progress.reconnects > MAX_RECONNECTS {
            return UidlStep::Fail;
        }
        return UidlStep::FallBackReconnect;
    }
    match after_handshake_error(progress, disconnect) {
        HandshakeStep::Retry => UidlStep::Retry,
        HandshakeStep::Fail => UidlStep::Fail,
    }
}

/// A server whose `UIDL` support is not known yet never fails a sync call by
/// refusing `UIDL`: the call falls back to naming by content on the same
/// connection; and a connection dropped at `UIDL` falls back too while
/// reconnects remain. An account marked unsupported is listed by content, so
/// `UIDL` is not sent for it again.
pub proof fn lemma_uidl_refusal_falls_back(p: SyncProgress, err: Pop3Error, msg: String)
    requires
        p.reconnects < MAX_RECONNECTS,
    ensures
        spec_after_uidl_error(p, None, Pop3Error::ServerError(msg)) == (p, UidlStep::FallBackHere),
        spec_is_disconnect(err) ==> spec_after_uidl_error(p, None, err).1 == UidlStep::FallBackReconnect,
        spec_listing_mode(Some(false)) == ListingMode::ContentHash,
{
}

/// The name of a message on a server without `UIDL`: `ferro-hash-v1-`, the
/// FNV-1a hash of its bytes in decimal, `-` and its length in bytes.
pub open spec fn spec_content_uidl(raw: Seq<u8>) -> Seq<char> {
    "ferro-hash-v1-"@ + crate::text::spec_decimal(spec_fnv1a64(raw) as nat) + "-"@ + crate::text::spec_decimal(
        raw.len(),
    )
}

/// Names a message by its content (see `spec_content_uidl`).
pub fn content_uidl(raw: &[u8]) -> (name: String)
    ensures
        name@ == spec_content_uidl(raw@),
{
    let mut name = String::from_str("ferro-hash-v1-");
    crate::text::push_decimal(&mut name, fnv1a64(raw));
    name.append("-");
    crate::text::push_decimal(&mut name, raw.len() as u64);
    proof {
        reveal_strlit("ferro-hash-v1-");
        reveal_strlit("-");
    }
    name
}

/// The server's messages as `LIST` gives them, `(number, size)`, named by
/// their contents (`contents[i]` is the message `listed[i]`): the listing that
/// stands in for `UIDL` on a server without it.
pub fn name_by_content(listed: &[(u32, u64)], contents: &[Vec<u8>]) -> (named: Vec<(u32, String)>)
    requires
        listed@.len() == contents@.len(),
    ensures
        named@.len() == listed@.len(),
        forall|i: int|
            0 <= i < listed@.len() ==> (#[trigger] named@[i]).0 == listed@[i].0 && named@[i].1@ == spec_content_uidl(
                contents@[i]@,
            ),
{
    let mut named: Vec<(u32, String)> = Vec::new();
    let mut i: usize = 0;
    while i < listed.len()
        invariant
            listed@.len() == contents@.len(),
            i <= listed@.len(),
            named@.len() == i,
            forall|j: int|
                0 <= j < i ==> (#[trigger] named@[j]).0 == listed@[j].0 && named@[j].1@ == spec_content_uidl(
                    contents@[j]@,
                ),
        decreases listed@.len() - i,
    {
        let name = content_uidl(contents[i].as_slice());
        named.push((listed[i].0, name));
        i = i + 1;
    }
    named
}

/// The server's messages, `(number, unique id)`, that are not stored yet,
/// in the server's order.
pub open spec fn spec_pending(server: Seq<(u32, String)>, stored: Seq<bool>) -> Seq<(u32, Seq<char>)>
    decreases server.len(),
{
    if server.len() == 0 || stored.len() != server.len() {
        Seq::empty()
    } else {
        let rest = spec_pending(server.drop_last(), stored.drop_last());
        if stored.last() {
            rest
        } else {
            rest.push((server.last().0, server.last().1@))
        }
    }
}

/// The views of a list of `(number, unique id)` pairs.
pub open spec fn spec_uidl_views(items: Seq<(u32, String)>) -> Seq<(u32, Seq<char>)> {
    items.map_values(|it: (u32, String)| (it.0, it.1@))
}

/// Keeps the server's messages whose `stored` flag (one per message, from the
/// database) is false.
pub fn pending_messages(server: &[(u32, String)], stored: &[bool]) -> (pending: Vec<(u32, String)>)
    requires
        server@.len() == stored@.len(),
    ensures
        spec_uidl_views(pending@) == spec_pending(server@, stored@),
{
    let mut pending: Vec<(u32, String)> = Vec::new();
    let mut i: usize = 0;
    while i < server.len()
        invariant
            server@.len() == stored@.len(),
            i <= server@.len(),
            spec_uidl_views(pending@) == spec_pending(server@.subrange(0, i as int), stored@.subrange(0, i as int)),
        decreases server@.len() - i,
    {
        proof {
            assert(server@.subrange(0, i + 1).drop_last() =~= server@.subrange(0, i as int));
            assert(stored@.subrange(0, i + 1).drop_last() =~= stored@.subrange(0, i as int));
        }
        if !stored[i] {
            let ghost before = pending@;
            let (num, uidl) = &server[i];
            pending.push((*num, uidl.clone()));
            proof {
                assert(spec_uidl_views(pending@) =~= spec_uidl_views(before).push((server@[i as int].0, server@[i as int].1@)));
            }
        }
        i = i + 1;
    }
    proof {
        assert(server@.subrange(0, server@.len() as int) =~= server@);
        assert(stored@.subrange(0, stored@.len() as int) =~= stored@);
    }
    pending
}

/// Messages already stored are never fetched again: every pending message is
/// one of the server's, at a position whose stored flag is false, and the
/// pending ones keep the server's order.
pub proof fn lemma_pending_are_unstored(server: Seq<(u32, String)>, stored: Seq<bool>, k: int)
    requires
        server.len() == stored.len(),
        0 <= k < spec_pending(server, stored).len(),
    ensures
        exists|j: int|
            0 <= j < server.len() && !stored[j] && spec_pending(server, stored)[k] == (server[j].0, server[j].1@),
    decreases server.len(),
{
    let rest = spec_pending(server.drop_last(), stored.drop_last());
    if k < rest.len() {
        lemma_pending_are_unstored(server.drop_last(), stored.drop_last(), k);
        let j = choose|j: int|
            0 <= j < server.drop_last().len() && !stored.drop_last()[j] && rest[k] == (
                server.drop_last()[j].0,
                server.drop_last()[j].1@,
            );
        assert(0 <= j < server.len() && !stored[j] && spec_pending(server, stored)[k] == (server[j].0, server[j].1@));
    } else {
        let j = server.len() - 1;
        assert(0 <= j < server.len() && !stored[j] && spec_pending(server, stored)[k] == (server[j].0, server[j].1@));
    }
}

/// The messages of `p` whose names are not in `names`, in order.
pub open spec fn spec_without_names(p: Seq<(u32, Seq<char>)>, names: Set<Seq<char>>) -> Seq<(u32, Seq<char>)>
    decreases p.len(),
{
    if p.len() == 0 {
        Seq::empty()
    } else {
        let rest = spec_without_names(p.drop_last(), names);
        if names.contains(p.last().1) {
            rest
        } else {
            rest.push(p.last())
        }
    }
}

/// `stored2` flags what `stored1` flags and the messages named in `names`.
pub open spec fn spec_stores_names(server: Seq<(u32, String)>, stored1: Seq<bool>, stored2: Seq<bool>, names: Set<Seq<char>>) -> bool {
    forall|j: int| #![trigger server[j]] 0 <= j < server.len() ==> stored2[j] == (stored1[j] || names.contains(server[j].1@))
}

/// Storing the messages named in `names` removes exactly those from what is
/// pending.
proof fn lemma_pending_after_storing(
    server: Seq<(u32, String)>,
    stored1: Seq<bool>,
    stored2: Seq<bool>,
    names: Set<Seq<char>>,
)
    requires
        server.len() == stored1.len(),
        server.len() == stored2.len(),
        spec_stores_names(server, stored1, stored2, names),
    ensures
        spec_pending(server, stored2) == spec_without_names(spec_pending(server, stored1), names),
    decreases server.len(),
{
    if server.len() > 0 {
        let n = server.len() - 1;
        let (s0, a0, b0) = (server.drop_last(), stored1.drop_last(), stored2.drop_last());
        assert(spec_stores_names(s0, a0, b0, names)) by {
            assert forall|j: int| 0 <= j < s0.len() implies #[trigger] b0[j] == (a0[j] || names.contains(s0[j].1@)) by {
                assert(s0[j] == server[j]);
                assert(a0[j] == stored1[j]);
                assert(b0[j] == stored2[j]);
                assert(stored2[j] == (stored1[j] || names.contains(server[j].1@)));
            }
        }
        lemma_pending_after_storing(s0, a0, b0, names);
        assert(stored2[n] == (stored1[n] || names.contains(server[n].1@)));
        let rest1 = spec_pending(server.drop_last(), stored1.drop_last());
        if !stored1[n] {
            assert(rest1.push((server.last().0, server.last().1@)).drop_last() =~= rest1);
        }
    }
}

/// Dropping the names of the first `f` messages leaves the rest.
proof fn lemma_without_first_names(p: Seq<(u32, Seq<char>)>, names: Set<Seq<char>>, f: int)
    requires
        0 <= f <= p.len(),
        forall|i: int| 0 <= i < p.len() ==> (names.contains(#[trigger] p[i].1) <==> i < f),
    ensures
        spec_without_names(p, names) == p.skip(f),
    decreases p.len(),
{
    if p.len() > 0 {
        let n = p.len() - 1;
        let f2 = if f == p.len() { n } else { f };
        assert forall|i: int| 0 <= i < p.drop_last().len() implies (names.contains(#[trigger] p.drop_last()[i].1)
            <==> i < f2) by {
            assert(p.drop_last()[i] == p[i]);
        }
        lemma_without_first_names(p.drop_last(), names, f2);
        assert(names.contains(p[n].1) <==> n < f);
        if f == p.len() {
            assert(p.skip(f) =~= Seq::<(u32, Seq<char>)>::empty());
            assert(p.drop_last().skip(f2) =~= Seq::<(u32, Seq<char>)>::empty());
        } else {
            assert(p.drop_last().skip(f).push(p.last()) =~= p.skip(f));
        }
    }
}

/// A later sync fetches exactly what an earlier one left: if a call stored
/// the first `f` of the messages pending for it (their names now being
/// stored too) and the server's listing is unchanged, the messages pending
/// for the next call are the rest, and with no limit it fetches all of them.
pub proof fn lemma_later_sync_fetches_the_rest(
    server: Seq<(u32, String)>,
    stored1: Seq<bool>,
    stored2: Seq<bool>,
    f: int,
)
    requires
        server.len() == stored1.len(),
        server.len() == stored2.len(),
        0 <= f <= spec_pending(server, stored1).len(),
        forall|i: int, k: int|
            0 <= i < k < spec_pending(server, stored1).len() ==> spec_pending(server, stored1)[i].1
                != spec_pending(server, stored1)[k].1,
        forall|j: int|
            0 <= j < server.len() ==> stored2[j] == (stored1[j] || exists|i: int|
                0 <= i < f && #[trigger] spec_pending(server, stored1)[i].1 == server[j].1@),
    ensures
        spec_pending(server, stored2) == spec_pending(server, stored1).skip(f),
        spec_pending(server, stored2).len() > 0 ==> spec_plan_fetch(
            SyncProgress { total_fetched: 0, budget: None, reconnects: 0 },
            spec_pending(server, stored2).len() as int,
        ) == (FetchDecision::Fetch {
            take: (spec_pending(server, stored1).len() - f) as usize,
            target_total: (spec_pending(server, stored1).len() - f) as u32,
        }),
{
    let p = spec_pending(server, stored1);
    let names = Set::new(|u: Seq<char>| exists|i: int| 0 <= i < f && #[trigger] p[i].1 == u);
    assert forall|j: int| #![trigger server[j]] 0 <= j < server.len() implies stored2[j] == (stored1[j] || names.contains(
        server[j].1@,
    )) by {}
    assert(spec_stores_names(server, stored1, stored2, names));
    lemma_pending_after_storing(server, stored1, stored2, names);
    assert forall|i: int| 0 <= i < p.len() implies (names.contains(#[trigger] p[i].1) <==> i < f) by {
        if i < f {
            assert(p[i].1 == p[i].1);
        }
    }
    lemma_without_first_names(p, names, f);
}

/// How many of the pending messages this connection fetches: all of them, or
/// what the budget allows.
pub open spec fn spec_take(budget: Option<u32>, pending_len: int) -> int {
    match budget {
        None => pending_len,
        Some(b) => if b < pending_len { b as int } else { pending_len },
    }
}

/// What to do once the pending messages are known.
#[derive(Debug, Clone, Copy, PartialEq, Eq, Structural)]
pub enum FetchDecision {
    /// Nothing is pending: the call is done.
    Done(SyncSummary),
    /// Fetch the first `take` pending messages; progress is reported against
    /// `target_total`.
    Fetch { take: usize, target_total: u32 },
}

/// The decision of `plan_fetch`.
pub open spec fn spec_plan_fetch(p: SyncProgress, pending_len: int) -> FetchDecision {
    if pending_len == 0 {
        FetchDecision::Done(SyncSummary { fetched: p.total_fetched, remaining: 0, ended_early: false })
    } else {
        FetchDecision::Fetch {
            take: spec_take(p.budget, pending_len) as usize,
            target_total: (p.total_fetched + spec_take(p.budget, pending_len)) as u32,
        }
    }
}

/// Decides what to fetch over the current connection: nothing pending ends
/// the call; otherwise as many as the budget allows.
pub fn plan_fetch(progress: &SyncProgress, pending_len: usize) -> (d: FetchDecision)
    requires
        progress.total_fetched + spec_take(progress.budget, pending_len as int) <= u32::MAX,
    ensures
        d == spec_plan_fetch(*progress, pending_len as int),
{
    if pending_len == 0 {
        return FetchDecision::Done(
            SyncSummary { fetched: progress.total_fetched, remaining: 0, ended_early: false },
        );
    }
    let take: usize = match progress.budget {
        None => pending_len,
        Some(b) => if (b as usize) < pending_len { b as usize } else { pending_len },
    };
    FetchDecision::Fetch { take, target_total: progress.total_fetched + (take as u32) }
}

/// A connection fetches as many of the pending messages as the budget allows:
/// all of them when there is no limit or they fit in what is left of it, else
/// exactly what is left; never more than either. So a call whose budget
/// covers what is pending, and whose connection holds, leaves nothing
/// remaining.
pub proof fn lemma_plan_fetch_takes_all_that_fit(p: SyncProgress, pending_len: int, broken: bool)
    requires
        0 < pending_len <= usize::MAX,
        pending_len <= u32::MAX,
        p.total_fetched + pending_len <= u32::MAX,
    ensures
        spec_plan_fetch(p, pending_len) matches FetchDecision::Fetch { take, target_total } && {
            &&& take <= pending_len
            &&& (p.budget is Some ==> take <= p.budget->0)
            &&& (p.budget is None || p.budget->0 >= pending_len) ==> take == pending_len
            &&& (p.budget is Some && p.budget->0 < pending_len) ==> take == p.budget->0
            &&& target_total == p.total_fetched + take
        },
        (p.budget is None || p.budget->0 >= pending_len) ==> spec_after_fetch(
            p,
            pending_len,
            pending_len as u32,
            false,
        ).1 == AfterFetch::Finished(
            SyncSummary { fetched: (p.total_fetched + pending_len) as u32, remaining: 0, ended_early: false },
        ),
        spec_plan_fetch(p, 0) == FetchDecision::Done(
            SyncSummary { fetched: p.total_fetched, remaining: 0, ended_early: false },
        ),
{
}

/// What to do after a connection's fetch ended.
#[derive(Debug, Clone, Copy, PartialEq, Eq, Structural)]
pub enum AfterFetch {
    /// Return this summary.
    Finished(SyncSummary),
    /// Connect again and continue.
    Reconnect,
}

/// The progress and the decision after `fetched_now` of `pending_len` pending
/// messages were fetched, the connection having broken or not.
pub open spec fn spec_after_fetch(
    p: SyncProgress,
    pending_len: int,
    fetched_now: u32,
    session_broken: bool,
) -> (SyncProgress, AfterFetch) {
    let total = (p.total_fetched + fetched_now) as u32;
    let budget = match p.budget {
        None => None,
        Some(b) => Some(if b >= fetched_now { (b - fetched_now) as u32 } else { 0u32 }),
    };
    let remaining = (pending_len - fetched_now) as u32;
    if !session_broken {
        (
            SyncProgress { total_fetched: total, budget, reconnects: p.reconnects },
            AfterFetch::Finished(SyncSummary { fetched: total, remaining, ended_early: false }),
        )
    } else {
        let reconnects = (p.reconnects + 1) as u32;
        let q = SyncProgress { total_fetched: total, budget, reconnects };
        if reconnects > MAX_RECONNECTS {
            (q, AfterFetch::Finished(SyncSummary { fetched: total, remaining, ended_early: true }))
        } else {
            (q, AfterFetch::Reconnect)
        }
    }
}

/// Counts what a connection fetched, spends the budget, and decides: a clean
/// end returns the summary; a broken connection reconnects while the
/// allowance lasts, and otherwise returns the summary marked as ended early.
pub fn after_fetch(progress: &mut SyncProgress, pending_len: usize, fetched_now: u32, session_broken: bool) -> (next: AfterFetch)
    requires
        fetched_now <= pending_len,
        pending_len - fetched_now <= u32::MAX,
        old(progress).total_fetched + fetched_now <= u32::MAX,
        old(progress).reconnects <= MAX_RECONNECTS,
    ensures
        (*final(progress), next) == spec_after_fetch(*old(progress), pending_len as int, fetched_now, session_broken),
{
    progress.total_fetched = progress.total_fetched + fetched_now;
    progress.budget = match progress.budget {
        None => None,
        Some(b) => Some(if b >= fetched_now { b - fetched_now } else { 0 }),
    };
    let remaining: u32 = (pending_len - fetched_now as usize) as u32;
    if !session_broken {
        return AfterFetch::Finished(
            SyncSummary { fetched: progress.total_fetched, remaining, ended_early: false },
        );
    }
    progress.reconnects = progress.reconnects + 1;
    if progress.reconnects > MAX_RECONNECTS {
        AfterFetch::Finished(SyncSummary { fetched: progress.total_fetched, remaining, ended_early: true })
    } else {
        AfterFetch::Reconnect
    }
}

/// A sync call never fetches more than its limit: from a progress within the
/// limit, a fetch of at most what `plan_fetch` allowed leaves it within the
/// limit, so every summary it returns has `fetched` at most the limit.
pub proof fn lemma_limit_is_respected(
    p: SyncProgress,
    limit: Option<u32>,
    pending_len: int,
    fetched_now: u32,
    session_broken: bool,
)
    requires
        spec_progress_ok(p, limit),
        0 <= pending_len,
        fetched_now <= spec_take(p.budget, pending_len),
        p.total_fetched + fetched_now <= u32::MAX,
    ensures
        spec_within_limit(spec_after_fetch(p, pending_len, fetched_now, session_broken).0, limit),
        spec_after_fetch(p, pending_len, fetched_now, session_broken).1 matches AfterFetch::Finished(s)
            ==> (limit matches Some(l) ==> s.fetched <= l),
{
}

/// The loop ends: each reconnect, after a handshake failure or a broken fetch,
/// counts one more against an allowance of `MAX_RECONNECTS`; the call
/// continues only while the count is within it, so it connects at most
/// `MAX_RECONNECTS + 1` times.
pub proof fn lemma_reconnects_are_bounded(
    p: SyncProgress,
    limit: Option<u32>,
    disconnect: bool,
    pending_len: int,
    fetched_now: u32,
    session_broken: bool,
)
    requires
        spec_progress_ok(p, limit),
        0 <= pending_len,
        fetched_now <= spec_take(p.budget, pending_len),
        p.total_fetched + fetched_now <= u32::MAX,
    ensures
        spec_after_handshake_error(p, disconnect).1 == HandshakeStep::Retry ==> {
            let q = spec_after_handshake_error(p, disconnect).0;
            q.reconnects == p.reconnects + 1 && spec_progress_ok(q, limit)
        },
        spec_after_fetch(p, pending_len, fetched_now, session_broken).1 == AfterFetch::Reconnect ==> {
            let q = spec_after_fetch(p, pending_len, fetched_now, session_broken).0;
            q.reconnects == p.reconnects + 1 && spec_progress_ok(q, limit)
        },
{
}

/// A finished fetch accounts for every pending message: those it fetched and
/// those it reports as remaining.
pub proof fn lemma_fetched_and_remaining_cover_pending(
    p: SyncProgress,
    pending_len: int,
    fetched_now: u32,
    session_broken: bool,
)
    requires
        fetched_now <= pending_len <= fetched_now + u32::MAX,
        p.total_fetched + fetched_now <= u32::MAX,
    ensures
        spec_after_fetch(p, pending_len, fetched_now, session_broken).1 matches AfterFetch::Finished(s)
            ==> s.remaining + fetched_now == pending_len && s.fetched == p.total_fetched + fetched_now,
{
}

/// Where the fetch over one connection stands: how many messages it stored,
/// where the next batch starts, and how many stored messages wait for the
/// search index.
#[derive(Debug, Clone, Copy, PartialEq, Eq, Structural)]
pub struct FetchRun {
    /// Fetched by earlier connections of the same sync call.
    pub already_fetched: u32,
    /// What progress is reported against.
    pub target_total: u32,
    /// Stored over this connection.
    pub fetched: u32,
    /// The first message of the next batch.
    pub next: usize,
    /// Stored messages not yet committed to the search index.
    pub index_waiting: usize,
}

impl FetchRun {
    /// A fetch that has done nothing yet.
    pub fn new(already_fetched: u32, target_total: u32) -> (r: FetchRun)
        ensures
            r == (FetchRun { already_fetched, target_total, fetched: 0, next: 0, index_waiting: 0 }),
    {
        FetchRun { already_fetched, target_total, fetched: 0, next: 0, index_waiting: 0 }
    }

    /// The next batch of the `items_len` messages to fetch: up to
    /// `RETR_BATCH_SIZE` of them, from where the last one ended; `None` when
    /// all were fetched.
    pub fn next_batch(&self, items_len: usize) -> (batch: Option<(usize, usize)>)
        requires
            self.next <= items_len,
        ensures
            self.next == items_len ==> batch is None,
            self.next < items_len ==> batch == Some((
                self.next,
                if items_len - self.next < RETR_BATCH_SIZE { items_len } else { (self.next + RETR_BATCH_SIZE) as usize },
            )),
    {
        if self.next >= items_len {
            return None;
        }
        let end: usize = if items_len - self.next < RETR_BATCH_SIZE {
            items_len
        } else {
            self.next + RETR_BATCH_SIZE
        };
        Some((self.next, end))
    }

    /// One message of the batch was stored; `indexed` tells whether the
    /// database took it as new, so that it waits for the search index.
    pub fn record_stored(&mut self, indexed: bool)
        requires
            old(self).fetched < u32::MAX,
            old(self).index_waiting < usize::MAX,
        ensures
            *final(self) == (FetchRun {
                fetched: (old(self).fetched + 1) as u32,
                index_waiting: if indexed { (old(self).index_waiting + 1) as usize } else { old(self).index_waiting },
                ..*old(self)
            }),
    {
        self.fetched = self.fetched + 1;
        if indexed {
            self.index_waiting = self.index_waiting + 1;
        }
    }

    /// The search index was committed: nothing waits any more.
    pub fn record_index_flushed(&mut self)
        ensures
            *final(self) == (FetchRun { index_waiting: 0, ..*old(self) }),
    {
        self.index_waiting = 0;
    }
}

/// What to do once a batch's messages are stored.
#[derive(Debug, Clone, Copy, PartialEq, Eq, Structural)]
pub struct BatchEnd {
    /// Commit the search index now: enough messages wait.
    pub flush_index: bool,
    /// Report this progress: fetched so far by the call ...
    pub progress_fetched: u32,
    /// ... against this target.
    pub progress_target: u32,
    /// Stop this connection's fetch (the connection broke); the caller
    /// commits the search index first.
    pub stop: bool,
}

/// Decides what follows a batch that ended at `batch_end`: the search index is
/// committed once `SEARCH_COMMIT_BATCH_SIZE` messages wait, progress is
/// reported, and a broken connection stops the fetch. The next batch starts at
/// `batch_end`.
pub fn finish_batch(run: &mut FetchRun, batch_end: usize, disconnected: bool) -> (e: BatchEnd)
    requires
        old(run).already_fetched + old(run).fetched <= u32::MAX,
    ensures
        *final(run) == (FetchRun { next: batch_end, ..*old(run) }),
        e == (BatchEnd {
            flush_index: old(run).index_waiting >= SEARCH_COMMIT_BATCH_SIZE,
            progress_fetched: (old(run).already_fetched + old(run).fetched) as u32,
            progress_target: old(run).target_total,
            stop: disconnected,
        }),
{
    run.next = batch_end;
    BatchEnd {
        flush_index: run.index_waiting >= SEARCH_COMMIT_BATCH_SIZE,
        progress_fetched: run.already_fetched + run.fetched,
        progress_target: run.target_total,
        stop: disconnected,
    }
}

/// What a message's outcome in a batch means.
#[derive(Debug, Clone, Copy, PartialEq, Eq, Structural)]
pub enum ItemStep {
    /// Store it and go on.
    Store,
    /// The connection broke: end the batch here.
    EndBatch,
    /// Fail the sync call with the error.
    Fail,
}

/// Decides on one message's `RETR` reply: a message is stored, a lost
/// connection ends the batch, any other error fails the call.
pub fn item_step(reply: &Result<Vec<u8>, Pop3Error>) -> (step: ItemStep)
    ensures
        reply is Ok ==> step == ItemStep::Store,
        reply matches Err(e) ==> step == (if spec_is_disconnect(*e) { ItemStep::EndBatch } else { ItemStep::Fail }),
{
    match reply {
        Ok(_) => ItemStep::Store,
        Err(e) => if is_disconnect(e) {
            ItemStep::EndBatch
        } else {
            ItemStep::Fail
        },
    }
}

/// The text indexed as a message's sender: its display name and its address,
/// each empty when absent, with a space between.
pub fn sender_text(from_name: Option<&str>, from_addr: Option<&str>) -> (text: String)
    ensures
        text@ == (match from_name { Some(n) => n@, None => Seq::<char>::empty() }) + seq![' '] + (
        match from_addr {
            Some(a) => a@,
            None => Seq::<char>::empty(),
        }),
{
    let mut text = String::new();
    match from_name {
        Some(n) => text.append(n),
        None => {},
    }
    crate::text::push_char(&mut text, ' ');
    match from_addr {
        Some(a) => text.append(a),
        None => {},
    }
    text
}

/// Batches are consecutive and at most `RETR_BATCH_SIZE` long, so a fetch
/// sends at most that many `RETR` commands before reading, and visits each
/// message once, in order.
pub proof fn lemma_batches_partition_items(next: int, items_len: int)
    requires
        0 <= next < items_len,
    ensures
        ({
            let end = if items_len - next < RETR_BATCH_SIZE { items_len } else { next + RETR_BATCH_SIZE };
            next < end <= items_len && end - next <= RETR_BATCH_SIZE
        }),
{
}

/// The progress a fetch run reports: what the call fetched before this
/// connection and what this connection stored.
pub open spec fn spec_reported(r: FetchRun) -> int {
    r.already_fetched + r.fetched
}

/// The progress reported never goes down and ends at the fetched count:
/// storing a message (within the planned number) raises it by one, finishing a batch reports it and
/// committing the index keeps it; it stays within the target while at most
/// the planned number is stored; after the connection's fetch, the call's
/// total is the last reported value, which the next connection's run starts
/// from and a finished call reports as `fetched`.
pub proof fn lemma_progress_never_goes_down(
    r: FetchRun,
    indexed: bool,
    batch_end: usize,
    disconnected: bool,
    p: SyncProgress,
    pending_len: int,
    take: int,
    broken: bool,
)
    requires
        r.already_fetched == p.total_fetched,
        r.fetched <= take <= pending_len,
        r.target_total == p.total_fetched + take,
        pending_len - r.fetched <= u32::MAX,
        p.total_fetched + take <= u32::MAX,
    ensures
        r.fetched < take ==> spec_reported(FetchRun {
            fetched: (r.fetched + 1) as u32,
            index_waiting: if indexed { (r.index_waiting + 1) as usize } else { r.index_waiting },
            ..r
        }) == spec_reported(r) + 1,
        spec_reported(FetchRun { next: batch_end, ..r }) == spec_reported(r),
        spec_reported(FetchRun { index_waiting: 0, ..r }) == spec_reported(r),
        spec_reported(r) <= r.target_total,
        spec_after_fetch(p, pending_len, r.fetched, broken).0.total_fetched == spec_reported(r),
        spec_reported(FetchRun {
            already_fetched: spec_after_fetch(p, pending_len, r.fetched, broken).0.total_fetched,
            target_total: 0,
            fetched: 0,
            next: 0,
            index_waiting: 0,
        }) == spec_reported(r),
        spec_after_fetch(p, pending_len, r.fetched, broken).1 matches AfterFetch::Finished(s) ==> s.fetched
            == spec_reported(r),
{
}

/// A fetch run stores a prefix of its items. While the stored messages are
/// the first `fetched` ones (`fetched == next`), a batch from `next` to its
/// end that stores its first `c` messages, all of them unless the
/// connection broke (a reply that is not a message ends the batch), stores
/// the messages from `fetched` to `fetched + c`, so the stored ones are again
/// the first `fetched`; a batch that did not break keeps `fetched == next`,
/// and once the last batch is done every item is stored.
pub proof fn lemma_run_stores_a_prefix(r: FetchRun, items_len: int, c: int, disconnected: bool)
    requires
        r.fetched == r.next,
        r.next < items_len <= usize::MAX,
        0 <= c <= (if items_len - r.next < RETR_BATCH_SIZE { items_len } else { r.next + RETR_BATCH_SIZE }) - r.next,
        !disconnected ==> c == (if items_len - r.next < RETR_BATCH_SIZE { items_len } else { r.next + RETR_BATCH_SIZE })
            - r.next,
        r.fetched + c <= u32::MAX,
    ensures
        ({
            let end = if items_len - r.next < RETR_BATCH_SIZE { items_len } else { r.next + RETR_BATCH_SIZE };
            let r2 = FetchRun { fetched: (r.fetched + c) as u32, next: end as usize, ..r };
            &&& r.next + c == r2.fetched
            &&& r2.fetched <= r2.next <= items_len
            &&& !disconnected ==> r2.fetched == r2.next
            &&& !disconnected && r2.next == items_len ==> r2.fetched == items_len
        }),
{
}

/// A whole sync call's counts: when a connection's fetch stored the first `f`
/// pending messages and the call finishes, `fetched` is what the call
/// stored, within its limit, and `remaining` is the number of the server's
/// messages still not stored.
pub proof fn lemma_summary_counts(
    p: SyncProgress,
    limit: Option<u32>,
    server: Seq<(u32, String)>,
    stored1: Seq<bool>,
    stored2: Seq<bool>,
    f: int,
    broken: bool,
)
    requires
        spec_progress_ok(p, limit),
        server.len() == stored1.len(),
        server.len() == stored2.len(),
        0 <= f <= spec_take(p.budget, spec_pending(server, stored1).len() as int),
        spec_pending(server, stored1).len() - f <= u32::MAX,
        p.total_fetched + f <= u32::MAX,
        forall|i: int, k: int|
            0 <= i < k < spec_pending(server, stored1).len() ==> spec_pending(server, stored1)[i].1
                != spec_pending(server, stored1)[k].1,
        forall|j: int|
            0 <= j < server.len() ==> stored2[j] == (stored1[j] || exists|i: int|
                0 <= i < f && #[trigger] spec_pending(server, stored1)[i].1 == server[j].1@),
    ensures
        spec_after_fetch(p, spec_pending(server, stored1).len() as int, f as u32, broken).1 matches AfterFetch::Finished(s)
            ==> {
            &&& s.fetched == p.total_fetched + f
            &&& s.remaining == spec_pending(server, stored2).len()
            &&& (limit matches Some(l) ==> s.fetched <= l)
        },
{
    lemma_later_sync_fetches_the_rest(server, stored1, stored2, f);
    lemma_limit_is_respected(p, limit, spec_pending(server, stored1).len() as int, f as u32, broken);
}

/// The line the command-line client prints after a sync.
pub open spec fn spec_summary_text(s: SyncSummary) -> Seq<char> {
    "fetched "@ + crate::text::spec_decimal(s.fetched as nat) + " message(s), "@ + crate::text::spec_decimal(
        s.remaining as nat,
    ) + " remaining"@ + if s.ended_early {
        " (stopped early after repeated disconnects; re-run to continue)"@
    } else {
        Seq::empty()
    }
}

/// Writes a sync summary for the command line (see `spec_summary_text`).
pub fn summary_text(summary: &SyncSummary) -> (text: String)
    ensures
        text@ == spec_summary_text(*summary),
{
    let mut text = String::from_str("fetched ");
    crate::text::push_decimal(&mut text, summary.fetched as u64);
    text.append(" message(s), ");
    crate::text::push_decimal(&mut text, summary.remaining as u64);
    text.append(" remaining");
    if summary.ended_early {
        text.append(" (stopped early after repeated disconnects; re-run to continue)");
    }
    proof {
        if !summary.ended_early {
            assert(text@ =~= spec_summary_text(*summary));
        }
    }
    text
}

} // verus!
