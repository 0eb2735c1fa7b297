//! Changes of a message's state that reach beyond the database: deleting
//! also touches the search index, and purging expired mail removes the file
//! as well. The caller performs the steps; what may be removed is decided
//! here.

use vstd::prelude::*;

verus! {

/// Why a message action failed, with the message of the failure.
#[derive(Debug, Clone, PartialEq, Eq)]
pub enum MessageActionError {
    Db(String),
    Search(String),
}

/// How many expired messages one purge call handles.
pub const PURGE_BATCH_SIZE: u32 = 500;

/// A message that a purge may consider: its id, its date and whether it is
/// starred.
#[derive(Debug, Clone, Copy, PartialEq, Eq, Structural)]
pub struct PurgeCandidate {
    pub id: i64,
    pub date_header: i64,
    pub is_flagged: bool,
}

/// A message past the retention period: older than the cutoff and not
/// starred (starred messages are kept however old).
pub open spec fn spec_is_expired(c: PurgeCandidate, cutoff: i64) -> bool {
    c.date_header < cutoff && !c.is_flagged
}

/// The ids of the expired messages among `cs`, in order.
pub open spec fn spec_expired_ids(cs: Seq<PurgeCandidate>, cutoff: i64) -> Seq<i64>
    decreases cs.len(),
{
    if cs.len() == 0 {
        Seq::empty()
    } else {
        let rest = spec_expired_ids(cs.drop_last(), cutoff);
        if spec_is_expired(cs.last(), cutoff) {
            rest.push(cs.last().id)
        } else {
            rest
        }
    }
}

/// What one purge call takes: the first `limit` expired messages, in order.
pub open spec fn spec_select_expired(cs: Seq<PurgeCandidate>, cutoff: i64, limit: nat) -> Seq<i64> {
    let all = spec_expired_ids(cs, cutoff);
    if all.len() <= limit {
        all
    } else {
        all.take(limit as int)
    }
}

/// Picks the messages one purge call handles among the candidates the
/// database listed (oldest first): the expired ones, at most `limit` (see
/// `spec_select_expired`).
pub fn select_expired(cs: &[PurgeCandidate], cutoff: i64, limit: u32) -> (ids: Vec<i64>)
    ensures
        ids@ == spec_select_expired(cs@, cutoff, limit as nat),
{
    let mut out: Vec<i64> = Vec::new();
    let mut i: usize = 0;
    while i < cs.len()
        invariant
            i <= cs@.len(),
            out@ == spec_select_expired(cs@.subrange(0, i as int), cutoff, limit as nat),
        decreases cs@.len() - i,
    {
        let ghost prefix = cs@.subrange(0, i as int);
        proof {
            assert(cs@.subrange(0, i + 1).drop_last() =~= prefix);
        }
        let c = cs[i];
        if c.date_header < cutoff && !c.is_flagged && out.len() < limit as usize {
            out.push(c.id);
            proof {
                assert(out@ =~= spec_select_expired(cs@.subrange(0, i + 1), cutoff, limit as nat));
            }
        } else {
            proof {
                let all = spec_expired_ids(prefix, cutoff);
                if spec_is_expired(c, cutoff) {
                    assert(all.push(c.id).take(limit as int) =~= all.take(limit as int));
                }
            }
        }
        i = i + 1;
    }
    proof {
        assert(cs@.subrange(0, cs@.len() as int) =~= cs@);
    }
    out
}

/// Every expired id names an expired candidate.
proof fn lemma_expired_ids_are_expired(cs: Seq<PurgeCandidate>, cutoff: i64, k: int)
    requires
        0 <= k < spec_expired_ids(cs, cutoff).len(),
    ensures
        exists|j: int| 0 <= j < cs.len() && spec_is_expired(cs[j], cutoff) && cs[j].id == spec_expired_ids(cs, cutoff)[k],
    decreases cs.len(),
{
    let rest = spec_expired_ids(cs.drop_last(), cutoff);
    if k < rest.len() {
        lemma_expired_ids_are_expired(cs.drop_last(), cutoff, k);
        let j = choose|j: int|
            0 <= j < cs.drop_last().len() && spec_is_expired(cs.drop_last()[j], cutoff) && cs.drop_last()[j].id == rest[k];
        assert(cs[j] == cs.drop_last()[j]);
    } else {
        let j = cs.len() - 1;
        assert(spec_is_expired(cs[j], cutoff) && cs[j].id == spec_expired_ids(cs, cutoff)[k]);
    }
}

/// A purge call removes only unstarred messages older than the cutoff, at
/// most `limit` of them: what it selects is at most `limit` ids of expired
/// candidates, and what it removes is among what it selected.
pub proof fn lemma_purge_removes_only_unstarred_expired(
    cs: Seq<PurgeCandidate>,
    cutoff: i64,
    limit: nat,
    whole_batch_ok: bool,
    item_ok: Seq<bool>,
    k: int,
)
    requires
        !whole_batch_ok ==> item_ok.len() == spec_select_expired(cs, cutoff, limit).len(),
        0 <= k < spec_removable(spec_select_expired(cs, cutoff, limit), whole_batch_ok, item_ok).len(),
    ensures
        spec_select_expired(cs, cutoff, limit).len() <= limit,
        spec_removable(spec_select_expired(cs, cutoff, limit), whole_batch_ok, item_ok).len() <= limit,
        exists|j: int|
            0 <= j < cs.len() && spec_is_expired(cs[j], cutoff) && cs[j].id == spec_removable(
                spec_select_expired(cs, cutoff, limit),
                whole_batch_ok,
                item_ok,
            )[k],
{
    let sel = spec_select_expired(cs, cutoff, limit);
    let all = spec_expired_ids(cs, cutoff);
    let rem = spec_removable(sel, whole_batch_ok, item_ok);
    lemma_removable_len(sel, item_ok);
    let i: int = if whole_batch_ok {
        k
    } else {
        lemma_removed_only_when_unindexed(sel, item_ok, k);
        choose|i: int| 0 <= i < sel.len() && item_ok[i] && sel[i] == #[trigger] rem[k]
    };
    assert(sel[i] == rem[k]);
    assert(sel[i] == all[i]);
    lemma_expired_ids_are_expired(cs, cutoff, i);
}

/// What is removable is never more than what was selected.
proof fn lemma_removable_len(ids: Seq<i64>, item_ok: Seq<bool>)
    ensures
        spec_removable(ids, false, item_ok).len() <= ids.len(),
    decreases ids.len(),
{
    if ids.len() > 0 && item_ok.len() == ids.len() {
        lemma_removable_len(ids.drop_last(), item_ok.drop_last());
    }
}

/// The expired messages that may go from disk and database: all of them when
/// the search index dropped the whole batch, else those the index dropped
/// one by one. A message still in the index stays, so that a later call can
/// try again.
pub open spec fn spec_removable(ids: Seq<i64>, whole_batch_ok: bool, item_ok: Seq<bool>) -> Seq<i64>
    decreases ids.len(),
{
    if whole_batch_ok {
        ids
    } else if ids.len() == 0 || item_ok.len() != ids.len() {
        Seq::empty()
    } else {
        let rest = spec_removable(ids.drop_last(), false, item_ok.drop_last());
        if item_ok.last() {
            rest.push(ids.last())
        } else {
            rest
        }
    }
}

/// Picks the expired messages (by id, oldest first) that may be removed
/// after the search index was asked to drop them (see `spec_removable`);
/// `item_ok` holds the one-by-one results and is read only when the whole
/// batch failed.
pub fn removable_ids(ids: &[i64], whole_batch_ok: bool, item_ok: &[bool]) -> (removable: Vec<i64>)
    requires
        !whole_batch_ok ==> item_ok@.len() == ids@.len(),
    ensures
        removable@ == spec_removable(ids@, whole_batch_ok, item_ok@),
{
    let mut out: Vec<i64> = Vec::new();
    if whole_batch_ok {
        let mut i: usize = 0;
        while i < ids.len()
            invariant
                i <= ids@.len(),
                out@ == ids@.subrange(0, i as int),
            decreases ids@.len() - i,
        {
            out.push(ids[i]);
            i = i + 1;
            proof {
                assert(out@ =~= ids@.subrange(0, i as int));
            }
        }
        proof {
            assert(ids@.subrange(0, ids@.len() as int) =~= ids@);
        }
        return out;
    }
    let mut i: usize = 0;
    while i < ids.len()
        invariant
            item_ok@.len() == ids@.len(),
            i <= ids@.len(),
            out@ == spec_removable(ids@.subrange(0, i as int), false, item_ok@.subrange(0, i as int)),
        decreases ids@.len() - i,
    {
        proof {
            assert(ids@.subrange(0, i + 1).drop_last() =~= ids@.subrange(0, i as int));
            assert(item_ok@.subrange(0, i + 1).drop_last() =~= item_ok@.subrange(0, i as int));
        }
        if item_ok[i] {
            out.push(ids[i]);
        }
        i = i + 1;
    }
    proof {
        assert(ids@.subrange(0, ids@.len() as int) =~= ids@);
        assert(item_ok@.subrange(0, item_ok@.len() as int) =~= item_ok@);
    }
    out
}

/// Nothing leaves the disk or the database while it is still in the search
/// index: every removable id is one of the expired ones, and when the whole
/// batch failed, one whose own removal from the index succeeded.
pub proof fn lemma_removed_only_when_unindexed(ids: Seq<i64>, item_ok: Seq<bool>, k: int)
    requires
        item_ok.len() == ids.len(),
        0 <= k < spec_removable(ids, false, item_ok).len(),
    ensures
        exists|i: int| 0 <= i < ids.len() && item_ok[i] && ids[i] == #[trigger] spec_removable(ids, false, item_ok)[k],
    decreases ids.len(),
{
    let rest = spec_removable(ids.drop_last(), false, item_ok.drop_last());
    if k < rest.len() {
        lemma_removed_only_when_unindexed(ids.drop_last(), item_ok.drop_last(), k);
        let i = choose|i: int| 0 <= i < ids.drop_last().len() && item_ok.drop_last()[i] && ids.drop_last()[i] == #[trigger] rest[k];
        assert(ids[i] == ids.drop_last()[i]);
        assert(item_ok[i] == item_ok.drop_last()[i]);
        assert(spec_removable(ids, false, item_ok)[k] == rest[k]);
    } else {
        let i = ids.len() - 1;
        assert(spec_removable(ids, false, item_ok)[k] == ids[i]);
    }
}

} // verus!
