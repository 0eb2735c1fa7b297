//! Coloured labels (tags), shared by all accounts; many-to-many with messages.

use vstd::prelude::*;

use std::collections::HashMap;

verus! {

#[derive(Debug, Clone, PartialEq, Eq)]
pub struct Label {
    pub id: i64,
    pub name: String,
    pub color: String,
}

#[derive(Debug, Clone, PartialEq, Eq)]
pub struct LabelWithCount {
    pub label: Label,
    pub count: i64,
}

/// The labels of message `id` among the rows `(message id, label)`, in the
/// rows' order.
pub open spec fn spec_labels_of(rows: Seq<(i64, Label)>, id: i64) -> Seq<Label>
    decreases rows.len(),
{
    if rows.len() == 0 {
        Seq::empty()
    } else {
        let rest = spec_labels_of(rows.drop_last(), id);
        if rows.last().0 == id {
            rest.push(rows.last().1)
        } else {
            rest
        }
    }
}

/// Groups the rows `(message id, label)` of one query by message: a message
/// has an entry exactly when a row names it, holding its labels in the rows'
/// order.
pub fn group_by_message(rows: Vec<(i64, Label)>) -> (map: HashMap<i64, Vec<Label>>)
    ensures
        forall|id: i64| #[trigger] map@.contains_key(id) <==> spec_labels_of(rows@, id).len() > 0,
        forall|id: i64| #[trigger] map@.contains_key(id) ==> map@[id]@ == spec_labels_of(rows@, id),
{
    broadcast use vstd::std_specs::hash::group_hash_axioms;
    let ghost all = rows@;
    let mut rows = rows;
    let mut map: HashMap<i64, Vec<Label>> = HashMap::new();
    let ghost mut done: int = 0;
    while rows.len() > 0
        invariant
            0 <= done,
            done + rows@.len() == all.len(),
            rows@ == all.skip(done),
            forall|id: i64| #[trigger] map@.contains_key(id) <==> spec_labels_of(all.subrange(0, done), id).len() > 0,
            forall|id: i64| #[trigger] map@.contains_key(id) ==> map@[id]@ == spec_labels_of(all.subrange(0, done), id),
        decreases rows@.len(),
    {
        let (id, label) = rows.remove(0);
        proof {
            assert(all.subrange(0, done + 1).drop_last() =~= all.subrange(0, done));
            assert(all.subrange(0, done + 1).last() == (id, label));
        }
        let existing = map.remove(&id);
        let labels = match existing {
            Some(mut v) => {
                v.push(label);
                v
            },
            None => {
                let mut v: Vec<Label> = Vec::new();
                v.push(label);
                v
            },
        };
        map.insert(id, labels);
        proof {
            done = done + 1;
            assert(rows@ =~= all.skip(done));
        }
    }
    proof {
        assert(all.subrange(0, all.len() as int) =~= all);
    }
    map
}

/// `?` placeholders for `n` values, separated by commas.
pub open spec fn spec_placeholders(n: nat) -> Seq<char>
    decreases n,
{
    if n == 0 {
        Seq::empty()
    } else if n == 1 {
        seq!['?']
    } else {
        spec_placeholders((n - 1) as nat) + seq![',', '?']
    }
}

/// The labels of several messages at once: one row `(message id, label id,
/// name, colour)` per label of each message.
pub open spec fn spec_for_messages_query(message_ids: Seq<i64>) -> (Seq<char>, Seq<i64>) {
    (
        "SELECT message_labels.message_id, labels.id, labels.name, labels.color\n         FROM message_labels JOIN labels ON labels.id = message_labels.label_id\n         WHERE message_labels.message_id IN ("@
            + spec_placeholders(message_ids.len()) + seq![')'],
        message_ids,
    )
}

/// Builds the query that reads the labels of several messages in one go (see
/// `spec_for_messages_query`); the caller skips it for no messages.
pub fn build_for_messages_query(message_ids: &[i64]) -> (q: (String, Vec<i64>))
    ensures
        q.0@ == spec_for_messages_query(message_ids@).0,
        q.1@ == spec_for_messages_query(message_ids@).1,
{
    let mut sql = String::from_str(
        "SELECT message_labels.message_id, labels.id, labels.name, labels.color\n         FROM message_labels JOIN labels ON labels.id = message_labels.label_id\n         WHERE message_labels.message_id IN (",
    );
    let ghost head = sql@;
    let mut params: Vec<i64> = Vec::new();
    let mut i: usize = 0;
    while i < message_ids.len()
        invariant
            i <= message_ids@.len(),
            sql@ == head + spec_placeholders(i as nat),
            params@ == message_ids@.subrange(0, i as int),
        decreases message_ids@.len() - i,
    {
        if i > 0 {
            crate::text::push_char(&mut sql, ',');
        }
        crate::text::push_char(&mut sql, '?');
        params.push(message_ids[i]);
        i = i + 1;
        proof {
            assert(params@ =~= message_ids@.subrange(0, i as int));
            if i == 1 {
                assert(sql@ =~= head + spec_placeholders(1));
            } else {
                assert(sql@ =~= head + spec_placeholders(i as nat));
            }
        }
    }
    crate::text::push_char(&mut sql, ')');
    proof {
        assert(params@ =~= message_ids@);
    }
    (sql, params)
}

} // verus!
