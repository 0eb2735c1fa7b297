//! Message metadata rows and the folders that sort them.

use vstd::prelude::*;

use crate::text::str_eq;

verus! {

#[derive(Debug, Clone, PartialEq, Eq)]
pub struct Message {
    pub id: i64,
    pub account_id: i64,
    pub uidl: String,
    pub subject: Option<String>,
    pub from_name: Option<String>,
    pub from_addr: Option<String>,
    pub to_addr: Option<String>,
    pub date_header: i64,
    pub size_bytes: i64,
    pub is_read: bool,
    pub is_flagged: bool,
    pub is_deleted: bool,
    pub is_archived: bool,
    pub snoozed_until: Option<i64>,
    pub attachment_count: i64,
    pub preview: Option<String>,
}

#[derive(Debug, Clone, Copy)]
pub struct NewMessage<'a> {
    pub account_id: i64,
    pub uidl: &'a str,
    pub message_id_header: Option<&'a str>,
    pub subject: Option<&'a str>,
    pub from_name: Option<&'a str>,
    pub from_addr: Option<&'a str>,
    pub to_addr: Option<&'a str>,
    pub date_header: i64,
    pub size_bytes: i64,
    pub attachment_count: i64,
    pub preview: Option<&'a str>,
}

/// The folders of the message list. There is no "sent" or "drafts": the
/// client only receives mail.
#[derive(Debug, Clone, Copy, PartialEq, Eq, Structural)]
pub enum Folder {
    Inbox,
    Starred,
    Snoozed,
    Archive,
    Trash,
}

/// The number of messages in each folder, for the sidebar.
#[derive(Debug, Clone, Copy, PartialEq, Eq, Structural)]
pub struct FolderCounts {
    pub inbox: i64,
    pub starred: i64,
    pub snoozed: i64,
    pub archive: i64,
    pub trash: i64,
}

impl Default for FolderCounts {
    /// No messages in any folder.
    fn default() -> (c: Self)
        ensures
            c == (FolderCounts { inbox: 0, starred: 0, snoozed: 0, archive: 0, trash: 0 }),
    {
        FolderCounts { inbox: 0, starred: 0, snoozed: 0, archive: 0, trash: 0 }
    }
}

/// The columns every message query selects, in the order the caller reads
/// them into a `Message`.
pub open spec fn spec_message_columns() -> Seq<char> {
    "id, account_id, uidl, subject, from_name, from_addr, to_addr, date_header, size_bytes, is_read, is_flagged, is_deleted, is_archived, snoozed_until, attachment_count, preview"@
}

/// The column list of message queries (see `spec_message_columns`).
pub fn message_columns() -> (cols: &'static str)
    ensures
        cols@ == spec_message_columns(),
{
    "id, account_id, uidl, subject, from_name, from_addr, to_addr, date_header, size_bytes, is_read, is_flagged, is_deleted, is_archived, snoozed_until, attachment_count, preview"
}

/// The condition that picks a folder's messages, with the values of its
/// placeholders: the inbox holds what is neither deleted nor archived nor
/// snoozed past `now`; starred, snoozed and archived exclude deleted ones;
/// the trash holds the deleted ones.
pub open spec fn spec_folder_condition(folder: Folder, now: i64) -> (Seq<char>, Seq<i64>) {
    match folder {
        Folder::Inbox => (
            "is_deleted = 0 AND is_archived = 0 AND (snoozed_until IS NULL OR snoozed_until <= ?)"@,
            seq![now],
        ),
        Folder::Starred => ("is_deleted = 0 AND is_flagged = 1"@, Seq::empty()),
        Folder::Snoozed => ("is_deleted = 0 AND snoozed_until IS NOT NULL AND snoozed_until > ?"@, seq![now]),
        Folder::Archive => ("is_deleted = 0 AND is_archived = 1"@, Seq::empty()),
        Folder::Trash => ("is_deleted = 1"@, Seq::empty()),
    }
}

/// The columns of a message row that the folder conditions read.
pub struct RowState {
    pub is_deleted: bool,
    pub is_flagged: bool,
    pub is_archived: bool,
    pub snoozed_until: Option<i64>,
}

/// Whether a simple condition ends in a placeholder (`?`), whose value comes
/// from the parameters in order.
pub open spec fn spec_takes_param(cond: Seq<char>) -> bool {
    cond.len() > 0 && cond.last() == '?'
}

/// What SQLite makes of a simple condition on a row: a flag column compared
/// with `0` or `1`, or `snoozed_until` tested for NULL or compared with the
/// value `v` of its placeholder (a comparison with NULL is not true). `None`
/// for any other text.
pub open spec fn spec_simple_holds(cond: Seq<char>, v: Option<i64>, row: RowState) -> Option<bool> {
    if cond == "is_deleted = 0"@ {
        Some(!row.is_deleted)
    } else if cond == "is_deleted = 1"@ {
        Some(row.is_deleted)
    } else if cond == "is_flagged = 0"@ {
        Some(!row.is_flagged)
    } else if cond == "is_flagged = 1"@ {
        Some(row.is_flagged)
    } else if cond == "is_archived = 0"@ {
        Some(!row.is_archived)
    } else if cond == "is_archived = 1"@ {
        Some(row.is_archived)
    } else if cond == "snoozed_until IS NULL"@ {
        Some(row.snoozed_until is None)
    } else if cond == "snoozed_until IS NOT NULL"@ {
        Some(row.snoozed_until is Some)
    } else if cond == "snoozed_until > ?"@ {
        match v {
            Some(x) => Some(row.snoozed_until is Some && row.snoozed_until->0 > x),
            None => None,
        }
    } else if cond == "snoozed_until <= ?"@ {
        match v {
            Some(x) => Some(row.snoozed_until is Some && row.snoozed_until->0 <= x),
            None => None,
        }
    } else {
        None
    }
}

/// The placeholders of a clause (simple conditions joined by OR).
pub open spec fn spec_clause_params(alts: Seq<Seq<char>>) -> nat
    decreases alts.len(),
{
    if alts.len() == 0 {
        0
    } else {
        (if spec_takes_param(alts[0]) { 1nat } else { 0nat }) + spec_clause_params(alts.drop_first())
    }
}

/// Whether a clause, simple conditions joined by OR, holds on a row, its
/// placeholders taking `params` in order (all of them).
pub open spec fn spec_clause_holds(alts: Seq<Seq<char>>, params: Seq<i64>, row: RowState) -> Option<bool>
    decreases alts.len(),
{
    if alts.len() == 0 {
        if params.len() == 0 { Some(false) } else { None }
    } else {
        let n: int = if spec_takes_param(alts[0]) { 1 } else { 0 };
        if params.len() < n {
            None
        } else {
            let v = if n == 1 { Some(params[0]) } else { None };
            match (spec_simple_holds(alts[0], v, row), spec_clause_holds(alts.drop_first(), params.skip(n), row)) {
                (Some(a), Some(b)) => Some(a || b),
                _ => None,
            }
        }
    }
}

/// Whether clauses joined by AND hold on a row, their placeholders taking
/// `params` in order (all of them).
pub open spec fn spec_conjunction_holds(clauses: Seq<Seq<Seq<char>>>, params: Seq<i64>, row: RowState) -> Option<bool>
    decreases clauses.len(),
{
    if clauses.len() == 0 {
        if params.len() == 0 { Some(true) } else { None }
    } else {
        let k = spec_clause_params(clauses[0]) as int;
        if params.len() < k {
            None
        } else {
            match (
                spec_clause_holds(clauses[0], params.take(k), row),
                spec_conjunction_holds(clauses.drop_first(), params.skip(k), row),
            ) {
                (Some(a), Some(b)) => Some(a && b),
                _ => None,
            }
        }
    }
}

/// Texts joined with a separator.
pub open spec fn spec_join_with(parts: Seq<Seq<char>>, sep: Seq<char>) -> Seq<char>
    decreases parts.len(),
{
    if parts.len() == 0 {
        Seq::empty()
    } else if parts.len() == 1 {
        parts[0]
    } else {
        parts[0] + sep + spec_join_with(parts.drop_first(), sep)
    }
}

/// The SQL text of a clause: one simple condition as it is, several joined by
/// ` OR ` in parentheses.
pub open spec fn spec_clause_text(alts: Seq<Seq<char>>) -> Seq<char> {
    if alts.len() == 1 {
        alts[0]
    } else {
        "("@ + spec_join_with(alts, " OR "@) + ")"@
    }
}

/// The SQL text of clauses joined by ` AND `.
pub open spec fn spec_conjunction_text(clauses: Seq<Seq<Seq<char>>>) -> Seq<char> {
    spec_join_with(clauses.map_values(|c: Seq<Seq<char>>| spec_clause_text(c)), " AND "@)
}

/// What each folder holds, on a row: the inbox what is neither deleted nor
/// archived nor snoozed past `now`; starred, snoozed (until after `now`) and
/// archived messages that are not deleted; the trash the deleted ones.
pub open spec fn spec_in_folder(folder: Folder, row: RowState, now: i64) -> bool {
    match folder {
        Folder::Inbox => !row.is_deleted && !row.is_archived && (row.snoozed_until is None || row.snoozed_until->0 <= now),
        Folder::Starred => !row.is_deleted && row.is_flagged,
        Folder::Snoozed => !row.is_deleted && row.snoozed_until is Some && row.snoozed_until->0 > now,
        Folder::Archive => !row.is_deleted && row.is_archived,
        Folder::Trash => row.is_deleted,
    }
}

/// The simple conditions the folders use are told apart.
proof fn lemma_simple_conditions_differ()
    ensures
        "is_deleted = 1"@ != "is_deleted = 0"@,
        "is_flagged = 1"@ != "is_deleted = 0"@,
        "is_flagged = 1"@ != "is_deleted = 1"@,
        "is_flagged = 1"@ != "is_flagged = 0"@,
        "is_archived = 0"@ != "is_deleted = 0"@,
        "is_archived = 0"@ != "is_deleted = 1"@,
        "is_archived = 0"@ != "is_flagged = 0"@,
        "is_archived = 0"@ != "is_flagged = 1"@,
        "is_archived = 1"@ != "is_deleted = 0"@,
        "is_archived = 1"@ != "is_deleted = 1"@,
        "is_archived = 1"@ != "is_flagged = 0"@,
        "is_archived = 1"@ != "is_flagged = 1"@,
        "is_archived = 1"@ != "is_archived = 0"@,
        "snoozed_until IS NULL"@.len() == 21,
        "snoozed_until IS NOT NULL"@.len() == 25,
        "snoozed_until > ?"@.len() == 17,
        "snoozed_until <= ?"@.len() == 18,
        "is_deleted = 0"@.len() == 14,
        "is_deleted = 1"@.len() == 14,
        "is_flagged = 0"@.len() == 14,
        "is_flagged = 1"@.len() == 14,
        "is_archived = 0"@.len() == 15,
        "is_archived = 1"@.len() == 15,
        !spec_takes_param("is_deleted = 0"@),
        !spec_takes_param("is_deleted = 1"@),
        !spec_takes_param("is_flagged = 1"@),
        !spec_takes_param("is_archived = 0"@),
        !spec_takes_param("is_archived = 1"@),
        !spec_takes_param("snoozed_until IS NULL"@),
        !spec_takes_param("snoozed_until IS NOT NULL"@),
        spec_takes_param("snoozed_until > ?"@),
        spec_takes_param("snoozed_until <= ?"@),
{
    reveal_strlit("is_deleted = 0");
    reveal_strlit("is_deleted = 1");
    reveal_strlit("is_flagged = 0");
    reveal_strlit("is_flagged = 1");
    reveal_strlit("is_archived = 0");
    reveal_strlit("is_archived = 1");
    reveal_strlit("snoozed_until IS NULL");
    reveal_strlit("snoozed_until IS NOT NULL");
    reveal_strlit("snoozed_until > ?");
    reveal_strlit("snoozed_until <= ?");
    assert("is_deleted = 1"@[13] != "is_deleted = 0"@[13]);
    assert("is_flagged = 1"@[3] != "is_deleted = 0"@[3]);
    assert("is_flagged = 1"@[3] != "is_deleted = 1"@[3]);
    assert("is_flagged = 1"@[13] != "is_flagged = 0"@[13]);
    assert("is_archived = 1"@[14] != "is_archived = 0"@[14]);
}

/// Three texts joined.
proof fn lemma_join3(a: Seq<char>, b: Seq<char>, c: Seq<char>, sep: Seq<char>)
    ensures
        spec_join_with(seq![a, b, c], sep) == a + sep + (b + sep + c),
        spec_join_with(seq![a, b], sep) == a + sep + b,
        spec_join_with(seq![a], sep) == a,
{
    assert(seq![a, b, c].drop_first() =~= seq![b, c]);
    assert(seq![b, c].drop_first() =~= seq![c]);
    assert(seq![a, b].drop_first() =~= seq![b]);
    assert(spec_join_with(seq![c], sep) == c);
    assert(spec_join_with(seq![b], sep) == b);
    assert(spec_join_with(seq![b, c], sep) == b + sep + c);
}

/// Each folder's condition selects exactly its messages: its text is clauses
/// of simple conditions joined by AND (and OR within parentheses), which,
/// with the condition's values in their placeholders, hold on a row exactly
/// when the row belongs to the folder; the Starred folder, for one, holds the
/// flagged messages that are not deleted.
pub proof fn lemma_folder_condition_selects_the_folder(folder: Folder, now: i64)
    ensures
        exists|clauses: Seq<Seq<Seq<char>>>|
            #[trigger] spec_conjunction_text(clauses) == spec_folder_condition(folder, now).0 && forall|row: RowState|
                #[trigger] spec_conjunction_holds(clauses, spec_folder_condition(folder, now).1, row) == Some(
                    spec_in_folder(folder, row, now),
                ),
{
    lemma_simple_conditions_differ();
    reveal_strlit(" AND ");
    reveal_strlit(" OR ");
    reveal_strlit("(");
    reveal_strlit(")");
    reveal_strlit("is_deleted = 0");
    reveal_strlit("is_deleted = 1");
    reveal_strlit("is_flagged = 1");
    reveal_strlit("is_archived = 0");
    reveal_strlit("is_archived = 1");
    reveal_strlit("snoozed_until IS NULL");
    reveal_strlit("snoozed_until IS NOT NULL");
    reveal_strlit("snoozed_until > ?");
    reveal_strlit("snoozed_until <= ?");
    reveal_strlit("is_deleted = 0 AND is_archived = 0 AND (snoozed_until IS NULL OR snoozed_until <= ?)");
    reveal_strlit("is_deleted = 0 AND is_flagged = 1");
    reveal_strlit("is_deleted = 0 AND snoozed_until IS NOT NULL AND snoozed_until > ?");
    reveal_strlit("is_deleted = 0 AND is_archived = 1");
    let f = |c: Seq<Seq<char>>| spec_clause_text(c);
    let cond = spec_folder_condition(folder, now);
    let one = |x: Seq<char>| seq![x];
    match folder {
        Folder::Inbox => {
            let or = seq!["snoozed_until IS NULL"@, "snoozed_until <= ?"@];
            let clauses = seq![one("is_deleted = 0"@), one("is_archived = 0"@), or];
            lemma_join3("snoozed_until IS NULL"@, "snoozed_until <= ?"@, "snoozed_until <= ?"@, " OR "@);
            assert(clauses.map_values(f) =~= seq!["is_deleted = 0"@, "is_archived = 0"@, "("@ + ("snoozed_until IS NULL"@ + " OR "@ + "snoozed_until <= ?"@) + ")"@]);
            lemma_join3("is_deleted = 0"@, "is_archived = 0"@, "("@ + ("snoozed_until IS NULL"@ + " OR "@ + "snoozed_until <= ?"@) + ")"@, " AND "@);
            assert(spec_conjunction_text(clauses) =~= cond.0);
            assert forall|row: RowState| #[trigger] spec_conjunction_holds(clauses, cond.1, row) == Some(
                spec_in_folder(folder, row, now),
            ) by {
                assert(clauses.drop_first() =~= seq![one("is_archived = 0"@), or]);
                assert(clauses.drop_first().drop_first() =~= seq![or]);
                assert(clauses.drop_first().drop_first().drop_first() =~= Seq::<Seq<Seq<char>>>::empty());
                assert(or.drop_first() =~= seq!["snoozed_until <= ?"@]);
                assert(or.drop_first().drop_first() =~= Seq::<Seq<char>>::empty());
                assert(one("is_deleted = 0"@).drop_first() =~= Seq::<Seq<char>>::empty());
                assert(one("is_archived = 0"@).drop_first() =~= Seq::<Seq<char>>::empty());
                let ps = seq![now];
                assert(ps.take(0) =~= Seq::<i64>::empty());
                assert(ps.skip(0) =~= ps);
                assert(ps.take(1) =~= ps);
                assert(ps.skip(1) =~= Seq::<i64>::empty());
                assert(Seq::<i64>::empty().take(0) =~= Seq::<i64>::empty());
                assert(Seq::<i64>::empty().skip(0) =~= Seq::<i64>::empty());
                reveal_with_fuel(spec_clause_params, 3);
                reveal_with_fuel(spec_clause_holds, 3);
                reveal_with_fuel(spec_conjunction_holds, 4);
            }
            assert(spec_conjunction_text(clauses) == cond.0);
        },
        Folder::Starred => {
            let clauses = seq![one("is_deleted = 0"@), one("is_flagged = 1"@)];
            assert(clauses.map_values(f) =~= seq!["is_deleted = 0"@, "is_flagged = 1"@]);
            lemma_join3("is_deleted = 0"@, "is_flagged = 1"@, "is_flagged = 1"@, " AND "@);
            assert(spec_conjunction_text(clauses) =~= cond.0);
            assert forall|row: RowState| #[trigger] spec_conjunction_holds(clauses, cond.1, row) == Some(
                spec_in_folder(folder, row, now),
            ) by {
                assert(clauses.drop_first() =~= seq![one("is_flagged = 1"@)]);
                assert(clauses.drop_first().drop_first() =~= Seq::<Seq<Seq<char>>>::empty());
                assert(one("is_deleted = 0"@).drop_first() =~= Seq::<Seq<char>>::empty());
                assert(one("is_flagged = 1"@).drop_first() =~= Seq::<Seq<char>>::empty());
                assert(Seq::<i64>::empty().take(0) =~= Seq::<i64>::empty());
                assert(Seq::<i64>::empty().skip(0) =~= Seq::<i64>::empty());
                reveal_with_fuel(spec_clause_params, 2);
                reveal_with_fuel(spec_clause_holds, 2);
                reveal_with_fuel(spec_conjunction_holds, 3);
            }
        },
        Folder::Snoozed => {
            let clauses = seq![one("is_deleted = 0"@), one("snoozed_until IS NOT NULL"@), one("snoozed_until > ?"@)];
            assert(clauses.map_values(f) =~= seq!["is_deleted = 0"@, "snoozed_until IS NOT NULL"@, "snoozed_until > ?"@]);
            lemma_join3("is_deleted = 0"@, "snoozed_until IS NOT NULL"@, "snoozed_until > ?"@, " AND "@);
            assert(spec_conjunction_text(clauses) =~= cond.0);
            assert forall|row: RowState| #[trigger] spec_conjunction_holds(clauses, cond.1, row) == Some(
                spec_in_folder(folder, row, now),
            ) by {
                assert(clauses.drop_first() =~= seq![one("snoozed_until IS NOT NULL"@), one("snoozed_until > ?"@)]);
                assert(clauses.drop_first().drop_first() =~= seq![one("snoozed_until > ?"@)]);
                assert(clauses.drop_first().drop_first().drop_first() =~= Seq::<Seq<Seq<char>>>::empty());
                assert(one("is_deleted = 0"@).drop_first() =~= Seq::<Seq<char>>::empty());
                assert(one("snoozed_until IS NOT NULL"@).drop_first() =~= Seq::<Seq<char>>::empty());
                assert(one("snoozed_until > ?"@).drop_first() =~= Seq::<Seq<char>>::empty());
                let ps = seq![now];
                assert(ps.take(0) =~= Seq::<i64>::empty());
                assert(ps.skip(0) =~= ps);
                assert(ps.take(1) =~= ps);
                assert(ps.skip(1) =~= Seq::<i64>::empty());
                assert(Seq::<i64>::empty().take(0) =~= Seq::<i64>::empty());
                assert(Seq::<i64>::empty().skip(0) =~= Seq::<i64>::empty());
                reveal_with_fuel(spec_clause_params, 2);
                reveal_with_fuel(spec_clause_holds, 2);
                reveal_with_fuel(spec_conjunction_holds, 4);
            }
        },
        Folder::Archive => {
            let clauses = seq![one("is_deleted = 0"@), one("is_archived = 1"@)];
            assert(clauses.map_values(f) =~= seq!["is_deleted = 0"@, "is_archived = 1"@]);
            lemma_join3("is_deleted = 0"@, "is_archived = 1"@, "is_archived = 1"@, " AND "@);
            assert(spec_conjunction_text(clauses) =~= cond.0);
            assert forall|row: RowState| #[trigger] spec_conjunction_holds(clauses, cond.1, row) == Some(
                spec_in_folder(folder, row, now),
            ) by {
                assert(clauses.drop_first() =~= seq![one("is_archived = 1"@)]);
                assert(clauses.drop_first().drop_first() =~= Seq::<Seq<Seq<char>>>::empty());
                assert(one("is_deleted = 0"@).drop_first() =~= Seq::<Seq<char>>::empty());
                assert(one("is_archived = 1"@).drop_first() =~= Seq::<Seq<char>>::empty());
                assert(Seq::<i64>::empty().take(0) =~= Seq::<i64>::empty());
                assert(Seq::<i64>::empty().skip(0) =~= Seq::<i64>::empty());
                reveal_with_fuel(spec_clause_params, 2);
                reveal_with_fuel(spec_clause_holds, 2);
                reveal_with_fuel(spec_conjunction_holds, 3);
            }
        },
        Folder::Trash => {
            let clauses = seq![one("is_deleted = 1"@)];
            assert(clauses.map_values(f) =~= seq!["is_deleted = 1"@]);
            lemma_join3("is_deleted = 1"@, "is_deleted = 1"@, "is_deleted = 1"@, " AND "@);
            assert(spec_conjunction_text(clauses) =~= cond.0);
            assert forall|row: RowState| #[trigger] spec_conjunction_holds(clauses, cond.1, row) == Some(
                spec_in_folder(folder, row, now),
            ) by {
                assert(clauses.drop_first() =~= Seq::<Seq<Seq<char>>>::empty());
                assert(one("is_deleted = 1"@).drop_first() =~= Seq::<Seq<char>>::empty());
                assert(Seq::<i64>::empty().take(0) =~= Seq::<i64>::empty());
                assert(Seq::<i64>::empty().skip(0) =~= Seq::<i64>::empty());
                reveal_with_fuel(spec_clause_params, 2);
                reveal_with_fuel(spec_clause_holds, 2);
                reveal_with_fuel(spec_conjunction_holds, 2);
            }
        },
    }
}

/// Appends a folder's condition (see `spec_folder_condition`) to a query that
/// ends in `WHERE `, and its values to the parameters.
pub fn append_folder_condition(sql: &mut String, params: &mut Vec<i64>, folder: Folder, now: i64)
    ensures
        final(sql)@ == old(sql)@ + spec_folder_condition(folder, now).0,
        final(params)@ == old(params)@ + spec_folder_condition(folder, now).1,
{
    let ghost p0 = params@;
    match folder {
        Folder::Inbox => {
            sql.append("is_deleted = 0 AND is_archived = 0 AND (snoozed_until IS NULL OR snoozed_until <= ?)");
            params.push(now);
        },
        Folder::Starred => {
            sql.append("is_deleted = 0 AND is_flagged = 1");
        },
        Folder::Snoozed => {
            sql.append("is_deleted = 0 AND snoozed_until IS NOT NULL AND snoozed_until > ?");
            params.push(now);
        },
        Folder::Archive => {
            sql.append("is_deleted = 0 AND is_archived = 1");
        },
        Folder::Trash => {
            sql.append("is_deleted = 1");
        },
    }
    proof {
        assert(params@ =~= p0 + spec_folder_condition(folder, now).1);
    }
}

/// The optional filters of the list queries: by account, and older than a
/// cursor date; a filter not asked for adds nothing to the query.
pub open spec fn spec_list_filters(account_id: Option<i64>, before: Option<i64>) -> (Seq<char>, Seq<i64>) {
    let (a_sql, a_params) = match account_id {
        Some(id) => (" AND account_id = ?"@, seq![id]),
        None => (Seq::empty(), Seq::empty()),
    };
    let (b_sql, b_params) = match before {
        Some(cursor) => (" AND date_header < ?"@, seq![cursor]),
        None => (Seq::empty(), Seq::empty()),
    };
    (a_sql + b_sql, a_params + b_params)
}

fn append_list_filters(sql: &mut String, params: &mut Vec<i64>, account_id: Option<i64>, before: Option<i64>)
    ensures
        final(sql)@ == old(sql)@ + spec_list_filters(account_id, before).0,
        final(params)@ == old(params)@ + spec_list_filters(account_id, before).1,
{
    let ghost s0 = sql@;
    let ghost p0 = params@;
    match account_id {
        Some(id) => {
            sql.append(" AND account_id = ?");
            params.push(id);
        },
        None => {},
    }
    match before {
        Some(cursor) => {
            sql.append(" AND date_header < ?");
            params.push(cursor);
        },
        None => {},
    }
    proof {
        assert(sql@ =~= s0 + spec_list_filters(account_id, before).0);
        assert(params@ =~= p0 + spec_list_filters(account_id, before).1);
    }
}

/// The newest messages that are not deleted, optionally of one account and
/// older than a cursor, newest first, at most `limit`: the query and the
/// values of its placeholders in order.
pub open spec fn spec_list_recent_query(account_id: Option<i64>, before: Option<i64>, limit: u32) -> (Seq<char>, Seq<i64>) {
    (
        "SELECT "@ + spec_message_columns() + " FROM messages WHERE is_deleted = 0"@ + spec_list_filters(
            account_id,
            before,
        ).0 + " ORDER BY date_header DESC LIMIT ?"@,
        spec_list_filters(account_id, before).1.push(limit as i64),
    )
}

/// Builds the query of the recent-messages list (see
/// `spec_list_recent_query`). Filters are added to the text only when asked
/// for, so that SQLite can use its indexes.
pub fn build_list_recent_query(account_id: Option<i64>, before: Option<i64>, limit: u32) -> (q: (String, Vec<i64>))
    ensures
        q.0@ == spec_list_recent_query(account_id, before, limit).0,
        q.1@ == spec_list_recent_query(account_id, before, limit).1,
{
    let mut sql = String::from_str("SELECT ");
    sql.append(message_columns());
    sql.append(" FROM messages WHERE is_deleted = 0");
    let mut params: Vec<i64> = Vec::new();
    append_list_filters(&mut sql, &mut params, account_id, before);
    sql.append(" ORDER BY date_header DESC LIMIT ?");
    params.push(limit as i64);
    proof {
        assert(params@ =~= spec_list_filters(account_id, before).1.push(limit as i64));
    }
    (sql, params)
}

/// A folder's messages, optionally of one account and older than a cursor,
/// newest first, at most `limit`.
pub open spec fn spec_folder_query(
    folder: Folder,
    account_id: Option<i64>,
    before: Option<i64>,
    limit: u32,
    now: i64,
) -> (Seq<char>, Seq<i64>) {
    (
        "SELECT "@ + spec_message_columns() + " FROM messages WHERE "@ + spec_folder_condition(folder, now).0
            + spec_list_filters(account_id, before).0 + " ORDER BY date_header DESC LIMIT ?"@,
        (spec_folder_condition(folder, now).1 + spec_list_filters(account_id, before).1).push(limit as i64),
    )
}

/// Builds the query of a folder's list (see `spec_folder_query`).
pub fn build_folder_query(
    folder: Folder,
    account_id: Option<i64>,
    before: Option<i64>,
    limit: u32,
    now: i64,
) -> (q: (String, Vec<i64>))
    ensures
        q.0@ == spec_folder_query(folder, account_id, before, limit, now).0,
        q.1@ == spec_folder_query(folder, account_id, before, limit, now).1,
{
    let mut sql = String::from_str("SELECT ");
    sql.append(message_columns());
    sql.append(" FROM messages WHERE ");
    let mut params: Vec<i64> = Vec::new();
    append_folder_condition(&mut sql, &mut params, folder, now);
    append_list_filters(&mut sql, &mut params, account_id, before);
    sql.append(" ORDER BY date_header DESC LIMIT ?");
    params.push(limit as i64);
    proof {
        assert(params@ =~= (spec_folder_condition(folder, now).1 + spec_list_filters(account_id, before).1).push(
            limit as i64,
        ));
    }
    (sql, params)
}

/// The count of a folder's messages, optionally of one account.
pub open spec fn spec_folder_count_query(folder: Folder, account_id: Option<i64>, now: i64) -> (Seq<char>, Seq<i64>) {
    (
        "SELECT COUNT(*) FROM messages WHERE "@ + spec_folder_condition(folder, now).0
            + spec_list_filters(account_id, None).0,
        spec_folder_condition(folder, now).1 + spec_list_filters(account_id, None).1,
    )
}

/// Builds the query that counts a folder's messages (see
/// `spec_folder_count_query`).
pub fn build_folder_count_query(folder: Folder, account_id: Option<i64>, now: i64) -> (q: (String, Vec<i64>))
    ensures
        q.0@ == spec_folder_count_query(folder, account_id, now).0,
        q.1@ == spec_folder_count_query(folder, account_id, now).1,
{
    let mut sql = String::from_str("SELECT COUNT(*) FROM messages WHERE ");
    let mut params: Vec<i64> = Vec::new();
    append_folder_condition(&mut sql, &mut params, folder, now);
    append_list_filters(&mut sql, &mut params, account_id, None);
    (sql, params)
}

/// The messages with a label that are not deleted, older than a cursor when
/// given, newest first, at most `limit`.
pub open spec fn spec_label_query(label_id: i64, before: Option<i64>, limit: u32) -> (Seq<char>, Seq<i64>) {
    let (b_sql, b_params) = match before {
        Some(cursor) => (" AND messages.date_header < ?"@, seq![cursor]),
        None => (Seq::empty(), Seq::empty()),
    };
    (
        "SELECT "@ + spec_message_columns()
            + " FROM messages\n         JOIN message_labels ON message_labels.message_id = messages.id\n         WHERE message_labels.label_id = ? AND messages.is_deleted = 0"@
            + b_sql + " ORDER BY messages.date_header DESC LIMIT ?"@,
        (seq![label_id] + b_params).push(limit as i64),
    )
}

/// Builds the query of a label's list (see `spec_label_query`).
pub fn build_label_query(label_id: i64, before: Option<i64>, limit: u32) -> (q: (String, Vec<i64>))
    ensures
        q.0@ == spec_label_query(label_id, before, limit).0,
        q.1@ == spec_label_query(label_id, before, limit).1,
{
    let mut sql = String::from_str("SELECT ");
    sql.append(message_columns());
    sql.append(
        " FROM messages\n         JOIN message_labels ON message_labels.message_id = messages.id\n         WHERE message_labels.label_id = ? AND messages.is_deleted = 0",
    );
    let mut params: Vec<i64> = Vec::new();
    params.push(label_id);
    let ghost s1 = sql@;
    match before {
        Some(cursor) => {
            sql.append(" AND messages.date_header < ?");
            params.push(cursor);
        },
        None => {},
    }
    let ghost s2 = sql@;
    sql.append(" ORDER BY messages.date_header DESC LIMIT ?");
    params.push(limit as i64);
    proof {
        let b = match before {
            Some(cursor) => (" AND messages.date_header < ?"@, seq![cursor]),
            None => (Seq::<char>::empty(), Seq::<i64>::empty()),
        };
        assert(s2 =~= s1 + b.0);
        assert(params@ =~= (seq![label_id] + b.1).push(limit as i64));
    }
    (sql, params)
}

/// Puts a folder's count in its place.
pub fn set_folder_count(counts: &mut FolderCounts, folder: Folder, count: i64)
    ensures
        *final(counts) == (match folder {
            Folder::Inbox => FolderCounts { inbox: count, ..*old(counts) },
            Folder::Starred => FolderCounts { starred: count, ..*old(counts) },
            Folder::Snoozed => FolderCounts { snoozed: count, ..*old(counts) },
            Folder::Archive => FolderCounts { archive: count, ..*old(counts) },
            Folder::Trash => FolderCounts { trash: count, ..*old(counts) },
        }),
{
    match folder {
        Folder::Inbox => counts.inbox = count,
        Folder::Starred => counts.starred = count,
        Folder::Snoozed => counts.snoozed = count,
        Folder::Archive => counts.archive = count,
        Folder::Trash => counts.trash = count,
    }
}

/// The folder a name stands for: `inbox`, `starred`, `snoozed`, `archive`
/// or `trash`.
pub open spec fn spec_parse_folder(name: Seq<char>) -> Option<Folder> {
    if name == "inbox"@ {
        Some(Folder::Inbox)
    } else if name == "starred"@ {
        Some(Folder::Starred)
    } else if name == "snoozed"@ {
        Some(Folder::Snoozed)
    } else if name == "archive"@ {
        Some(Folder::Archive)
    } else if name == "trash"@ {
        Some(Folder::Trash)
    } else {
        None
    }
}

/// Reads a folder's name as the interface sends it; an unknown name is an
/// error that quotes it.
pub fn parse_folder(folder: &str) -> (r: Result<Folder, String>)
    ensures
        spec_parse_folder(folder@) matches Some(f) ==> r == Ok::<Folder, String>(f),
        spec_parse_folder(folder@) is None ==> (r matches Err(m) && m@ == "unknown folder: "@ + folder@),
{
    if str_eq(folder, "inbox") {
        Ok(Folder::Inbox)
    } else if str_eq(folder, "starred") {
        Ok(Folder::Starred)
    } else if str_eq(folder, "snoozed") {
        Ok(Folder::Snoozed)
    } else if str_eq(folder, "archive") {
        Ok(Folder::Archive)
    } else if str_eq(folder, "trash") {
        Ok(Folder::Trash)
    } else {
        let mut m = String::from_str("unknown folder: ");
        m.append(folder);
        Err(m)
    }
}

} // verus!
