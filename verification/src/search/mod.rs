//! Full-text search: what is indexed for a message, and the tokenizer that
//! makes substring search work for Japanese and Latin text alike. The index
//! itself lives on disk and is kept by the caller.

use vstd::prelude::*;

pub mod cjk_tokenizer;

verus! {

/// The text of one message to index; `id` is the database id.
#[derive(Debug, Clone, Copy)]
pub struct IndexableMessage<'a> {
    pub id: i64,
    pub subject: &'a str,
    /// Display name and address together, such as `Alice alice@example.com`.
    pub from: &'a str,
    pub body: &'a str,
    /// Used to order results newest first.
    pub date_header: i64,
}

/// How many times a batch of index changes and its commit is tried before
/// the failure is returned.
pub const MAX_COMMIT_ATTEMPTS: u32 = 8;

/// The unit of the growing pause between two attempts, in milliseconds.
pub const RETRY_BASE_DELAY_MS: u64 = 300;

/// The name the bigram tokenizer is registered under, in the schema and in
/// the index.
pub const TOKENIZER_NAME: &'static str = "ferro_cjk_bigram";

/// The database's marks of what is in the index cannot be trusted when it
/// counts more indexed messages than the index holds documents (the index
/// was rebuilt for a new schema or deleted): then every message must be
/// marked for indexing again. Comparing the counts, rather than looking for
/// an empty index, also catches an index that lost its documents and has
/// since taken in new mail.
pub fn index_marks_are_stale(indexed_in_db: i64, docs_in_index: u64) -> (stale: bool)
    ensures
        stale == (indexed_in_db > docs_in_index),
{
    indexed_in_db >= 0 && (indexed_in_db as u64) > docs_in_index
}

/// The pause before attempt `attempt` (counted from 0): none before the
/// first, then one more unit before each further attempt.
pub open spec fn spec_retry_delay_ms(attempt: int) -> int {
    RETRY_BASE_DELAY_MS * attempt
}

/// The pause before an attempt (see `spec_retry_delay_ms`).
pub fn retry_delay_ms(attempt: u32) -> (ms: u64)
    requires
        attempt < MAX_COMMIT_ATTEMPTS,
    ensures
        ms == spec_retry_delay_ms(attempt as int),
{
    RETRY_BASE_DELAY_MS * (attempt as u64)
}

/// What follows a failed attempt: the next attempt's number, or `None` once
/// all attempts are spent (the last failure is then returned).
pub fn next_attempt(attempt: u32) -> (next: Option<u32>)
    requires
        attempt < MAX_COMMIT_ATTEMPTS,
    ensures
        attempt + 1 < MAX_COMMIT_ATTEMPTS ==> next == Some((attempt + 1) as u32),
        attempt + 1 >= MAX_COMMIT_ATTEMPTS ==> next is None,
{
    if attempt + 1 < MAX_COMMIT_ATTEMPTS {
        Some(attempt + 1)
    } else {
        None
    }
}

/// The pauses before attempts `0..n`, added up.
pub open spec fn spec_total_delay_ms(n: nat) -> int
    decreases n,
{
    if n == 0 {
        0
    } else {
        spec_total_delay_ms((n - 1) as nat) + spec_retry_delay_ms(n - 1)
    }
}

/// A batch that keeps failing is given up after waiting 8.4 seconds in all:
/// the pauses before the eight attempts add up to 300 ms times 0 + 1 + ... + 7.
pub proof fn lemma_total_retry_wait()
    ensures
        spec_total_delay_ms(MAX_COMMIT_ATTEMPTS as nat) == 8400,
{
    reveal_with_fuel(spec_total_delay_ms, 9);
}

} // verus!
