//! The data of the development benchmark: generated messages whose contents
//! follow from their number, so that they can be regenerated for indexing
//! without storing any mail, and the cursors of the pages it times.

use vstd::prelude::*;

use crate::text::{parse_u64, push_decimal, spec_decimal, spec_parse_u64};

verus! {

/// Rows inserted (and documents indexed) between two commits.
pub const BATCH_SIZE: u64 = 5_000;

/// The date of message 0; message `i` is `i` seconds older.
pub const BASE_TIME: i64 = 2_000_000_000;

/// Every thousandth body holds the searched-for word, so that the timed
/// search narrows down to a few hits.
pub open spec fn spec_body_for(i: u64) -> Seq<char> {
    if i % 1000 == 0 {
        "this is benchmark body "@ + spec_decimal(i as nat) + " containing the needle term"@
    } else {
        "this is generic benchmark body content for message "@ + spec_decimal(i as nat)
    }
}

/// The body of generated message `i` (see `spec_body_for`).
pub fn body_for(i: u64) -> (body: String)
    ensures
        body@ == spec_body_for(i),
{
    if i % 1000 == 0 {
        let mut s = String::from_str("this is benchmark body ");
        push_decimal(&mut s, i);
        s.append(" containing the needle term");
        s
    } else {
        let mut s = String::from_str("this is generic benchmark body content for message ");
        push_decimal(&mut s, i);
        s
    }
}

/// A text followed by a number.
pub fn numbered(prefix: &str, i: u64) -> (text: String)
    ensures
        text@ == prefix@ + spec_decimal(i as nat),
{
    let mut s = String::from_str(prefix);
    push_decimal(&mut s, i);
    s
}

/// The UIDL of generated message `i`: `bench-<i>`.
pub fn bench_uidl(i: u64) -> (uidl: String)
    ensures
        uidl@ == "bench-"@ + spec_decimal(i as nat),
{
    numbered("bench-", i)
}

/// The subject of generated message `i`: `Benchmark message <i>`.
pub fn bench_subject(i: u64) -> (subject: String)
    ensures
        subject@ == "Benchmark message "@ + spec_decimal(i as nat),
{
    numbered("Benchmark message ", i)
}

/// The sender address of generated message `i`: `sender<i>@example.com`.
pub fn bench_sender(i: u64) -> (addr: String)
    ensures
        addr@ == "sender"@ + spec_decimal(i as nat) + "@example.com"@,
{
    let mut s = numbered("sender", i);
    s.append("@example.com");
    s
}

/// The date of generated message `i`.
pub fn bench_date(i: u64) -> (date: i64)
    requires
        i <= BASE_TIME,
    ensures
        date == BASE_TIME - i,
{
    BASE_TIME - i as i64
}

/// `s` with every leading copy of `prefix` removed (`str::trim_start_matches`).
pub open spec fn spec_trim_prefixes(s: Seq<char>, prefix: Seq<char>) -> Seq<char>
    decreases s.len(),
{
    if prefix.len() > 0 && prefix.len() <= s.len() && s.subrange(0, prefix.len() as int) == prefix {
        spec_trim_prefixes(s.skip(prefix.len() as int), prefix)
    } else {
        s
    }
}

/// The number of a generated message, read back from its UIDL: every leading
/// `bench-` removed, the rest read as a `u64`.
pub fn uidl_number(uidl: &str) -> (n: Option<u64>)
    ensures
        n == spec_parse_u64(spec_trim_prefixes(uidl@, "bench-"@)),
{
    let chars = crate::text::to_chars(uidl);
    let prefix = crate::text::to_chars("bench-");
    let n: usize = chars.len();
    let m: usize = prefix.len();
    let mut start: usize = 0;
    let mut done = false;
    proof {
        assert(chars@.skip(0) =~= chars@);
    }
    while !done
        invariant
            n == chars@.len(),
            m == prefix@.len(),
            prefix@ == "bench-"@,
            chars@ == uidl@,
            start <= n,
            spec_trim_prefixes(chars@.skip(start as int), prefix@) == spec_trim_prefixes(uidl@, "bench-"@),
            done ==> spec_trim_prefixes(chars@.skip(start as int), prefix@) == chars@.skip(start as int),
        decreases n - start + (if done { 0int } else { 1int }),
    {
        let ghost rest = chars@.skip(start as int);
        if m > 0 && m <= n - start {
            let mut j: usize = 0;
            let mut same = true;
            while j < m && same
                invariant
                    m == prefix@.len(),
                    n == chars@.len(),
                    start + m <= n,
                    j <= m,
                    same ==> forall|t: int| 0 <= t < j ==> chars@[start + t] == prefix@[t],
                    !same ==> j < m && chars@[start + j] != prefix@[j as int],
                decreases m - j + (if same { 1int } else { 0int }),
            {
                if chars[start + j] != prefix[j] {
                    same = false;
                } else {
                    j = j + 1;
                }
            }
            if same {
                proof {
                    assert(rest.subrange(0, m as int) =~= prefix@);
                    assert(rest.skip(m as int) =~= chars@.skip(start + m));
                }
                start = start + m;
            } else {
                proof {
                    assert(rest.subrange(0, m as int)[j as int] != prefix@[j as int]);
                }
                done = true;
            }
        } else {
            done = true;
        }
    }
    let tail = crate::text::substring(chars.as_slice(), start, n);
    proof {
        assert(tail@ =~= chars@.skip(start as int));
    }
    parse_u64(tail.as_str())
}

/// The page cursors the benchmark times: the middle of the messages, and
/// just before the last page.
pub fn middle_cursor(count: u64) -> (cursor: i64)
    requires
        count <= BASE_TIME,
    ensures
        cursor == BASE_TIME - count / 2,
{
    BASE_TIME - (count / 2) as i64
}

/// The cursor of the last page of the benchmark's listing.
pub fn last_cursor(count: u64) -> (cursor: i64)
    requires
        count <= BASE_TIME,
    ensures
        cursor == BASE_TIME - count + 20,
{
    BASE_TIME - count as i64 + 20
}

/// A generated message's number comes back from its UIDL.
pub proof fn lemma_uidl_number_roundtrip(i: u64)
    ensures
        spec_parse_u64(spec_trim_prefixes("bench-"@ + spec_decimal(i as nat), "bench-"@)) == Some(i),
{
    reveal_strlit("bench-");
    let p = "bench-"@;
    let d = spec_decimal(i as nat);
    let s = p + d;
    assert(s.subrange(0, 6) =~= p);
    assert(s.skip(6) =~= d);
    crate::text::lemma_decimal_value(i as nat);
    lemma_decimal_is_digits(i as nat);
    assert(d.len() > 0);
    assert(d[0] != 'b');
    if d.len() >= 6 {
        assert(d.subrange(0, 6) != p) by {
            assert(d.subrange(0, 6)[0] != p[0]);
        }
    }
    assert(spec_trim_prefixes(d, p) == d);
}

proof fn lemma_decimal_is_digits(n: nat)
    ensures
        spec_decimal(n).len() > 0,
        forall|k: int| 0 <= k < spec_decimal(n).len() ==> '0' <= #[trigger] spec_decimal(n)[k] <= '9',
    decreases n,
{
    if n >= 10 {
        lemma_decimal_is_digits(n / 10);
        let prev = spec_decimal(n / 10);
        assert forall|k: int| 0 <= k < spec_decimal(n).len() implies '0' <= #[trigger] spec_decimal(n)[k] <= '9' by {
            if k < prev.len() {
                assert(spec_decimal(n)[k] == prev[k]);
            }
        }
    }
}

} // verus!
