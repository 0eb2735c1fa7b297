//! A bigram tokenizer for substring search.
//!
//! Every run of alphanumeric characters of one kind (CJK, or not CJK) is cut
//! into overlapping two-character tokens; a run of one character is one token.
//! Queries are cut the same way and matched as phrases, so a query matches
//! where it stands as a substring of the text. Runs are split where the kind
//! changes, so no token joins, say, a katakana and a digit.

use vstd::prelude::*;
use vstd::utf8::{encode_scalar, encode_utf8};

use crate::text::{string_from_chars, to_chars};

verus! {

/// The tokenizer, registered with the search index under one name.
#[derive(Debug, Clone, Copy, Default)]
pub struct CjkBigramTokenizer;

/// A token: `text` is `offset_from..offset_to` of the input, in bytes;
/// `position` counts tokens from 0.
#[derive(Debug, Clone, PartialEq, Eq)]
pub struct BigramToken {
    pub offset_from: usize,
    pub offset_to: usize,
    pub position: usize,
    pub text: String,
    pub position_length: usize,
}

/// The scripts that are cut into runs of their own: hiragana and katakana,
/// CJK ideographs (extension A, unified, compatibility) and half-width
/// katakana.
pub open spec fn spec_is_cjk(c: char) -> bool {
    let u = c as u32;
    (0x3040 <= u <= 0x30ff) || (0x3400 <= u <= 0x4dbf) || (0x4e00 <= u <= 0x9fff) || (0xf900 <= u
        <= 0xfaff) || (0xff66 <= u <= 0xff9f)
}

/// Whether a character belongs to the CJK scripts of `spec_is_cjk`.
pub fn is_cjk(c: char) -> (r: bool)
    ensures
        r == spec_is_cjk(c),
{
    let u: u32 = c as u32;
    (0x3040 <= u && u <= 0x30ff) || (0x3400 <= u && u <= 0x4dbf) || (0x4e00 <= u && u <= 0x9fff)
        || (0xf900 <= u && u <= 0xfaff) || (0xff66 <= u && u <= 0xff9f)
}

/// Whether std counts a character as alphanumeric (Unicode `Alphabetic` or
/// `Numeric`).
pub uninterp spec fn spec_is_alphanumeric(c: char) -> bool;

/// std's `char::is_alphanumeric`, which reads Unicode's tables.
#[verifier::external_body]
fn is_alphanumeric(c: char) -> (r: bool)
    ensures
        r == spec_is_alphanumeric(c),
{
    c.is_alphanumeric()
}

/// The bytes a character takes in UTF-8.
pub open spec fn spec_utf8_width(c: char) -> int {
    let u = c as u32;
    if u <= 0x7f {
        1
    } else if u <= 0x7ff {
        2
    } else if u <= 0xffff {
        3
    } else {
        4
    }
}

/// The byte offset in `s` of its character `i`.
pub open spec fn spec_byte_offset(s: Seq<char>, i: int) -> int {
    encode_utf8(s.subrange(0, i)).len() as int
}

/// A character that continues a run of the given kind.
pub open spec fn spec_same_kind(c: char, cjk: bool) -> bool {
    spec_is_alphanumeric(c) && spec_is_cjk(c) == cjk
}

/// Where a run of the given kind that goes on at `k` ends.
pub open spec fn spec_run_end(s: Seq<char>, cjk: bool, k: int) -> int
    decreases s.len() - k,
{
    if 0 <= k < s.len() && spec_same_kind(s[k], cjk) {
        spec_run_end(s, cjk, k + 1)
    } else {
        k
    }
}

pub proof fn lemma_run_end(s: Seq<char>, cjk: bool, k: int)
    requires
        0 <= k <= s.len(),
    ensures
        k <= spec_run_end(s, cjk, k) <= s.len(),
        forall|m: int| k <= m < spec_run_end(s, cjk, k) ==> spec_same_kind(#[trigger] s[m], cjk),
    decreases s.len() - k,
{
    if k < s.len() && spec_same_kind(s[k], cjk) {
        lemma_run_end(s, cjk, k + 1);
    }
}

/// The tokens of the run `i..j`, as character ranges: the run itself when it
/// is one character, else each two neighbouring characters.
pub open spec fn spec_run_ranges(i: int, j: int) -> Seq<(int, int)> {
    if j - i == 1 {
        seq![(i, i + 1)]
    } else {
        Seq::new((j - 1 - i) as nat, |k: int| (i + k, i + k + 2))
    }
}

/// The token ranges of `s` from character `i` on: characters that are not
/// alphanumeric are skipped; each run of alphanumeric characters of one kind
/// gives its `spec_run_ranges`.
pub open spec fn spec_ranges_from(s: Seq<char>, i: int) -> Seq<(int, int)>
    decreases s.len() - i,
{
    if i < 0 || i >= s.len() {
        Seq::empty()
    } else if !spec_is_alphanumeric(s[i]) {
        spec_ranges_from(s, i + 1)
    } else {
        let j = spec_run_end(s, spec_is_cjk(s[i]), i + 1);
        proof {
            lemma_run_end(s, spec_is_cjk(s[i]), i + 1);
        }
        spec_run_ranges(i, j) + spec_ranges_from(s, j)
    }
}

/// The token ranges of `s`, in order.
pub open spec fn spec_token_ranges(s: Seq<char>) -> Seq<(int, int)> {
    spec_ranges_from(s, 0)
}

/// `t` is the token at `position` of `s`, for the character range `r`.
pub open spec fn spec_token_is(t: BigramToken, s: Seq<char>, r: (int, int), position: int) -> bool {
    &&& t.position == position
    &&& t.position_length == 1
    &&& t.text@ == s.subrange(r.0, r.1)
    &&& t.offset_from == spec_byte_offset(s, r.0)
    &&& t.offset_to == spec_byte_offset(s, r.1)
}

/// The tokens of `s`: one per range of `spec_token_ranges`, numbered in order.
pub open spec fn spec_tokens(tokens: Seq<BigramToken>, s: Seq<char>) -> bool {
    &&& tokens.len() == spec_token_ranges(s).len()
    &&& forall|p: int| 0 <= p < tokens.len() ==> spec_token_is(#[trigger] tokens[p], s, spec_token_ranges(s)[p], p)
}

proof fn lemma_encode_concat(a: Seq<char>, b: Seq<char>)
    ensures
        encode_utf8(a + b) == encode_utf8(a) + encode_utf8(b),
    decreases a.len(),
{
    if a.len() == 0 {
        assert(a + b =~= b);
        assert(encode_utf8(a) + encode_utf8(b) =~= encode_utf8(b));
    } else {
        lemma_encode_concat(a.drop_first(), b);
        assert((a + b).drop_first() =~= a.drop_first() + b);
        assert((a + b)[0] == a[0]);
        assert(encode_utf8(a + b) =~= encode_scalar(a[0] as u32) + (encode_utf8(a.drop_first())
            + encode_utf8(b)));
    }
}

proof fn lemma_scalar_width(c: char)
    ensures
        encode_scalar(c as u32).len() == spec_utf8_width(c),
{
}

proof fn lemma_offset_step(s: Seq<char>, i: int)
    requires
        0 <= i < s.len(),
    ensures
        spec_byte_offset(s, i + 1) == spec_byte_offset(s, i) + spec_utf8_width(s[i]),
{
    lemma_encode_concat(s.subrange(0, i), seq![s[i]]);
    assert(s.subrange(0, i) + seq![s[i]] =~= s.subrange(0, i + 1));
    lemma_scalar_width(s[i]);
    assert(seq![s[i]].drop_first() =~= Seq::<char>::empty());
    assert(encode_utf8(Seq::<char>::empty()) =~= Seq::<u8>::empty());
    assert(encode_utf8(seq![s[i]]) =~= encode_scalar(s[i] as u32));
}

proof fn lemma_offset_monotone(s: Seq<char>, i: int, j: int)
    requires
        0 <= i <= j <= s.len(),
    ensures
        spec_byte_offset(s, i) <= spec_byte_offset(s, j),
    decreases j - i,
{
    if i < j {
        lemma_offset_monotone(s, i, j - 1);
        lemma_offset_step(s, j - 1);
    }
}

/// The UTF-8 width of a character (std's `char::len_utf8`).
fn utf8_width(c: char) -> (w: usize)
    ensures
        w == spec_utf8_width(c),
{
    let u: u32 = c as u32;
    if u <= 0x7f {
        1
    } else if u <= 0x7ff {
        2
    } else if u <= 0xffff {
        3
    } else {
        4
    }
}

/// The byte offset of every character of `chars`, and of its end.
fn byte_offsets(chars: &[char], total: usize) -> (offsets: Vec<usize>)
    requires
        total == encode_utf8(chars@).len(),
    ensures
        offsets@.len() == chars@.len() + 1,
        forall|i: int| 0 <= i <= chars@.len() ==> offsets@[i] == spec_byte_offset(chars@, i),
{
    let mut offsets: Vec<usize> = Vec::new();
    let mut acc: usize = 0;
    let mut i: usize = 0;
    proof {
        assert(chars@.subrange(0, 0) =~= Seq::<char>::empty());
        assert(chars@.subrange(0, chars@.len() as int) =~= chars@);
    }
    while i < chars.len()
        invariant
            total == encode_utf8(chars@).len(),
            i <= chars@.len(),
            offsets@.len() == i,
            acc == spec_byte_offset(chars@, i as int),
            forall|k: int| 0 <= k < i ==> offsets@[k] == spec_byte_offset(chars@, k),
        decreases chars@.len() - i,
    {
        offsets.push(acc);
        proof {
            lemma_offset_step(chars@, i as int);
            lemma_offset_monotone(chars@, i + 1, chars@.len() as int);
            assert(chars@.subrange(0, chars@.len() as int) =~= chars@);
        }
        acc = acc + utf8_width(chars[i]);
        i = i + 1;
    }
    offsets.push(acc);
    offsets
}

fn push_token(tokens: &mut Vec<BigramToken>, chars: &[char], offsets: &Vec<usize>, a: usize, b: usize)
    requires
        a < b <= chars@.len(),
        offsets@.len() == chars@.len() + 1,
        forall|i: int| 0 <= i <= chars@.len() ==> offsets@[i] == spec_byte_offset(chars@, i),
    ensures
        final(tokens)@.len() == old(tokens)@.len() + 1,
        forall|p: int| 0 <= p < old(tokens)@.len() ==> final(tokens)@[p] == old(tokens)@[p],
        spec_token_is(final(tokens)@[old(tokens)@.len() as int], chars@, (a as int, b as int), old(tokens)@.len() as int),
{
    let text = string_from_chars(vstd::slice::slice_subrange(chars, a, b));
    let position = tokens.len();
    tokens.push(BigramToken { offset_from: offsets[a], offset_to: offsets[b], position, text, position_length: 1 });
}

/// Cuts `text` into bigram tokens (see `spec_token_ranges`), with byte
/// offsets into `text` and consecutive positions.
pub fn tokenize(text: &str) -> (tokens: Vec<BigramToken>)
    ensures
        spec_tokens(tokens@, text@),
{
    let bytes = text.as_bytes();
    let total: usize = bytes.len();
    let chars = to_chars(text);
    let n: usize = chars.len();
    let offsets = byte_offsets(chars.as_slice(), total);
    let ghost s = chars@;
    let ghost all = spec_token_ranges(s);
    let mut tokens: Vec<BigramToken> = Vec::new();
    let mut i: usize = 0;
    while i < n
        invariant
            s == chars@,
            s == text@,
            n == s.len(),
            all == spec_token_ranges(s),
            offsets@.len() == n + 1,
            forall|k: int| 0 <= k <= n ==> offsets@[k] == spec_byte_offset(s, k),
            i <= n,
            tokens@.len() + spec_ranges_from(s, i as int).len() == all.len(),
            all.skip(tokens@.len() as int) == spec_ranges_from(s, i as int),
            forall|p: int| 0 <= p < tokens@.len() ==> spec_token_is(#[trigger] tokens@[p], s, all[p], p),
        decreases n - i,
    {
        let c = chars[i];
        if is_alphanumeric(c) {
            let run_is_cjk = is_cjk(c);
            let run_start = i;
            let mut j = i + 1;
            while j < n && is_alphanumeric(chars[j]) && is_cjk(chars[j]) == run_is_cjk
                invariant
                    s == chars@,
                    n == s.len(),
                    run_start < j <= n,
                    run_is_cjk == spec_is_cjk(s[run_start as int]),
                    spec_run_end(s, run_is_cjk, j as int) == spec_run_end(s, run_is_cjk, run_start + 1),
                decreases n - j,
            {
                j = j + 1;
            }
            let ghost before = tokens@.len() as int;
            let ghost run = spec_run_ranges(run_start as int, j as int);
            proof {
                assert(spec_ranges_from(s, run_start as int) == run + spec_ranges_from(s, j as int));
                assert(all.skip(before) == run + spec_ranges_from(s, j as int));
                assert(before + run.len() <= all.len());
            }
            if j - run_start == 1 {
                push_token(&mut tokens, chars.as_slice(), &offsets, run_start, run_start + 1);
                proof {
                    assert(all[before] == all.skip(before)[0]);
                    assert(all.skip(before + 1) =~= all.skip(before).drop_first());
                    assert(all.skip(before).drop_first() =~= spec_ranges_from(s, j as int));
                }
            } else {
                let mut k: usize = run_start;
                while k < j - 1
                    invariant
                        s == chars@,
                        n == s.len(),
                        all == spec_token_ranges(s),
                        offsets@.len() == n + 1,
                        forall|q: int| 0 <= q <= n ==> offsets@[q] == spec_byte_offset(s, q),
                        run_start + 1 < j <= n,
                        run_start <= k <= j - 1,
                        run == spec_run_ranges(run_start as int, j as int),
                        tokens@.len() == before + (k - run_start),
                        0 <= before,
                        before + run.len() <= all.len(),
                        all.skip(before) == run + spec_ranges_from(s, j as int),
                        forall|p: int| 0 <= p < tokens@.len() ==> spec_token_is(#[trigger] tokens@[p], s, all[p], p),
                    decreases j - 1 - k,
                {
                    proof {
                        assert(run[k - run_start] == (k as int, k + 2));
                        assert(all[tokens@.len() as int] == all.skip(before)[k - run_start]);
                    }
                    push_token(&mut tokens, chars.as_slice(), &offsets, k, k + 2);
                    k = k + 1;
                }
                proof {
                    assert(all.skip(tokens@.len() as int) =~= all.skip(before).skip(run.len() as int));
                    assert(all.skip(before).skip(run.len() as int) =~= spec_ranges_from(s, j as int));
                }
            }
            i = j;
        } else {
            i = i + 1;
        }
    }
    proof {
        assert(spec_ranges_from(s, n as int) =~= Seq::<(int, int)>::empty());
    }
    tokens
}

/// A token range of `s`: one or two characters of `s`, all alphanumeric and
/// of the kind of the first.
pub open spec fn spec_range_ok(s: Seq<char>, r: (int, int)) -> bool {
    &&& 0 <= r.0 < r.1 <= s.len()
    &&& r.1 - r.0 <= 2
    &&& forall|m: int| r.0 <= m < r.1 ==> spec_same_kind(#[trigger] s[m], spec_is_cjk(s[r.0]))
}

proof fn lemma_ranges_ok(s: Seq<char>, i: int)
    requires
        0 <= i,
    ensures
        forall|p: int| 0 <= p < spec_ranges_from(s, i).len() ==> spec_range_ok(s, #[trigger] spec_ranges_from(s, i)[p]),
    decreases s.len() - i,
{
    if i < s.len() {
        if !spec_is_alphanumeric(s[i]) {
            lemma_ranges_ok(s, i + 1);
        } else {
            let cjk = spec_is_cjk(s[i]);
            let j = spec_run_end(s, cjk, i + 1);
            lemma_run_end(s, cjk, i + 1);
            lemma_ranges_ok(s, j);
            let run = spec_run_ranges(i, j);
            let rest = spec_ranges_from(s, j);
            assert(spec_ranges_from(s, i) == run + rest);
            assert forall|p: int| 0 <= p < spec_ranges_from(s, i).len() implies spec_range_ok(
                s,
                #[trigger] spec_ranges_from(s, i)[p],
            ) by {
                if p < run.len() {
                    assert(spec_ranges_from(s, i)[p] == run[p]);
                    let r = run[p];
                    assert(spec_same_kind(s[i], cjk));
                    assert(spec_is_cjk(s[r.0]) == cjk);
                } else {
                    assert(spec_ranges_from(s, i)[p] == rest[p - run.len()]);
                }
            }
        }
    }
}

/// Each token is one or two characters of the text, all alphanumeric and of
/// one kind (so no token joins CJK with other characters), and its offsets
/// point back into the text: the text's bytes between them are the token's.
pub proof fn lemma_tokens_point_back_into_text(tokens: Seq<BigramToken>, s: Seq<char>, p: int)
    requires
        spec_tokens(tokens, s),
        0 <= p < tokens.len(),
    ensures
        1 <= tokens[p].text@.len() <= 2,
        forall|m: int| 0 <= m < tokens[p].text@.len() ==> spec_same_kind(
            #[trigger] tokens[p].text@[m],
            spec_is_cjk(tokens[p].text@[0]),
        ),
        encode_utf8(s).subrange(tokens[p].offset_from as int, tokens[p].offset_to as int) == encode_utf8(
            tokens[p].text@,
        ),
{
    lemma_ranges_ok(s, 0);
    let r = spec_token_ranges(s)[p];
    assert(spec_range_ok(s, r));
    assert(spec_token_is(tokens[p], s, r, p));
    let (a, b) = r;
    let head = s.subrange(0, a);
    let mid = s.subrange(a, b);
    let tail = s.subrange(b, s.len() as int);
    assert(s =~= head + mid + tail);
    lemma_encode_concat(head, mid);
    lemma_encode_concat(head + mid, tail);
    assert(head + mid =~= s.subrange(0, b));
    assert(tokens[p].text@ == mid);
    assert(encode_utf8(s).subrange(
        encode_utf8(head).len() as int,
        (encode_utf8(head).len() + encode_utf8(mid).len()) as int,
    ) =~= encode_utf8(mid));
    assert forall|m: int| 0 <= m < mid.len() implies spec_same_kind(#[trigger] mid[m], spec_is_cjk(mid[0])) by {
        assert(mid[m] == s[a + m]);
    }
}

} // verus!
