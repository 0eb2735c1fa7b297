//! Colours of the message list and shortening text to a column width: the
//! colouring rule that applies to a message, `#rrggbb` colours, and cutting
//! text without splitting a wide (CJK) character.

use vstd::prelude::*;

use crate::color_rules::ColorRule;
use crate::text::{contains, push_char, spec_contains, string_from_chars, to_chars};
use vstd::string::StringSliceAdditionalSpecFns;
use vstd::utf8::encode_utf8;

verus! {

/// The display width in columns that `unicode-width` gives a character
/// (`None` for control characters).
pub uninterp spec fn spec_char_width(c: char) -> Option<usize>;

/// `unicode_width::UnicodeWidthChar::width`. Its source gives printable ASCII
/// one column, the ellipsis `…` one column (its table entry), and the C0 and
/// C1 control characters none; other characters
/// come from its tables, as a byte. What the tables say is not stated here.
#[verifier::external_body]
fn char_width(c: char) -> (w: Option<usize>)
    ensures
        w == spec_char_width(c),
        (0x20 <= c as u32 && c as u32 <= 0x7e) ==> w == Some(1usize),
        (c as u32) < 0x20 || (0x7f <= c as u32 && (c as u32) < 0xa0) ==> w is None,
        c == '…' ==> w == Some(1usize),
        0xa0 <= c as u32 ==> w is Some,
        w matches Some(n) ==> n <= 255,
{
    unicode_width::UnicodeWidthChar::width(c)
}

/// The lower-case form of a string, as std's `str::to_lowercase` gives it.
pub uninterp spec fn spec_to_lowercase(s: Seq<char>) -> Seq<char>;

/// std's `str::to_lowercase` (Unicode lower-case mapping).
#[verifier::external_body]
fn to_lowercase(s: &str) -> (lower: String)
    ensures
        lower@ == spec_to_lowercase(s@),
{
    s.to_lowercase()
}

/// A colour given by its red, green and blue components.
#[derive(Clone, Copy, Debug, PartialEq, Eq, Structural)]
pub struct Rgb {
    pub r: u8,
    pub g: u8,
    pub b: u8,
}

/// The value of an ASCII hexadecimal digit (either case).
pub open spec fn spec_hex_digit(b: u8) -> Option<u8> {
    if 0x30 <= b && b <= 0x39 {
        Some((b - 0x30) as u8)
    } else if 0x61 <= b && b <= 0x66 {
        Some((b - 0x61 + 10) as u8)
    } else if 0x41 <= b && b <= 0x46 {
        Some((b - 0x41 + 10) as u8)
    } else {
        None
    }
}

/// What `u8::from_str_radix` gives in base 16 for a text of two bytes: an
/// optional `+` followed by hexadecimal digits only.
pub open spec fn spec_hex_pair(hi: u8, lo: u8) -> Option<u8> {
    if hi == 0x2b {
        spec_hex_digit(lo)
    } else {
        match (spec_hex_digit(hi), spec_hex_digit(lo)) {
            (Some(h), Some(l)) => Some((16 * h + l) as u8),
            _ => None,
        }
    }
}

/// The bytes of a colour text without one leading `#`.
pub open spec fn spec_strip_hash(bytes: Seq<u8>) -> Seq<u8> {
    if bytes.len() > 0 && bytes[0] == 0x23 {
        bytes.drop_first()
    } else {
        bytes
    }
}

/// A UTF-8 continuation byte: one that does not start a character.
pub open spec fn spec_is_continuation(b: u8) -> bool {
    0x80 <= b && b < 0xc0
}

/// The colour that a `#rrggbb` or `rrggbb` text (given as its UTF-8 bytes)
/// stands for: six bytes after the optional `#`, read as three pairs.
pub open spec fn spec_parse_hex_color(bytes: Seq<u8>) -> Option<Rgb> {
    let h = spec_strip_hash(bytes);
    if h.len() != 6 {
        None
    } else {
        match (spec_hex_pair(h[0], h[1]), spec_hex_pair(h[2], h[3]), spec_hex_pair(h[4], h[5])) {
            (Some(r), Some(g), Some(b)) => Some(Rgb { r, g, b }),
            _ => None,
        }
    }
}

/// The pairs of a six-byte colour text are cut where characters meet: at byte
/// 2 always, and at byte 4 once the first pair has been read.
pub open spec fn spec_hex_color_cuttable(bytes: Seq<u8>) -> bool {
    let h = spec_strip_hash(bytes);
    h.len() == 6 ==> {
        &&& !spec_is_continuation(h[2])
        &&& (spec_hex_pair(h[0], h[1]) is Some ==> !spec_is_continuation(h[4]))
    }
}

fn hex_digit(b: u8) -> (d: Option<u8>)
    ensures
        d == spec_hex_digit(b),
{
    if 0x30 <= b && b <= 0x39 {
        Some(b - 0x30)
    } else if 0x61 <= b && b <= 0x66 {
        Some(b - 0x61 + 10)
    } else if 0x41 <= b && b <= 0x46 {
        Some(b - 0x41 + 10)
    } else {
        None
    }
}

fn hex_pair(hi: u8, lo: u8) -> (v: Option<u8>)
    ensures
        v == spec_hex_pair(hi, lo),
{
    if hi == 0x2b {
        return hex_digit(lo);
    }
    match (hex_digit(hi), hex_digit(lo)) {
        (Some(h), Some(l)) => Some(16 * h + l),
        _ => None,
    }
}

/// Reads a `#rrggbb` colour (the `#` may be left out). `None` where the text is
/// not six bytes long after the `#`, or a pair is not a hexadecimal byte.
pub fn parse_hex_color(hex: &str) -> (color: Option<Rgb>)
    requires
        spec_hex_color_cuttable(hex.spec_bytes()),
    ensures
        color == spec_parse_hex_color(hex.spec_bytes()),
{
    let bytes = hex.as_bytes();
    let start: usize = if bytes.len() > 0 && bytes[0] == 0x23 { 1 } else { 0 };
    proof {
        let h = spec_strip_hash(bytes@);
        assert(h =~= bytes@.subrange(start as int, bytes@.len() as int));
    }
    if bytes.len() - start != 6 {
        return None;
    }
    let r = match hex_pair(bytes[start], bytes[start + 1]) {
        Some(v) => v,
        None => return None,
    };
    let g = match hex_pair(bytes[start + 2], bytes[start + 3]) {
        Some(v) => v,
        None => return None,
    };
    let b = match hex_pair(bytes[start + 4], bytes[start + 5]) {
        Some(v) => v,
        None => return None,
    };
    Some(Rgb { r, g, b })
}

/// The present ones among the texts, in order.
pub open spec fn spec_present(fields: Seq<Option<Seq<char>>>) -> Seq<Seq<char>>
    decreases fields.len(),
{
    if fields.len() == 0 {
        Seq::empty()
    } else {
        let rest = spec_present(fields.drop_last());
        match fields.last() {
            Some(t) => rest.push(t),
            None => rest,
        }
    }
}

/// The texts joined with one space between each two.
pub open spec fn spec_join_spaced(parts: Seq<Seq<char>>) -> Seq<char>
    decreases parts.len(),
{
    if parts.len() == 0 {
        Seq::empty()
    } else if parts.len() == 1 {
        parts[0]
    } else {
        spec_join_spaced(parts.drop_last()) + seq![' '] + parts.last()
    }
}

/// The text that colour rules are looked for in: the subject, the sender's
/// name, the sender's address and the preview that are present, joined with
/// spaces and lower-cased.
pub open spec fn spec_haystack(fields: Seq<Option<Seq<char>>>) -> Seq<char> {
    spec_to_lowercase(spec_join_spaced(spec_present(fields)))
}

/// The rule applies to the haystack: its pattern is not empty and occurs in
/// it, both lower-cased.
pub open spec fn spec_rule_matches(rule: ColorRule, haystack: Seq<char>) -> bool {
    rule.pattern@.len() > 0 && spec_contains(haystack, spec_to_lowercase(rule.pattern@))
}

/// The position of the first rule from `from` on that applies; `None` when
/// none applies.
pub open spec fn spec_first_match(rules: Seq<ColorRule>, haystack: Seq<char>, from: int) -> Option<int>
    decreases rules.len() - from,
{
    if from < 0 || from >= rules.len() {
        None
    } else if spec_rule_matches(rules[from], haystack) {
        Some(from)
    } else {
        spec_first_match(rules, haystack, from + 1)
    }
}

/// The colour that the rules give a message with these fields: none without
/// rules or without any text, else that of the first rule that applies, read
/// as a `#rrggbb` text.
pub open spec fn spec_match_color(rules: Seq<ColorRule>, fields: Seq<Option<Seq<char>>>) -> Option<Rgb> {
    let haystack = spec_haystack(fields);
    if rules.len() == 0 || haystack.len() == 0 {
        None
    } else {
        match spec_first_match(rules, haystack, 0) {
            Some(j) => spec_parse_hex_color(encode_utf8(rules[j].color@)),
            None => None,
        }
    }
}

/// The colour text that `match_color` reads, if it reads one, can be cut into
/// its pairs (see `spec_hex_color_cuttable`).
pub open spec fn spec_match_cuttable(rules: Seq<ColorRule>, fields: Seq<Option<Seq<char>>>) -> bool {
    let haystack = spec_haystack(fields);
    rules.len() > 0 && haystack.len() > 0 ==> match spec_first_match(rules, haystack, 0) {
        Some(j) => spec_hex_color_cuttable(encode_utf8(rules[j].color@)),
        None => true,
    }
}

/// The view of an optional text.
pub open spec fn spec_opt_view(t: Option<&str>) -> Option<Seq<char>> {
    match t {
        Some(s) => Some(s@),
        None => None,
    }
}

fn append_chars(out: &mut Vec<char>, s: &str)
    ensures
        final(out)@ == old(out)@ + s@,
{
    let chars = to_chars(s);
    let mut i: usize = 0;
    while i < chars.len()
        invariant
            chars@ == s@,
            i <= chars@.len(),
            out@ == old(out)@ + chars@.subrange(0, i as int),
        decreases chars@.len() - i,
    {
        out.push(chars[i]);
        i = i + 1;
        proof {
            assert(out@ =~= old(out)@ + chars@.subrange(0, i as int));
        }
    }
    proof {
        assert(chars@.subrange(0, chars@.len() as int) =~= chars@);
    }
}

/// The lower-cased text that colour rules are looked for in.
fn haystack_chars(
    subject: Option<&str>,
    from_name: Option<&str>,
    from_addr: Option<&str>,
    preview: Option<&str>,
) -> (haystack: Vec<char>)
    ensures
        haystack@ == spec_haystack(
            seq![spec_opt_view(subject), spec_opt_view(from_name), spec_opt_view(from_addr), spec_opt_view(preview)],
        ),
{
    let ghost fields = seq![spec_opt_view(subject), spec_opt_view(from_name), spec_opt_view(from_addr), spec_opt_view(preview)];
    let parts: [Option<&str>; 4] = [subject, from_name, from_addr, preview];
    let mut joined: Vec<char> = Vec::new();
    let mut any = false;
    let mut k: usize = 0;
    while k < 4
        invariant
            k <= 4,
            parts@ == seq![subject, from_name, from_addr, preview],
            fields == seq![spec_opt_view(subject), spec_opt_view(from_name), spec_opt_view(from_addr), spec_opt_view(preview)],
            joined@ == spec_join_spaced(spec_present(fields.subrange(0, k as int))),
            any == (spec_present(fields.subrange(0, k as int)).len() > 0),
        decreases 4 - k,
    {
        proof {
            assert(fields.subrange(0, k + 1).drop_last() =~= fields.subrange(0, k as int));
            assert(fields.subrange(0, k + 1).last() == spec_opt_view(parts@[k as int]));
        }
        let ghost before = spec_present(fields.subrange(0, k as int));
        match parts[k] {
            Some(t) => {
                proof {
                    assert(spec_present(fields.subrange(0, k + 1)) == before.push(t@));
                    assert(before.push(t@).drop_last() =~= before);
                }
                if any {
                    joined.push(' ');
                }
                append_chars(&mut joined, t);
                any = true;
                proof {
                    if before.len() == 0 {
                        assert(joined@ =~= t@);
                    } else {
                        assert(joined@ =~= spec_join_spaced(before) + seq![' '] + t@);
                    }
                }
            },
            None => {},
        }
        k = k + 1;
    }
    proof {
        assert(fields.subrange(0, 4) =~= fields);
    }
    let joined_text = string_from_chars(joined.as_slice());
    let lowered = to_lowercase(joined_text.as_str());
    to_chars(lowered.as_str())
}

/// The position of the first rule that applies to the haystack.
fn first_matching_rule(rules: &[ColorRule], haystack: &[char]) -> (found: Option<usize>)
    ensures
        match found {
            Some(j) => spec_first_match(rules@, haystack@, 0) == Some(j as int),
            None => spec_first_match(rules@, haystack@, 0) is None,
        },
        found matches Some(j) ==> j < rules@.len(),
{
    let mut i: usize = 0;
    while i < rules.len()
        invariant
            i <= rules@.len(),
            spec_first_match(rules@, haystack@, 0) == spec_first_match(rules@, haystack@, i as int),
        decreases rules@.len() - i,
    {
        let rule = &rules[i];
        if !rule.pattern.as_str().is_empty() {
            let needle_text = to_lowercase(rule.pattern.as_str());
            let needle = to_chars(needle_text.as_str());
            if contains(haystack, needle.as_slice()) {
                proof {
                    assert(spec_rule_matches(rules@[i as int], haystack@));
                }
                return Some(i);
            }
        }
        i = i + 1;
    }
    None
}

/// Whether a colour text can be cut into its pairs where `parse_hex_color`
/// cuts it.
fn hex_color_cuttable(hex: &str) -> (ok: bool)
    ensures
        ok == spec_hex_color_cuttable(hex.spec_bytes()),
{
    let bytes = hex.as_bytes();
    let start: usize = if bytes.len() > 0 && bytes[0] == 0x23 { 1 } else { 0 };
    proof {
        let h = spec_strip_hash(bytes@);
        assert(h =~= bytes@.subrange(start as int, bytes@.len() as int));
    }
    if bytes.len() - start != 6 {
        return true;
    }
    let b2 = bytes[start + 2];
    if 0x80 <= b2 && b2 < 0xc0 {
        return false;
    }
    match hex_pair(bytes[start], bytes[start + 1]) {
        Some(_) => {
            let b4 = bytes[start + 4];
            !(0x80 <= b4 && b4 < 0xc0)
        },
        None => true,
    }
}

/// Finds the colour of a message row: the first rule (in the file's order)
/// whose pattern occurs, ignoring case, in the subject, the sender's name or
/// address, or the preview.
pub fn match_color(
    rules: &[ColorRule],
    subject: Option<&str>,
    from_name: Option<&str>,
    from_addr: Option<&str>,
    preview: Option<&str>,
) -> (color: Option<Rgb>)
    requires
        spec_match_cuttable(
            rules@,
            seq![spec_opt_view(subject), spec_opt_view(from_name), spec_opt_view(from_addr), spec_opt_view(preview)],
        ),
    ensures
        color == spec_match_color(
            rules@,
            seq![spec_opt_view(subject), spec_opt_view(from_name), spec_opt_view(from_addr), spec_opt_view(preview)],
        ),
{
    if rules.len() == 0 {
        return None;
    }
    let haystack = haystack_chars(subject, from_name, from_addr, preview);
    if haystack.len() == 0 {
        return None;
    }
    match first_matching_rule(rules, haystack.as_slice()) {
        Some(j) => parse_hex_color(rules[j].color.as_str()),
        None => None,
    }
}

/// `match_color` where its colour text can be cut into pairs, as `Some`;
/// `None` where the rule that applies has a colour text that cannot be cut
/// (`match_color` may not be called there).
pub fn match_color_checked(
    rules: &[ColorRule],
    subject: Option<&str>,
    from_name: Option<&str>,
    from_addr: Option<&str>,
    preview: Option<&str>,
) -> (color: Option<Option<Rgb>>)
    ensures
        color is Some <==> spec_match_cuttable(
            rules@,
            seq![spec_opt_view(subject), spec_opt_view(from_name), spec_opt_view(from_addr), spec_opt_view(preview)],
        ),
        color matches Some(c) ==> c == spec_match_color(
            rules@,
            seq![spec_opt_view(subject), spec_opt_view(from_name), spec_opt_view(from_addr), spec_opt_view(preview)],
        ),
{
    if rules.len() > 0 {
        let haystack = haystack_chars(subject, from_name, from_addr, preview);
        if haystack.len() > 0 {
            match first_matching_rule(rules, haystack.as_slice()) {
                Some(j) => {
                    if !hex_color_cuttable(rules[j].color.as_str()) {
                        return None;
                    }
                },
                None => {},
            }
        }
    }
    Some(match_color(rules, subject, from_name, from_addr, preview))
}

/// The columns a character takes; control characters take none.
pub open spec fn spec_width_of(c: char) -> int {
    match spec_char_width(c) {
        Some(w) => w as int,
        None => 0,
    }
}

/// The columns a text takes.
pub open spec fn spec_text_width(s: Seq<char>) -> int
    decreases s.len(),
{
    if s.len() == 0 {
        0
    } else {
        spec_text_width(s.drop_last()) + spec_width_of(s.last())
    }
}

/// The longest start of `s` that fits in `budget` columns, taken character by
/// character: it stops before the first character that would not fit.
pub open spec fn spec_fitting_prefix(s: Seq<char>, budget: int) -> Seq<char>
    decreases s.len(),
{
    if s.len() == 0 || spec_width_of(s[0]) > budget {
        Seq::empty()
    } else {
        seq![s[0]] + spec_fitting_prefix(s.drop_first(), budget - spec_width_of(s[0]))
    }
}

/// `text` as it fits in `max_width` columns: unchanged when it fits, empty for
/// no columns, else the characters that fit in one column less, followed by
/// `…`.
pub open spec fn spec_truncate(text: Seq<char>, max_width: int) -> Seq<char> {
    if max_width == 0 {
        Seq::empty()
    } else if spec_text_width(text) <= max_width {
        text
    } else {
        spec_fitting_prefix(text, max_width - 1).push('…')
    }
}

proof fn lemma_fitting_prefix_step(s: Seq<char>, k: int, budget: int)
    requires
        0 <= k < s.len(),
        spec_fitting_prefix(s, budget) == s.subrange(0, k) + spec_fitting_prefix(
            s.subrange(k, s.len() as int),
            budget - spec_text_width(s.subrange(0, k)),
        ),
    ensures
        spec_width_of(s[k]) > budget - spec_text_width(s.subrange(0, k)) ==> spec_fitting_prefix(s, budget) == s.subrange(0, k),
        spec_width_of(s[k]) <= budget - spec_text_width(s.subrange(0, k)) ==> spec_fitting_prefix(s, budget)
            == s.subrange(0, k + 1) + spec_fitting_prefix(
            s.subrange(k + 1, s.len() as int),
            budget - spec_text_width(s.subrange(0, k + 1)),
        ),
{
    let rest = s.subrange(k, s.len() as int);
    assert(rest[0] == s[k]);
    assert(s.subrange(0, k + 1).drop_last() =~= s.subrange(0, k));
    assert(rest.drop_first() =~= s.subrange(k + 1, s.len() as int));
    if spec_width_of(s[k]) <= budget - spec_text_width(s.subrange(0, k)) {
        assert(s.subrange(0, k) + (seq![s[k]] + spec_fitting_prefix(
            rest.drop_first(),
            budget - spec_text_width(s.subrange(0, k)) - spec_width_of(s[k]),
        )) =~= s.subrange(0, k + 1) + spec_fitting_prefix(
            s.subrange(k + 1, s.len() as int),
            budget - spec_text_width(s.subrange(0, k + 1)),
        ));
    } else {
        assert(s.subrange(0, k) + Seq::<char>::empty() =~= s.subrange(0, k));
    }
}

/// A text is at least as wide as any of its starts.
proof fn lemma_width_of_prefix_at_most(s: Seq<char>, i: int)
    requires
        0 <= i <= s.len(),
    ensures
        spec_text_width(s.subrange(0, i)) <= spec_text_width(s),
    decreases s.len() - i,
{
    if i < s.len() {
        lemma_width_of_prefix_at_most(s, i + 1);
        assert(s.subrange(0, i + 1).drop_last() =~= s.subrange(0, i));
    } else {
        assert(s.subrange(0, i) =~= s);
    }
}

/// Shortens `text` to `max_width` columns without cutting a wide character in
/// half (see `spec_truncate`).
pub fn truncate_to_width(text: &str, max_width: usize) -> (out: String)
    ensures
        out@ == spec_truncate(text@, max_width as int),
        spec_text_width(out@) <= max_width,
{
    if max_width == 0 {
        return String::new();
    }
    let chars = to_chars(text);
    let n: usize = chars.len();
    // Whether the whole text fits; the sum stops once it is past `max_width`,
    // so it cannot overflow.
    let mut total: usize = 0;
    let mut i: usize = 0;
    let mut over = false;
    while i < n && !over
        invariant
            n == chars@.len(),
            chars@ == text@,
            i <= n,
            !over ==> total == spec_text_width(chars@.subrange(0, i as int)) && total <= max_width,
            over ==> spec_text_width(chars@.subrange(0, i as int)) > max_width,
        decreases n - i + (if over { 0int } else { 1int }),
    {
        proof {
            assert(chars@.subrange(0, i + 1).drop_last() =~= chars@.subrange(0, i as int));
        }
        let w: usize = match char_width(chars[i]) {
            Some(w) => w,
            None => 0,
        };
        if w > max_width - total {
            over = true;
        } else {
            total = total + w;
        }
        i = i + 1;
    }
    proof {
        if !over {
            assert(chars@.subrange(0, n as int) =~= chars@);
        } else {
            lemma_width_of_prefix_at_most(chars@, i as int);
        }
    }
    if !over {
        return String::from_str(text);
    }
    let budget: usize = max_width - 1;
    let mut width: usize = 0;
    let mut k: usize = 0;
    let mut stop = false;
    proof {
        assert(chars@.subrange(0, 0) =~= Seq::<char>::empty());
        assert(chars@.subrange(0, n as int) =~= chars@);
    }
    while k < n && !stop
        invariant
            n == chars@.len(),
            chars@ == text@,
            k <= n,
            width == spec_text_width(chars@.subrange(0, k as int)),
            width <= budget,
            !stop ==> spec_fitting_prefix(chars@, budget as int) == chars@.subrange(0, k as int)
                + spec_fitting_prefix(chars@.subrange(k as int, n as int), budget - width),
            stop ==> spec_fitting_prefix(chars@, budget as int) == chars@.subrange(0, k as int),
        decreases n - k + (if stop { 0int } else { 1int }),
    {
        let w: usize = match char_width(chars[k]) {
            Some(w) => w,
            None => 0,
        };
        proof {
            lemma_fitting_prefix_step(chars@, k as int, budget as int);
            assert(chars@.subrange(0, k + 1).drop_last() =~= chars@.subrange(0, k as int));
        }
        if w > budget - width {
            stop = true;
        } else {
            width = width + w;
            k = k + 1;
        }
    }
    proof {
        if !stop {
            assert(chars@.subrange(k as int, n as int) =~= Seq::<char>::empty());
            assert(chars@.subrange(0, k as int) + Seq::<char>::empty() =~= chars@.subrange(0, k as int));
        }
    }
    let mut out = string_from_chars(vstd::slice::slice_subrange(chars.as_slice(), 0, k));
    // The ellipsis is measured like any character, so that the result is known to fit.
    let ellipsis_width = char_width('…');
    push_char(&mut out, '…');
    proof {
        assert(ellipsis_width == Some(1usize));
        assert(out@.drop_last() =~= chars@.subrange(0, k as int));
    }
    out
}

} // verus!
