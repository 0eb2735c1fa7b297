//! Raw messages are stored one file per message under
//! `cur/xx/yy/<account_id>-<uidl>.eml`, spread over directories by a hash.
//!
//! The path follows from the account id and the UIDL alone, so the database
//! needs to keep no path. Reading and writing the files is done by the caller;
//! this module computes where they live.

use vstd::prelude::*;

use crate::text::{
    push_char, push_hex2, push_signed_decimal, spec_hex2, spec_signed_decimal,
};

pub mod hash;

use hash::{fnv1a64, spec_fnv1a64};

verus! {

/// A byte that may stand in a file name as it is: ASCII letters and digits,
/// `-`, `_` and `.`.
pub open spec fn is_filename_safe_byte(b: u8) -> bool {
    (0x30 <= b <= 0x39) || (0x41 <= b <= 0x5a) || (0x61 <= b <= 0x7a) || b == 0x2d || b == 0x5f
        || b == 0x2e
}

/// One byte of a UIDL as it stands in a file name: itself when safe, else `%`
/// and its two lower-case hexadecimal digits.
pub open spec fn spec_escape_byte(b: u8) -> Seq<char> {
    if is_filename_safe_byte(b) {
        seq![b as char]
    } else {
        seq!['%'] + spec_hex2(b)
    }
}

/// The bytes of a UIDL escaped one by one (see `spec_escape_byte`).
pub open spec fn spec_sanitize(bytes: Seq<u8>) -> Seq<char>
    decreases bytes.len(),
{
    if bytes.len() == 0 {
        Seq::empty()
    } else {
        spec_sanitize(bytes.drop_last()) + spec_escape_byte(bytes.last())
    }
}

/// The key that is hashed to pick the directories: `<account_id>-<uidl>`.
pub open spec fn spec_bucket_key(account_id: i64, uidl: Seq<char>) -> Seq<char> {
    spec_signed_decimal(account_id as int) + seq!['-'] + uidl
}

/// The file name of a message: `<account_id>-<sanitized uidl>.eml`.
pub open spec fn spec_file_name(account_id: i64, uidl: Seq<char>) -> Seq<char> {
    spec_signed_decimal(account_id as int) + seq!['-'] + spec_sanitize(
        vstd::utf8::encode_utf8(uidl),
    ) + seq!['.', 'e', 'm', 'l']
}

/// The hash that spreads a message over the directories.
pub open spec fn spec_bucket_hash(account_id: i64, uidl: Seq<char>) -> u64 {
    spec_fnv1a64(vstd::utf8::encode_utf8(spec_bucket_key(account_id, uidl)))
}


/// A character that may appear in a message's file name: ASCII letters and
/// digits, `-`, `_`, `.` and `%`.
pub open spec fn is_filename_char(c: char) -> bool {
    ('0' <= c <= '9') || ('A' <= c <= 'Z') || ('a' <= c <= 'z') || c == '-' || c == '_' || c
        == '.' || c == '%'
}

proof fn lemma_decimal_chars(n: nat)
    ensures
        forall|i: int|
            0 <= i < crate::text::spec_decimal(n).len() ==> '0' <= #[trigger] crate::text::spec_decimal(
                n,
            )[i] <= '9',
    decreases n,
{
    let d = crate::text::spec_decimal(n);
    if n >= 10 {
        lemma_decimal_chars(n / 10);
        let prev = crate::text::spec_decimal(n / 10);
        assert forall|i: int| 0 <= i < d.len() implies '0' <= #[trigger] d[i] <= '9' by {
            if i < prev.len() {
                assert(d[i] == prev[i]);
            } else {
                assert(d[i] == crate::text::spec_digit_char(n % 10));
            }
        }
    } else {
        assert forall|i: int| 0 <= i < d.len() implies '0' <= #[trigger] d[i] <= '9' by {
            assert(d[i] == crate::text::spec_digit_char(n));
        }
    }
}

proof fn lemma_sanitize_chars(bytes: Seq<u8>)
    ensures
        forall|i: int|
            0 <= i < spec_sanitize(bytes).len() ==> is_filename_char(#[trigger] spec_sanitize(bytes)[i]),
    decreases bytes.len(),
{
    if bytes.len() > 0 {
        lemma_sanitize_chars(bytes.drop_last());
        let b = bytes.last();
        let prev = spec_sanitize(bytes.drop_last());
        let esc = spec_escape_byte(b);
        assert forall|i: int| 0 <= i < esc.len() implies is_filename_char(#[trigger] esc[i]) by {
            if is_filename_safe_byte(b) {
                assert(esc[i] == b as char);
            } else {
                assert(b / 16 < 16 && b % 16 < 16);
            }
        }
        assert forall|i: int| 0 <= i < spec_sanitize(bytes).len() implies is_filename_char(
            #[trigger] spec_sanitize(bytes)[i],
        ) by {
            if i < prev.len() {
                assert(spec_sanitize(bytes)[i] == prev[i]);
            } else {
                assert(spec_sanitize(bytes)[i] == esc[i - prev.len()]);
            }
        }
    }
}

/// Whatever the UIDL holds (`/`, `\`, `..`), the file name of a message holds
/// only ASCII letters and digits, `-`, `_`, `.` and `%`: in particular no path
/// separator, so a message never lands outside its directory.
pub proof fn lemma_file_name_has_no_path_separator(account_id: i64, uidl: Seq<char>)
    ensures
        forall|i: int|
            0 <= i < spec_file_name(account_id, uidl).len() ==> is_filename_char(
                #[trigger] spec_file_name(account_id, uidl)[i],
            ),
        forall|i: int|
            0 <= i < spec_file_name(account_id, uidl).len() ==> spec_file_name(account_id, uidl)[i]
                != '/' && spec_file_name(account_id, uidl)[i] != '\\',
{
    let n = account_id as int;
    let mag: nat = if n < 0 { (-n) as nat } else { n as nat };
    lemma_decimal_chars(mag);
    let bytes = vstd::utf8::encode_utf8(uidl);
    lemma_sanitize_chars(bytes);
    let dec = crate::text::spec_signed_decimal(n);
    let san = spec_sanitize(bytes);
    let name = spec_file_name(account_id, uidl);
    assert(name =~= dec + seq!['-'] + san + seq!['.', 'e', 'm', 'l']);
    assert forall|i: int| 0 <= i < dec.len() implies is_filename_char(#[trigger] dec[i]) by {
        if n < 0 {
            if i > 0 {
                assert(dec[i] == crate::text::spec_decimal(mag)[i - 1]);
            }
        } else {
            assert(dec[i] == crate::text::spec_decimal(mag)[i]);
        }
    }
    assert forall|i: int| 0 <= i < name.len() implies is_filename_char(#[trigger] name[i]) by {
        if i < dec.len() {
            assert(name[i] == dec[i]);
        } else if i == dec.len() {
        } else if i < dec.len() + 1 + san.len() {
            assert(name[i] == san[i - dec.len() - 1]);
        } else {
        }
    }
}

/// The value of a lower-case hexadecimal digit character.
pub open spec fn spec_hex_value(c: char) -> int {
    if '0' <= c <= '9' {
        c as int - 48
    } else {
        c as int - 87
    }
}

/// Undoes `spec_sanitize`: `%xx` is the byte `xx`, any other character the
/// byte of itself.
pub open spec fn spec_unsanitize(s: Seq<char>) -> Seq<u8>
    decreases s.len(),
{
    if s.len() == 0 {
        Seq::empty()
    } else if s[0] == '%' && s.len() >= 3 {
        seq![(16 * spec_hex_value(s[1]) + spec_hex_value(s[2])) as u8] + spec_unsanitize(s.skip(3))
    } else {
        seq![s[0] as u8] + spec_unsanitize(s.skip(1))
    }
}

proof fn lemma_hex_value(d: nat)
    requires
        d < 16,
    ensures
        spec_hex_value(crate::text::spec_hex_char(d)) == d,
{
}

proof fn lemma_sanitize_front(bytes: Seq<u8>)
    requires
        bytes.len() > 0,
    ensures
        spec_sanitize(bytes) == spec_escape_byte(bytes[0]) + spec_sanitize(bytes.drop_first()),
    decreases bytes.len(),
{
    if bytes.len() == 1 {
        assert(bytes.drop_last() =~= Seq::<u8>::empty());
        assert(bytes.drop_first() =~= Seq::<u8>::empty());
        assert(spec_escape_byte(bytes[0]) + Seq::<char>::empty() =~= spec_escape_byte(bytes[0]));
        assert(Seq::<char>::empty() + spec_escape_byte(bytes[0]) =~= spec_escape_byte(bytes[0]));
    } else {
        lemma_sanitize_front(bytes.drop_last());
        assert(bytes.drop_last().drop_first() =~= bytes.drop_first().drop_last());
        assert(bytes.drop_first().last() == bytes.last());
        assert(bytes.drop_last()[0] == bytes[0]);
        assert(spec_sanitize(bytes) =~= spec_escape_byte(bytes[0]) + spec_sanitize(bytes.drop_first()));
    }
}

proof fn lemma_unsanitize_sanitize(bytes: Seq<u8>)
    ensures
        spec_unsanitize(spec_sanitize(bytes)) == bytes,
    decreases bytes.len(),
{
    if bytes.len() == 0 {
        assert(spec_sanitize(bytes) =~= Seq::<char>::empty());
    } else {
        lemma_sanitize_front(bytes);
        lemma_unsanitize_sanitize(bytes.drop_first());
        let b = bytes[0];
        let rest = spec_sanitize(bytes.drop_first());
        let s = spec_sanitize(bytes);
        if is_filename_safe_byte(b) {
            assert(s =~= seq![b as char] + rest);
            assert(s.skip(1) =~= rest);
            assert(s[0] != '%');
            assert((b as char) as u8 == b);
        } else {
            lemma_hex_value((b / 16) as nat);
            lemma_hex_value((b % 16) as nat);
            assert(s =~= seq!['%'] + spec_hex2(b) + rest);
            assert(s.skip(3) =~= rest);
            assert(s[1] == crate::text::spec_hex_char((b / 16) as nat));
            assert(s[2] == crate::text::spec_hex_char((b % 16) as nat));
            assert(16 * (b / 16) + b % 16 == b);
        }
        assert(spec_unsanitize(s) =~= bytes);
    }
}

proof fn lemma_decimal_nonempty_digits(n: nat)
    ensures
        spec_decimal_len_ok(n),
{
    lemma_decimal_chars(n);
    lemma_decimal_len(n);
}

/// The decimal digits of `n` are not empty and hold no `-`.
pub open spec fn spec_decimal_len_ok(n: nat) -> bool {
    crate::text::spec_decimal(n).len() > 0 && forall|i: int|
        0 <= i < crate::text::spec_decimal(n).len() ==> #[trigger] crate::text::spec_decimal(n)[i] != '-'
}

proof fn lemma_decimal_len(n: nat)
    ensures
        crate::text::spec_decimal(n).len() > 0,
    decreases n,
{
    if n >= 10 {
        lemma_decimal_len(n / 10);
    }
}

/// The part of a file name before the `-` that ends the account id.
proof fn lemma_split_name(a1: i64, a2: i64, s1: Seq<char>, s2: Seq<char>)
    requires
        spec_signed_decimal(a1 as int) + seq!['-'] + s1 == spec_signed_decimal(a2 as int) + seq!['-'] + s2,
    ensures
        a1 == a2,
        s1 == s2,
{
    let d1 = spec_signed_decimal(a1 as int);
    let d2 = spec_signed_decimal(a2 as int);
    let p1 = d1 + seq!['-'] + s1;
    let p2 = d2 + seq!['-'] + s2;
    let m1: nat = if a1 < 0 { (-(a1 as int)) as nat } else { a1 as nat };
    let m2: nat = if a2 < 0 { (-(a2 as int)) as nat } else { a2 as nat };
    lemma_decimal_nonempty_digits(m1);
    lemma_decimal_nonempty_digits(m2);
    let k1: int = if a1 < 0 { 1 } else { 0 };
    let k2: int = if a2 < 0 { 1 } else { 0 };
    // the sign agrees: the first character is `-` exactly for a negative id
    assert(p1[0] == d1[0]);
    assert(p2[0] == d2[0]);
    if a1 < 0 {
        assert(d1[0] == '-');
    } else {
        assert(d1[0] == crate::text::spec_decimal(m1)[0]);
    }
    if a2 < 0 {
        assert(d2[0] == '-');
    } else {
        assert(d2[0] == crate::text::spec_decimal(m2)[0]);
    }
    assert(k1 == k2);
    // the digits end at the first `-` after the sign
    assert forall|i: int| k1 <= i < d1.len() implies #[trigger] p1[i] != '-' by {
        assert(p1[i] == d1[i]);
        assert(d1[i] == crate::text::spec_decimal(m1)[i - k1]);
    }
    assert forall|i: int| k2 <= i < d2.len() implies #[trigger] p2[i] != '-' by {
        assert(p2[i] == d2[i]);
        assert(d2[i] == crate::text::spec_decimal(m2)[i - k2]);
    }
    assert(p1[d1.len() as int] == '-');
    assert(p2[d2.len() as int] == '-');
    if d1.len() < d2.len() {
        assert(p2[d1.len() as int] != '-');
    }
    if d2.len() < d1.len() {
        assert(p1[d2.len() as int] != '-');
    }
    assert(d1.len() == d2.len());
    assert(d1 =~= p1.subrange(0, d1.len() as int));
    assert(d2 =~= p2.subrange(0, d2.len() as int));
    assert(s1 =~= p1.skip(d1.len() as int + 1));
    assert(s2 =~= p2.skip(d2.len() as int + 1));
    crate::text::lemma_parse_i64_of_decimal(a1);
    crate::text::lemma_parse_i64_of_decimal(a2);
}

/// Different accounts or UIDLs never share a file: the file name determines
/// the account id and the UIDL.
pub proof fn lemma_file_names_do_not_collide(a1: i64, u1: Seq<char>, a2: i64, u2: Seq<char>)
    requires
        spec_file_name(a1, u1) == spec_file_name(a2, u2),
    ensures
        a1 == a2,
        u1 == u2,
{
    let ext = seq!['.', 'e', 'm', 'l'];
    let s1 = spec_sanitize(vstd::utf8::encode_utf8(u1));
    let s2 = spec_sanitize(vstd::utf8::encode_utf8(u2));
    let p1 = spec_signed_decimal(a1 as int) + seq!['-'] + s1;
    let p2 = spec_signed_decimal(a2 as int) + seq!['-'] + s2;
    assert(spec_file_name(a1, u1) == p1 + ext);
    assert(spec_file_name(a2, u2) == p2 + ext);
    assert(p1 =~= (p1 + ext).subrange(0, p1.len() as int));
    assert(p2 =~= (p2 + ext).subrange(0, p2.len() as int));
    assert(p1 == p2);
    lemma_split_name(a1, a2, s1, s2);
    lemma_unsanitize_sanitize(vstd::utf8::encode_utf8(u1));
    lemma_unsanitize_sanitize(vstd::utf8::encode_utf8(u2));
    vstd::utf8::encode_utf8_decode_utf8(u1);
    vstd::utf8::encode_utf8_decode_utf8(u2);
}

/// Escapes the bytes of a UIDL that could be unsafe in a file name (path
/// separators, characters reserved on Windows, ...) as `%xx`. The mapping only
/// goes one way: the database keeps the UIDL itself.
pub fn sanitize_for_filename(uidl: &str) -> (out: String)
    ensures
        out@ == spec_sanitize(vstd::utf8::encode_utf8(uidl@)),
{
    let bytes: &[u8] = uidl.as_bytes();
    let ghost all = vstd::utf8::encode_utf8(uidl@);
    let mut out = String::new();
    let mut i: usize = 0;
    while i < bytes.len()
        invariant
            bytes@ == all,
            i <= bytes@.len(),
            out@ == spec_sanitize(all.subrange(0, i as int)),
        decreases bytes@.len() - i,
    {
        let byte: u8 = bytes[i];
        proof {
            assert(all.subrange(0, i + 1).drop_last() =~= all.subrange(0, i as int));
        }
        if (0x30 <= byte && byte <= 0x39) || (0x41 <= byte && byte <= 0x5a) || (0x61 <= byte
            && byte <= 0x7a) || byte == 0x2d || byte == 0x5f || byte == 0x2e {
            push_char(&mut out, byte as char);
        } else {
            push_char(&mut out, '%');
            push_hex2(&mut out, byte);
        }
        proof {
            assert(out@ =~= spec_sanitize(all.subrange(0, i + 1)));
        }
        i = i + 1;
    }
    proof {
        assert(all.subrange(0, bytes@.len() as int) =~= all);
    }
    out
}

/// The path of a message, as its components: `base_dir`, `cur`, two
/// directories named by the two low bytes of the FNV-1a hash of
/// `<account_id>-<uidl>` (as two lower-case hexadecimal digits each), and the
/// file name `<account_id>-<sanitized uidl>.eml`. It does not depend on whether
/// the file exists.
pub fn message_path(base_dir: &str, account_id: i64, uidl: &str) -> (path: Vec<String>)
    ensures
        path@.len() == 5,
        path@[0]@ == base_dir@,
        path@[1]@ == seq!['c', 'u', 'r'],
        path@[2]@ == spec_hex2((spec_bucket_hash(account_id, uidl@) % 256) as u8),
        path@[3]@ == spec_hex2(((spec_bucket_hash(account_id, uidl@) / 256) % 256) as u8),
        path@[4]@ == spec_file_name(account_id, uidl@),
{
    let mut bucket_key = String::new();
    push_signed_decimal(&mut bucket_key, account_id);
    push_char(&mut bucket_key, '-');
    bucket_key.append(uidl);
    let h: u64 = fnv1a64(bucket_key.as_str().as_bytes());
    let xx: u8 = (h % 256) as u8;
    let yy: u8 = ((h / 256) % 256) as u8;

    let mut cur = String::new();
    push_char(&mut cur, 'c');
    push_char(&mut cur, 'u');
    push_char(&mut cur, 'r');
    let mut dir1 = String::new();
    push_hex2(&mut dir1, xx);
    let mut dir2 = String::new();
    push_hex2(&mut dir2, yy);

    let mut file_name = String::new();
    push_signed_decimal(&mut file_name, account_id);
    push_char(&mut file_name, '-');
    let sanitized = sanitize_for_filename(uidl);
    file_name.append(sanitized.as_str());
    push_char(&mut file_name, '.');
    push_char(&mut file_name, 'e');
    push_char(&mut file_name, 'm');
    push_char(&mut file_name, 'l');

    let mut path: Vec<String> = Vec::new();
    path.push(String::from_str(base_dir));
    path.push(cur);
    path.push(dir1);
    path.push(dir2);
    path.push(file_name);
    proof {
        assert(bucket_key@ =~= spec_bucket_key(account_id, uidl@));
        assert(path@[1]@ =~= seq!['c', 'u', 'r']);
        assert(path@[4]@ =~= spec_file_name(account_id, uidl@));
    }
    path
}

} // verus!
