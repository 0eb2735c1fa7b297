//! The lines the command-line client prints.

use vstd::prelude::*;

use crate::db::accounts::Account;
use crate::text::{push_char, push_decimal, push_signed_decimal, spec_decimal, spec_signed_decimal};

verus! {

/// `s` followed by spaces up to `width` characters (`format!("{:<width$}")`).
pub open spec fn spec_pad_end(s: Seq<char>, width: nat) -> Seq<char> {
    if s.len() >= width {
        s
    } else {
        s + Seq::new((width - s.len()) as nat, |i: int| ' ')
    }
}

/// Appends `s` left-aligned in a field of `width` characters.
pub fn push_padded(text: &mut String, s: &str, width: usize)
    ensures
        final(text)@ == old(text)@ + spec_pad_end(s@, width as nat),
{
    text.append(s);
    let n: usize = s.unicode_len();
    let mut k: usize = n;
    proof {
        assert(text@ =~= old(text)@ + s@ + Seq::new(0, |i: int| ' '));
    }
    while k < width
        invariant
            n == s@.len(),
            k >= n,
            n < width ==> k <= width,
            n >= width ==> k == n,
            final_ok(text@, old(text)@, s@, (k - n) as nat),
        decreases width - k,
    {
        let ghost before = text@;
        push_char(text, ' ');
        proof {
            assert(Seq::new((k - n) as nat, |i: int| ' ').push(' ') =~= Seq::new((k + 1 - n) as nat, |i: int| ' '));
            assert(text@ =~= old(text)@ + s@ + Seq::new((k + 1 - n) as nat, |i: int| ' '));
        }
        k = k + 1;
    }
    proof {
        if n < width {
            assert(text@ =~= old(text)@ + spec_pad_end(s@, width as nat));
        } else {
            assert(k == n);
            assert(text@ =~= old(text)@ + s@);
        }
    }
}

/// `text` is `before`, then `s`, then `pad` spaces.
pub open spec fn final_ok(text: Seq<char>, before: Seq<char>, s: Seq<char>, pad: nat) -> bool {
    text == before + s + Seq::new(pad, |i: int| ' ')
}

/// A stored message as the `list` command prints it: id, sender address,
/// subject and date, in columns.
pub open spec fn spec_message_line(id: i64, from_addr: Option<Seq<char>>, subject: Option<Seq<char>>, date: i64) -> Seq<char> {
    seq!['#'] + spec_pad_end(spec_signed_decimal(id as int), 6) + seq![' '] + spec_pad_end(
        match from_addr {
            Some(a) => a,
            None => "(unknown sender)"@,
        },
        30,
    ) + seq![' '] + spec_pad_end(
        match subject {
            Some(s) => s,
            None => "(no subject)"@,
        },
        40,
    ) + seq![' '] + spec_signed_decimal(date as int)
}

/// The `list` command's line for a message (see `spec_message_line`).
pub fn message_line(id: i64, from_addr: Option<&str>, subject: Option<&str>, date: i64) -> (line: String)
    ensures
        line@ == spec_message_line(
            id,
            match from_addr {
                Some(a) => Some(a@),
                None => None,
            },
            match subject {
                Some(s) => Some(s@),
                None => None,
            },
            date,
        ),
{
    let mut id_text = String::new();
    push_signed_decimal(&mut id_text, id);
    let mut line = String::new();
    push_char(&mut line, '#');
    push_padded(&mut line, id_text.as_str(), 6);
    push_char(&mut line, ' ');
    match from_addr {
        Some(a) => push_padded(&mut line, a, 30),
        None => push_padded(&mut line, "(unknown sender)", 30),
    }
    push_char(&mut line, ' ');
    match subject {
        Some(s) => push_padded(&mut line, s, 40),
        None => push_padded(&mut line, "(no subject)", 40),
    }
    push_char(&mut line, ' ');
    push_signed_decimal(&mut line, date);
    line
}

/// An account as the `account list` command prints it:
/// `#<id> <name> <user>@<host>:<port> (use_tls=<bool>)`, id and name in
/// columns.
pub open spec fn spec_account_line(a: Account) -> Seq<char> {
    seq!['#'] + spec_pad_end(spec_signed_decimal(a.id as int), 4) + seq![' '] + spec_pad_end(a.name@, 20)
        + seq![' '] + a.username@ + seq!['@'] + a.host@ + seq![':'] + spec_decimal(a.port as nat)
        + " (use_tls="@ + (if a.use_tls { "true"@ } else { "false"@ }) + seq![')']
}

/// The `account list` command's line for an account (see
/// `spec_account_line`).
pub fn account_line(a: &Account) -> (line: String)
    ensures
        line@ == spec_account_line(*a),
{
    let mut id_text = String::new();
    push_signed_decimal(&mut id_text, a.id);
    let mut line = String::new();
    push_char(&mut line, '#');
    push_padded(&mut line, id_text.as_str(), 4);
    push_char(&mut line, ' ');
    push_padded(&mut line, a.name.as_str(), 20);
    push_char(&mut line, ' ');
    line.append(a.username.as_str());
    push_char(&mut line, '@');
    line.append(a.host.as_str());
    push_char(&mut line, ':');
    push_decimal(&mut line, a.port as u64);
    line.append(" (use_tls=");
    if a.use_tls {
        line.append("true");
    } else {
        line.append("false");
    }
    push_char(&mut line, ')');
    line
}

} // verus!
