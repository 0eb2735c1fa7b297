//! The headers that fill the structured columns of a message row, and the
//! plain-text body. Parsing is done by `mail-parser`; this module picks the
//! fields the list needs.

use vstd::prelude::*;

verus! {

#[derive(Debug, Clone, PartialEq, Eq)]
pub struct ParsedHeaders {
    pub message_id: Option<String>,
    pub subject: Option<String>,
    pub from_name: Option<String>,
    pub from_addr: Option<String>,
    pub to_addr: Option<String>,
    /// The Date header as Unix seconds, when present and readable.
    pub date_header: Option<i64>,
}

/// The view of an optional text.
pub open spec fn spec_opt_text(t: Option<String>) -> Option<Seq<char>> {
    match t {
        Some(s) => Some(s@),
        None => None,
    }
}

/// The headers as plain values.
pub struct ParsedHeadersView {
    pub message_id: Option<Seq<char>>,
    pub subject: Option<Seq<char>>,
    pub from_name: Option<Seq<char>>,
    pub from_addr: Option<Seq<char>>,
    pub to_addr: Option<Seq<char>>,
    pub date_header: Option<i64>,
}

impl View for ParsedHeaders {
    type V = ParsedHeadersView;

    open spec fn view(&self) -> ParsedHeadersView {
        ParsedHeadersView {
            message_id: spec_opt_text(self.message_id),
            subject: spec_opt_text(self.subject),
            from_name: spec_opt_text(self.from_name),
            from_addr: spec_opt_text(self.from_addr),
            to_addr: spec_opt_text(self.to_addr),
            date_header: self.date_header,
        }
    }
}

impl Default for ParsedHeaders {
    /// No header known.
    fn default() -> (h: ParsedHeaders)
        ensures
            h.message_id is None && h.subject is None && h.from_name is None && h.from_addr is None
                && h.to_addr is None && h.date_header is None,
    {
        ParsedHeaders {
            message_id: None,
            subject: None,
            from_name: None,
            from_addr: None,
            to_addr: None,
            date_header: None,
        }
    }
}

/// One mailbox of an address header: display name and address, each when
/// present.
#[derive(Debug, Clone, PartialEq, Eq)]
pub struct MailAddress {
    pub name: Option<String>,
    pub address: Option<String>,
}

/// The header fields `mail-parser` found: `from` and `to` list their
/// mailboxes in order (those of groups included), `date` is the Date header
/// as Unix seconds.
#[derive(Debug, Clone)]
pub struct HeaderFields {
    pub message_id: Option<String>,
    pub subject: Option<String>,
    pub from: Option<Vec<MailAddress>>,
    pub to: Option<Vec<MailAddress>>,
    pub date: Option<i64>,
}

/// A mailbox as plain values.
pub type MailAddressView = (Option<Seq<char>>, Option<Seq<char>>);

/// The header fields as plain values.
pub struct HeaderFieldsView {
    pub message_id: Option<Seq<char>>,
    pub subject: Option<Seq<char>>,
    pub from: Option<Seq<MailAddressView>>,
    pub to: Option<Seq<MailAddressView>>,
    pub date: Option<i64>,
}

pub open spec fn spec_address_list_view(list: Option<Vec<MailAddress>>) -> Option<Seq<MailAddressView>> {
    match list {
        Some(v) => Some(v@.map_values(|a: MailAddress| (spec_opt_text(a.name), spec_opt_text(a.address)))),
        None => None,
    }
}

pub open spec fn spec_header_fields_view(h: Option<HeaderFields>) -> Option<HeaderFieldsView> {
    match h {
        Some(f) => Some(
            HeaderFieldsView {
                message_id: spec_opt_text(f.message_id),
                subject: spec_opt_text(f.subject),
                from: spec_address_list_view(f.from),
                to: spec_address_list_view(f.to),
                date: f.date,
            },
        ),
        None => None,
    }
}

/// What `mail-parser` reads from the headers of a raw message (`None` where
/// it finds no headers at all).
pub uninterp spec fn spec_read_headers(raw: Seq<u8>) -> Option<HeaderFieldsView>;

/// `mail_parser::MessageParser::parse_headers` with the default parser,
/// converted to plain values: message id, subject, the mailboxes of From and
/// To in the order `Address::iter` gives them, and `DateTime::to_timestamp`
/// of the Date header. Its source never panics. What it reads is not
/// restated here.
#[verifier::external_body]
fn read_headers(raw: &[u8]) -> (h: Option<HeaderFields>)
    ensures
        spec_header_fields_view(h) == spec_read_headers(raw@),
{
    let text = |t: Option<&str>| t.map(str::to_string);
    let list = |a: Option<&mail_parser::Address>| {
        a.map(|a| a.iter().map(|m| MailAddress { name: text(m.name()), address: text(m.address()) }).collect())
    };
    mail_parser::MessageParser::default().parse_headers(raw).map(|m| HeaderFields {
        message_id: text(m.message_id()),
        subject: text(m.subject()),
        from: list(m.from()),
        to: list(m.to()),
        date: m.date().map(|d| d.to_timestamp()),
    })
}

/// The first mailbox of an address header, when it has one.
pub open spec fn spec_first(list: Option<Seq<MailAddressView>>) -> Option<MailAddressView> {
    match list {
        Some(l) => if l.len() > 0 { Some(l[0]) } else { None },
        None => None,
    }
}

/// The row's header columns from what `mail-parser` read: all empty when it
/// found no headers; else the message id, the subject, the first sender's
/// name and address, the first recipient's address and the date.
pub open spec fn spec_parsed_headers(h: Option<HeaderFieldsView>) -> ParsedHeadersView {
    match h {
        None => ParsedHeadersView {
            message_id: None,
            subject: None,
            from_name: None,
            from_addr: None,
            to_addr: None,
            date_header: None,
        },
        Some(f) => ParsedHeadersView {
            message_id: f.message_id,
            subject: f.subject,
            from_name: match spec_first(f.from) {
                Some(a) => a.0,
                None => None,
            },
            from_addr: match spec_first(f.from) {
                Some(a) => a.1,
                None => None,
            },
            to_addr: match spec_first(f.to) {
                Some(a) => a.1,
                None => None,
            },
            date_header: f.date,
        },
    }
}

/// The row shows the first sender and the first recipient: whatever the From
/// and To headers list, however many mailboxes, the sender's name and address
/// are those of the first mailbox of From, and the recipient's address that
/// of the first mailbox of To, in mail-parser's order; a header without
/// mailboxes gives nothing.
pub proof fn lemma_first_sender_and_recipient(h: Option<HeaderFieldsView>)
    ensures
        h is Some && h->0.to is Some && h->0.to->0.len() > 0 ==> spec_parsed_headers(h).to_addr == h->0.to->0[0].1,
        h is Some && h->0.from is Some && h->0.from->0.len() > 0 ==> spec_parsed_headers(h).from_addr
            == h->0.from->0[0].1 && spec_parsed_headers(h).from_name == h->0.from->0[0].0,
        h is Some && (h->0.to is None || h->0.to->0.len() == 0) ==> spec_parsed_headers(h).to_addr is None,
        h is None ==> spec_parsed_headers(h).to_addr is None && spec_parsed_headers(h).from_addr is None,
{
}

fn first_mailbox(list: Option<Vec<MailAddress>>) -> (first: Option<MailAddress>)
    ensures
        match first {
            Some(a) => spec_first(spec_address_list_view(list)) == Some(
                (spec_opt_text(a.name), spec_opt_text(a.address)),
            ),
            None => spec_first(spec_address_list_view(list)) is None,
        },
{
    match list {
        Some(mut v) => {
            if v.len() > 0 {
                Some(v.swap_remove(0))
            } else {
                None
            }
        },
        None => None,
    }
}

/// Reads the headers of a raw message for the message list, without decoding
/// the body. A message with no readable headers gives all fields empty, so
/// that it is still listed.
pub fn parse_headers(raw: &[u8]) -> (headers: ParsedHeaders)
    ensures
        headers@ == spec_parsed_headers(spec_read_headers(raw@)),
{
    match read_headers(raw) {
        None => ParsedHeaders::default(),
        Some(h) => {
            let from = first_mailbox(h.from);
            let to = first_mailbox(h.to);
            let (from_name, from_addr) = match from {
                Some(a) => (a.name, a.address),
                None => (None, None),
            };
            let to_addr = match to {
                Some(a) => a.address,
                None => None,
            };
            ParsedHeaders {
                message_id: h.message_id,
                subject: h.subject,
                from_name,
                from_addr,
                to_addr,
                date_header: h.date,
            }
        },
    }
}

/// The plain-text body of a raw message, as `mail-parser` reads it.
pub uninterp spec fn spec_plain_text_body(raw: Seq<u8>) -> Option<Seq<char>>;

/// The message's first text body (`Message::body_text(0)` of
/// `mail_parser::MessageParser::parse`, an HTML body converted to text), for
/// the detail view and the search index; `None` where there is none. What the
/// text is, is not restated here.
#[verifier::external_body]
pub fn extract_plain_text_body(raw: &[u8]) -> (body: Option<String>)
    ensures
        spec_opt_text(body) == spec_plain_text_body(raw@),
{
    mail_parser::MessageParser::default().parse(raw).and_then(|m| m.body_text(0).map(|t| t.into_owned()))
}

} // verus!
