//! The attachments of a raw message, listed for the detail view and taken out
//! one at a time to be saved. `mail-parser` parses the message; the listing,
//! numbering and choosing are done here.

use vstd::prelude::*;

use mail_parser::MimeHeaders;

use crate::mail::parse::spec_opt_text;

verus! {

/// One attachment; `index` is its position among the message's attachments.
#[derive(Debug, Clone, PartialEq, Eq)]
pub struct AttachmentInfo {
    pub index: usize,
    pub filename: Option<String>,
    pub content_type: Option<String>,
    pub size: usize,
}

/// An attachment as `mail-parser` gives it: its file name, its content type
/// (type and subtype), its decoded length and contents.
#[derive(Debug, Clone)]
pub struct AttachmentPart {
    pub name: Option<String>,
    pub content_type: Option<(String, Option<String>)>,
    pub size: usize,
    pub contents: Vec<u8>,
}

/// An attachment as plain values: name, content type, length, contents.
pub type AttachmentPartView = (Option<Seq<char>>, Option<(Seq<char>, Option<Seq<char>>)>, usize, Seq<u8>);

pub open spec fn spec_content_type_view(ct: Option<(String, Option<String>)>) -> Option<(Seq<char>, Option<Seq<char>>)> {
    match ct {
        Some((t, sub)) => Some((t@, spec_opt_text(sub))),
        None => None,
    }
}

pub open spec fn spec_part_view(p: AttachmentPart) -> AttachmentPartView {
    (spec_opt_text(p.name), spec_content_type_view(p.content_type), p.size, p.contents@)
}

pub open spec fn spec_parts_view(parts: Option<Vec<AttachmentPart>>) -> Option<Seq<AttachmentPartView>> {
    match parts {
        Some(v) => Some(v@.map_values(|p: AttachmentPart| spec_part_view(p))),
        None => None,
    }
}

/// The attachments `mail-parser` finds in a raw message, in its order
/// (`None` where it finds no message at all).
pub uninterp spec fn spec_message_attachments(raw: Seq<u8>) -> Option<Seq<AttachmentPartView>>;

/// `mail_parser::MessageParser::parse` with the default parser, then
/// `Message::attachments`, each converted to plain values: `attachment_name`,
/// `content_type` (type and subtype), `len` and `contents`. In its source
/// `len` is the length of `contents` for every kind of part, and parsing never
/// panics. Which parts count as attachments is not restated here.
#[verifier::external_body]
fn read_attachments(raw: &[u8]) -> (parts: Option<Vec<AttachmentPart>>)
    ensures
        spec_parts_view(parts) == spec_message_attachments(raw@),
        parts matches Some(v) ==> forall|i: int| 0 <= i < v@.len() ==> #[trigger] v@[i].size == v@[i].contents@.len(),
{
    mail_parser::MessageParser::default().parse(raw).map(|m| {
        m.attachments().map(|p| AttachmentPart {
            name: p.attachment_name().map(str::to_string),
            content_type: p.content_type().map(|ct| (ct.c_type.to_string(), ct.c_subtype.as_ref().map(|s| s.to_string()))),
            size: p.len(),
            contents: p.contents().to_vec(),
        }).collect()
    })
}

/// A content type as the detail view shows it: `type/subtype`, or the type
/// alone without a subtype.
pub open spec fn spec_content_type_text(ct: Option<(Seq<char>, Option<Seq<char>>)>) -> Option<Seq<char>> {
    match ct {
        Some((t, Some(sub))) => Some(t + seq!['/'] + sub),
        Some((t, None)) => Some(t),
        None => None,
    }
}

fn content_type_string(ct: &Option<(String, Option<String>)>) -> (text: Option<String>)
    ensures
        spec_opt_text(text) == spec_content_type_text(spec_content_type_view(*ct)),
{
    match ct {
        Some((t, sub)) => {
            let mut text = t.clone();
            match sub {
                Some(s) => {
                    crate::text::push_char(&mut text, '/');
                    text.append(s.as_str());
                },
                None => {},
            }
            Some(text)
        },
        None => None,
    }
}

/// The listing of a message's attachments: one entry per attachment, numbered
/// from 0 in `mail-parser`'s order, with its file name, content type and size.
pub open spec fn spec_info_of(index: int, p: AttachmentPartView) -> (int, Option<Seq<char>>, Option<Seq<char>>, int) {
    (index, p.0, spec_content_type_text(p.1), p.2 as int)
}

pub open spec fn spec_info_view(a: AttachmentInfo) -> (int, Option<Seq<char>>, Option<Seq<char>>, int) {
    (a.index as int, spec_opt_text(a.filename), spec_opt_text(a.content_type), a.size as int)
}

/// The attachments of `raw` as listed (see `spec_info_of`); none where no
/// message could be read.
pub open spec fn spec_list_attachments(raw: Seq<u8>, infos: Seq<AttachmentInfo>) -> bool {
    match spec_message_attachments(raw) {
        None => infos.len() == 0,
        Some(parts) => infos.len() == parts.len() && forall|i: int|
            0 <= i < parts.len() ==> spec_info_view(#[trigger] infos[i]) == spec_info_of(i, parts[i]),
    }
}

/// Lists the attachments of a raw message (without their contents).
pub fn list_attachments(raw: &[u8]) -> (infos: Vec<AttachmentInfo>)
    ensures
        spec_list_attachments(raw@, infos@),
{
    let mut infos: Vec<AttachmentInfo> = Vec::new();
    let parts = match read_attachments(raw) {
        Some(p) => p,
        None => return infos,
    };
    let ghost views = parts@.map_values(|p: AttachmentPart| spec_part_view(p));
    let mut i: usize = 0;
    while i < parts.len()
        invariant
            i <= parts@.len(),
            views == parts@.map_values(|p: AttachmentPart| spec_part_view(p)),
            infos@.len() == i,
            forall|k: int| 0 <= k < i ==> spec_info_view(#[trigger] infos@[k]) == spec_info_of(k, views[k]),
        decreases parts@.len() - i,
    {
        let part = &parts[i];
        let content_type = content_type_string(&part.content_type);
        let filename = match &part.name {
            Some(n) => Some(n.clone()),
            None => None,
        };
        infos.push(AttachmentInfo { index: i, filename, content_type, size: part.size });
        i = i + 1;
    }
    infos
}

/// The decoded contents of attachment `index` as `list_attachments` numbers
/// them; `None` past the last attachment or where no message could be read.
pub open spec fn spec_attachment_bytes(raw: Seq<u8>, index: int) -> Option<Seq<u8>> {
    match spec_message_attachments(raw) {
        Some(parts) => if 0 <= index < parts.len() { Some(parts[index].3) } else { None },
        None => None,
    }
}

/// Takes out the decoded contents of one attachment (see
/// `spec_attachment_bytes`).
pub fn extract_attachment_bytes(raw: &[u8], index: usize) -> (bytes: Option<Vec<u8>>)
    ensures
        match bytes {
            Some(b) => spec_attachment_bytes(raw@, index as int) == Some(b@),
            None => spec_attachment_bytes(raw@, index as int) is None,
        },
{
    let mut parts = match read_attachments(raw) {
        Some(p) => p,
        None => return None,
    };
    if index < parts.len() {
        let ghost views = parts@.map_values(|p: AttachmentPart| spec_part_view(p));
        let part = parts.swap_remove(index);
        proof {
            assert(views[index as int] == spec_part_view(part));
        }
        Some(part.contents)
    } else {
        None
    }
}

/// The listing and the contents agree: entry `i` of the listing stands for
/// the attachment that `extract_attachment_bytes` takes out at `i`, and its
/// size is the length of those contents; past the listing there is nothing
/// to take out.
pub proof fn lemma_listing_matches_contents(raw: Seq<u8>, infos: Seq<AttachmentInfo>, index: int)
    requires
        spec_list_attachments(raw, infos),
        spec_message_attachments(raw) matches Some(parts) ==> forall|i: int|
            0 <= i < parts.len() ==> #[trigger] parts[i].2 == parts[i].3.len(),
    ensures
        0 <= index < infos.len() ==> (spec_attachment_bytes(raw, index) matches Some(b) && b.len()
            == infos[index].size && infos[index].index == index),
        index >= infos.len() ==> spec_attachment_bytes(raw, index) is None,
{
    if 0 <= index < infos.len() {
        let parts = spec_message_attachments(raw)->Some_0;
        assert(spec_info_view(infos[index]) == spec_info_of(index, parts[index]));
    }
}

} // verus!
