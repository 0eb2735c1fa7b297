use ferro_core::db::messages::{parse_folder, Folder};
use ferro_core::mail::attachments::{extract_attachment_bytes, list_attachments};
use ferro_core::mail::parse::extract_plain_text_body;
use ferro_core::mail::parse::parse_headers;

const MESSAGE_WITH_ATTACHMENT: &[u8] = b"From: a@example.com\r\n\
Content-Type: multipart/mixed; boundary=\"B\"\r\n\
\r\n\
--B\r\n\
Content-Type: text/plain\r\n\
\r\n\
body text\r\n\
--B\r\n\
Content-Type: text/plain; name=\"hello.txt\"\r\n\
Content-Disposition: attachment; filename=\"hello.txt\"\r\n\
Content-Transfer-Encoding: base64\r\n\
\r\n\
aGVsbG8gd29ybGQ=\r\n\
--B--\r\n";

#[test]
fn extracts_common_headers() {
    let raw = b"From: Alice <alice@example.com>\r\n\
                To: Bob <bob@example.com>\r\n\
                Subject: Hello\r\n\
                Date: Mon, 1 Jan 2024 09:00:00 +0900\r\n\
                Message-ID: <abc@example.com>\r\n\
                \r\n\
                body";
    let headers = parse_headers(raw);
    assert_eq!(headers.subject.as_deref(), Some("Hello"));
    assert_eq!(headers.from_name.as_deref(), Some("Alice"));
    assert_eq!(headers.from_addr.as_deref(), Some("alice@example.com"));
    assert_eq!(headers.to_addr.as_deref(), Some("bob@example.com"));
    assert_eq!(headers.message_id.as_deref(), Some("abc@example.com"));
    assert!(headers.date_header.is_some());
}

#[test]
fn handles_missing_headers_gracefully() {
    let raw = b"Subject: only subject\r\n\r\nbody";
    let headers = parse_headers(raw);
    assert_eq!(headers.subject.as_deref(), Some("only subject"));
    assert_eq!(headers.from_addr, None);
    assert_eq!(headers.date_header, None);
}

#[test]
fn dates_become_unix_seconds_in_utc() {
    let headers = parse_headers(b"Date: Mon, 1 Jan 2024 09:00:00 +0900\r\n\r\nx");
    assert_eq!(headers.date_header, Some(1_704_067_200));
}

#[test]
fn lists_attachment_metadata() {
    let attachments = list_attachments(MESSAGE_WITH_ATTACHMENT);
    assert_eq!(attachments.len(), 1);
    assert_eq!(attachments[0].index, 0);
    assert_eq!(attachments[0].filename.as_deref(), Some("hello.txt"));
    assert_eq!(attachments[0].content_type.as_deref(), Some("text/plain"));
    assert_eq!(attachments[0].size, b"hello world".len());
}

#[test]
fn extracts_decoded_attachment_bytes() {
    let bytes = extract_attachment_bytes(MESSAGE_WITH_ATTACHMENT, 0).unwrap();
    assert_eq!(bytes, b"hello world");
    assert!(extract_attachment_bytes(MESSAGE_WITH_ATTACHMENT, 1).is_none());
}

#[test]
fn returns_empty_for_message_without_attachments() {
    let raw = b"Subject: hi\r\n\r\nbody";
    assert!(list_attachments(raw).is_empty());
    assert!(extract_attachment_bytes(raw, 0).is_none());
}

#[test]
fn plain_text_body_is_the_first_text_part() {
    let body = extract_plain_text_body(MESSAGE_WITH_ATTACHMENT).unwrap();
    assert!(body.starts_with("body text"));
}

#[test]
fn folder_names_parse_and_unknown_ones_are_errors() {
    assert_eq!(parse_folder("inbox"), Ok(Folder::Inbox));
    assert_eq!(parse_folder("starred"), Ok(Folder::Starred));
    assert_eq!(parse_folder("snoozed"), Ok(Folder::Snoozed));
    assert_eq!(parse_folder("archive"), Ok(Folder::Archive));
    assert_eq!(parse_folder("trash"), Ok(Folder::Trash));
    assert_eq!(parse_folder("Inbox"), Err("unknown folder: Inbox".to_string()));
}
