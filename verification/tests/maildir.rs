use ferro_core::maildir::hash::fnv1a64;
use ferro_core::maildir::{message_path, sanitize_for_filename};

#[test]
fn matches_known_fnv1a64_test_vectors() {
    assert_eq!(fnv1a64(b""), 0xcbf29ce484222325);
    assert_eq!(fnv1a64(b"a"), 0xaf63dc4c8601ec8c);
    assert_eq!(fnv1a64(b"foobar"), 0x85944171f73967e8);
}

#[test]
fn message_path_is_deterministic_and_hash_distributed() {
    let path_a = message_path("/maildir-base", 1, "uidl-abc");
    let path_b = message_path("/maildir-base", 1, "uidl-abc");
    assert_eq!(path_a, path_b);

    assert_eq!(path_a[0], "/maildir-base");
    let components = &path_a[1..];
    assert_eq!(components[0], "cur");
    assert_eq!(components[1].len(), 2);
    assert_eq!(components[2].len(), 2);
    assert_eq!(components[3], "1-uidl-abc.eml");
}

#[test]
fn different_accounts_or_uidls_do_not_collide() {
    let a = message_path("/base", 1, "x");
    let b = message_path("/base", 2, "x");
    let c = message_path("/base", 1, "y");
    let d = message_path("/base", 11, "");
    let e = message_path("/base", 1, "1");
    assert_ne!(a, b);
    assert_ne!(a, c);
    assert_ne!(d, e);
    assert_ne!(a[4], b[4]);
    assert_ne!(a[4], c[4]);
}

#[test]
fn unsafe_characters_in_uidl_are_sanitized_out_of_the_filename() {
    let path = message_path("/base", 7, "../etc/passwd");
    assert_eq!(path[4], "7-..%2fetc%2fpasswd.eml");
    assert!(!path[4].contains('/'));
    assert_eq!(sanitize_for_filename("a b\\c:%"), "a%20b%5cc%3a%25");
    assert_eq!(sanitize_for_filename("é"), "%c3%a9");
    assert_eq!(sanitize_for_filename("Az09-_."), "Az09-_.");
}

#[test]
fn negative_account_ids_keep_their_sign_in_the_file_name() {
    let path = message_path("/base", -3, "u");
    assert_eq!(path[4], "-3-u.eml");
    assert_eq!(path[1], "cur");
}
