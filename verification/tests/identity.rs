use cumments::encoding::{parse_numeral, to_numeral};
use cumments::identity::{compute_user_fingerprint, ghost_user_id, user_id};
use sha2::Digest;

fn expected_fingerprint(email: Option<&str>, token: &str, salt: &str) -> String {
    let mut msg: Vec<u8> = Vec::new();
    msg.extend_from_slice(&(salt.len() as u64).to_be_bytes());
    msg.extend_from_slice(salt.as_bytes());
    msg.push(if email.is_some() { 1 } else { 0 });
    let e = email.unwrap_or("");
    msg.extend_from_slice(&(e.len() as u64).to_be_bytes());
    msg.extend_from_slice(e.as_bytes());
    msg.extend_from_slice(token.as_bytes());
    hex::encode(sha2::Sha256::digest(&msg))
}

#[test]
fn fingerprint_is_the_salted_digest_in_hex() {
    let fp = compute_user_fingerprint(Some("ferris@example.org"), "token-1", "salt");
    assert_eq!(fp, expected_fingerprint(Some("ferris@example.org"), "token-1", "salt"));
    assert_eq!(fp.len(), 64);
    assert!(fp.chars().all(|c| c.is_ascii_digit() || ('a'..='f').contains(&c)));
    let fp = compute_user_fingerprint(None, "", "");
    assert_eq!(fp, expected_fingerprint(None, "", ""));
}

#[test]
fn fingerprint_is_stable() {
    let a = compute_user_fingerprint(Some("a@b.c"), "t", "s");
    let b = compute_user_fingerprint(Some("a@b.c"), "t", "s");
    assert_eq!(a, b);
}

#[test]
fn fingerprint_differs_with_token_email_and_salt() {
    let base = compute_user_fingerprint(Some("a@b.c"), "t", "s");
    assert_ne!(base, compute_user_fingerprint(Some("a@b.c"), "u", "s"));
    assert_ne!(base, compute_user_fingerprint(Some("x@b.c"), "t", "s"));
    assert_ne!(base, compute_user_fingerprint(None, "t", "s"));
    assert_ne!(base, compute_user_fingerprint(Some("a@b.c"), "t", "other"));
    // where the parts are cut makes a difference
    assert_ne!(
        compute_user_fingerprint(Some("ab"), "c", "s"),
        compute_user_fingerprint(Some("a"), "bc", "s")
    );
    assert_ne!(
        compute_user_fingerprint(Some(""), "t", "s"),
        compute_user_fingerprint(None, "t", "s")
    );
}

#[test]
fn ghost_identity_is_named_by_the_fingerprint() {
    assert_eq!(user_id("bot", "example.org"), "@bot:example.org");
    assert_eq!(
        ghost_user_id("cumments", "abc123", "example.org"),
        Some("@cumments_abc123:example.org".to_string())
    );
    assert_eq!(ghost_user_id("cumments", "abc123", ""), None);
    assert_eq!(ghost_user_id("cumments", "abc:123", "not a server"), None);
}

#[test]
fn numerals_are_written_and_read() {
    assert_eq!(to_numeral(0), "0");
    assert_eq!(to_numeral(7), "7");
    assert_eq!(to_numeral(1_700_000_000), "1700000000");
    assert_eq!(to_numeral(u64::MAX), "18446744073709551615");
    assert_eq!(parse_numeral("0"), Some(0));
    assert_eq!(parse_numeral("42"), Some(42));
    assert_eq!(parse_numeral("18446744073709551615"), Some(u64::MAX));
    assert_eq!(parse_numeral("18446744073709551616"), None);
    assert_eq!(parse_numeral("99999999999999999999999"), None);
    assert_eq!(parse_numeral(""), None);
    assert_eq!(parse_numeral("007"), None);
    assert_eq!(parse_numeral("+1"), None);
    assert_eq!(parse_numeral("1 "), None);
    assert_eq!(parse_numeral("12a"), None);
    assert_eq!(parse_numeral("\u{661}\u{662}"), None);
}
