use ranger::checksum::{checksum_matches, lower_hex, verify_event_info, EventInfoError};
use ranger::text::{append_decimal, chars_of, contains_text, eq_ignore_ascii_case};

#[test]
fn decimals_are_appended_without_leading_zeros() {
    let mut s = "n-".to_string();
    append_decimal(&mut s, 0);
    assert_eq!(s, "n-0");
    let mut s = String::new();
    append_decimal(&mut s, 4_294_967_295);
    assert_eq!(s, "4294967295");
}

#[test]
fn text_search_finds_blocks_of_characters() {
    assert!(contains_text("Cannot add: a foreign key constraint fails (x)", "a foreign key constraint fails"));
    assert!(!contains_text("foreign key", "a foreign key constraint fails"));
    assert!(contains_text("anything", ""));
    assert!(contains_text("äbc", "bc"));
    assert!(!contains_text("", "x"));
    assert_eq!(chars_of("héllo"), vec!['h', 'é', 'l', 'l', 'o']);
}

#[test]
fn ascii_case_is_ignored_only_for_ascii_letters() {
    assert!(eq_ignore_ascii_case("Ping-Check", "ping-check"));
    assert!(eq_ignore_ascii_case("", ""));
    assert!(!eq_ignore_ascii_case("ping", "pong"));
    assert!(!eq_ignore_ascii_case("ping", "ping2"));
    assert!(!eq_ignore_ascii_case("É", "é"));
    for (a, b) in [("Abc", "aBC"), ("x_1", "X_1"), ("[", "{")] {
        assert_eq!(eq_ignore_ascii_case(a, b), a.eq_ignore_ascii_case(b));
    }
}

const EMPTY_SHA3_256: &str = "a7ffc6f8bf1ed76651c14756a061d662f580ff4de43b49fa82d80a4b80f8434a";

#[test]
fn checksums_are_lowercase_sha3_256() {
    assert!(checksum_matches(&vec![], EMPTY_SHA3_256));
    assert!(!checksum_matches(&vec![], &EMPTY_SHA3_256.to_uppercase()));
    assert!(!checksum_matches(&vec![1, 2, 3], EMPTY_SHA3_256));
    assert!(checksum_matches(
        &b"abc".to_vec(),
        "3a985da74fe225b2045c172d6bd390bd855f086e3e9d525b46bfe24511431532"
    ));
    assert_eq!(verify_event_info(&vec![], EMPTY_SHA3_256), Ok(()));
    assert_eq!(verify_event_info(&vec![0], EMPTY_SHA3_256), Err(EventInfoError::ChecksumMismatch));
}

#[test]
fn bytes_are_written_as_two_hex_digits() {
    let digits: String = lower_hex(&vec![0x00, 0x0f, 0xa0, 0xff]).into_iter().collect();
    assert_eq!(digits, "000fa0ff");
}
