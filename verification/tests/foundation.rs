//! Texts, times, keys and collections.

use egregore::collections::{contains_string, StrMap, StrSet};
use egregore::identity::{blake3_hash_parts, stable_id};
use egregore::keys::{
    hash_text, random_token, records_hash, request_id, scoped_idempotency_key, stable_job_id,
    stable_pair_key, stable_triple_key, token_of,
};
use egregore::scan::{
    is_blank, is_whitespace, non_empty, parse_number, split_once, split_str, split_whitespace,
    to_ascii_lowercase, trim, trim_start_matches,
};
use egregore::text::{
    byte_len, chars_of, concat2, concat7, contains_char, decimal, decimal_wide, ends_with, join,
    opt_str_order, split, starts_with, str_eq, str_lt, str_order, string_of, Order,
};
use egregore::time::{compare_times, instant_of, is_rfc3339};

const SAMPLES: [&str; 8] = [
    "",
    " ",
    "abc",
    "  a b\tc ",
    "\u{a0}x\u{3000}",
    "a,b,,c",
    "caf\u{e9} \u{1f600}",
    "//v1//x",
];

#[test]
fn whitespace_is_that_of_the_standard_library() {
    for n in 0..=0x10ffff_u32 {
        if let Some(c) = char::from_u32(n) {
            assert_eq!(is_whitespace(c), c.is_whitespace(), "{n:x}");
        }
    }
}

#[test]
fn scans_agree_with_the_standard_library() {
    for s in SAMPLES {
        assert_eq!(trim(s), s.trim());
        assert_eq!(is_blank(s), s.trim().is_empty());
        let words: Vec<&str> = s.split_whitespace().collect();
        assert_eq!(split_whitespace(s), words);
        assert_eq!(to_ascii_lowercase(s), s.to_ascii_lowercase());
        let parts: Vec<&str> = s.split(", ").collect();
        assert_eq!(split_str(s, ", "), parts);
        let commas: Vec<&str> = s.split(',').collect();
        assert_eq!(split(s, ','), commas);
        assert_eq!(trim_start_matches(s, "/"), s.trim_start_matches('/'));
        let pair = s.split_once(' ').map(|(a, b)| (a.to_owned(), b.to_owned()));
        assert_eq!(split_once(s, " "), pair);
        assert_eq!(byte_len(s), s.len());
        let chars: Vec<char> = s.chars().collect();
        assert_eq!(chars_of(s), chars);
        assert_eq!(string_of(&chars, 0, chars.len()), s);
        for t in SAMPLES {
            assert_eq!(starts_with(s, t), s.starts_with(t));
            assert_eq!(ends_with(s, t), s.ends_with(t));
            assert_eq!(str_eq(s, t), s == t);
            assert_eq!(str_lt(s, t), s < t);
        }
        assert_eq!(contains_char(s, 'b'), s.contains('b'));
    }
    assert_eq!(to_ascii_lowercase("Content-LENGTH"), "content-length");
}

#[test]
fn numbers_are_read_up_to_a_bound() {
    assert_eq!(parse_number("0", 10), Some(0));
    assert_eq!(parse_number("+7", 10), Some(7));
    assert_eq!(parse_number("10", 10), Some(10));
    assert_eq!(parse_number("11", 10), None);
    assert_eq!(parse_number("", 10), None);
    assert_eq!(parse_number("+", 10), None);
    assert_eq!(parse_number("-1", 10), None);
    assert_eq!(parse_number("1x", 10), None);
    assert_eq!(parse_number("18446744073709551615", u64::MAX), Some(u64::MAX));
    assert_eq!(parse_number("18446744073709551616", u64::MAX), None);
}

#[test]
fn numbers_are_written_in_decimal() {
    for n in [0_u64, 1, 9, 10, 99, 100, 12_345, u64::MAX] {
        assert_eq!(decimal(n), n.to_string());
        assert_eq!(decimal_wide(u128::from(n)), n.to_string());
    }
    assert_eq!(decimal_wide(u128::MAX), u128::MAX.to_string());
}

#[test]
fn texts_are_put_together() {
    assert_eq!(concat2("a", "b"), "ab");
    assert_eq!(concat7("a", "b", "", "d", "e", "f", "g"), "abdefg");
    let parts = vec!["a".to_owned(), "b".to_owned(), "c".to_owned()];
    assert_eq!(join(&parts, ", "), "a, b, c");
    assert_eq!(join(&Vec::new(), ", "), "");
}

#[test]
fn absent_texts_come_first() {
    assert_eq!(opt_str_order(None, Some("")), Order::Less);
    assert_eq!(opt_str_order(Some("a"), None), Order::Greater);
    assert_eq!(opt_str_order(None, None), Order::Equal);
    assert_eq!(str_order("a", "b"), Order::Less);
    assert_eq!(str_order("b", "ab"), Order::Greater);
    assert_eq!(non_empty(&Some(" ".to_owned())), None);
    assert_eq!(non_empty(&Some(" x".to_owned())), Some(" x"));
    assert_eq!(non_empty(&None), None);
}

#[test]
fn times_are_compared_as_instants() {
    assert_eq!(instant_of("1970-01-01T00:00:01Z"), Some((1, 0)));
    assert_eq!(instant_of("1970-01-01T01:00:00.5+01:00"), Some((0, 500_000_000)));
    assert_eq!(instant_of("1969-12-31T23:59:59Z"), Some((-1, 0)));
    assert_eq!(instant_of("yesterday"), None);
    assert!(is_rfc3339("2024-02-29T12:00:00+02:00"));
    assert!(!is_rfc3339("2023-02-29T12:00:00Z"));
    assert!(!is_rfc3339("2024-02-29"));
    assert_eq!(
        compare_times("2024-01-01T01:00:00+01:00", "2024-01-01T00:00:00Z"),
        Order::Equal
    );
    assert_eq!(
        compare_times("2024-01-01T00:00:00+01:00", "2024-01-01T00:00:00Z"),
        Order::Less
    );
    assert_eq!(compare_times("b", "a"), Order::Greater);
}

#[test]
fn keys_tell_their_parts_apart() {
    assert_eq!(stable_pair_key("p", "ab", "c"), "p:2:1:abc");
    assert_ne!(stable_pair_key("p", "ab", "c"), stable_pair_key("p", "a", "bc"));
    assert_eq!(stable_triple_key("p", "a", "", "bc"), "p:1:0:2:abc");
    assert_eq!(
        scoped_idempotency_key("agent", "/v1/x", "k"),
        "idempotency:5:5:1:agent/v1/xk"
    );
    assert_ne!(
        scoped_idempotency_key("a", "bc", "d"),
        scoped_idempotency_key("ab", "c", "d")
    );
    assert_eq!(stable_pair_key("p", "\u{e9}", ""), "p:2:0:\u{e9}");
}

#[test]
fn identifiers_are_hashes_of_their_parts() {
    assert_eq!(hash_text(""), records_hash(&Vec::new()));
    assert_eq!(
        hash_text(""),
        "af1349b9f5f9a1a6a0404dea36dcc9499bcb25c9adc112b7cc9a93cae41f3262"
    );
    assert_eq!(blake3_hash_parts(&vec!["a", "b"]), hash_text("a\0b\0"));
    assert_eq!(
        stable_id("verification", 1, &vec!["a", "b"]),
        format!("verification:v1:{}", hash_text("a\0b\0"))
    );
    assert_eq!(stable_job_id("k"), format!("job-{}", hash_text("k")));
    assert_eq!(
        request_id("ingest", "x", 12),
        format!("ingest-{}", hash_text("ingest:x:12"))
    );
}

#[test]
fn tokens_are_the_bytes_in_hexadecimal() {
    assert_eq!(token_of(&vec![0, 1, 0xab, 0xff]), "0001abff");
    let (a, b) = (random_token(), random_token());
    assert_eq!(a.len(), 64);
    assert!(a.chars().all(|c| c.is_ascii_hexdigit()));
    assert_ne!(a, b);
    assert_ne!(a, "0".repeat(64));
}

#[test]
fn sets_and_maps_hold_each_text_once() {
    let mut set = StrSet::new();
    assert!(set.insert("b"));
    assert!(set.insert("a"));
    assert!(!set.insert("b"));
    assert_eq!(set.len(), 2);
    assert!(set.contains("a") && !set.contains("c"));
    assert_eq!(set.into_vec(), vec!["a", "b"]);
    let mut map: StrMap<u64> = StrMap::new();
    map.insert("x", 1);
    map.insert("y", 2);
    map.insert("x", 3);
    assert_eq!(map.len(), 2);
    assert_eq!(map.get("x"), Some(&3));
    assert_eq!(map.get("z"), None);
    assert!(map.contains_key("y"));
    assert!(contains_string(&vec!["q".to_owned()], "q"));
}
