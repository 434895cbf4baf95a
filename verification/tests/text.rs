//! The string and decimal helpers underneath the parsers and formatters.

use rdump::text::{
    contains_char, eq_str, find_char, has_prefix, padded_dec, parse_u64, slash_join, split_char,
    u64_to_dec,
};

#[test]
fn comparisons_and_searches() {
    assert!(eq_str("pool/a", "pool/a"));
    assert!(!eq_str("pool/a", "pool/b"));
    assert!(has_prefix("pool/a", "pool"));
    assert!(!has_prefix("po", "pool"));
    assert_eq!(find_char("a\tb\tc", '\t'), Some(1));
    assert_eq!(find_char("abc", '\t'), None);
    assert!(contains_char("pool#mark", '#'));
    assert!(!contains_char("pool", '#'));
}

#[test]
fn splitting_keeps_empty_segments() {
    assert_eq!(split_char("a\tb\tc", '\t'), vec!["a", "b", "c"]);
    assert_eq!(split_char("a  b", ' '), vec!["a", "", "b"]);
    assert_eq!(split_char("", ' '), vec![""]);
    assert_eq!(split_char("end\t", '\t'), vec!["end", ""]);
}

#[test]
fn decimal_rendering_and_padding() {
    assert_eq!(u64_to_dec(0), "0");
    assert_eq!(u64_to_dec(67890), "67890");
    assert_eq!(padded_dec(7, 4), "0007");
    assert_eq!(padded_dec(12345, 4), "12345");
    assert_eq!(slash_join("vg0", "root"), "vg0/root");
}

#[test]
fn decimal_parsing_rejects_junk_and_overflow() {
    assert_eq!(parse_u64("67890"), Some(67890));
    assert_eq!(parse_u64("0"), Some(0));
    assert_eq!(parse_u64(""), None);
    assert_eq!(parse_u64("12x"), None);
    assert_eq!(parse_u64("18446744073709551615"), Some(u64::MAX));
    assert_eq!(parse_u64("18446744073709551616"), None);
}
