use csharp_tools::text::{chars_of, ends_with, parse_u64, split_ranges, starts_with};

#[test]
fn decimal_numbers_are_read_as_str_parse_does() {
    let cs = chars_of("x+42y007z");
    assert_eq!(parse_u64(&cs, 1, 4), Some(42));
    assert_eq!(parse_u64(&cs, 5, 8), Some(7));
    assert_eq!(parse_u64(&cs, 1, 2), None);
    assert_eq!(parse_u64(&cs, 3, 3), None);
    assert_eq!(parse_u64(&cs, 0, 4), None);
    let big = chars_of("18446744073709551615");
    assert_eq!(parse_u64(&big, 0, big.len()), Some(u64::MAX));
    let over = chars_of("18446744073709551616");
    assert_eq!(parse_u64(&over, 0, over.len()), None);
}

#[test]
fn pieces_between_separators() {
    let cs = chars_of("a.bc..d");
    assert_eq!(split_ranges(&cs, 0, cs.len(), '.'), vec![(0, 1), (2, 4), (5, 5), (6, 7)]);
    assert_eq!(split_ranges(&cs, 2, 2, '.'), vec![(2, 2)]);
}

#[test]
fn prefixes_and_suffixes() {
    assert!(ends_with("a.tar.gz", ".tar.gz"));
    assert!(!ends_with("gz", ".tar.gz"));
    assert!(starts_with("win-x64", "win"));
    assert!(!starts_with("wi", "win"));
    assert!(starts_with("abc", ""));
}
