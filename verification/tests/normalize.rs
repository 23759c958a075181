//! The timestamp normalizer: separator insertion at fixed offsets.

use hour_calc::timestamp::hypentate_dttime;

#[test]
fn normalize_compact_token() {
    assert_eq!(
        hypentate_dttime("20220921T151530Z"),
        "2022-09-21T15:15:30Z"
    );
}

#[test]
fn normalize_keeps_offset_suffix() {
    // Characters past position 12 pass through unchanged.
    assert_eq!(
        hypentate_dttime("20220921T151530+0200"),
        "2022-09-21T15:15:30+0200"
    );
}

#[test]
fn normalize_empty_token() {
    assert_eq!(hypentate_dttime(""), "");
}

#[test]
fn normalize_short_token_appends_trailing_separator() {
    // A separator still follows position 3 even at the very end.
    assert_eq!(hypentate_dttime("2022"), "2022-");
}

#[test]
fn normalize_is_not_validation() {
    // Non-digits are rewritten syntactically all the same.
    assert_eq!(hypentate_dttime("abcdefghijklmn"), "abcd-ef-ghijk:lm:n");
}
