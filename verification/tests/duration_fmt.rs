//! The duration formatter: fixed-width rendering with the host's
//! truncating division and remainder.

use hour_calc::duration::fmt_duration;

#[test]
fn format_zero() {
    assert_eq!(fmt_duration(0), "00:00:00");
}

#[test]
fn format_working_day() {
    assert_eq!(fmt_duration(30600), "08:30:00");
}

#[test]
fn format_each_field() {
    assert_eq!(fmt_duration(3661), "01:01:01");
}

#[test]
fn format_hours_beyond_two_digits() {
    // Hours are not clamped.
    assert_eq!(fmt_duration(360000), "100:00:00");
}

#[test]
fn format_negative_duration() {
    // Truncating semantics: -30600/60 = -510, -510/60 = -8, -510%60 = -30,
    // -30600%60 = 0; each field rendered with at least two characters,
    // a sign counting toward the width.
    assert_eq!(fmt_duration(-30600), "-8:-30:00");
}

#[test]
fn format_small_negative_duration() {
    assert_eq!(fmt_duration(-5), "00:00:-5");
}

#[test]
fn format_negative_full_fields() {
    // -3661 s: hours -1, minutes -1, seconds -1.
    assert_eq!(fmt_duration(-3661), "-1:-1:-1");
}
