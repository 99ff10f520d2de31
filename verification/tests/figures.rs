//! Figures and the strings they are written in.

use nanochrono::text::{bytes, duration, frequency, readable, same, Text};

#[test]
fn a_buffer_keeps_what_fits() {
    let mut text: Text<8> = Text::new();
    assert!(text.is_empty());
    text.str("abc").num(42).push(b'!');
    assert_eq!(text.as_str(), "abc42!");
    assert_eq!(text.len(), 6);
    assert!(text.has_room_for(2));
    assert!(!text.has_room_for(3));
    assert!(!text.has_room_for(usize::MAX));
    text.str("xyz");
    assert_eq!(text.as_str(), "abc42!xy");
    text.push(b'z');
    assert_eq!(text.as_bytes(), b"abc42!xy");
    text.clear();
    assert_eq!(text.as_str(), "");
}

#[test]
fn a_default_buffer_is_empty() {
    let text: Text<4> = Text::default();
    assert_eq!(text.as_str(), "");
}

#[test]
fn numbers_are_written_in_decimal() {
    let mut text: Text<64> = Text::new();
    text.num(0).push(b' ').num(7).push(b' ').num(u64::MAX);
    assert_eq!(text.as_str(), "0 7 18446744073709551615");
}

#[test]
fn padding_fills_with_zeros() {
    let mut text: Text<32> = Text::new();
    text.pad(5, 3).push(b' ').pad(1234, 3).push(b' ').pad(0, 2);
    assert_eq!(text.as_str(), "005 1234 00");
}

#[test]
fn fixed_point_keeps_its_places() {
    let mut text: Text<32> = Text::new();
    text.fixed(2418, 3).push(b' ').fixed(5, 2).push(b' ').fixed(9, 0);
    assert_eq!(text.as_str(), "2.418 0.05 9");
}

#[test]
fn durations_are_grouped() {
    assert_eq!(duration(0, true).as_str(), "00:00:00:000:000:000");
    assert_eq!(duration(0, false).as_str(), "00:00:00:000");
    let ns = ((3 * 3600 + 25 * 60 + 45) * 1_000_000_000u64) + 123_456_789;
    assert_eq!(duration(ns, true).as_str(), "03:25:45:123:456:789");
    assert_eq!(duration(ns, false).as_str(), "03:25:45:123");
    assert_eq!(duration(59_999_999_999, true).as_str(), "00:00:59:999:999:999");
}

#[test]
fn durations_past_a_hundred_hours_are_cut() {
    // 5124095 hours is more than two digits, and the buffer holds 24 bytes.
    let text = duration(u64::MAX, true);
    assert_eq!(text.as_str(), "5124095:34:33:709:551:61");
    assert_eq!(text.len(), 24);
}

#[test]
fn no_two_durations_look_the_same() {
    let a = duration(1_000_000, true);
    let b = duration(1_000_001, true);
    assert!(!same(a.as_str(), b.as_str()));
    assert!(same(a.as_str(), duration(1_000_000, true).as_str()));
}

#[test]
fn byte_counts_are_human_sized() {
    assert_eq!(bytes(0).as_str(), "0 B");
    assert_eq!(bytes(1023).as_str(), "1023 B");
    assert_eq!(bytes(1024).as_str(), "1.0 KB");
    assert_eq!(bytes(3_040_871).as_str(), "2.9 MB");
    assert_eq!(bytes(34_037_000_000).as_str(), "31.6 GB");
    assert_eq!(bytes(340_804_000_000).as_str(), "317 GB");
    assert_eq!(bytes(5 * 1024 * 1024 * 1024 * 1024).as_str(), "5.0 TB");
    assert_eq!(bytes(u64::MAX / 10 + 1).as_str(), "1677721 TB");
    assert_eq!(bytes(u64::MAX).as_str(), "16777215 TB");
}

#[test]
fn frequencies_are_scaled() {
    assert_eq!(frequency(2_418_123_456).as_str(), "2.418 GHz");
    assert_eq!(frequency(24_000_000).as_str(), "24.000 MHz");
    assert_eq!(frequency(999).as_str(), "999 Hz");
}

#[test]
fn broken_text_reads_as_a_question_mark() {
    assert_eq!(readable(&[0x66, 0x6F, 0x6F]), "foo");
    assert_eq!(readable(&[0xC3, 0xA9]), "é");
    assert_eq!(readable(&[0xC3]), "?");
    assert_eq!(readable(&[0x66, 0xFF]), "?");
    // A character cut in half by the end of its buffer.
    let mut text: Text<3> = Text::new();
    text.str("ab·");
    assert_eq!(text.as_str(), "?");
}
