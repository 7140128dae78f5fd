use viddeck::media::{ffmpeg_version, version_older_than_4_3};
use viddeck::text::{chars_of, contains_str, decimal_chars, digit_to_char, eq_ignore_ascii_case, parse_u64, str_equals};

#[test]
fn characters_and_digits() {
    assert_eq!(chars_of("aé1"), vec!['a', 'é', '1']);
    assert_eq!(digit_to_char(7), '7');
    assert_eq!(decimal_chars(0), vec!['0']);
    assert_eq!(decimal_chars(1920).into_iter().collect::<String>(), "1920");
    assert_eq!(decimal_chars(u128::MAX).into_iter().collect::<String>(), u128::MAX.to_string());
}

#[test]
fn comparisons() {
    assert!(eq_ignore_ascii_case("H264", "h264"));
    assert!(eq_ignore_ascii_case("", ""));
    assert!(!eq_ignore_ascii_case("h264", "h265"));
    assert!(!eq_ignore_ascii_case("É", "é"));
    assert!(str_equals("abc", "abc"));
    assert!(!str_equals("abc", "abd"));
    assert!(contains_str("a..b", ".."));
    assert!(contains_str("abc", ""));
    assert!(!contains_str("a.b.", ".."));
    assert!(!contains_str("ab", "abc"));
}

#[test]
fn unsigned_numbers() {
    assert_eq!(parse_u64("0"), Some(0));
    assert_eq!(parse_u64("+42"), Some(42));
    assert_eq!(parse_u64("007"), Some(7));
    assert_eq!(parse_u64("18446744073709551615"), Some(u64::MAX));
    assert_eq!(parse_u64("18446744073709551616"), None);
    assert_eq!(parse_u64(""), None);
    assert_eq!(parse_u64("+"), None);
    assert_eq!(parse_u64("-0"), None);
    assert_eq!(parse_u64("1 "), None);
    assert_eq!(parse_u64("١"), None);
    for s in ["12", "+3", "x", "99999999999999999999", "4294967296"] {
        assert_eq!(parse_u64(s), s.parse::<u64>().ok(), "{s}");
    }
}

#[test]
fn ffmpeg_versions() {
    assert_eq!(ffmpeg_version("ffmpeg version 6.1.1-3ubuntu5 Copyright (c) 2000-2023"), Some((6, 1)));
    assert_eq!(ffmpeg_version("ffmpeg version n7.0 Copyright"), Some((7, 0)));
    assert_eq!(ffmpeg_version("ffmpeg version 4.2.7"), Some((4, 2)));
    assert_eq!(ffmpeg_version("ffmpeg version N-112345-gabcdef"), None);
    assert_eq!(ffmpeg_version("ffmpeg version 5"), None);
    assert_eq!(ffmpeg_version("ffprobe version 6.1"), None);
    assert_eq!(ffmpeg_version(""), None);
    assert!(version_older_than_4_3(4, 2));
    assert!(version_older_than_4_3(3, 9));
    assert!(!version_older_than_4_3(4, 3));
    assert!(!version_older_than_4_3(5, 0));
}
