use libdl::text::{
    contains, ends_with, parse_number, push_decimal, starts_with, to_lower, trim,
};

#[test]
fn numbers_are_written_and_read_back() {
    for n in [0, 9, 10, 12_345, u64::MAX] {
        let mut text = "n=".to_string();
        push_decimal(&mut text, n);
        assert_eq!(text, format!("n={n}"));
        assert_eq!(parse_number(&text[2..]).unwrap(), n);
    }
}

#[test]
fn numbers_are_read_as_std_reads_them() {
    for input in [
        "", "+", "-", "007", "+0", "++1", "1a", "18446744073709551615", "18446744073709551616",
        "99999999999999999999x", "x99999999999999999999", "１",
    ] {
        match (input.parse::<u64>(), parse_number(input)) {
            (Ok(a), Ok(b)) => assert_eq!(a, b),
            (Err(a), Err(b)) => assert_eq!(a.to_string(), b.message()),
            (a, _) => panic!("{input:?} is read as {a:?} by std"),
        }
    }
}

#[test]
fn text_is_searched_and_trimmed() {
    assert!(starts_with("magnet:x", "magnet:"));
    assert!(!starts_with("mag", "magnet:"));
    assert!(ends_with("a.torrent", ".torrent"));
    assert!(!ends_with("torrent", ".torrent"));
    assert!(contains("abc", ""));
    assert!(contains("返回了 404", "了 4"));
    assert!(!contains("abc", "abcd"));
    assert_eq!(to_lower("ÄBC中"), "ÄBC中".to_ascii_lowercase());
}

#[test]
fn blanks_are_those_of_std() {
    for code in 0..0x3100_u32 {
        if let Some(c) = char::from_u32(code) {
            let padded = format!("{c}x{c}");
            assert_eq!(trim(&padded), padded.trim());
        }
    }
}
