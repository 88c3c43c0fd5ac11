use shepherd::text::{integer_prefix, join_with_spaces, parse_u64, tokenize, u64_to_string};
use shepherd::util::{FormatBytes, FormatTime};

#[test]
fn decimal_rendering() {
    assert_eq!(u64_to_string(0), "0");
    assert_eq!(u64_to_string(7), "7");
    assert_eq!(u64_to_string(10), "10");
    assert_eq!(u64_to_string(1234567890123456789), "1234567890123456789");
    assert_eq!(u64_to_string(u64::MAX), "18446744073709551615");
}

#[test]
fn decimal_parsing() {
    assert_eq!(parse_u64("0"), Some(0));
    assert_eq!(parse_u64("123"), Some(123));
    assert_eq!(parse_u64("007"), Some(7));
    assert_eq!(parse_u64("18446744073709551615"), Some(u64::MAX));
    assert_eq!(parse_u64("18446744073709551616"), None);
    assert_eq!(parse_u64(""), None);
    assert_eq!(parse_u64("12a"), None);
    assert_eq!(parse_u64("-1"), None);
    assert_eq!(parse_u64(" 1"), None);
}

#[test]
fn word_splitting() {
    let words = tokenize("  stop   web ");
    assert_eq!(words, vec!["stop".to_string(), "web".to_string()]);
    assert_eq!(tokenize(""), Vec::<String>::new());
    assert_eq!(tokenize("   \t \r\n"), Vec::<String>::new());
    assert_eq!(tokenize("one"), vec!["one".to_string()]);
    assert_eq!(
        tokenize("send web hello world"),
        vec!["send", "web", "hello", "world"]
    );
}

#[test]
fn word_joining() {
    let parts = vec!["hello".to_string(), "brave".to_string(), "world".to_string()];
    assert_eq!(join_with_spaces(&parts), "hello brave world");
    assert_eq!(join_with_spaces(&vec!["one".to_string()]), "one");
    assert_eq!(join_with_spaces(&Vec::new()), "");
}

#[test]
fn prefix_before_decimal_point() {
    assert_eq!(integer_prefix("123.45"), "123");
    assert_eq!(integer_prefix("678"), "678");
    assert_eq!(integer_prefix(".5"), "");
    assert_eq!(integer_prefix(""), "");
}

#[test]
fn duration_split_and_rendering() {
    let t = FormatTime::from_s(3661);
    assert_eq!((t.0, t.1, t.2), (1, 1, 1));
    assert_eq!(t.render(), "1:01:01");
    assert_eq!(FormatTime::from_s(0).render(), "0:00:00");
    assert_eq!(FormatTime::from_s(59).render(), "0:00:59");
    assert_eq!(FormatTime::from_s(3600 * 30 + 60 * 59 + 5).render(), "30:59:05");
}

#[test]
fn byte_count_rendering() {
    assert_eq!(FormatBytes(0).render(), "0 B");
    assert_eq!(FormatBytes(999).render(), "999 B");
    assert_eq!(FormatBytes(1000).render(), "1.00 KB");
    assert_eq!(FormatBytes(1500).render(), "1.50 KB");
    assert_eq!(FormatBytes(1999).render(), "2.00 KB");
    assert_eq!(FormatBytes(999999).render(), "1000.00 KB");
    assert_eq!(FormatBytes(2500000).render(), "2.50 MB");
    assert_eq!(FormatBytes(3000000000).render(), "3.00 GB");
}
