use unicast::json::text_field;
use unicast::number::{
    parse_i32, parse_i64, parse_u16, parse_u32, parse_u64, show, show_padded, show_signed,
};
use unicast::seconds::Seconds;
use unicast::state::{Session, SessionState};
use unicast::text::{
    contains, digits_prefix, eq_ignore_ascii_case, is_empty, join, less, lines, same, sort, split,
    split_once, split_text, starts_with, strip_prefix, strip_suffix, to_ascii_lowercase, trim,
    trim_end, trim_start,
};

#[test]
fn searching() {
    assert!(contains("hello", "ell"));
    assert!(contains("hello", ""));
    assert!(!contains("hello", "elo"));
    assert!(starts_with("hello", "he"));
    assert_eq!(strip_prefix("bytes=1", "bytes="), Some("1".to_string()));
    assert_eq!(strip_prefix("x", "xy"), None);
    assert_eq!(strip_suffix("1.vtt", ".vtt"), Some("1".to_string()));
    assert_eq!(strip_suffix("1.vt", ".vtt"), None);
    assert_eq!(split_once("a=b=c", "="), Some(("a".to_string(), "b=c".to_string())));
    assert_eq!(split_once("abc", "="), None);
    assert!(same("é", "é") && !same("é", "e"));
    assert!(is_empty("") && !is_empty(" "));
}

#[test]
fn splitting_and_joining() {
    assert_eq!(split("a,,b,", ','), vec!["a", "", "b", ""]);
    assert_eq!(split("", ','), vec![""]);
    assert_eq!(split_text("a\r\nb\r\n", "\r\n"), vec!["a", "b", ""]);
    assert_eq!(lines("a\r\n\nb\rc\n"), vec!["a", "", "b\rc"]);
    assert_eq!(lines("a\r"), vec!["a\r"]);
    assert!(lines("").is_empty());
    assert_eq!(join(&vec!["a".to_string(), "b".to_string()], ", "), "a, b");
    assert_eq!(join(&Vec::new(), ", "), "");
}

#[test]
fn trimming() {
    assert_eq!(trim(" \t\u{a0}a b\u{3000}\n"), "a b");
    assert_eq!(trim_start("  a "), "a ");
    assert_eq!(trim_end("  a "), "  a");
    assert_eq!(trim(" \n"), "");
    assert_eq!(trim("\u{200b}x"), "\u{200b}x".trim());
}

#[test]
fn ordering() {
    assert!(less("a", "b") && less("a", "ab") && less("", "a") && less("Z", "a"));
    assert!(!less("a", "a") && !less("é", "z"));
    let texts: Vec<String> =
        ["b", "a", "é", "B", "ab", "a"].iter().map(|text| text.to_string()).collect();
    let mut expected = texts.clone();
    expected.sort();
    assert_eq!(sort(&texts), expected);
    assert_eq!(to_ascii_lowercase("AbÉ"), "abÉ");
    assert!(eq_ignore_ascii_case("EnGlish", "english") && !eq_ignore_ascii_case("É", "é"));
    assert_eq!(digits_prefix("12a3"), "12");
    assert_eq!(digits_prefix("x"), "");
}

#[test]
fn numbers() {
    for n in [0, 9, 10, 1000, u64::MAX] {
        assert_eq!(show(n), n.to_string());
        assert_eq!(parse_u64(&show(n)), Some(n));
    }
    for n in [0, -1, 42, i64::MAX, i64::MIN] {
        assert_eq!(show_signed(n), n.to_string());
        assert_eq!(parse_i64(&show_signed(n)), Some(n));
    }
    assert_eq!(show_padded(7, 2), "07");
    assert_eq!(show_padded(123, 2), "123");
    for text in ["", "+", "-", "+1", "-1", "01", " 1", "1 ", "18446744073709551616", "٣", "1_0"] {
        assert_eq!(parse_u64(text), text.parse::<u64>().ok(), "{text}");
        assert_eq!(parse_u32(text), text.parse::<u32>().ok(), "{text}");
        assert_eq!(parse_u16(text), text.parse::<u16>().ok(), "{text}");
        assert_eq!(parse_i64(text), text.parse::<i64>().ok(), "{text}");
        assert_eq!(parse_i32(text), text.parse::<i32>().ok(), "{text}");
    }
    assert_eq!(parse_i32("-2147483648"), Some(i32::MIN));
    assert_eq!(parse_i32("2147483648"), None);
}

#[test]
fn times_compare_as_numbers_do() {
    let values = [
        0.0, -0.0, 1.0, -1.0, 0.5, 1e300, -1e300, f64::MIN_POSITIVE, f64::INFINITY,
        f64::NEG_INFINITY, f64::NAN,
    ];
    for a in values {
        for b in values {
            let (x, y) = (Seconds { bits: a.to_bits() }, Seconds { bits: b.to_bits() });
            assert_eq!(x.less_than(y), a < b, "{a} {b}");
            assert_eq!(x.at_most(y), a <= b, "{a} {b}");
            let least = f64::from_bits(x.min(y).bits);
            assert!(least == a.min(b) || (least.is_nan() && a.min(b).is_nan()), "{a} {b}");
        }
        let x = Seconds { bits: a.to_bits() };
        assert_eq!(x.is_finite(), a.is_finite());
        assert_eq!(x.is_positive(), a > 0.0);
        assert_eq!(x.is_negative(), a < 0.0);
    }
}

#[test]
fn states() {
    let all = [
        (SessionState::Idle, "idle", false),
        (SessionState::Connecting, "connecting", true),
        (SessionState::Buffering, "buffering", true),
        (SessionState::Playing, "playing", true),
        (SessionState::Paused, "paused", true),
        (SessionState::Stopped, "stopped", false),
        (SessionState::Error, "error", true),
    ];
    for (state, name, active) in all {
        assert_eq!((state.as_str(), state.is_active()), (name, active));
    }
    let session = Session::default();
    assert_eq!((session.session_id, session.volume), (0, -1));
    assert_eq!(Session::new_id(3).clone().session_id, 3);
}

#[test]
fn text_members() {
    let value = serde_json::from_str("{\"a\": \"b\", \"n\": 1}").expect("json");
    assert_eq!(text_field(&value, "a"), "b");
    assert_eq!(text_field(&value, "n"), "");
    assert_eq!(text_field(&value, "z"), "");
}
