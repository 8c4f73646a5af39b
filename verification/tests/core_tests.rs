use glim::bytes;
use glim::details::{set_value, text_detail, DetailValue};
use glim::hex::{hex_text, lower_hex_text};
use glim::logging::{
    bounded_string, count_field, finish_line, text_field, InvalidLogLevel, LogLevel, Logger,
};
use glim::number::{format_i64, format_u64, parse_i64, parse_u64, parse_unsigned};
use glim::path::{
    absolute, byte_extension_of, byte_name_of, file_name_of, joined_path, lowercase_extension,
};
use glim::percent::{decode_text, encode_component, strict_decode};
use glim::random::{hex_token, random_hex};
use glim::text;

#[test]
fn levels_are_named_and_nested() {
    assert_eq!(LogLevel::parse(None), Ok(LogLevel::Info));
    assert_eq!(LogLevel::parse(Some(b"warn")), Ok(LogLevel::Warn));
    assert_eq!(LogLevel::parse(Some(b"error")), Ok(LogLevel::Error));
    for value in [&b""[..], b"INFO", b" info", b"\xff", b"debug"] {
        assert_eq!(LogLevel::parse(Some(value)), Err(InvalidLogLevel));
    }
    assert_eq!(LogLevel::Warn.name(), "warn");
    assert!(LogLevel::Info.permits(LogLevel::Info));
    assert!(LogLevel::Warn.permits(LogLevel::Error));
    assert!(!LogLevel::Warn.permits(LogLevel::Info));
    assert!(!LogLevel::Error.permits(LogLevel::Warn));
}

#[test]
fn long_texts_end_at_a_character() {
    assert_eq!(bounded_string("abc"), "abc");
    assert_eq!(bounded_string(&"a".repeat(300)).len(), 256);
    let accents = "a".to_owned() + &"\u{e9}".repeat(200);
    assert_eq!(bounded_string(&accents), "a".to_owned() + &"\u{e9}".repeat(127));
}

#[test]
fn log_lines_are_json_objects() {
    let logger = Logger::new(LogLevel::Info);
    let line = logger
        .emit(
            LogLevel::Warn,
            "some_event",
            &[text_field("name", "quote \" here"), count_field("count", u64::MAX)],
            Some(5),
        )
        .unwrap();
    assert_eq!(line.last(), Some(&b'\n'));
    let value: serde_json::Value = serde_json::from_slice(&line).unwrap();
    assert_eq!(value["schema_version"], 1);
    assert_eq!(value["timestamp"], 5);
    assert_eq!(value["level"], "warn");
    assert_eq!(value["event"], "some_event");
    assert_eq!(value["name"], "quote \" here");
    assert_eq!(value["count"], u64::MAX);
    let later = logger.emit(LogLevel::Info, "e", &[text_field("level", "x")], None).unwrap();
    let value: serde_json::Value = serde_json::from_slice(&later).unwrap();
    assert_eq!((&value["level"], &value["timestamp"]), (&"x".into(), &0.into()));
    assert!(Logger::new(LogLevel::Error).emit(LogLevel::Warn, "e", &[], None).is_none());
}

#[test]
fn oversized_log_lines_are_replaced() {
    let fallback: &[u8] =
        b"{\"schema_version\":1,\"timestamp\":0,\"level\":\"error\",\"event\":\"logger_error\"}\n";
    assert_eq!(finish_line(None), fallback);
    assert_eq!(finish_line(Some(vec![b'a'; 4096])), fallback);
    assert_eq!(finish_line(Some(vec![b'a'; 4095])).len(), 4096);
    let fields: Vec<_> =
        (0..20).map(|number| text_field(&format!("f{number}"), &"a".repeat(256))).collect();
    let line = Logger::new(LogLevel::Info).emit(LogLevel::Info, "e", &fields, None).unwrap();
    assert_eq!(line, fallback);
}

#[test]
fn numbers_are_read_and_written() {
    assert_eq!(parse_u64("+007"), Some(7));
    assert_eq!(parse_u64("18446744073709551615"), Some(u64::MAX));
    assert_eq!(parse_u64("18446744073709551616"), None);
    assert_eq!(parse_u64("-0"), None);
    assert_eq!(parse_unsigned("255", 255), Some(255));
    assert_eq!(parse_unsigned("256", 255), None);
    assert_eq!(parse_i64("-9223372036854775808"), Some(i64::MIN));
    assert_eq!(parse_i64("9223372036854775808"), None);
    assert_eq!(parse_i64("-"), None);
    assert_eq!(parse_i64(""), None);
    assert_eq!(format_u64(0), "0");
    assert_eq!(format_u64(u64::MAX), "18446744073709551615");
    assert_eq!(format_i64(i64::MIN), "-9223372036854775808");
    for value in [0, 1, -1, 42, i64::MAX, i64::MIN] {
        assert_eq!(parse_i64(&format_i64(value)), Some(value));
    }
}

#[test]
fn hexadecimal_digits_are_lower_case() {
    assert_eq!(hex_text(&[0, 0x9f, 0xff]), "009fff");
    assert!(lower_hex_text("009fff", 6));
    assert!(!lower_hex_text("009FFF", 6));
    assert!(!lower_hex_text("009fff", 5));
    let first = random_hex(32).unwrap();
    assert!(lower_hex_text(&first, 64));
    assert_ne!(first, random_hex(32).unwrap());
    assert_eq!(random_hex(0).unwrap(), "");
    assert_eq!(hex_token(Ok(vec![0x0a, 0xf0])).unwrap(), "0af0");
    assert_eq!(hex_token(Err("no entropy".to_owned())).unwrap_err(), "no entropy");
}

#[test]
fn percent_encodings_are_read_and_written() {
    assert_eq!(encode_component("aZ9-_. /\u{e9}"), "aZ9%2D%5F%2E%20%2F%C3%A9");
    assert_eq!(decode_text("a%20b%C3%A9").as_deref(), Some("a b\u{e9}"));
    assert_eq!(decode_text("100%").as_deref(), Some("100%"));
    assert_eq!(decode_text("%ff"), None);
    assert_eq!(strict_decode(b"a%41"), Some(b"aA".to_vec()));
    assert_eq!(strict_decode(b"%4"), None);
    assert_eq!(strict_decode(b"%4g"), None);
    for value in ["", "plain", "a b+c%", "\u{1f600}"] {
        assert_eq!(decode_text(&encode_component(value)).as_deref(), Some(value));
    }
}

#[test]
fn paths_are_taken_apart() {
    assert!(absolute(b"/a"));
    assert!(!absolute(b"a"));
    assert_eq!(joined_path(b"/a", "b"), b"/a/b");
    assert_eq!(joined_path(b"/a/", "b"), b"/a/b");
    let name = |path: &str| file_name_of(path).map(|chars| chars.into_iter().collect::<String>());
    assert_eq!(name("/a/b.txt").as_deref(), Some("b.txt"));
    assert_eq!(name("/a/b.txt/").as_deref(), Some("b.txt"));
    assert_eq!(name("/a/.."), None);
    assert_eq!(name("/"), None);
    assert_eq!(lowercase_extension("/a/b.TXT").as_deref(), Some("txt"));
    assert_eq!(lowercase_extension("/a/.hidden"), None);
    assert_eq!(lowercase_extension("/a/b."), Some(String::new()));
    assert_eq!(byte_name_of(b"/a/b.txt"), Some(b"b.txt".to_vec()));
    assert_eq!(byte_extension_of(b"/a/b.tar.gz"), Some(b"gz".to_vec()));
    assert_eq!(byte_extension_of(b"/a/b"), None);
}

#[test]
fn texts_are_searched_and_trimmed() {
    assert_eq!(text::trim("\u{3000} a b\n"), "a b");
    assert!(text::blank("\u{85}\t"));
    assert!(!text::blank("a"));
    assert!(text::contains("abcabd", "abd"));
    assert!(!text::contains("abab", "abc"));
    assert!(text::contains("", ""));
    assert!(text::contains_control("a\u{9f}"));
    assert!(!text::contains_control("a\u{a0}"));
    assert_eq!(text::to_lowercase("\u{c9}AB"), "\u{c9}ab");
    assert_eq!(text::byte_len("\u{e9}a"), 3);
    assert!(text::text_starts_with("abc", "ab"));
    assert!(bytes::contains(b"xyz", b"yz"));
    assert!(!bytes::starts_with(b"x", b"xy"));
}

#[test]
fn details_are_set_by_name() {
    let mut details = vec![text_detail("a", "1")];
    set_value(&mut details, "b", DetailValue::Flag(true));
    set_value(&mut details, "a", DetailValue::Unsigned(2));
    assert_eq!(details.len(), 2);
    assert!(details.iter().any(|d| d.name == "a" && d.value == DetailValue::Unsigned(2)));
}
