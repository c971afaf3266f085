use sender::proto::{id_for, millis_stamp, new_id, now_ms, text_message, Msg};
use sender::store::{config_text, is_pin_text, new_pin, pin_from_config, sanitize_name};
use sender::text::{
    decimal, ends_with, first_chars, join, same_text, six_digits, split_lines, starts_with,
    to_ascii_lowercase, trim, trim_matches,
};

#[test]
fn trim_removes_unicode_white_space_at_both_ends() {
    assert_eq!(trim("  hi there \n\t"), "hi there");
    assert_eq!(trim("\u{3000}x\u{85}"), "x");
    assert_eq!(trim("\u{a0}\u{2009}"), "");
    assert_eq!(trim(""), "");
    assert_eq!(trim("a b"), "a b");
    // the same as std
    for s in ["", " ", " a ", "\r\n x y \u{2028}", "\u{feff}z"] {
        assert_eq!(trim(s), s.trim());
    }
}

#[test]
fn trim_matches_strips_only_the_given_char() {
    assert_eq!(trim_matches("__a_b__", '_'), "a_b");
    assert_eq!(trim_matches("____", '_'), "");
    assert_eq!(trim_matches("x", '_'), "x");
}

#[test]
fn split_lines_matches_std_lines() {
    for s in ["a\nb\r\nc", "a\n", "\n", "", "a\r", "\r\n\r\n", "x\n\ny", "end\r\n"] {
        let expected: Vec<String> = s.lines().map(|l| l.to_string()).collect();
        assert_eq!(split_lines(s), expected, "input {:?}", s);
    }
}

#[test]
fn join_puts_the_separator_between_parts() {
    let parts = vec!["a".to_string(), "bc".to_string(), "".to_string()];
    assert_eq!(join(&parts, "\n"), "a\nbc\n");
    assert_eq!(join(&Vec::new(), "-"), "");
    assert_eq!(join(&vec!["one".to_string()], ", "), "one");
}

#[test]
fn prefixes_suffixes_and_equality() {
    assert!(starts_with("you ▸ hi", "you"));
    assert!(!starts_with("yo", "you"));
    assert!(starts_with("abc", ""));
    assert!(ends_with("sender-clip-1.png", ".png"));
    assert!(!ends_with("png", ".png"));
    assert!(same_text("é", "é"));
    assert!(!same_text("a", "b"));
    assert_eq!(first_chars("héllo", 2), "hé");
    assert_eq!(first_chars("ab", 48), "ab");
    assert_eq!(to_ascii_lowercase("IMAGE/PNG Ä"), "image/png Ä");
}

#[test]
fn numbers_are_formatted_like_format_macro() {
    for n in [0u64, 7, 10, 99, 100, 8787, u64::MAX] {
        assert_eq!(decimal(n), format!("{}", n));
    }
    for n in [0u32, 42, 999_999, 123_456] {
        assert_eq!(six_digits(n), format!("{:06}", n));
    }
    for n in [0u128, 9, 10, 255, 0xdead_beef, u128::MAX] {
        assert_eq!(id_for(Some(n)), format!("{:x}", n));
    }
    assert_eq!(id_for(None), "0");
}

#[test]
fn millis_stamp_keeps_the_low_64_bits() {
    assert_eq!(millis_stamp(Some(1_700_000_000_123_456_789)), 1_700_000_000_123);
    assert_eq!(millis_stamp(Some(999_999)), 0);
    assert_eq!(millis_stamp(Some(((1u128 << 64) + 5) * 1_000_000 + 7)), 5);
    assert_eq!(millis_stamp(None), 0);
    // the same as Duration::as_millis
    let d = std::time::Duration::new(1_700_000_000, 987_654_321);
    assert_eq!(millis_stamp(Some(d.as_nanos())) as u128, d.as_millis());
}

#[test]
fn clock_readings_are_sensible() {
    let t = now_ms();
    assert!(t > 1_600_000_000_000);
    let id = new_id();
    assert!(!id.is_empty());
    assert!(id.chars().all(|c| c.is_ascii_hexdigit() && !c.is_ascii_uppercase()));
    match text_message("hello".to_string()) {
        Msg::Text { body, ts, .. } => {
            assert_eq!(body, "hello");
            assert!(ts >= t);
        }
        other => panic!("unexpected {:?}", other),
    }
}

#[test]
fn sanitize_name_keeps_safe_characters() {
    assert_eq!(sanitize_name("my photo (1).jpg"), "my_photo__1_.jpg");
    assert_eq!(sanitize_name("IMG-2024_01.png"), "IMG-2024_01.png");
    assert_eq!(sanitize_name("héllo.png"), "h_llo.png");
    assert_eq!(sanitize_name("../../etc/passwd"), ".._.._etc_passwd");
}

#[test]
fn sanitize_name_falls_back_to_image() {
    assert_eq!(sanitize_name(""), "image");
    assert_eq!(sanitize_name("___"), "image");
    assert_eq!(sanitize_name("???"), "image");
    assert_eq!(sanitize_name("_a_"), "a");
}

#[test]
fn sanitized_names_are_safe_and_stable() {
    for name in ["", "a b", "__x__", "photo?.jpeg", "日本.png", "-.-", "image"] {
        let once = sanitize_name(name);
        assert!(!once.is_empty());
        assert!(once
            .chars()
            .all(|c| c.is_ascii_alphanumeric() || c == '.' || c == '_' || c == '-'));
        assert!(!once.starts_with('_') && !once.ends_with('_'));
        assert_eq!(sanitize_name(&once), once);
    }
}

#[test]
fn new_pin_is_six_digits() {
    for _ in 0..20 {
        let pin = new_pin();
        assert_eq!(pin.len(), 6);
        assert!(pin.chars().all(|c| c.is_ascii_digit()));
    }
}

#[test]
fn stored_pin_is_reused_when_it_is_six_digits() {
    let fresh = || "999999".to_string();
    assert_eq!(pin_from_config(Some(r#"{"pin":"123456"}"#.to_string()), fresh()), ("123456".to_string(), false));
    assert_eq!(
        pin_from_config(Some("{ \"pin\" : \"000042\", \"x\": 1 }".to_string()), fresh()),
        ("000042".to_string(), false)
    );
    assert_eq!(pin_from_config(Some(r#"{"pin":"abc"}"#.to_string()), fresh()), (fresh(), true));
    assert_eq!(pin_from_config(Some(r#"{"pin":"1234567"}"#.to_string()), fresh()), (fresh(), true));
    assert_eq!(pin_from_config(Some(r#"{"pin":123456}"#.to_string()), fresh()), (fresh(), true));
    assert_eq!(pin_from_config(Some("not json".to_string()), fresh()), (fresh(), true));
    assert_eq!(pin_from_config(Some("{}".to_string()), fresh()), (fresh(), true));
    assert_eq!(pin_from_config(None, fresh()), (fresh(), true));
}

#[test]
fn config_text_round_trips() {
    let text = config_text("012345");
    assert_eq!(text, r#"{"pin":"012345"}"#);
    let mut map = serde_json::Map::new();
    map.insert("pin".to_string(), serde_json::Value::String("012345".to_string()));
    assert_eq!(text, serde_json::to_string(&serde_json::Value::Object(map)).unwrap());
    assert_eq!(pin_from_config(Some(text), "999999".to_string()), ("012345".to_string(), false));
    let pin = new_pin();
    assert!(is_pin_text(&pin));
    assert_eq!(pin_from_config(Some(config_text(&pin)), "x".to_string()), (pin, false));
    assert!(!is_pin_text("12345a"));
    assert!(!is_pin_text("12345"));
}
