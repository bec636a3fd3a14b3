use aipass::error::AiPassError;
use aipass::json::{parse_json, write_json, Json};
use aipass::text::{
    byte_len, contains_str, contains_text, eq_ignore_ascii_case, get_first_line, is_bounded,
    is_control, is_white_space, split_words, str_eq, to_ascii_lower, to_chars, to_decimal, to_text,
    trim, Blanks,
};

#[test]
fn characters_are_classed_as_in_unicode() {
    for c in '\u{0}'..='\u{ffff}' {
        assert_eq!(is_white_space(c), c.is_whitespace(), "{c:?}");
        assert_eq!(is_control(c), c.is_control(), "{c:?}");
        assert_eq!(Blanks::Unicode.contains(c), c.is_whitespace(), "{c:?}");
        assert_eq!(Blanks::Ascii.contains(c), c.is_ascii_whitespace(), "{c:?}");
        assert_eq!(to_ascii_lower(c), c.to_ascii_lowercase(), "{c:?}");
    }
}

#[test]
fn texts_are_trimmed_and_split() {
    for s in ["", " ", "a", " a b ", "\u{3000}a\u{85}", "a\tb\nc", "\u{e9} \u{a0}x\u{b}y  "] {
        assert_eq!(trim(s), s.trim());
        let unicode: Vec<&str> = s.split_whitespace().collect();
        assert_eq!(split_words(s, Blanks::Unicode), unicode);
        let ascii: Vec<&str> = s.split_ascii_whitespace().collect();
        assert_eq!(split_words(s, Blanks::Ascii), ascii);
    }
}

#[test]
fn first_lines_have_no_ending() {
    for s in ["", "\n", "a", "a\n", "a\r\nb", "a\r", "\r\n", "a\rb\nc", "a\r\r\n", "\n\n"] {
        assert_eq!(get_first_line(s).as_deref(), s.lines().next(), "{s:?}");
    }
}

#[test]
fn numbers_are_written_in_decimal() {
    for n in [0, 7, 9, 10, 99, 100, 401, 65535, u64::MAX] {
        assert_eq!(to_decimal(n), n.to_string());
    }
}

#[test]
fn texts_are_compared_and_searched() {
    assert!(str_eq("a", "a") && !str_eq("a", "A") && !str_eq("a", "ab"));
    assert!(eq_ignore_ascii_case("BeArEr", "bearer"));
    assert!(!eq_ignore_ascii_case("\u{c9}", "\u{e9}"));
    assert!(!eq_ignore_ascii_case("bearer", "bearer "));
    let chars = to_chars("abcabd");
    assert!(contains_text(&chars, "abd") && contains_text(&chars, "") && contains_text(&chars, "c"));
    assert!(!contains_text(&chars, "abe") && !contains_text(&chars, "abcabda"));
    assert_eq!(to_text(&chars, 1, 4), "bca");
    let list = vec!["x".to_string(), "y".to_string()];
    assert!(contains_str(&list, "y") && !contains_str(&list, "z"));
    assert_eq!(byte_len("\u{e9}a"), 3);
    assert!(is_bounded("\u{e9}", 2) && !is_bounded("\u{e9}", 1) && !is_bounded("", 9));
}

#[test]
fn documents_are_read() {
    let value = parse_json(br#"{"b": [1, "x", true, null, -1, 2.5], "a": {"c": 18446744073709551615}}"#)
        .expect("JSON");
    assert!(value.is_object());
    let items = value.array_at("b").expect("array");
    assert_eq!(items.len(), 6);
    assert_eq!(items[0].as_u64(), Some(1));
    assert_eq!(items[1].as_str(), Some("x"));
    assert!(matches!(&items[2], Json::Bool(true)));
    assert!(matches!(&items[3], Json::Null));
    assert_eq!(items[4].as_u64(), None);
    assert_eq!(items[5].as_u64(), None);
    assert_eq!(value.get("a").and_then(|a| a.u64_at("c")), Some(u64::MAX));
    assert!(value.get("d").is_none() && value.str_at("a").is_none());
    assert!(items[0].get("a").is_none() && value.as_array().is_none());
    let twice = parse_json(br#"{"a": 1, "a": 2}"#).expect("JSON");
    assert_eq!(twice.u64_at("a"), Some(2));
    match parse_json(br#"{"b": 1, "": 2, "a\u00e9": 3, "a": 4, "b": 5}"#).expect("JSON") {
        Json::Object(members) => {
            let names: Vec<&str> = members.iter().map(|(name, _)| name.as_str()).collect();
            assert_eq!(names, ["", "a", "a\u{e9}", "b"]);
        }
        _ => panic!("no object"),
    }
    for bytes in [&b""[..], b"{", b"{} {}", b"\xff", b"{'a': 1}", b"[1,]"] {
        assert!(parse_json(bytes).is_err());
    }
}

#[test]
fn documents_are_written() {
    let value = Json::Object(vec![
        ("a".to_string(), Json::Array(vec![Json::Null, Json::Bool(false), Json::Number(Some(7))])),
        ("b".to_string(), Json::Text("q\"\n".to_string())),
    ]);
    let bytes = write_json(value).expect("bytes");
    assert_eq!(bytes, br#"{"a":[null,false,7],"b":"q\"\n"}"#);
    let read = parse_json(&bytes).expect("JSON");
    assert_eq!(read.str_at("b"), Some("q\"\n"));
    assert_eq!(read.array_at("a").map(Vec::len), Some(3));
}

#[test]
fn failures_have_their_messages() {
    for (error, message) in [
        (AiPassError::ClockUnavailable, "system clock is unavailable"),
        (AiPassError::KeychainNotPrepared, "could not prepare AI Pass credentials for Keychain"),
        (AiPassError::MetadataUnavailable, "AI Pass OAuth metadata is unavailable"),
        (AiPassError::AlreadyConnected, "AI Pass is already connected; disconnect it first"),
        (AiPassError::NotConfigured, "AI Pass is not configured in this build"),
        (AiPassError::NotConnected, "Connect AI Pass in Settings first"),
        (
            AiPassError::ConnectionExpired,
            "AI Pass connection expired; connect it again in Settings",
        ),
        (AiPassError::CallbackNotInspected, "could not inspect the local OAuth callback"),
        (AiPassError::ProfileUnavailable, "AI Pass user profile is unavailable"),
        (AiPassError::ExchangeFailed, "AI Pass token exchange failed"),
        (AiPassError::ModelsFailed, "AI Pass model discovery failed"),
        (AiPassError::ChatFailed, "AI Pass chat request failed"),
        (AiPassError::ConsumerClosed, "AI Pass response consumer closed"),
        (
            AiPassError::ErrorReplyNotPrepared,
            "could not prepare the AI Pass error response",
        ),
        (AiPassError::TooManyRequests, "Too many AI Pass requests are active"),
    ] {
        assert_eq!(error.message(), message);
    }
}
