use signalrs::framing::{frame, is_blank, is_whitespace, split_messages, strip_record_separator};
use signalrs::messages::{ClientMessage, MessageEncoding};

const RS: &str = "\u{001E}";

#[test]
fn strip_removes_every_trailing_separator() {
    assert_eq!(strip_record_separator("{\"type\":6}\u{1e}\u{1e}"), "{\"type\":6}");
    assert_eq!(strip_record_separator("\u{1e}a\u{1e}b"), "\u{1e}a\u{1e}b");
    assert_eq!(strip_record_separator(""), "");
    assert_eq!(strip_record_separator("\u{1e}\u{1e}"), "");
}

#[test]
fn frame_appends_one_separator() {
    assert_eq!(frame("{}".to_string()), format!("{{}}{}", RS));
    assert_eq!(strip_record_separator(&frame("abc".to_string())), "abc");
}

#[test]
fn split_keeps_non_blank_pieces_in_order() {
    let text = format!("{{\"a\":1}}{RS}  \t{RS}{{\"b\":2}}{RS}");
    assert_eq!(split_messages(&text), vec!["{\"a\":1}".to_string(), "{\"b\":2}".to_string()]);
    assert_eq!(split_messages(""), Vec::<String>::new());
    assert_eq!(split_messages("no separator"), vec!["no separator".to_string()]);
    assert_eq!(split_messages(&format!("{RS}{RS}x")), vec!["x".to_string()]);
}

#[test]
fn split_matches_std_split_filter() {
    let samples = [
        format!("a{RS}b{RS}c"),
        format!("{RS} {RS}\u{3000}{RS}ü{RS}"),
        format!("x y{RS}\n{RS}z"),
        String::new(),
    ];
    for s in samples.iter() {
        let expected: Vec<String> = s
            .split(RS)
            .filter(|item| !item.trim().is_empty())
            .map(|item| item.to_owned())
            .collect();
        assert_eq!(split_messages(s), expected);
    }
}

#[test]
fn whitespace_agrees_with_std_on_every_char() {
    for u in 0u32..=0x10FFFF {
        if let Some(c) = char::from_u32(u) {
            assert_eq!(is_whitespace(c), c.is_whitespace(), "code point {u:#x}");
        }
    }
}

#[test]
fn blank_means_trimmed_empty() {
    assert!(is_blank(""));
    assert!(is_blank(" \t\r\n\u{a0}"));
    assert!(!is_blank(" x "));
}

#[test]
fn client_message_split_and_text() {
    let message = ClientMessage::Json(format!("{{\"type\":6}}{RS}{{\"type\":7}}{RS}"));
    assert!(matches!(message.get_encoding(), MessageEncoding::Json));
    assert_eq!(message.unwrap_text(), format!("{{\"type\":6}}{RS}{{\"type\":7}}{RS}"));
    let parts = message.split();
    assert_eq!(parts.len(), 2);
    assert_eq!(parts[0].unwrap_text(), "{\"type\":6}");
    assert_eq!(parts[1].unwrap_text(), "{\"type\":7}");
}

#[test]
fn encoding_frames_serialized_messages() {
    let m = MessageEncoding::Json.framed("{\"type\":6}".to_string());
    assert_eq!(m.unwrap_text(), format!("{{\"type\":6}}{RS}"));
}
