use serde_json::Value;
use signalrs::protocol::{
    completion_json, handshake_request_json, handshake_response_json, invocation_json, json_array,
    ping_json, quote, quote_all, stream_invocation_json, stream_item_json, Completion,
    MessageType,
};

fn parse(text: &str) -> Value {
    serde_json::from_str(text).unwrap()
}

#[test]
fn quote_escapes_like_serde_json() {
    assert_eq!(quote("abc").unwrap(), "\"abc\"");
    assert_eq!(quote("a\"b\\c").unwrap(), "\"a\\\"b\\\\c\"");
    assert_eq!(quote("\u{1e}\n").unwrap(), "\"\\u001e\\n\"");
    assert_eq!(quote("é").unwrap(), "\"é\"");
}

#[test]
fn completion_texts() {
    let with_result = completion_json("123", Some("3"), None).unwrap();
    assert_eq!(with_result, "{\"type\":3,\"invocationId\":\"123\",\"result\":3}");
    let with_error = completion_json("123", None, Some("It didn't work!")).unwrap();
    assert_eq!(parse(&with_error), parse(r#"{"type": 3, "invocationId": "123", "error": "It didn't work!"}"#));
    let plain = completion_json("123", None, None).unwrap();
    assert_eq!(parse(&plain), parse(r#"{"type": 3, "invocationId": "123"}"#));
}

#[test]
fn stream_item_and_ping_texts() {
    let item = stream_item_json("123", "[0,1]").unwrap();
    assert_eq!(parse(&item), parse(r#"{"type": 2, "invocationId": "123", "item": [0, 1]}"#));
    assert_eq!(ping_json(), "{\"type\":6}");
}

#[test]
fn handshake_texts() {
    assert_eq!(handshake_response_json(None).unwrap(), "{}");
    assert_eq!(
        parse(&handshake_response_json(Some("Unsupported protocol")).unwrap()),
        parse(r#"{"error": "Unsupported protocol"}"#)
    );
    assert_eq!(
        parse(&handshake_request_json("json").unwrap()),
        parse(r#"{"protocol": "json", "version": 1}"#)
    );
}

#[test]
fn arrays_and_invocations() {
    let items = vec!["1".to_string(), "\"x\"".to_string(), "[2]".to_string()];
    assert_eq!(json_array(&items), "[1,\"x\",[2]]");
    assert_eq!(json_array(&Vec::new()), "[]");
    let quoted = quote_all(&vec!["a".to_string(), "b".to_string()]).unwrap();
    assert_eq!(quoted, vec!["\"a\"".to_string(), "\"b\"".to_string()]);

    let args = vec!["1".to_string(), "2".to_string()];
    let ids = vec!["s1".to_string()];
    let inv = invocation_json(Some("7"), "add", Some(&args), &ids).unwrap();
    assert_eq!(
        parse(&inv),
        parse(r#"{"type": 1, "invocationId": "7", "target": "add", "arguments": [1, 2], "streamIds": ["s1"]}"#)
    );
    let fire = invocation_json(None, "NoEcho", None, &Vec::new()).unwrap();
    assert_eq!(parse(&fire), parse(r#"{"type": 1, "target": "NoEcho"}"#));
    let stream = stream_invocation_json("9", "stream", &Vec::new(), &Vec::new()).unwrap();
    assert_eq!(parse(&stream), parse(r#"{"type": 4, "invocationId": "9", "target": "stream", "arguments": []}"#));
}

#[test]
fn message_type_codes() {
    assert_eq!(MessageType::from_u8(1), MessageType::Invocation);
    assert_eq!(MessageType::from_u8(7), MessageType::Close);
    assert_eq!(MessageType::from_u8(0), MessageType::Other);
    assert_eq!(MessageType::from_code(256 + 3), MessageType::Completion);
    assert_eq!(MessageType::Ping.code(), Some(6));
    assert_eq!(MessageType::Other.code(), None);
    assert_eq!(MessageType::StreamInvocation.name(), "StreamInvocation");
}

#[test]
fn completion_values() {
    let c = Completion::with_result("1".to_string(), 5);
    assert!(c.is_result() && !c.is_error());
    assert_eq!(c.unwrap_result(), 5);
    let e: Completion<i32> = Completion::error("1".to_string(), "bad".to_string());
    assert!(e.is_error());
    assert_eq!(e.unwrap_error(), "bad");
    let o: Completion<()> = Completion::ok("1".to_string());
    assert!(!o.is_result() && !o.is_error());
}

#[test]
fn string_literals_escape_as_stated() {
    let quoted = signalrs::protocol::quote("a\"b\\c\u{8}\t\n\u{c}\r\u{1}\u{1e}\u{1f} é/").ok().unwrap();
    assert_eq!(quoted, "\"a\\\"b\\\\c\\b\\t\\n\\f\\r\\u0001\\u001e\\u001f é/\"");
}
