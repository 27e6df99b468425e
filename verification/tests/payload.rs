use kikitori::payload::{
    message_payload, object_with, payload_text, payload_text_member, text_payload, utf8_bytes,
};

fn serde_object(key: &str, value: &str) -> Vec<u8> {
    let mut m = serde_json::Map::new();
    m.insert(key.to_owned(), serde_json::Value::String(value.to_owned()));
    serde_json::Value::Object(m).to_string().into_bytes()
}

const SAMPLES: [&str; 6] = [
    "a",
    "",
    "確定テキスト",
    "quote \" and backslash \\",
    "tab\tnewline\ncr\rbell\u{7}del\u{7f}",
    "\u{0}\u{1f} \u{8}\u{c}",
];

#[test]
fn text_payload_is_a_json_object() {
    assert_eq!(text_payload("a"), br#"{"text":"a"}"#.to_vec());
    for s in SAMPLES {
        assert_eq!(text_payload(s), serde_object("text", s));
    }
}

#[test]
fn message_payload_is_a_json_object() {
    assert_eq!(message_payload("m"), br#"{"message":"m"}"#.to_vec());
    for s in SAMPLES {
        assert_eq!(message_payload(s), serde_object("message", s));
    }
}

#[test]
fn reading_gives_back_what_was_written() {
    for s in SAMPLES {
        assert_eq!(payload_text(&text_payload(s)), s);
        assert_eq!(payload_text_member(&text_payload(s)), Some(s.to_owned()));
    }
}

#[test]
fn payload_without_text_member() {
    assert_eq!(payload_text(b"garbage"), "");
    assert_eq!(payload_text(br#"{"text":5}"#), "");
    assert_eq!(payload_text(b"{}"), "");
    assert_eq!(payload_text_member(br#"[1]"#), None);
    assert_eq!(
        payload_text_member(br#"{"y":1,"text":"x"}"#),
        Some("x".to_owned())
    );
}

#[test]
fn object_escapes_key_and_value() {
    assert_eq!(object_with("k", "v\t"), "{\"k\":\"v\\t\"}");
    assert_eq!(object_with("a\"", "\u{1}"), "{\"a\\\"\":\"\\u0001\"}");
}

#[test]
fn utf8_bytes_are_the_string_bytes() {
    assert_eq!(utf8_bytes("aé確"), "aé確".as_bytes().to_vec());
}
