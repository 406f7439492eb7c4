use agent_gateway::codec::{decode_message, encode_message};
use agent_gateway::messages::{ChatMessage, Role};

fn round_trip(role: Role, content: &str) {
    let m = ChatMessage::new(role, content);
    let rec = encode_message(&m);
    let back = decode_message(rec.as_str()).expect("canonical record must decode");
    assert_eq!(back.role, m.role);
    assert_eq!(back.content, m.content);
}

#[test]
fn encode_simple_user_message() {
    let m = ChatMessage::new(Role::User, "hi");
    assert_eq!(encode_message(&m), "{\"role\":\"User\",\"content\":\"hi\"}");
}

#[test]
fn encode_escapes_quotes_backslashes_and_controls() {
    let m = ChatMessage::new(Role::Assistant, "a\"b\\c\nd\te\u{1}f");
    assert_eq!(
        encode_message(&m),
        "{\"role\":\"Assistant\",\"content\":\"a\\\"b\\\\c\\nd\\te\\u0001f\"}"
    );
}

#[test]
fn round_trips_cover_roles_and_content_shapes() {
    round_trip(Role::User, "");
    round_trip(Role::System, "plain text");
    round_trip(Role::Assistant, "quote \" backslash \\ newline \n tab \t");
    round_trip(Role::User, "\u{1}\u{2}\u{1f}\u{7f}");
    round_trip(Role::System, "acentos: reparaci\u{f3}n, ma\u{f1}ana \u{1F600}");
    round_trip(Role::Assistant, "\r\n\u{8}\u{c}");
}

#[test]
fn decode_accepts_the_canonical_form() {
    let m = decode_message("{\"role\":\"System\",\"content\":\"X\"}").unwrap();
    assert_eq!(m.role, Role::System);
    assert_eq!(m.content, "X");
}

#[test]
fn decode_rejects_malformed_records() {
    assert!(decode_message("").is_none());
    assert!(decode_message("garbage").is_none());
    assert!(decode_message("{\"role\":\"Admin\",\"content\":\"x\"}").is_none());
    assert!(decode_message("{\"role\":\"User\",\"content\":\"x\"} ").is_none());
    assert!(decode_message("{\"role\":\"User\",\"content\":\"x").is_none());
    assert!(decode_message("{\"role\":\"User\",\"content\":\"x\"}}").is_none());
    // a raw control character never appears in a canonical record
    assert!(decode_message("{\"role\":\"User\",\"content\":\"a\nb\"}").is_none());
    // non-canonical escapes: named controls must use their short escapes,
    // and visible characters are never hex-escaped
    assert!(decode_message("{\"role\":\"User\",\"content\":\"\\u0008\"}").is_none());
    assert!(decode_message("{\"role\":\"User\",\"content\":\"\\u0041\"}").is_none());
    assert!(decode_message("{\"role\":\"User\",\"content\":\"\\x\"}").is_none());
}
