use server::handles::message::{decode_payload, clean_type_token, type_byte_for_token, Message, MessageType};
use chrono::NaiveDateTime;
use server::handles::user::User;

fn at() -> NaiveDateTime {
    chrono::DateTime::from_timestamp(1_700_000_000, 0).unwrap().naive_utc()
}

fn parse(bytes: &[u8]) -> Message {
    Message::from_buffer(bytes, bytes.len(), 7, 1, at())
}

#[test]
fn type_bytes_round_trip() {
    for t in [
        MessageType::Warning,
        MessageType::Info,
        MessageType::Error,
        MessageType::Text,
        MessageType::Alias,
    ] {
        assert_eq!(MessageType::from_byte(t.to_byte()), t);
    }
    assert_eq!(MessageType::Error.to_byte(), 0x01);
    assert_eq!(MessageType::Warning.to_byte(), 0x02);
    assert_eq!(MessageType::Info.to_byte(), 0x03);
    assert_eq!(MessageType::Text.to_byte(), 0x04);
    assert_eq!(MessageType::Alias.to_byte(), 0x05);
    assert_eq!(MessageType::from_byte(0x00), MessageType::Text);
    assert_eq!(MessageType::from_byte(0xff), MessageType::Text);
}

#[test]
fn type_names() {
    assert_eq!(MessageType::Warning.to_string(), "warning");
    assert_eq!(MessageType::Info.to_string(), "info");
    assert_eq!(MessageType::Error.to_string(), "error");
    assert_eq!(MessageType::Text.to_string(), "text");
    assert_eq!(MessageType::Alias.to_string(), "alias");
    assert_eq!(MessageType::Alias.variant_name_string(), "Alias");
    assert_eq!(MessageType::Text.variant_name_string(), format!("{:?}", MessageType::Text));
}

#[test]
fn type_from_name_ignores_case() {
    assert_eq!(MessageType::from("WARNING".to_string()), MessageType::Warning);
    assert_eq!(MessageType::from("Info".to_string()), MessageType::Info);
    assert_eq!(MessageType::from("error".to_string()), MessageType::Error);
    assert_eq!(MessageType::from("aLiAs".to_string()), MessageType::Alias);
    assert_eq!(MessageType::from("text".to_string()), MessageType::Text);
    assert_eq!(MessageType::from("whatever".to_string()), MessageType::Text);
    assert_eq!(MessageType::from(String::new()), MessageType::Text);
    assert_eq!(MessageType::from_lowercase_name("alias"), MessageType::Alias);
    assert_eq!(MessageType::from_lowercase_name("ALIAS"), MessageType::Text);
}

#[test]
fn new_message_is_sent_text() {
    let m = Message::new(3, 4, "hello".to_string(), at());
    assert_eq!(m.id, None);
    assert_eq!(m.sender_id, 3);
    assert_eq!(m.receiver_id, 4);
    assert_eq!(m.content, "hello");
    assert_eq!(m.content_type, MessageType::Text);
    assert_eq!(m.created_at, Some(at()));
    assert_eq!(m.status, "sent");
    assert!(!m.is_encrypted);
}

#[test]
fn from_buffer_alias_frame() {
    let m = parse(b"0x05 | alice\n");
    assert_eq!(m.content_type, MessageType::Alias);
    assert_eq!(m.content, "alice");
    assert_eq!(m.sender_id, 7);
    assert_eq!(m.receiver_id, 1);
    assert_eq!(m.status, "sent");
    assert_eq!(m.id, None);
    assert_eq!(m.created_at, Some(at()));
    assert!(!m.is_encrypted);
}

#[test]
fn from_buffer_short_type_forms() {
    assert_eq!(parse(b"1|boom").content_type, MessageType::Error);
    assert_eq!(parse(b"2|careful").content_type, MessageType::Warning);
    assert_eq!(parse(b"03|note").content_type, MessageType::Info);
    assert_eq!(parse(b"5|bob").content_type, MessageType::Alias);
    assert_eq!(parse(b"4|plain").content_type, MessageType::Text);
    assert_eq!(parse(b"1|boom").content, "boom");
}

#[test]
fn from_buffer_cleans_type_field() {
    let m = parse(b"0 x 0 3 |  info text  ");
    assert_eq!(m.content_type, MessageType::Info);
    assert_eq!(m.content, "info text");
    assert_eq!(parse(b"0x0x02|warn").content_type, MessageType::Warning);
    // The `0x` prefix is removed before lower-casing, so `0X` stays and
    // the field is not recognised.
    assert_eq!(parse(b"0X01 | hi").content_type, MessageType::Text);
    assert_eq!(parse(b"0X01 | hi").content, "hi");
    assert_eq!(parse(b"0x06 | hi").content_type, MessageType::Text);
}

#[test]
fn from_buffer_without_separator_is_text() {
    let m = parse(b"  hello world \r\n");
    assert_eq!(m.content_type, MessageType::Text);
    assert_eq!(m.content, "hello world");
    let empty = parse(b"");
    assert_eq!(empty.content_type, MessageType::Text);
    assert_eq!(empty.content, "");
}

#[test]
fn from_buffer_splits_at_first_bar_only() {
    let m = parse(b"05|a|b");
    assert_eq!(m.content_type, MessageType::Alias);
    assert_eq!(m.content, "a|b");
}

#[test]
fn from_buffer_reads_only_n_bytes() {
    let m = Message::from_buffer(b"0x03 | abcdef", 9, 2, 1, at());
    assert_eq!(m.content_type, MessageType::Info);
    assert_eq!(m.content, "ab");
}

#[test]
fn from_buffer_replaces_invalid_utf8() {
    let m = parse(&[0x66, 0xff]);
    assert_eq!(m.content_type, MessageType::Text);
    assert_eq!(m.content, "f\u{FFFD}");
    let u = parse("0x04 | héllo wörld".as_bytes());
    assert_eq!(u.content, "héllo wörld");
}

#[test]
fn to_buffer_frames_message() {
    let m = Message::new(1, 2, "hi".to_string(), at());
    assert_eq!(m.to_buffer(), b"0x04 | hi".to_vec());
    let mut e = Message::new(1, 2, "x".to_string(), at());
    e.content_type = MessageType::Error;
    assert_eq!(e.to_buffer(), b"0x01 | x".to_vec());
    let mut a = Message::new(1, 2, "ünï".to_string(), at());
    a.content_type = MessageType::Alias;
    assert_eq!(a.to_buffer(), "0x05 | ünï".as_bytes().to_vec());
}

#[test]
fn server_info_frame() {
    let user = User::new("ana".to_string(), at(), at());
    assert_eq!(Message::server_info("Welcome".to_string(), &user, at()), b"0x03 | Welcome".to_vec());
}

#[test]
fn frames_read_back() {
    for t in [
        MessageType::Warning,
        MessageType::Info,
        MessageType::Error,
        MessageType::Text,
        MessageType::Alias,
    ] {
        let mut m = Message::new(1, 2, "  some  content ".to_string(), at());
        m.content_type = t;
        let bytes = m.to_buffer();
        let back = Message::from_buffer(&bytes, bytes.len(), 1, 2, at());
        assert_eq!(back.content_type, t);
        assert_eq!(back.content, "some  content");
    }
    let mut blank = Message::new(1, 2, "   ".to_string(), at());
    blank.content_type = MessageType::Warning;
    let bytes = blank.to_buffer();
    let back = Message::from_buffer(&bytes, bytes.len(), 1, 2, at());
    assert_eq!(back.content_type, MessageType::Warning);
    assert_eq!(back.content, "");
}

#[test]
fn payload_pieces() {
    let (t, c) = decode_payload(" 0x01 |  boom ");
    assert_eq!(t, MessageType::Error);
    assert_eq!(c, "boom");
    assert_eq!(clean_type_token(" 0x 0x 0 5 "), "05");
    assert_eq!(clean_type_token("0X05"), "0X05");
    assert_eq!(type_byte_for_token("05"), 0x05);
    assert_eq!(type_byte_for_token("1"), 0x01);
    assert_eq!(type_byte_for_token("0x01"), 0x04);
    assert_eq!(type_byte_for_token(""), 0x04);
}
