use umq::error::Error;
use umq::message::{decode_text, Message, TEXT_PRIORITY};

#[test]
fn message_from_text_holds_its_bytes_at_priority_zero() {
    let m = Message::from_text("hello");
    assert_eq!(m.data, vec![104, 101, 108, 108, 111]);
    assert_eq!(m.priority, 0);
    assert_eq!(TEXT_PRIORITY, 0);
}

#[test]
fn message_from_text_encodes_utf8() {
    let m = Message::from_text("\u{e9}\u{20ac}");
    assert_eq!(m.data, vec![0xc3, 0xa9, 0xe2, 0x82, 0xac]);
}

#[test]
fn message_new_keeps_payload_and_priority() {
    let m = Message::new(vec![1, 2, 3], 7);
    assert_eq!(m.data, vec![1, 2, 3]);
    assert_eq!(m.priority, 7);
}

#[test]
fn text_round_trip() {
    for text in ["", "a", "hello world", "\u{e9}t\u{e9}", "\u{1f600} ok", "line\nbreak\t\"q\""] {
        let m = Message::from_text(text);
        assert_eq!(m.into_text(), Ok(String::from(text)));
    }
}

#[test]
fn payload_round_trip() {
    let data = vec![0xf0, 0x9f, 0x98, 0x80, 0x21];
    let text = decode_text(data.clone()).unwrap();
    assert_eq!(Message::from_text(&text).data, data);
}

#[test]
fn decode_reads_valid_utf8() {
    assert_eq!(decode_text(vec![0x68, 0x69]), Ok(String::from("hi")));
    assert_eq!(decode_text(vec![]), Ok(String::new()));
    assert_eq!(decode_text(vec![0xe2, 0x82, 0xac]), Ok(String::from("\u{20ac}")));
}

#[test]
fn decode_rejects_invalid_utf8() {
    // A lone continuation byte.
    assert_eq!(decode_text(vec![0x80]), Err(Error::DecodeError));
    // A truncated three-byte sequence.
    assert_eq!(decode_text(vec![0xe2, 0x82]), Err(Error::DecodeError));
    // An overlong encoding of '/'.
    assert_eq!(decode_text(vec![0xc0, 0xaf]), Err(Error::DecodeError));
    // A surrogate.
    assert_eq!(decode_text(vec![0xed, 0xa0, 0x80]), Err(Error::DecodeError));
    // Beyond the last code point.
    assert_eq!(decode_text(vec![0xf4, 0x90, 0x80, 0x80]), Err(Error::DecodeError));
    assert_eq!(decode_text(vec![0xff]), Err(Error::DecodeError));
}

#[test]
fn into_text_of_binary_payload_is_a_decode_error() {
    let m = Message::new(vec![0x66, 0xfe], 3);
    assert_eq!(m.into_text(), Err(Error::DecodeError));
}

#[test]
fn cloned_message_is_equal() {
    let m = Message::new(vec![9, 8, 7], 2);
    assert_eq!(m.clone(), m);
}
