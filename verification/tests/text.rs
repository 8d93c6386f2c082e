use bytes::Bytes;
use tws_proto::message::{join_spaced, Error};
use tws_proto::Message;

#[test]
fn message_as_text() {
    assert_eq!(Message::Handshake(Bytes::from_static(b"API v1")).to_text(), "API v1");
    assert_eq!(Message::Simple("OK".to_string()).to_text(), "OK");
    assert_eq!(Message::Error("ERR no".to_string()).to_text(), "error: ERR no");
    assert_eq!(Message::Null.to_text(), "(nil)");
}

#[test]
fn array_as_text_has_spaces_between_fields() {
    let m = Message::Bulk(vec![
        Bytes::from_static(b"set"),
        Bytes::from_static(b"key"),
        Bytes::from_static(b""),
        Bytes::from_static(b"v"),
    ]);
    assert_eq!(m.to_text(), "set key  v");
    assert_eq!(Message::Bulk(Vec::new()).to_text(), "");
    assert_eq!(Message::Bulk(vec![Bytes::from_static(b"one")]).to_text(), "one");
}

#[test]
fn bytes_that_are_no_text_print_as_a_byte_string() {
    assert_eq!(Message::Handshake(Bytes::from_static(b"API\xff\n")).to_text(), "b\"API\\xff\\n\"");
    let m = Message::Bulk(vec![Bytes::from_static(b"a"), Bytes::from_static(b"\x80\"")]);
    assert_eq!(m.to_text(), "a b\"\\x80\\\"\"");
}

#[test]
fn texts_in_a_row() {
    assert_eq!(join_spaced(&Vec::new()), "");
    assert_eq!(join_spaced(&vec!["one".to_string()]), "one");
    assert_eq!(join_spaced(&vec!["a".to_string(), String::new(), "b c".to_string()]), "a  b c");
}

#[test]
fn unexpected_message_text() {
    assert_eq!(Message::Null.to_error(), "unexpected message: (nil)");
    assert_eq!(
        Message::Bulk(vec![Bytes::from_static(b"a"), Bytes::from_static(b"b")]).to_error(),
        "unexpected message: a b"
    );
}

#[test]
fn message_equals_text() {
    assert!(Message::Bulk(vec![Bytes::from_static(b"PONG")]) == "PONG");
    assert!(Message::Bulk(vec![Bytes::from_static(b"PONG")]) != "PING");
    assert!(Message::Bulk(vec![Bytes::from_static(b"PONG")]) != "PONG!");
    assert!(Message::Bulk(vec![Bytes::new()]) == "");
    assert!(Message::Bulk(Vec::new()) != "");
    assert!(Message::Bulk(vec![Bytes::from_static(b"a"), Bytes::from_static(b"b")]) != "a");
    assert!(Message::Handshake(Bytes::from_static(b"API")) != "API");
    assert!(Message::Simple("OK".to_string()) != "OK");
    assert!(Message::Null != "");
}

#[test]
fn error_as_text() {
    assert_eq!(Error::Incomplete.to_text(), "stream ended early");
    assert_eq!(Error::Other("bad frame".to_string()).to_text(), "bad frame");
}

#[test]
fn error_from_its_text() {
    let e = Error::from("protocol error; invalid frame format".to_string());
    match e {
        Error::Other(text) => assert_eq!(text, "protocol error; invalid frame format"),
        other => panic!("{:?}", other),
    }
}

#[test]
fn error_from_a_text_slice() {
    match Error::from("stream broke") {
        Error::Other(text) => assert_eq!(text, "stream broke"),
        other => panic!("{:?}", other),
    }
}

#[test]
fn message_clone_keeps_the_contents() {
    let messages = [
        Message::Bulk(vec![Bytes::from_static(b"a"), Bytes::from_static(b"bc")]),
        Message::Bulk(Vec::new()),
        Message::Handshake(Bytes::from_static(b"API v1")),
        Message::Simple("OK".to_string()),
        Message::Error("ERR".to_string()),
        Message::Null,
    ];
    for m in messages {
        let copy = m.clone();
        assert_eq!(copy.encode(), m.encode());
        assert_eq!(copy.to_text(), m.to_text());
    }
}
