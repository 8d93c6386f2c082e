use bytes::Bytes;
use tws_proto::cmd::{dispatch, respond};
use tws_proto::cmd::start_api::StartApi;
use tws_proto::cmd::unknown::Unknown;
use tws_proto::{Command, Message, Parse, ParseError};

fn array(fields: &[&[u8]]) -> Message {
    Message::Bulk(fields.iter().map(|f| Bytes::copy_from_slice(f)).collect())
}

fn error_text(message: &Message) -> String {
    match message {
        Message::Error(text) => text.clone(),
        other => panic!("expected an error message, got {:?}", other),
    }
}

#[test]
fn unregistered_name_is_unknown() {
    let cmd = Command::from_message(array(&[b"FOO"])).unwrap();
    assert!(matches!(cmd, Command::Unknown(_)));
    assert_eq!(cmd.get_name(), "foo");
}

#[test]
fn unknown_skips_the_fields_behind_the_name() {
    let cmd = Command::from_message(array(&[b"Get", b"key", b"\xff", b""])).unwrap();
    assert!(matches!(cmd, Command::Unknown(_)));
    assert_eq!(cmd.get_name(), "get");
}

#[test]
fn unknown_answers_with_an_error_that_quotes_the_name() {
    let cmd = Command::from_message(array(&[b"FOO"])).unwrap();
    assert_eq!(error_text(&cmd.apply()), "ERR unknown command 'foo'");
    let cmd = Command::from_message(array(&["\u{c4}Bc".as_bytes(), b"x"])).unwrap();
    assert_eq!(error_text(&cmd.apply()), "ERR unknown command '\u{e4}bc'");
}

#[test]
fn unknown_by_hand() {
    let cmd = Unknown::new("whatever".to_string());
    assert_eq!(cmd.get_name(), "whatever");
    assert_eq!(error_text(&cmd.apply()), "ERR unknown command 'whatever'");
    let cmd = Unknown::new(String::new());
    assert_eq!(error_text(&cmd.apply()), "ERR unknown command ''");
}

#[test]
fn start_api_without_message_answers_pong() {
    for name in [&b"startapi"[..], b"STARTAPI", b"StartApi"] {
        let cmd = Command::from_message(array(&[name])).unwrap();
        assert!(matches!(cmd, Command::StartApi(_)));
        assert_eq!(cmd.get_name(), "startapi");
        let response = cmd.apply();
        assert!(response == "PONG");
        assert_eq!(response.encode(), b"1\n4\nPONG");
    }
}

#[test]
fn start_api_returns_its_message() {
    let cmd = Command::from_message(array(&[b"startapi", b"\x00\xffhello"])).unwrap();
    match cmd.apply() {
        Message::Bulk(fields) => {
            assert_eq!(fields.len(), 1);
            assert_eq!(&fields[0][..], b"\x00\xffhello");
        },
        other => panic!("{:?}", other),
    }
}

#[test]
fn start_api_with_too_many_fields() {
    let r = Command::from_message(array(&[b"startapi", b"a", b"b"]));
    assert!(matches!(r, Err(ParseError::Unconsumed)));
}

#[test]
fn start_api_by_hand() {
    assert!(StartApi::new(None).apply() == "PONG");
    assert!(StartApi::default().apply() == "PONG");
    assert!(StartApi::new(Some(Bytes::from_static(b"hi"))).apply() == "hi");
    let mut parse = Parse::new(array(&[b"msg", b"more"])).unwrap();
    let cmd = StartApi::parse_message(&mut parse).unwrap();
    assert!(cmd.apply() == "msg");
    assert_eq!(&parse.next_bytes().unwrap()[..], b"more");
    let cmd = StartApi::parse_message(&mut parse).unwrap();
    assert!(cmd.apply() == "PONG");
}

#[test]
fn command_by_name() {
    let mut parse = Parse::new(array(&[b"a", b"b"])).unwrap();
    let cmd = Command::from_name("foo".to_string(), &mut parse).unwrap();
    assert!(matches!(cmd, Command::Unknown(_)));
    assert_eq!(cmd.get_name(), "foo");
    // An unknown name takes no field.
    assert_eq!(&parse.next_bytes().unwrap()[..], b"a");
    let cmd = Command::from_name("startapi".to_string(), &mut parse).unwrap();
    assert!(cmd.apply() == "b");
    let cmd = Command::from_name("startapi".to_string(), &mut parse).unwrap();
    assert!(cmd.apply() == "PONG");
    // The table holds names in lower case only.
    let cmd = Command::from_name("STARTAPI".to_string(), &mut parse).unwrap();
    assert!(matches!(cmd, Command::Unknown(_)));
    let mut parse = Parse::new(array(&[b"a", b"b"])).unwrap();
    assert!(matches!(
        Command::from_name("startapi".to_string(), &mut parse),
        Err(ParseError::Unconsumed)
    ));
    assert_eq!(&parse.next_bytes().unwrap()[..], b"b");
}

#[test]
fn array_without_a_name() {
    let r = Command::from_message(array(&[]));
    assert!(matches!(r, Err(ParseError::EndOfStream)));
}

#[test]
fn name_that_is_no_text() {
    match Command::from_message(array(&[b"\xff", b"x"])) {
        Err(ParseError::Decode(text)) => assert_eq!(text, "protocol error; invalid string"),
        other => panic!("{:?}", other),
    }
}

#[test]
fn command_needs_an_array() {
    for message in [
        Message::Handshake(Bytes::from_static(b"API")),
        Message::Simple("FOO".to_string()),
        Message::Error("FOO".to_string()),
        Message::Null,
    ] {
        match Command::from_message(message) {
            Err(ParseError::Decode(text)) => {
                assert_eq!(text, "protocol error; expected array frame")
            },
            other => panic!("{:?}", other),
        }
    }
}

#[test]
fn respond_for_each_outcome() {
    let cmd = Command::Unknown(Unknown::new("x".to_string()));
    assert_eq!(error_text(&respond(Ok(cmd)).unwrap()), "ERR unknown command 'x'");
    let cmd = Command::StartApi(StartApi::new(None));
    assert!(respond(Ok(cmd)).unwrap() == "PONG");
    assert_eq!(
        error_text(&respond(Err(ParseError::EndOfStream)).unwrap()),
        "ERR protocol error; unexpected end of stream"
    );
    assert_eq!(
        error_text(&respond(Err(ParseError::Unconsumed)).unwrap()),
        "ERR protocol error; expected end of frame, but there was more"
    );
    match respond(Err(ParseError::Decode("bad field".to_string()))) {
        Err(ParseError::Decode(text)) => assert_eq!(text, "bad field"),
        other => panic!("{:?}", other),
    }
}

#[test]
fn dispatch_acknowledges_the_handshake_with_its_line() {
    let response = dispatch(Message::Handshake(Bytes::from_static(b"API v1"))).unwrap();
    match &response {
        Message::Handshake(line) => assert_eq!(&line[..], b"API v1"),
        other => panic!("{:?}", other),
    }
    assert_eq!(response.encode(), b"API v1\n");
}

#[test]
fn dispatch_answers_commands() {
    let response = dispatch(array(&[b"FOO"])).unwrap();
    assert_eq!(error_text(&response), "ERR unknown command 'foo'");
    assert_eq!(response.encode(), b"-ERR unknown command 'foo'\n");
    assert!(dispatch(array(&[b"startapi"])).unwrap() == "PONG");
}

#[test]
fn dispatch_turns_a_wrong_number_of_fields_into_a_response() {
    let response = dispatch(array(&[b"startapi", b"a", b"b"])).unwrap();
    assert_eq!(
        error_text(&response),
        "ERR protocol error; expected end of frame, but there was more"
    );
    let response = dispatch(array(&[])).unwrap();
    assert_eq!(error_text(&response), "ERR protocol error; unexpected end of stream");
}

#[test]
fn dispatch_fails_on_what_it_cannot_read() {
    match dispatch(array(&[b"\xc3"])) {
        Err(ParseError::Decode(text)) => assert_eq!(text, "protocol error; invalid string"),
        other => panic!("{:?}", other),
    }
    match dispatch(Message::Null) {
        Err(ParseError::Decode(text)) => assert_eq!(text, "protocol error; expected array frame"),
        other => panic!("{:?}", other),
    }
}
