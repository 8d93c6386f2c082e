use tws_proto::connection::{Action, Event, Fault, State};
use tws_proto::message::Error;
use tws_proto::{Connection, Message, Shutdown};

fn written(action: &Action) -> Vec<u8> {
    match action {
        Action::Write(message) => message.encode(),
        other => panic!("expected a write, got {:?}", other),
    }
}

fn open_and_read() -> (Connection, Shutdown) {
    let mut conn = Connection::new();
    let shutdown = Shutdown::new();
    assert!(matches!(conn.handle(Event::Resume, &shutdown), Action::Read));
    assert_eq!(conn.state(), State::ReadingMore);
    (conn, shutdown)
}

#[test]
fn new_connection_is_idle_and_empty() {
    let conn = Connection::new();
    assert_eq!(conn.state(), State::Idle);
    assert_eq!(conn.buffered_len(), 0);
}

#[test]
fn handshake_is_answered_first() {
    let (mut conn, shutdown) = open_and_read();
    let action = conn.handle(Event::Read(b"API\n"), &shutdown);
    assert!(matches!(&action, Action::Write(Message::Handshake(_))));
    assert_eq!(written(&action), b"API\n");
    assert_eq!(conn.state(), State::Dispatching);
    assert_eq!(conn.buffered_len(), 0);
}

#[test]
fn unknown_command_after_the_handshake() {
    let (mut conn, shutdown) = open_and_read();
    let action = conn.handle(Event::Read(b"API\n"), &shutdown);
    assert_eq!(written(&action), b"API\n");
    assert!(matches!(conn.handle(Event::Resume, &shutdown), Action::Read));
    let action = conn.handle(Event::Read(b"1\n3\nFOO"), &shutdown);
    match &action {
        Action::Write(Message::Error(text)) => assert_eq!(text, "ERR unknown command 'foo'"),
        other => panic!("{:?}", other),
    }
    assert_eq!(written(&action), b"-ERR unknown command 'foo'\n");
    assert_eq!(conn.state(), State::Dispatching);
    assert!(matches!(conn.handle(Event::Resume, &shutdown), Action::Read));
    assert_eq!(conn.state(), State::ReadingMore);
}

#[test]
fn frame_that_arrives_byte_by_byte() {
    let (mut conn, shutdown) = open_and_read();
    let frame = b"2\n8\nstartapi5\nhello";
    for (i, byte) in frame.iter().enumerate() {
        let action = conn.handle(Event::Read(&[*byte]), &shutdown);
        if i + 1 < frame.len() {
            assert!(matches!(action, Action::Read), "byte {}", i);
            assert_eq!(conn.state(), State::ReadingMore);
            assert_eq!(conn.buffered_len(), i + 1);
        } else {
            assert_eq!(written(&action), b"1\n5\nhello");
            assert_eq!(conn.buffered_len(), 0);
        }
    }
}

#[test]
fn bytes_behind_a_frame_stay_buffered() {
    let (mut conn, shutdown) = open_and_read();
    let action = conn.handle(Event::Read(b"API\n1\n3\nFOO1\n8\nstart"), &shutdown);
    assert_eq!(written(&action), b"API\n");
    assert_eq!(conn.buffered_len(), 16);
    // The next frame is already there: no read is needed for it.
    let action = conn.handle(Event::Resume, &shutdown);
    assert_eq!(written(&action), b"-ERR unknown command 'foo'\n");
    assert_eq!(conn.buffered_len(), 9);
    // The third one is cut short.
    assert!(matches!(conn.handle(Event::Resume, &shutdown), Action::Read));
    assert_eq!(conn.buffered_len(), 9);
    let action = conn.handle(Event::Read(b"api"), &shutdown);
    assert_eq!(written(&action), b"1\n4\nPONG");
    assert_eq!(conn.buffered_len(), 0);
}

#[test]
fn parse_message_takes_whole_frames_only() {
    let (mut conn, shutdown) = open_and_read();
    assert!(matches!(conn.parse_message(), Ok(None)));
    assert!(matches!(conn.handle(Event::Read(b"1\n3\nFO"), &shutdown), Action::Read));
    assert!(matches!(conn.parse_message(), Ok(None)));
    assert_eq!(conn.buffered_len(), 6);
    assert_eq!(conn.state(), State::ReadingMore);
}

#[test]
fn parse_message_reports_a_malformed_frame_and_keeps_it() {
    let (mut conn, shutdown) = open_and_read();
    match conn.handle(Event::Read(b"1\nq\n"), &shutdown) {
        Action::Close(Some(Fault::Protocol(text))) => {
            assert_eq!(text, "protocol error; invalid frame format")
        },
        action => panic!("{:?}", action),
    }
    assert_eq!(conn.buffered_len(), 4);
    match conn.parse_message() {
        Err(Error::Other(text)) => assert_eq!(text, "protocol error; invalid frame format"),
        r => panic!("{:?}", r),
    }
    assert_eq!(conn.buffered_len(), 4);
}

#[test]
fn parse_message_hands_out_frames_in_order() {
    let (mut conn, shutdown) = open_and_read();
    // The first frame is answered by the turn itself; the rest stays.
    let action = conn.handle(Event::Read(b"API\n1\n1\na2\n1\nb1\nc1\n"), &shutdown);
    assert_eq!(written(&action), b"API\n");
    let first = conn.parse_message().unwrap().unwrap();
    assert_eq!(first.encode(), b"1\n1\na");
    let second = conn.parse_message().unwrap().unwrap();
    assert_eq!(second.encode(), b"2\n1\nb1\nc");
    assert!(matches!(conn.parse_message(), Ok(None)));
    assert_eq!(conn.buffered_len(), 2);
    assert_eq!(conn.state(), State::Dispatching);
}

#[test]
fn peer_closes_between_frames() {
    let (mut conn, shutdown) = open_and_read();
    assert!(matches!(conn.handle(Event::Read(b""), &shutdown), Action::Close(None)));
    assert_eq!(conn.state(), State::Closed);
}

#[test]
fn peer_closes_after_a_whole_exchange() {
    let (mut conn, shutdown) = open_and_read();
    conn.handle(Event::Read(b"API\n"), &shutdown);
    assert!(matches!(conn.handle(Event::Resume, &shutdown), Action::Read));
    assert!(matches!(conn.handle(Event::Read(b""), &shutdown), Action::Close(None)));
    assert_eq!(conn.state(), State::Closed);
}

#[test]
fn peer_closes_in_the_middle_of_a_frame() {
    let (mut conn, shutdown) = open_and_read();
    assert!(matches!(conn.handle(Event::Read(b"1\n3\nFO"), &shutdown), Action::Read));
    match conn.handle(Event::Read(b""), &shutdown) {
        Action::Close(Some(Fault::Protocol(text))) => {
            assert_eq!(text, "protocol error; peer closed mid-frame")
        },
        other => panic!("{:?}", other),
    }
    assert_eq!(conn.state(), State::Closed);
    assert_eq!(conn.buffered_len(), 6);
}

#[test]
fn malformed_frame_closes_the_connection() {
    let (mut conn, shutdown) = open_and_read();
    match conn.handle(Event::Read(b"1\nxyz\n"), &shutdown) {
        Action::Close(Some(Fault::Protocol(text))) => {
            assert_eq!(text, "protocol error; invalid frame format")
        },
        other => panic!("{:?}", other),
    }
    assert_eq!(conn.state(), State::Closed);
}

#[test]
fn command_name_that_is_no_text_closes_the_connection() {
    let (mut conn, shutdown) = open_and_read();
    match conn.handle(Event::Read(b"1\n1\n\xff"), &shutdown) {
        Action::Close(Some(Fault::Decode(text))) => {
            assert_eq!(text, "protocol error; invalid string")
        },
        other => panic!("{:?}", other),
    }
    assert_eq!(conn.state(), State::Closed);
}

#[test]
fn wrong_number_of_fields_keeps_the_connection_open() {
    let (mut conn, shutdown) = open_and_read();
    let action = conn.handle(Event::Read(b"3\n8\nstartapi1\na1\nb"), &shutdown);
    assert_eq!(
        written(&action),
        b"-ERR protocol error; expected end of frame, but there was more\n"
    );
    assert_eq!(conn.state(), State::Dispatching);
    assert!(matches!(conn.handle(Event::Resume, &shutdown), Action::Read));
}

#[test]
fn no_cycle_starts_after_shutdown() {
    let mut conn = Connection::new();
    let mut shutdown = Shutdown::new();
    shutdown.trigger();
    assert!(matches!(conn.handle(Event::Resume, &shutdown), Action::Close(None)));
    assert_eq!(conn.state(), State::Closed);
}

#[test]
fn shutdown_leaves_a_buffered_frame_unread() {
    let (mut conn, mut shutdown) = open_and_read();
    let action = conn.handle(Event::Read(b"API\n1\n3\nFOO"), &shutdown);
    assert_eq!(written(&action), b"API\n");
    shutdown.trigger();
    assert!(matches!(conn.handle(Event::Resume, &shutdown), Action::Close(None)));
    assert_eq!(conn.state(), State::Closed);
    assert_eq!(conn.buffered_len(), 7);
}

#[test]
fn response_in_flight_is_still_written_after_shutdown() {
    let (mut conn, mut shutdown) = open_and_read();
    assert!(matches!(conn.handle(Event::Read(b"1\n3\nF"), &shutdown), Action::Read));
    shutdown.trigger();
    // The bytes that complete the frame arrive after the signal.
    let action = conn.handle(Event::Read(b"OO"), &shutdown);
    assert_eq!(written(&action), b"-ERR unknown command 'foo'\n");
    assert_eq!(conn.state(), State::Dispatching);
    // Once the response is out, nothing more is started.
    assert!(matches!(conn.handle(Event::Resume, &shutdown), Action::Close(None)));
    assert_eq!(conn.state(), State::Closed);
}

#[test]
fn shutdown_stops_a_read_that_did_not_complete_a_frame() {
    let (mut conn, mut shutdown) = open_and_read();
    shutdown.trigger();
    assert!(matches!(conn.handle(Event::Read(b"1\n3\nF"), &shutdown), Action::Close(None)));
    assert_eq!(conn.state(), State::Closed);
}

#[test]
fn closed_stays_closed() {
    let (mut conn, shutdown) = open_and_read();
    conn.handle(Event::Read(b""), &shutdown);
    assert!(matches!(conn.handle(Event::Resume, &shutdown), Action::Close(None)));
    assert!(matches!(conn.handle(Event::Read(b"API\n"), &shutdown), Action::Close(None)));
    assert_eq!(conn.state(), State::Closed);
    assert_eq!(conn.buffered_len(), 0);
}

#[test]
fn event_out_of_turn_closes_the_connection() {
    let mut conn = Connection::new();
    let shutdown = Shutdown::new();
    match conn.handle(Event::Read(b"API\n"), &shutdown) {
        Action::Close(Some(Fault::Protocol(text))) => {
            assert_eq!(text, "protocol error; connection used out of turn")
        },
        other => panic!("{:?}", other),
    }
    assert_eq!(conn.state(), State::Closed);
    let (mut conn, shutdown) = open_and_read();
    assert!(matches!(
        conn.handle(Event::Resume, &shutdown),
        Action::Close(Some(Fault::Protocol(_)))
    ));
    assert_eq!(conn.state(), State::Closed);
}

#[test]
fn fault_texts() {
    assert_eq!(Fault::Protocol("broken".to_string()).to_text(), "broken");
    assert_eq!(Fault::Decode("unreadable".to_string()).to_text(), "unreadable");
}

#[test]
fn array_that_is_no_command_closes_with_a_decode_fault() {
    let (mut conn, shutdown) = open_and_read();
    assert!(matches!(
        conn.handle(Event::Read(b"2\n2\n\xc3\x281\nx"), &shutdown),
        Action::Close(Some(Fault::Decode(_)))
    ));
    // The frame was whole and has left the buffer.
    assert_eq!(conn.buffered_len(), 0);
}

#[test]
fn trigger_twice_is_trigger_once() {
    let mut shutdown = Shutdown::new();
    assert!(!shutdown.is_shutdown());
    shutdown.trigger();
    assert!(shutdown.is_shutdown());
    let once = shutdown;
    shutdown.trigger();
    assert!(shutdown.is_shutdown());
    assert_eq!(once, shutdown);
}
