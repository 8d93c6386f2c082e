//! One connection: its buffer of unread bytes and the turns it takes.
//!
//! The connection itself touches no socket. It is told what happened, a read
//! that returned bytes or a response that went out, and answers with what is
//! to be done next: read, write a message, or close.

use vstd::prelude::*;

use crate::cmd::{dispatch, spec_dispatch};
use crate::cursor::Cursor;
use crate::message::{append_bytes, Error, Message};
use crate::parse::{parse_error_text, ParseErrorView};
use crate::shutdown::Shutdown;
use crate::wire::{spec_frame, MessageView, Scan};

verus! {

/// Where a connection stands.
#[derive(Clone, Copy, Debug, PartialEq, Eq, Structural)]
pub enum State {
    /// Between two requests. Nothing is in flight.
    Idle,
    /// In the middle of a request: more bytes are needed.
    ReadingMore,
    /// A request has been answered and the response is on its way out.
    Dispatching,
    /// Over. Nothing more is read or written.
    Closed,
}

/// What happened outside the connection.
#[derive(Clone, Copy, Debug)]
pub enum Event<'a> {
    /// The connection may go on: it was just opened, or the response it
    /// asked to be written has been written and flushed.
    Resume,
    /// One read from the socket returned these bytes. None means that the
    /// peer has closed.
    Read(&'a [u8]),
}

/// Why a connection is closed before the peer has left in good order.
#[derive(Debug)]
pub enum Fault {
    /// The bytes on the wire were no frame, the peer left in the middle of
    /// one, or the connection was told of something it had not asked for.
    Protocol(String),
    /// A frame was whole, but it could not be read as a command.
    Decode(String),
}

/// What is to be done for the connection next.
#[derive(Debug)]
pub enum Action {
    /// Read once from the socket and report what came.
    Read,
    /// Write this message, flush, and report that it is done.
    Write(Message),
    /// Close the socket, for the fault given or, without one, in good order.
    Close(Option<Fault>),
}

/// An `Event` as a mathematical value.
pub enum EventView {
    /// The connection may go on.
    Resume,
    /// The bytes that one read returned.
    Read(Seq<u8>),
}

/// A `Fault` as a mathematical value.
pub enum FaultView {
    /// A protocol fault and its text.
    Protocol(Seq<char>),
    /// A decode fault and its text.
    Decode(Seq<char>),
}

/// An `Action` as a mathematical value.
pub enum ActionView {
    /// Read once.
    Read,
    /// Write this message.
    Write(MessageView),
    /// Close, for the fault given if there is one.
    Close(Option<FaultView>),
}

impl View for Fault {
    type V = FaultView;

    open spec fn view(&self) -> FaultView {
        match self {
            Fault::Protocol(text) => FaultView::Protocol(text@),
            Fault::Decode(text) => FaultView::Decode(text@),
        }
    }
}

impl Fault {
    /// The text that says what went wrong.
    pub fn to_text(&self) -> (s: String)
        ensures
            s@ == match self@ {
                FaultView::Protocol(text) => text,
                FaultView::Decode(text) => text,
            },
    {
        match self {
            Fault::Protocol(text) => text.clone(),
            Fault::Decode(text) => text.clone(),
        }
    }
}

impl<'a> View for Event<'a> {
    type V = EventView;

    open spec fn view(&self) -> EventView {
        match self {
            Event::Resume => EventView::Resume,
            Event::Read(data) => EventView::Read(data@),
        }
    }
}

impl View for Action {
    type V = ActionView;

    open spec fn view(&self) -> ActionView {
        match self {
            Action::Read => ActionView::Read,
            Action::Write(message) => ActionView::Write(message@),
            Action::Close(None) => ActionView::Close(None),
            Action::Close(Some(fault)) => ActionView::Close(Some(fault@)),
        }
    }
}

/// A connection after one turn: its state, its buffer, and what to do next.
pub struct Turn {
    pub state: State,
    pub buffer: Seq<u8>,
    pub action: ActionView,
}

/// One turn on the buffered bytes `buffer`.
///
/// A whole frame is taken from the front of the buffer and answered; the
/// bytes behind it stay. A malformed frame closes the connection. While the
/// frame is not all there, the buffer stays as it is and one read is asked
/// for, unless the shutdown signal has been given.
pub open spec fn spec_turn(buffer: Seq<u8>, shutdown: bool) -> Turn {
    match spec_frame(buffer) {
        Scan::Incomplete => if shutdown {
            Turn { state: State::Closed, buffer, action: ActionView::Close(None) }
        } else {
            Turn { state: State::ReadingMore, buffer, action: ActionView::Read }
        },
        Scan::Malformed => Turn {
            state: State::Closed,
            buffer,
            action: ActionView::Close(
                Some(FaultView::Protocol("protocol error; invalid frame format"@)),
            ),
        },
        Scan::Done(message, used) => match spec_dispatch(message) {
            Ok(response) => Turn {
                state: State::Dispatching,
                buffer: buffer.skip(used as int),
                action: ActionView::Write(response),
            },
            Err(e) => Turn {
                state: State::Closed,
                buffer: buffer.skip(used as int),
                action: ActionView::Close(Some(FaultView::Decode(parse_error_text(e)))),
            },
        },
    }
}

/// What a connection in `state` with `buffer` does on `event`.
///
/// Between requests it goes on only while the shutdown signal has not been
/// given. While it reads, bytes are added to the buffer and the turn is
/// taken on all of it; the end of the stream closes it, cleanly where the
/// buffer is empty and with an error where a frame was cut short. A closed
/// connection stays closed. An event that the state has no use for closes
/// it.
pub open spec fn spec_handle(
    state: State,
    buffer: Seq<u8>,
    event: EventView,
    shutdown: bool,
) -> Turn {
    match (state, event) {
        (State::Closed, _) => Turn {
            state: State::Closed,
            buffer,
            action: ActionView::Close(None),
        },
        (State::Idle, EventView::Resume) | (State::Dispatching, EventView::Resume) => if shutdown {
            Turn { state: State::Closed, buffer, action: ActionView::Close(None) }
        } else {
            spec_turn(buffer, false)
        },
        (State::ReadingMore, EventView::Read(data)) => if data.len() > 0 {
            spec_turn(buffer + data, shutdown)
        } else if buffer.len() == 0 {
            Turn { state: State::Closed, buffer, action: ActionView::Close(None) }
        } else {
            Turn {
                state: State::Closed,
                buffer,
                action: ActionView::Close(
                    Some(FaultView::Protocol("protocol error; peer closed mid-frame"@)),
                ),
            }
        },
        _ => Turn {
            state: State::Closed,
            buffer,
            action: ActionView::Close(
                Some(FaultView::Protocol("protocol error; connection used out of turn"@)),
            ),
        },
    }
}

/// Bytes leave the buffer only as one whole frame from its front. What a
/// turn leaves buffered is all that was there, with what was read behind
/// it, or that without the frame it started with.
pub proof fn lemma_buffer_keeps_unread_bytes(
    state: State,
    buffer: Seq<u8>,
    event: EventView,
    shutdown: bool,
)
    ensures
        ({
            let all = match event {
                EventView::Read(data) => if state == State::ReadingMore {
                    buffer + data
                } else {
                    buffer
                },
                EventView::Resume => buffer,
            };
            let left = spec_handle(state, buffer, event, shutdown).buffer;
            left == all || (spec_frame(all) matches Scan::Done(_, used) && left == all.skip(
                used as int,
            ))
        }),
{
    if let EventView::Read(data) = event {
        if data.len() == 0 {
            assert(buffer + data =~= buffer);
        }
    }
}

/// The end of the stream closes a connection that reads: without an error
/// where nothing is buffered, and with one where a frame was cut short.
pub proof fn lemma_end_of_stream(buffer: Seq<u8>, shutdown: bool)
    ensures
        spec_handle(State::ReadingMore, buffer, EventView::Read(Seq::empty()), shutdown) == (Turn {
            state: State::Closed,
            buffer,
            action: if buffer.len() == 0 {
                ActionView::Close(None)
            } else {
                ActionView::Close(
                    Some(FaultView::Protocol("protocol error; peer closed mid-frame"@)),
                )
            },
        }),
{
}

/// Once the shutdown signal has been given, a connection is never told to
/// read again, whatever its state and whatever happens. Between two
/// requests it closes at once and leaves its buffer alone, so that no frame
/// is taken up after the signal.
pub proof fn lemma_no_read_after_shutdown(state: State, buffer: Seq<u8>, event: EventView)
    ensures
        !(spec_handle(state, buffer, event, true).action is Read),
        (state == State::Idle || state == State::Dispatching) && event is Resume ==> spec_handle(
            state,
            buffer,
            event,
            true,
        ) == (Turn { state: State::Closed, buffer, action: ActionView::Close(None) }),
{
}

/// What is in flight is finished: where the bytes that were read complete a
/// frame, the signal changes nothing, and the frame is answered as if it had
/// not been given.
pub proof fn lemma_in_flight_completes(buffer: Seq<u8>, data: Seq<u8>)
    requires
        data.len() > 0,
        spec_frame(buffer + data) is Done,
    ensures
        spec_handle(State::ReadingMore, buffer, EventView::Read(data), true) == spec_handle(
            State::ReadingMore,
            buffer,
            EventView::Read(data),
            false,
        ),
        spec_dispatch(spec_frame(buffer + data)->Done_0) matches Ok(response) ==> spec_handle(
            State::ReadingMore,
            buffer,
            EventView::Read(data),
            true,
        ).action == ActionView::Write(response),
{
}

/// The state of one connection.
#[derive(Debug)]
pub struct Connection {
    buffer: Vec<u8>,
    state: State,
}

impl Connection {
    /// The bytes that were read and belong to no frame handed out so far.
    pub closed spec fn buffered(self) -> Seq<u8> {
        self.buffer@
    }

    /// Where the connection stands.
    pub closed spec fn spec_state(self) -> State {
        self.state
    }

    /// A connection that has just been opened.
    pub fn new() -> (c: Connection)
        ensures
            c.buffered() == Seq::<u8>::empty(),
            c.spec_state() == State::Idle,
    {
        Connection { buffer: Vec::new(), state: State::Idle }
    }

    /// Where the connection stands.
    pub fn state(&self) -> (s: State)
        ensures
            s == self.spec_state(),
    {
        self.state
    }

    /// The number of bytes that are buffered.
    pub fn buffered_len(&self) -> (n: usize)
        ensures
            n == self.buffered().len(),
    {
        self.buffer.len()
    }

    /// Takes the frame at the front of the buffer, if it is all there.
    ///
    /// A whole frame leaves the buffer and comes back as a message. While
    /// the frame is incomplete nothing comes back and nothing changes: more
    /// bytes must be read first. A malformed frame is an error and stays
    /// where it is.
    pub fn parse_message(&mut self) -> (r: Result<Option<Message>, Error>)
        ensures
            final(self).spec_state() == old(self).spec_state(),
            match spec_frame(old(self).buffered()) {
                Scan::Incomplete => {
                    &&& r matches Ok(None)
                    &&& final(self).buffered() == old(self).buffered()
                },
                Scan::Malformed => {
                    &&& r matches Err(e) && e.is_invalid_frame()
                    &&& final(self).buffered() == old(self).buffered()
                },
                Scan::Done(m, used) => {
                    &&& r matches Ok(Some(message)) && message@ == m
                    &&& final(self).buffered() == old(self).buffered().skip(used as int)
                },
            },
    {
        let mut cursor = Cursor::new(self.buffer.as_slice());
        assert(cursor.remaining() =~= self.buffer@);
        match Message::check(&mut cursor) {
            Err(_) => Ok(None),
            Ok(()) => {
                let message = Message::parse(&mut cursor)?;
                let used = cursor.position();
                let rest = self.buffer.split_off(used);
                self.buffer = rest;
                proof {
                    assert(self.buffer@ =~= old(self).buffered().skip(used as int));
                }
                Ok(Some(message))
            },
        }
    }

    /// Takes one turn on what is buffered.
    fn turn(&mut self, shutdown: bool) -> (action: Action)
        ensures
            spec_turn(old(self).buffered(), shutdown) == (Turn {
                state: final(self).spec_state(),
                buffer: final(self).buffered(),
                action: action@,
            }),
    {
        match self.parse_message() {
            Ok(None) => {
                if shutdown {
                    self.state = State::Closed;
                    Action::Close(None)
                } else {
                    self.state = State::ReadingMore;
                    Action::Read
                }
            },
            Err(e) => {
                self.state = State::Closed;
                Action::Close(Some(Fault::Protocol(e.to_text())))
            },
            Ok(Some(message)) => match dispatch(message) {
                Ok(response) => {
                    self.state = State::Dispatching;
                    Action::Write(response)
                },
                Err(e) => {
                    self.state = State::Closed;
                    Action::Close(Some(Fault::Decode(e.to_text())))
                },
            },
        }
    }

    /// Tells the connection what happened and learns what to do next.
    pub fn handle(&mut self, event: Event<'_>, shutdown: &Shutdown) -> (action: Action)
        ensures
            spec_handle(old(self).spec_state(), old(self).buffered(), event@, shutdown.triggered())
                == (Turn {
                state: final(self).spec_state(),
                buffer: final(self).buffered(),
                action: action@,
            }),
    {
        match (self.state, event) {
            (State::Closed, _) => Action::Close(None),
            (State::Idle, Event::Resume) | (State::Dispatching, Event::Resume) => {
                if shutdown.is_shutdown() {
                    self.state = State::Closed;
                    Action::Close(None)
                } else {
                    self.turn(false)
                }
            },
            (State::ReadingMore, Event::Read(data)) => {
                if data.len() > 0 {
                    append_bytes(&mut self.buffer, data);
                    self.turn(shutdown.is_shutdown())
                } else if self.buffer.len() == 0 {
                    self.state = State::Closed;
                    Action::Close(None)
                } else {
                    self.state = State::Closed;
                    Action::Close(
                        Some(Fault::Protocol("protocol error; peer closed mid-frame".to_string())),
                    )
                }
            },
            _ => {
                self.state = State::Closed;
                Action::Close(
                    Some(
                        Fault::Protocol("protocol error; connection used out of turn".to_string()),
                    ),
                )
            },
        }
    }
}

} // verus!
