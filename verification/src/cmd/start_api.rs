//! The command that answers a client's call to start the session.

use bytes::Bytes;
use vstd::prelude::*;

use crate::foreign::{bytes_contents, bytes_from_slice};
use crate::message::{fields_view, Message};
use crate::parse::{Parse, ParseError};
use crate::wire::MessageView;

verus! {

/// Returns PONG if no argument is provided, otherwise a copy of the argument
/// as an array of one field.
///
/// A client uses it to see whether the connection is alive.
#[derive(Debug)]
pub struct StartApi {
    /// optional message to be returned
    msg: Option<Bytes>,
}

/// The four bytes `PONG`.
pub open spec fn pong() -> Seq<u8> {
    seq![0x50u8, 0x4fu8, 0x4eu8, 0x47u8]
}

/// What `StartApi` answers: its message, or `PONG` where it has none.
pub open spec fn start_api_reply(msg: Option<Seq<u8>>) -> MessageView {
    match msg {
        Some(m) => MessageView::Bulk(seq![m]),
        None => MessageView::Bulk(seq![pong()]),
    }
}

impl StartApi {
    /// The message to be returned, if there is one.
    pub closed spec fn message(self) -> Option<Seq<u8>> {
        match self.msg {
            Some(m) => Some(bytes_contents(m)),
            None => None,
        }
    }

    /// Create a new `StartApi` command with optional `msg`.
    pub fn new(msg: Option<Bytes>) -> (cmd: StartApi)
        ensures
            cmd.message() == match msg {
                Some(m) => Some(bytes_contents(m)),
                None => None,
            },
    {
        StartApi { msg }
    }

    /// Parse a `StartApi` instance from a received frame.
    ///
    /// The command name has already been consumed. One more field is taken
    /// as the message where there is one.
    pub fn parse_message(parse: &mut Parse) -> (r: Result<StartApi, ParseError>)
        ensures
            final(parse).fields() == old(parse).fields(),
            r matches Ok(cmd) && if old(parse).remaining().len() == 0 {
                cmd.message() == None::<Seq<u8>> && final(parse).consumed() == old(
                    parse,
                ).consumed()
            } else {
                cmd.message() == Some(old(parse).remaining()[0]) && final(parse).consumed() == old(
                    parse,
                ).consumed() + 1
            },
    {
        match parse.next_bytes() {
            Ok(msg) => Ok(StartApi::new(Some(msg))),
            Err(ParseError::EndOfStream) => Ok(StartApi::default()),
            Err(e) => Err(e),
        }
    }

    /// The response to the client: the message, or `PONG`.
    pub fn apply(self) -> (response: Message)
        ensures
            response@ == start_api_reply(self.message()),
    {
        let field = match self.msg {
            None => {
                let mut pong: Vec<u8> = Vec::new();
                pong.push(0x50);
                pong.push(0x4f);
                pong.push(0x4e);
                pong.push(0x47);
                assert(pong@ =~= self::pong());
                bytes_from_slice(pong.as_slice())
            },
            Some(msg) => msg,
        };
        let mut fields: Vec<Bytes> = Vec::new();
        fields.push(field);
        let response = Message::Bulk(fields);
        assert(fields_view(fields@) =~= seq![bytes_contents(field)]);
        response
    }
}

impl Default for StartApi {
    fn default() -> (cmd: StartApi)
        ensures
            cmd.message() == None::<Seq<u8>>,
    {
        StartApi { msg: None }
    }
}

} // verus!
