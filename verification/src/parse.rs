//! A cursor over the fields of one decoded frame.

use bytes::Bytes;
use vstd::prelude::*;
use vstd::utf8::{decode_utf8, valid_utf8};

use crate::foreign::{bytes_as_slice, bytes_contents, utf8_text};
use crate::message::{fields_view, Message};
use crate::wire::MessageView;

verus! {

/// Why a field could not be taken from a frame.
#[derive(Debug)]
pub enum ParseError {
    /// A field was asked for after the last one had been taken.
    EndOfStream,
    /// The frame should have ended, but fields were left.
    Unconsumed,
    /// The frame is no array of fields, or a field does not hold what was
    /// asked for. The text says which.
    Decode(String),
}

/// A `ParseError` as a mathematical value.
pub enum ParseErrorView {
    /// No field was left.
    EndOfStream,
    /// Fields were left.
    Unconsumed,
    /// A decode error and its text.
    Decode(Seq<char>),
}

impl View for ParseError {
    type V = ParseErrorView;

    open spec fn view(&self) -> ParseErrorView {
        match self {
            ParseError::EndOfStream => ParseErrorView::EndOfStream,
            ParseError::Unconsumed => ParseErrorView::Unconsumed,
            ParseError::Decode(text) => ParseErrorView::Decode(text@),
        }
    }
}

/// The error as text for people to read.
pub open spec fn parse_error_text(e: ParseErrorView) -> Seq<char> {
    match e {
        ParseErrorView::EndOfStream => "protocol error; unexpected end of stream"@,
        ParseErrorView::Unconsumed => "protocol error; expected end of frame, but there was more"@,
        ParseErrorView::Decode(text) => text,
    }
}

impl ParseError {
    /// The error as text for people to read.
    pub fn to_text(&self) -> (s: String)
        ensures
            s@ == parse_error_text(self@),
    {
        match self {
            ParseError::EndOfStream => "protocol error; unexpected end of stream".to_string(),
            ParseError::Unconsumed => {
                "protocol error; expected end of frame, but there was more".to_string()
            },
            ParseError::Decode(text) => text.clone(),
        }
    }
}

/// Hands out the fields of one frame, one after the other and each once.
#[derive(Debug)]
pub struct Parse {
    parts: Vec<Bytes>,
    pos: usize,
}

impl Parse {
    /// All fields of the frame, in order.
    pub closed spec fn fields(self) -> Seq<Seq<u8>> {
        fields_view(self.parts@)
    }

    /// The number of fields handed out so far.
    pub closed spec fn consumed(self) -> nat {
        self.pos as nat
    }

    /// No more fields are handed out than the frame has.
    #[verifier::type_invariant]
    pub open spec fn within(self) -> bool {
        self.consumed() <= self.fields().len()
    }

    /// The fields that have not been handed out yet.
    pub open spec fn remaining(self) -> Seq<Seq<u8>> {
        self.fields().skip(self.consumed() as int)
    }

    /// Nothing is left exactly when as many fields have been handed out as
    /// the frame has: that is when `finish` succeeds, and from then on
    /// `next_bytes` and `next_string` answer `EndOfStream`.
    pub proof fn lemma_nothing_left(self)
        requires
            self.within(),
        ensures
            self.remaining().len() == 0 <==> self.consumed() == self.fields().len(),
            self.remaining().len() == self.fields().len() - self.consumed(),
    {
    }

    /// A cursor before the first field of `message`, which must be an array.
    pub fn new(message: Message) -> (r: Result<Parse, ParseError>)
        ensures
            match message@ {
                MessageView::Bulk(fields) => r matches Ok(p) && p.fields() == fields && p.consumed()
                    == 0,
                _ => r matches Err(e) && e@ == ParseErrorView::Decode(
                    "protocol error; expected array frame"@,
                ),
            },
    {
        match message {
            Message::Bulk(parts) => Ok(Parse { parts, pos: 0 }),
            _ => Err(ParseError::Decode("protocol error; expected array frame".to_string())),
        }
    }

    /// Takes the next field as raw bytes.
    ///
    /// After the last field this fails with `EndOfStream` and changes
    /// nothing.
    pub fn next_bytes(&mut self) -> (r: Result<Bytes, ParseError>)
        ensures
            final(self).fields() == old(self).fields(),
            if old(self).remaining().len() == 0 {
                r matches Err(ParseError::EndOfStream) && final(self).consumed() == old(
                    self,
                ).consumed()
            } else {
                &&& r matches Ok(b) && bytes_contents(b) == old(self).remaining()[0]
                &&& final(self).consumed() == old(self).consumed() + 1
            },
    {
        proof {
            use_type_invariant(&*self);
        }
        if self.pos >= self.parts.len() {
            return Err(ParseError::EndOfStream);
        }
        let field = self.parts[self.pos].clone();
        self.pos = self.pos + 1;
        Ok(field)
    }

    /// Takes the next field as text.
    ///
    /// After the last field this fails with `EndOfStream` and changes
    /// nothing. A field that is not valid UTF-8 is taken all the same, and
    /// the answer is a `Decode` error.
    pub fn next_string(&mut self) -> (r: Result<String, ParseError>)
        ensures
            final(self).fields() == old(self).fields(),
            if old(self).remaining().len() == 0 {
                r matches Err(ParseError::EndOfStream) && final(self).consumed() == old(
                    self,
                ).consumed()
            } else {
                let field = old(self).remaining()[0];
                &&& final(self).consumed() == old(self).consumed() + 1
                &&& if valid_utf8(field) {
                    r matches Ok(text) && text@ == decode_utf8(field)
                } else {
                    r matches Err(e) && e@ == ParseErrorView::Decode(
                        "protocol error; invalid string"@,
                    )
                }
            },
    {
        proof {
            use_type_invariant(&*self);
        }
        if self.pos >= self.parts.len() {
            return Err(ParseError::EndOfStream);
        }
        let decoded = utf8_text(bytes_as_slice(&self.parts[self.pos]));
        let r = match decoded {
            Some(text) => Ok(text.to_string()),
            None => Err(ParseError::Decode("protocol error; invalid string".to_string())),
        };
        self.pos = self.pos + 1;
        r
    }

    /// Ensures that every field has been taken.
    pub fn finish(&mut self) -> (r: Result<(), ParseError>)
        ensures
            *final(self) == *old(self),
            r is Ok <==> old(self).consumed() == old(self).fields().len(),
            if old(self).remaining().len() == 0 {
                r is Ok
            } else {
                r matches Err(ParseError::Unconsumed)
            },
    {
        proof {
            use_type_invariant(&*self);
        }
        if self.pos >= self.parts.len() {
            Ok(())
        } else {
            Err(ParseError::Unconsumed)
        }
    }
}

} // verus!
