//! Messages of the protocol, and how they are found in a stream of bytes.

use bytes::Bytes;
use vstd::prelude::*;
use vstd::slice::slice_subrange;
use vstd::std_specs::cmp::PartialEqSpecImpl;
use vstd::std_specs::convert::FromSpecImpl;
use vstd::string::StringExecFns;
use vstd::utf8::{decode_utf8, encode_utf8, valid_utf8};

use crate::cursor::Cursor;
use crate::decimal::push_decimal;
use crate::foreign::{
    atoi_u64, bytes_as_slice, bytes_contents, bytes_debug, bytes_debug_text, bytes_from_slice,
    utf8_text,
};
use crate::wire::{
    after, api_literal, encode_field, encode_fields, lemma_encode_fields_concat, lemma_round_trip,
    reads_back, ready, spec_decimal, spec_encode, spec_fields, spec_frame, spec_line, spec_prefix,
    MessageView, Scan, LF,
};

verus! {

/// A message in the protocol.
#[derive(Debug)]
pub enum Message {
    /// The line that opens a connection. It is the first frame only.
    Handshake(Bytes),
    /// An array of byte fields.
    Bulk(Vec<Bytes>),
    /// A one-line text.
    Simple(String),
    /// A one-line error text.
    Error(String),
    /// The value that stands for nothing.
    Null,
}

/// Why no message could be read.
#[derive(Debug)]
pub enum Error {
    /// Not enough data is available to parse a message.
    Incomplete,
    /// Invalid message encoding. The text says what was wrong.
    Other(String),
}

/// The contents of each buffer of `v`, in order.
pub open spec fn fields_view(v: Seq<Bytes>) -> Seq<Seq<u8>> {
    v.map_values(|b: Bytes| bytes_contents(b))
}

impl View for Message {
    type V = MessageView;

    open spec fn view(&self) -> MessageView {
        match self {
            Message::Handshake(line) => MessageView::Handshake(bytes_contents(*line)),
            Message::Bulk(fields) => MessageView::Bulk(fields_view(fields@)),
            Message::Simple(text) => MessageView::Simple(text@),
            Message::Error(text) => MessageView::Error(text@),
            Message::Null => MessageView::Null,
        }
    }
}

impl Clone for Message {
    /// A message with the same contents.
    fn clone(&self) -> (copy: Message)
        ensures
            copy@ == self@,
    {
        match self {
            Message::Handshake(line) => Message::Handshake(line.clone()),
            Message::Bulk(fields) => {
                let mut copies: Vec<Bytes> = Vec::new();
                let mut i: usize = 0;
                while i < fields.len()
                    invariant
                        i <= fields.len(),
                        copies@.len() == i,
                        forall|j: int|
                            0 <= j < i ==> bytes_contents(#[trigger] copies@[j]) == bytes_contents(
                                fields@[j],
                            ),
                    decreases fields.len() - i,
                {
                    copies.push(fields[i].clone());
                    i = i + 1;
                }
                proof {
                    assert(fields_view(copies@) =~= fields_view(fields@));
                }
                Message::Bulk(copies)
            },
            Message::Simple(text) => Message::Simple(text.clone()),
            Message::Error(text) => Message::Error(text.clone()),
            Message::Null => Message::Null,
        }
    }
}

/// A field as text: what it spells where it is valid UTF-8, else the form in
/// which a buffer prints itself.
pub open spec fn field_text(field: Seq<u8>) -> Seq<char> {
    if valid_utf8(field) {
        decode_utf8(field)
    } else {
        bytes_debug_text(field)
    }
}

/// Texts in a row, with one space between two of them.
pub open spec fn spaced(parts: Seq<Seq<char>>) -> Seq<char>
    decreases parts.len(),
{
    if parts.len() == 0 {
        Seq::empty()
    } else if parts.len() == 1 {
        parts[0]
    } else {
        spaced(parts.drop_last()) + " "@ + parts.last()
    }
}

/// What each text of `v` spells, in order.
pub open spec fn texts_view(v: Seq<String>) -> Seq<Seq<char>> {
    v.map_values(|text: String| text@)
}

/// The fields as text, with one space between two fields.
pub open spec fn fields_text(fields: Seq<Seq<u8>>) -> Seq<char> {
    spaced(fields.map_values(|field: Seq<u8>| field_text(field)))
}

/// A message as text for people to read.
pub open spec fn message_text(m: MessageView) -> Seq<char> {
    match m {
        MessageView::Handshake(line) => field_text(line),
        MessageView::Bulk(fields) => fields_text(fields),
        MessageView::Simple(text) => text,
        MessageView::Error(text) => "error: "@ + text,
        MessageView::Null => "(nil)"@,
    }
}

impl Error {
    /// Whether this is the error for a frame whose count or length line
    /// cannot be read as a number.
    pub open spec fn is_invalid_frame(self) -> bool {
        self matches Error::Other(text) && text@ == "protocol error; invalid frame format"@
    }

    /// The error as text for people to read.
    pub open spec fn spec_text(self) -> Seq<char> {
        match self {
            Error::Incomplete => "stream ended early"@,
            Error::Other(text) => text@,
        }
    }

    /// The error as text for people to read.
    pub fn to_text(&self) -> (s: String)
        ensures
            s@ == self.spec_text(),
    {
        match self {
            Error::Incomplete => "stream ended early".to_string(),
            Error::Other(text) => text.clone(),
        }
    }
}

/// An error with `src` as its text.
impl From<String> for Error {
    fn from(src: String) -> (e: Error) {
        Error::Other(src)
    }
}

impl FromSpecImpl<String> for Error {
    open spec fn obeys_from_spec() -> bool {
        true
    }

    open spec fn from_spec(src: String) -> Error {
        Error::Other(src)
    }
}

/// An error with `src` as its text.
impl From<&str> for Error {
    fn from(src: &str) -> (e: Error)
        ensures
            e matches Error::Other(text) && text@ == src@,
    {
        Error::Other(src.to_string())
    }
}

impl FromSpecImpl<&str> for Error {
    /// No value of `String` can be named in a specification, so the result
    /// is stated by the `ensures` of `from` alone.
    open spec fn obeys_from_spec() -> bool {
        false
    }

    open spec fn from_spec(src: &str) -> Error {
        Error::Incomplete
    }
}

/// Appends `data` to `out`.
pub(crate) fn append_bytes(out: &mut Vec<u8>, data: &[u8])
    ensures
        final(out)@ == old(out)@ + data@,
{
    out.extend_from_slice(data);
    assert(out@ =~= old(out)@ + data@);
}

/// Whether two slices hold the same bytes.
pub(crate) fn same_bytes(a: &[u8], b: &[u8]) -> (same: bool)
    ensures
        same == (a@ == b@),
{
    if a.len() != b.len() {
        return false;
    }
    let mut i: usize = 0;
    while i < a.len()
        invariant
            i <= a.len() == b.len(),
            forall|j: int| 0 <= j < i ==> a@[j] == b@[j],
        decreases a.len() - i,
    {
        if a[i] != b[i] {
            return false;
        }
        i = i + 1;
    }
    assert(a@ =~= b@);
    true
}

/// Puts `parts` in a row, with one space between two of them.
pub fn join_spaced(parts: &Vec<String>) -> (s: String)
    ensures
        s@ == spaced(texts_view(parts@)),
{
    let mut text = String::new();
    let ghost all = texts_view(parts@);
    let mut i: usize = 0;
    while i < parts.len()
        invariant
            i <= parts.len(),
            all == texts_view(parts@),
            text@ == spaced(all.take(i as int)),
        decreases parts.len() - i,
    {
        if i > 0 {
            text.append(" ");
        }
        text.append(parts[i].as_str());
        proof {
            let upto = all.take(i + 1);
            assert(upto.drop_last() =~= all.take(i as int));
            assert(upto.last() == all[i as int]);
            if i == 0 {
                assert(text@ =~= all[0]);
            }
        }
        i = i + 1;
    }
    proof {
        assert(all.take(i as int) =~= all);
    }
    text
}

/// One field as text.
fn field_to_text(field: &Bytes) -> (s: String)
    ensures
        s@ == field_text(bytes_contents(*field)),
{
    match utf8_text(bytes_as_slice(field)) {
        Some(text) => text.to_string(),
        None => bytes_debug(field),
    }
}

/// Looks at the first bytes of what is left, without reading them.
///
/// Gives the first three bytes, or all that is left where that is less and
/// can no longer become the handshake literal. While what is left may still
/// grow into the literal, the answer is `Incomplete`.
pub fn get_prefix<'a>(src: &mut Cursor<'a>) -> (r: Result<&'a [u8], Error>)
    ensures
        *final(src) == *old(src),
        match spec_prefix(old(src).remaining()) {
            Some(prefix) => r matches Ok(p) && p@ == prefix,
            None => r matches Err(Error::Incomplete),
        },
{
    if !src.has_remaining() {
        proof {
            assert(src.remaining() =~= api_literal().take(0));
        }
        return Err(Error::Incomplete);
    }
    let rest = src.rest();
    if rest.len() >= 3 {
        return Ok(slice_subrange(rest, 0, 3));
    }
    let mut i: usize = 0;
    while i < rest.len()
        invariant
            i <= rest.len() < 3,
            rest@ == old(src).remaining(),
            *src == *old(src),
            forall|j: int| 0 <= j < i ==> rest@[j] == api_literal()[j],
        decreases rest.len() - i,
    {
        let expected: u8 = if i == 0 {
            0x41
        } else if i == 1 {
            0x50
        } else {
            0x49
        };
        if rest[i] != expected {
            proof {
                let literal = api_literal().take(rest@.len() as int);
                assert(literal[i as int] == expected);
                assert(rest@[i as int] != literal[i as int]);
                assert(rest@ != literal);
            }
            return Ok(rest);
        }
        i = i + 1;
    }
    proof {
        assert(rest@ =~= api_literal().take(rest@.len() as int));
    }
    Err(Error::Incomplete)
}

/// Reads one line: the bytes up to the next line feed, which is read too and
/// left out of the result. Without a line feed nothing is read.
pub fn get_line<'a>(src: &mut Cursor<'a>) -> (r: Result<&'a [u8], Error>)
    ensures
        final(src).bytes() == old(src).bytes(),
        match spec_line(old(src).remaining()) {
            Some((line, used)) => {
                &&& r matches Ok(l) && l@ == line
                &&& final(src).spec_position() == old(src).spec_position() + used
            },
            None => r matches Err(Error::Incomplete) && *final(src) == *old(src),
        },
{
    let rest = src.rest();
    let mut i: usize = 0;
    while i < rest.len()
        invariant
            i <= rest.len(),
            rest@ == src.remaining(),
            *src == *old(src),
            forall|j: int| 0 <= j < i ==> rest@[j] != LF,
        decreases rest.len() - i,
    {
        if rest[i] == LF {
            proof {
                assert(rest@.contains(LF));
                rest@.index_of_first_ensures(LF);
            }
            let line = slice_subrange(rest, 0, i);
            src.advance(i + 1);
            return Ok(line);
        }
        i = i + 1;
    }
    proof {
        rest@.index_of_first_ensures(LF);
    }
    Err(Error::Incomplete)
}

/// Reads one line as a decimal number.
///
/// A line that does not read as a number is an error, and the cursor then
/// stands where it stood.
pub fn get_decimal(src: &mut Cursor<'_>) -> (r: Result<u64, Error>)
    ensures
        final(src).bytes() == old(src).bytes(),
        match spec_decimal(old(src).remaining()) {
            Scan::Done(v, used) => {
                &&& r == Ok::<u64, Error>(v)
                &&& final(src).spec_position() == old(src).spec_position() + used
            },
            Scan::Incomplete => r matches Err(Error::Incomplete) && *final(src) == *old(src),
            Scan::Malformed => r matches Err(e) && e.is_invalid_frame() && *final(src) == *old(
                src,
            ),
        },
{
    let start = *src;
    let line = get_line(src)?;
    match atoi_u64(line) {
        Some(v) => Ok(v),
        None => {
            *src = start;
            Err(Error::from("protocol error; invalid frame format"))
        },
    }
}

/// Reads `count` fields, each a length line followed by that many bytes.
/// With `keep` unset the fields are stepped over and none is stored.
fn read_fields(src: &mut Cursor<'_>, count: u64, keep: bool) -> (r: Result<Vec<Bytes>, Error>)
    ensures
        final(src).bytes() == old(src).bytes(),
        match spec_fields(old(src).remaining(), count as nat) {
            Scan::Done(fields, used) => {
                &&& r matches Ok(v) && (keep ==> fields_view(v@) == fields)
                &&& final(src).spec_position() == old(src).spec_position() + used
            },
            Scan::Incomplete => r matches Err(Error::Incomplete),
            Scan::Malformed => r matches Err(e) && e.is_invalid_frame(),
        },
{
    let mut fields: Vec<Bytes> = Vec::new();
    let mut i: u64 = 0;
    let ghost whole = spec_fields(old(src).remaining(), count as nat);
    let ghost mut done: Seq<Seq<u8>> = Seq::empty();
    proof {
        let rest = spec_fields(src.remaining(), count as nat);
        assert(after(done, 0, rest) == rest) by {
            if let Scan::Done(f, more) = rest {
                assert(done + f =~= f);
            }
        }
    }
    while i < count
        invariant
            i <= count,
            src.bytes() == old(src).bytes(),
            src.spec_position() >= old(src).spec_position(),
            keep ==> fields_view(fields@) == done,
            whole == spec_fields(old(src).remaining(), count as nat),
            whole == after(
                done,
                (src.spec_position() - old(src).spec_position()) as nat,
                spec_fields(src.remaining(), (count - i) as nat),
            ),
        decreases count - i,
    {
        let ghost before = src.remaining();
        let ghost taken = (src.spec_position() - old(src).spec_position()) as nat;
        proof {
            use_type_invariant(&*src);
        }
        let len = match get_decimal(src) {
            Ok(len) => len,
            Err(e) => {
                return Err(e);
            },
        };
        proof {
            use_type_invariant(&*src);
        }
        let rest = src.rest();
        if len > rest.len() as u64 {
            return Err(Error::Incomplete);
        }
        let n = len as usize;
        let field = slice_subrange(rest, 0, n);
        if keep {
            fields.push(bytes_from_slice(field));
        }
        src.advance(n);
        i = i + 1;
        proof {
            let used = spec_decimal(before)->Done_1;
            assert(field@ =~= before.subrange(used as int, used + len));
            assert(src.remaining() =~= before.skip(used + len));
            let tail = spec_fields(src.remaining(), (count - i) as nat);
            assert(after(done, taken, after(seq![field@], (used + len) as nat, tail)) == after(
                done.push(field@),
                (taken + used + len) as nat,
                tail,
            )) by {
                if let Scan::Done(f, more) = tail {
                    assert(done + (seq![field@] + f) =~= done.push(field@) + f);
                }
            }
            if keep {
                assert(fields_view(fields@) =~= done.push(field@));
            }
            done = done.push(field@);
        }
    }
    proof {
        assert(done + Seq::<Seq<u8>>::empty() =~= done);
    }
    Ok(fields)
}

/// Reads the frame at the cursor. With `keep` unset the frame is stepped
/// over and what comes back holds no payload.
fn scan(src: &mut Cursor<'_>, keep: bool) -> (r: Result<Message, Error>)
    ensures
        final(src).bytes() == old(src).bytes(),
        match spec_frame(old(src).remaining()) {
            Scan::Done(m, used) => {
                &&& r matches Ok(msg) && (keep ==> msg@ == m)
                &&& final(src).spec_position() == old(src).spec_position() + used
            },
            Scan::Incomplete => r matches Err(Error::Incomplete),
            Scan::Malformed => r matches Err(e) && e.is_invalid_frame(),
        },
{
    let prefix = get_prefix(src)?;
    if prefix.len() == 3 && prefix[0] == 0x41 && prefix[1] == 0x50 && prefix[2] == 0x49 {
        proof {
            assert(prefix@ =~= api_literal());
        }
        let line = get_line(src)?;
        if keep {
            Ok(Message::Handshake(bytes_from_slice(line)))
        } else {
            Ok(Message::Null)
        }
    } else {
        proof {
            let api = api_literal();
            assert(api.len() == 3 && api[0] == 0x41 && api[1] == 0x50 && api[2] == 0x49);
            assert(prefix@ != api);
        }
        let count = get_decimal(src)?;
        proof {
            use_type_invariant(&*src);
            let used = spec_decimal(old(src).remaining())->Done_1;
            assert(src.remaining() =~= old(src).remaining().skip(used as int));
        }
        let fields = read_fields(src, count, keep)?;
        Ok(Message::Bulk(fields))
    }
}

/// A message equals a text where it is an array of one field that holds the
/// bytes of that text.
impl PartialEq<&str> for Message {
    fn eq(&self, other: &&str) -> (same: bool) {
        match self {
            Message::Bulk(fields) => fields.len() == 1 && same_bytes(
                bytes_as_slice(&fields[0]),
                other.as_bytes(),
            ),
            _ => false,
        }
    }
}

impl PartialEqSpecImpl<&str> for Message {
    open spec fn obeys_eq_spec() -> bool {
        true
    }

    open spec fn eq_spec(&self, other: &&str) -> bool {
        self@ matches MessageView::Bulk(fields) && fields.len() == 1 && fields[0] == encode_utf8(
            other@,
        )
    }
}

impl Message {
    /// The bytes that this message is written as.
    ///
    /// What is written for an array is one whole frame that reads back as
    /// the same array, and so it is for a handshake whose line starts with
    /// the literal and holds no line feed.
    pub fn encode(&self) -> (out: Vec<u8>)
        ensures
            out@ == spec_encode(self@),
            self@ is Bulk ==> reads_back(self@),
            reads_back(self@) ==> spec_frame(out@) == Scan::Done(self@, out@.len() as nat),
    {
        let mut out: Vec<u8> = Vec::new();
        match self {
            Message::Handshake(line) => {
                append_bytes(&mut out, bytes_as_slice(line));
                out.push(LF);
            },
            Message::Bulk(fields) => {
                push_decimal(&mut out, fields.len() as u64);
                out.push(LF);
                let ghost head = out@;
                let ghost all = fields_view(fields@);
                let mut i: usize = 0;
                while i < fields.len()
                    invariant
                        i <= fields.len(),
                        all == fields_view(fields@),
                        out@ == head + encode_fields(all.take(i as int)),
                        forall|j: int| 0 <= j < i ==> (#[trigger] all[j]).len() <= u64::MAX,
                    decreases fields.len() - i,
                {
                    let field = bytes_as_slice(&fields[i]);
                    let ghost before = out@;
                    push_decimal(&mut out, field.len() as u64);
                    out.push(LF);
                    append_bytes(&mut out, field);
                    proof {
                        let one = seq![all[i as int]];
                        assert(one.skip(1) =~= Seq::<Seq<u8>>::empty());
                        assert(encode_fields(one.skip(1)) =~= Seq::<u8>::empty());
                        assert(encode_fields(one) =~= encode_field(all[i as int]));
                        lemma_encode_fields_concat(all.take(i as int), one);
                        assert(all.take(i + 1) =~= all.take(i as int) + one);
                        assert(out@ =~= before + encode_field(field@));
                    }
                    i = i + 1;
                }
                proof {
                    assert(all.take(i as int) =~= all);
                }
            },
            Message::Simple(text) => {
                out.push(0x2b);
                append_bytes(&mut out, text.as_str().as_bytes());
                out.push(LF);
            },
            Message::Error(text) => {
                out.push(0x2d);
                append_bytes(&mut out, text.as_str().as_bytes());
                out.push(LF);
            },
            Message::Null => {
                out.push(0x24);
                out.push(0x2d);
                out.push(0x31);
                out.push(LF);
            },
        }
        proof {
            assert(out@ =~= spec_encode(self@));
            if reads_back(self@) {
                lemma_round_trip(self@);
            }
        }
        out
    }

    /// The message as text for people to read.
    pub fn to_text(&self) -> (s: String)
        ensures
            s@ == message_text(self@),
    {
        match self {
            Message::Handshake(line) => field_to_text(line),
            Message::Bulk(fields) => {
                let mut parts: Vec<String> = Vec::new();
                let ghost all = fields_view(fields@);
                let mut i: usize = 0;
                while i < fields.len()
                    invariant
                        i <= fields.len(),
                        all == fields_view(fields@),
                        parts@.len() == i,
                        forall|j: int| 0 <= j < i ==> (#[trigger] parts@[j])@ == field_text(all[j]),
                    decreases fields.len() - i,
                {
                    parts.push(field_to_text(&fields[i]));
                    i = i + 1;
                }
                proof {
                    assert(texts_view(parts@) =~= all.map_values(
                        |field: Seq<u8>| field_text(field),
                    ));
                }
                join_spaced(&parts)
            },
            Message::Simple(text) => text.clone(),
            Message::Error(text) => {
                let mut out = "error: ".to_string();
                out.append(text.as_str());
                out
            },
            Message::Null => "(nil)".to_string(),
        }
    }

    /// The text of the error for a message that was not expected.
    pub fn to_error(&self) -> (s: String)
        ensures
            s@ == "unexpected message: "@ + message_text(self@),
    {
        let mut out = "unexpected message: ".to_string();
        let text = self.to_text();
        out.append(text.as_str());
        out
    }

    /// Checks whether an entire message can be decoded from `src`.
    ///
    /// The bytes at the cursor are looked at and none is consumed: the
    /// cursor stands afterwards where it stood. The answer is `Ok` as soon as
    /// the bytes decide the matter: a whole frame is there, or what is there
    /// can no longer become one, which `parse` then reports. Otherwise the
    /// answer is `Incomplete`, never another error: the caller should read
    /// more and ask again.
    pub fn check(src: &mut Cursor<'_>) -> (r: Result<(), Error>)
        ensures
            *final(src) == *old(src),
            r is Ok <==> ready(old(src).remaining()),
            r matches Err(e) ==> e is Incomplete,
    {
        let start = *src;
        let scanned = scan(src, false);
        *src = start;
        match scanned {
            Ok(_) => Ok(()),
            Err(Error::Incomplete) => Err(Error::Incomplete),
            Err(Error::Other(_)) => Ok(()),
        }
    }

    /// Decodes the message at the cursor and moves the cursor behind it.
    ///
    /// A count or length line that is no number is an error, and so is a
    /// frame that is not all there yet. After an error the cursor stands
    /// where it stood.
    pub fn parse(src: &mut Cursor<'_>) -> (r: Result<Message, Error>)
        ensures
            final(src).bytes() == old(src).bytes(),
            match spec_frame(old(src).remaining()) {
                Scan::Done(m, used) => {
                    &&& r matches Ok(msg) && msg@ == m
                    &&& final(src).spec_position() == old(src).spec_position() + used
                },
                Scan::Malformed => r matches Err(e) && e.is_invalid_frame() && *final(src) == *old(
                    src,
                ),
                Scan::Incomplete => r matches Err(Error::Incomplete) && *final(src) == *old(src),
            },
    {
        let start = *src;
        match scan(src, true) {
            Ok(message) => Ok(message),
            Err(e) => {
                *src = start;
                Err(e)
            },
        }
    }
}

} // verus!
