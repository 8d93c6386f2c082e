//! The wire format, stated over sequences of bytes.
//!
//! A frame is either the handshake, a line that starts with the literal `API`
//! and ends at the first line feed, or an array: a line with the number of
//! fields, then for each field a line with its length and the field's bytes.

use vstd::prelude::*;

use vstd::utf8::encode_utf8;

use crate::decimal::{is_digit, lemma_atoi_digits, lemma_digits_shape, spec_atoi, spec_digits};

verus! {

/// The byte that ends a line.
pub const LF: u8 = 0x0a;

/// The three bytes `API` that a handshake starts with.
pub open spec fn api_literal() -> Seq<u8> {
    seq![0x41u8, 0x50u8, 0x49u8]
}

/// One decoded frame, as a mathematical value.
pub enum MessageView {
    /// The handshake line, without the line feed.
    Handshake(Seq<u8>),
    /// An array of byte fields, in order.
    Bulk(Seq<Seq<u8>>),
    /// A one-line text.
    Simple(Seq<char>),
    /// A one-line error text.
    Error(Seq<char>),
    /// The value that stands for nothing.
    Null,
}

/// Outcome of reading something at the start of a sequence of bytes.
pub enum Scan<T> {
    /// The bytes end before the item does. More bytes may complete it.
    Incomplete,
    /// The bytes that are there already rule the item out.
    Malformed,
    /// The item, and the number of bytes it takes.
    Done(T, nat),
}

/// The bytes before the first line feed of `s`, and the number of bytes that
/// the line takes with its line feed; `None` where `s` holds no line feed.
pub open spec fn spec_line(s: Seq<u8>) -> Option<(Seq<u8>, nat)> {
    match s.index_of_first(LF) {
        Some(i) => Some((s.take(i), (i + 1) as nat)),
        None => None,
    }
}

/// The first three bytes of `s`, or all of `s` where it is shorter and cannot
/// grow into the handshake literal; `None` while `s` is a proper prefix of
/// the literal, the empty sequence included.
pub open spec fn spec_prefix(s: Seq<u8>) -> Option<Seq<u8>> {
    if s.len() >= 3 {
        Some(s.take(3))
    } else if s =~= api_literal().take(s.len() as int) {
        None
    } else {
        Some(s)
    }
}

/// A line read as a number.
pub open spec fn spec_decimal(s: Seq<u8>) -> Scan<u64> {
    match spec_line(s) {
        None => Scan::Incomplete,
        Some((line, used)) => match spec_atoi(line) {
            Some(v) => Scan::Done(v, used),
            None => Scan::Malformed,
        },
    }
}

/// `count` fields, each a length line followed by that many bytes.
pub open spec fn spec_fields(s: Seq<u8>, count: nat) -> Scan<Seq<Seq<u8>>>
    decreases count,
{
    if count == 0 {
        Scan::Done(Seq::empty(), 0)
    } else {
        match spec_decimal(s) {
            Scan::Incomplete => Scan::Incomplete,
            Scan::Malformed => Scan::Malformed,
            Scan::Done(len, used) => if s.len() < used + len {
                Scan::Incomplete
            } else {
                after(
                    seq![s.subrange(used as int, used + len)],
                    (used + len) as nat,
                    spec_fields(s.skip(used + len), (count - 1) as nat),
                )
            },
        }
    }
}

/// What reading gives as a whole when the fields `done` took `used` bytes
/// and `rest` is the outcome for what follows them.
pub open spec fn after(done: Seq<Seq<u8>>, used: nat, rest: Scan<Seq<Seq<u8>>>) -> Scan<
    Seq<Seq<u8>>,
> {
    match rest {
        Scan::Incomplete => Scan::Incomplete,
        Scan::Malformed => Scan::Malformed,
        Scan::Done(fields, more) => Scan::Done(done + fields, (used + more) as nat),
    }
}

/// An array frame: the count line and the fields it announces.
pub open spec fn spec_array(s: Seq<u8>) -> Scan<MessageView> {
    match spec_decimal(s) {
        Scan::Incomplete => Scan::Incomplete,
        Scan::Malformed => Scan::Malformed,
        Scan::Done(count, used) => match spec_fields(s.skip(used as int), count as nat) {
            Scan::Incomplete => Scan::Incomplete,
            Scan::Malformed => Scan::Malformed,
            Scan::Done(fields, more) => Scan::Done(MessageView::Bulk(fields), (used + more) as nat),
        },
    }
}

/// The frame that `s` starts with.
pub open spec fn spec_frame(s: Seq<u8>) -> Scan<MessageView> {
    match spec_prefix(s) {
        None => Scan::Incomplete,
        Some(prefix) => if prefix == api_literal() {
            match spec_line(s) {
                None => Scan::Incomplete,
                Some((line, used)) => Scan::Done(MessageView::Handshake(line), used),
            }
        } else {
            spec_array(s)
        },
    }
}

/// Whether enough of a frame is there to decide on it: the frame is whole, or
/// it is already known to be malformed.
pub open spec fn ready(s: Seq<u8>) -> bool {
    !(spec_frame(s) is Incomplete)
}

/// One field on the wire: the line with its length, then its bytes.
pub open spec fn encode_field(field: Seq<u8>) -> Seq<u8> {
    spec_digits(field.len()) + seq![LF] + field
}

/// The fields on the wire, one after the other.
pub open spec fn encode_fields(fields: Seq<Seq<u8>>) -> Seq<u8>
    decreases fields.len(),
{
    if fields.len() == 0 {
        Seq::empty()
    } else {
        encode_field(fields[0]) + encode_fields(fields.skip(1))
    }
}

/// The bytes that a message is written as.
///
/// The handshake is a bare line. An array is its count line and its fields.
/// A text is a line after `+`, an error text a line after `-`, and the null
/// value is the line `$-1`.
pub open spec fn spec_encode(m: MessageView) -> Seq<u8> {
    match m {
        MessageView::Handshake(line) => line + seq![LF],
        MessageView::Bulk(fields) => spec_digits(fields.len()) + seq![LF] + encode_fields(fields),
        MessageView::Simple(text) => seq![0x2bu8] + encode_utf8(text) + seq![LF],
        MessageView::Error(text) => seq![0x2du8] + encode_utf8(text) + seq![LF],
        MessageView::Null => seq![0x24u8, 0x2du8, 0x31u8, LF],
    }
}

/// The messages that come back unchanged when they are written and read
/// again: an array whose count and lengths fit in 64 bits, and a handshake
/// line that starts with the literal and holds no line feed. A text, an error
/// text and the null value are written for the peer and are not read back
/// as such.
pub open spec fn reads_back(m: MessageView) -> bool {
    match m {
        MessageView::Handshake(line) => {
            &&& line.len() >= 3
            &&& line.take(3) == api_literal()
            &&& !line.contains(LF)
        },
        MessageView::Bulk(fields) => {
            &&& fields.len() <= u64::MAX
            &&& forall|i: int| 0 <= i < fields.len() ==> (#[trigger] fields[i]).len() <= u64::MAX
        },
        _ => false,
    }
}

/// What is read from the wire is a handshake or an array, and nothing else.
pub proof fn lemma_frames_are_requests(s: Seq<u8>)
    ensures
        spec_frame(s) matches Scan::Done(m, _) ==> m is Handshake || m is Bulk,
{
}

/// A line is found again behind which more bytes stand.
pub proof fn lemma_line_extends(s: Seq<u8>, t: Seq<u8>)
    requires
        spec_line(s) is Some,
    ensures
        spec_line(s + t) == spec_line(s),
{
    s.index_of_first_ensures(LF);
    (s + t).index_of_first_ensures(LF);
    let i = s.index_of_first(LF).unwrap();
    assert((s + t)[i] == LF);
    assert((s + t).contains(LF));
    let j = (s + t).index_of_first(LF).unwrap();
    if j < i {
        assert(s[j] == (s + t)[j]);
    }
    assert(j == i);
    assert((s + t).take(i) =~= s.take(i));
}

/// The line of `line + LF + rest` is `line`, where `line` holds no line feed.
pub proof fn lemma_line_of(line: Seq<u8>, rest: Seq<u8>)
    requires
        !line.contains(LF),
    ensures
        spec_line(line + seq![LF] + rest) == Some((line, (line.len() + 1) as nat)),
{
    let s = line + seq![LF] + rest;
    s.index_of_first_ensures(LF);
    assert(s[line.len() as int] == LF);
    assert(s.contains(LF));
    let j = s.index_of_first(LF).unwrap();
    if j < line.len() {
        assert(line[j] == s[j]);
        assert(line.contains(LF));
    }
    assert(j == line.len());
    assert(s.take(j) =~= line);
}

/// A number line that was read is read the same with more bytes behind it.
pub proof fn lemma_decimal_extends(s: Seq<u8>, t: Seq<u8>)
    requires
        !(spec_decimal(s) is Incomplete),
    ensures
        spec_decimal(s + t) == spec_decimal(s),
{
    lemma_line_extends(s, t);
}

/// Fields that were decided on are decided the same with more bytes behind
/// them.
pub proof fn lemma_fields_extend(s: Seq<u8>, t: Seq<u8>, count: nat)
    requires
        !(spec_fields(s, count) is Incomplete),
    ensures
        spec_fields(s + t, count) == spec_fields(s, count),
    decreases count,
{
    if count > 0 {
        lemma_decimal_extends(s, t);
        if let Scan::Done(len, used) = spec_decimal(s) {
            let end = used + len;
            assert((s + t).subrange(used as int, end) =~= s.subrange(used as int, end));
            assert((s + t).skip(end) =~= s.skip(end) + t);
            lemma_fields_extend(s.skip(end), t, (count - 1) as nat);
        }
    }
}

/// Once the first bytes have decided between handshake and array, more
/// bytes decide the same.
pub proof fn lemma_prefix_extends(s: Seq<u8>, t: Seq<u8>)
    requires
        spec_prefix(s) is Some,
    ensures
        spec_prefix(s + t) is Some,
        (spec_prefix(s + t).unwrap() == api_literal()) == (spec_prefix(s).unwrap()
            == api_literal()),
{
    let api = api_literal();
    if s.len() >= 3 {
        assert((s + t).take(3) =~= s.take(3));
    } else {
        let u = s + t;
        assert(s != api);
        if u.len() >= 3 {
            if u.take(3) == api {
                assert forall|i: int| 0 <= i < s.len() implies s[i] == api[i] by {
                    assert(s[i] == u.take(3)[i]);
                }
                assert(s =~= api.take(s.len() as int));
            }
        } else {
            if u =~= api.take(u.len() as int) {
                assert forall|i: int| 0 <= i < s.len() implies s[i] == api[i] by {
                    assert(s[i] == u[i]);
                }
                assert(s =~= api.take(s.len() as int));
            }
            assert(u.len() < 3);
            assert(u != api);
        }
    }
}

/// A frame that was decided on is decided the same with more bytes behind
/// it: what was whole stays the same message of the same length, and what
/// was malformed stays malformed.
pub proof fn lemma_frame_extends(s: Seq<u8>, t: Seq<u8>)
    requires
        ready(s),
    ensures
        spec_frame(s + t) == spec_frame(s),
{
    lemma_prefix_extends(s, t);
    if spec_prefix(s).unwrap() == api_literal() {
        lemma_line_extends(s, t);
    } else {
        lemma_decimal_extends(s, t);
        if let Scan::Done(count, used) = spec_decimal(s) {
            s.index_of_first_ensures(LF);
            assert((s + t).skip(used as int) =~= s.skip(used as int) + t);
            lemma_fields_extend(s.skip(used as int), t, count as nat);
        }
    }
}

/// Once a prefix of a stream is ready, every longer prefix is ready too.
pub proof fn lemma_ready_stays(s: Seq<u8>, t: Seq<u8>)
    requires
        ready(s),
    ensures
        ready(s + t),
{
    lemma_frame_extends(s, t);
}

/// Writing fields one after the other is the same as writing two parts of
/// them and joining the bytes.
pub proof fn lemma_encode_fields_concat(a: Seq<Seq<u8>>, b: Seq<Seq<u8>>)
    ensures
        encode_fields(a + b) == encode_fields(a) + encode_fields(b),
    decreases a.len(),
{
    if a.len() == 0 {
        assert(a + b =~= b);
        assert(encode_fields(a) + encode_fields(b) =~= encode_fields(b));
    } else {
        lemma_encode_fields_concat(a.skip(1), b);
        assert((a + b).skip(1) =~= a.skip(1) + b);
        assert((a + b)[0] == a[0]);
        let head = encode_field(a[0]);
        let tail = encode_fields(a.skip(1));
        assert(head + (tail + encode_fields(b)) =~= (head + tail) + encode_fields(b));
    }
}

/// The digits of a 64-bit number, as a line, read as that number.
pub proof fn lemma_decimal_of(n: u64, rest: Seq<u8>)
    ensures
        spec_decimal(spec_digits(n as nat) + seq![LF] + rest) == Scan::Done(
            n,
            (spec_digits(n as nat).len() + 1) as nat,
        ),
{
    let d = spec_digits(n as nat);
    lemma_digits_shape(n as nat);
    assert(!d.contains(LF)) by {
        if d.contains(LF) {
            let i = choose|i: int| 0 <= i < d.len() && d[i] == LF;
            assert(is_digit(d[i]));
        }
    }
    lemma_line_of(d, rest);
    lemma_atoi_digits(n);
}

/// Fields that were written are read back as they were, in as many bytes.
pub proof fn lemma_fields_read_back(fields: Seq<Seq<u8>>)
    requires
        forall|i: int| 0 <= i < fields.len() ==> (#[trigger] fields[i]).len() <= u64::MAX,
    ensures
        spec_fields(encode_fields(fields), fields.len()) == Scan::Done(
            fields,
            encode_fields(fields).len(),
        ),
    decreases fields.len(),
{
    if fields.len() == 0 {
        assert(fields =~= Seq::<Seq<u8>>::empty());
    } else {
        let first = fields[0];
        let rest = fields.skip(1);
        let s = encode_fields(fields);
        let digits = spec_digits(first.len());
        let used = (digits.len() + 1) as nat;
        let tail = first + encode_fields(rest);
        assert(s =~= digits + seq![LF] + tail);
        lemma_decimal_of(first.len() as u64, tail);
        assert(s.subrange(used as int, (used + first.len()) as int) =~= first);
        assert(s.skip((used + first.len()) as int) =~= encode_fields(rest));
        assert forall|i: int| 0 <= i < rest.len() implies (#[trigger] rest[i]).len()
            <= u64::MAX by {
            assert(rest[i] == fields[i + 1]);
        }
        lemma_fields_read_back(rest);
        assert(seq![first] + rest =~= fields);
    }
}

/// Round trip: a message that `reads_back` admits, once written, is a whole
/// frame that reads as the same message and takes all the bytes written.
pub proof fn lemma_round_trip(m: MessageView)
    requires
        reads_back(m),
    ensures
        spec_frame(spec_encode(m)) == Scan::Done(m, spec_encode(m).len()),
{
    let s = spec_encode(m);
    match m {
        MessageView::Handshake(line) => {
            assert(s.take(3) =~= line.take(3));
            assert(s =~= line + seq![LF] + Seq::<u8>::empty());
            lemma_line_of(line, Seq::empty());
        },
        MessageView::Bulk(fields) => {
            let digits = spec_digits(fields.len());
            lemma_digits_shape(fields.len());
            assert(is_digit(digits[0]));
            assert(s[0] == digits[0]);
            assert(api_literal()[0] == 0x41);
            if s.len() >= 3 {
                assert(s.take(3)[0] == s[0]);
            } else {
                assert(api_literal().take(s.len() as int)[0] == 0x41);
            }
            lemma_decimal_of(fields.len() as u64, encode_fields(fields));
            assert(s.skip((digits.len() + 1) as int) =~= encode_fields(fields));
            lemma_fields_read_back(fields);
        },
        _ => {},
    }
}

} // verus!
