//! What this crate takes on trust from other crates and from `std`.
//!
//! Each function here makes one call into code that the verifier does not
//! read. Its contract is believed, not proved.

use bytes::Bytes;
use vstd::prelude::*;
use vstd::utf8::{decode_utf8, valid_utf8};

use crate::decimal::spec_atoi;

verus! {

/// `bytes::Bytes`, an immutable shared buffer of bytes.
#[verifier::external_type_specification]
#[verifier::external_body]
pub struct ExBytes(Bytes);

/// The bytes that a `Bytes` value holds, in order.
pub uninterp spec fn bytes_contents(b: Bytes) -> Seq<u8>;

/// What `Bytes` prints for its contents under `{:?}`: a byte string literal
/// with escapes.
pub uninterp spec fn bytes_debug_text(contents: Seq<u8>) -> Seq<char>;

/// What `str::to_lowercase` makes of a text.
pub uninterp spec fn lowercase(text: Seq<char>) -> Seq<char>;

/// `atoi::atoi::<u64>`.
///
/// Claimed: the result is `spec_atoi` of the text. The function reads one
/// optional sign and then the longest run of digits, with checked arithmetic,
/// and ignores what follows. It gives `None` where it has read no byte at
/// all, or where the number has left the range of `u64`. A sign counts as a
/// byte read, so a sign without digits gives zero.
#[verifier::external_body]
pub(crate) fn atoi_u64(text: &[u8]) -> (r: Option<u64>)
    ensures
        r == spec_atoi(text@),
{
    atoi::atoi::<u64>(text)
}

/// `Bytes::copy_from_slice`.
///
/// Claimed: the new buffer holds the bytes of `data`, in order.
#[verifier::external_body]
pub(crate) fn bytes_from_slice(data: &[u8]) -> (b: Bytes)
    ensures
        bytes_contents(b) == data@,
{
    Bytes::copy_from_slice(data)
}

/// `Bytes::clone`.
///
/// Claimed: the clone holds the same bytes as the buffer it was made from.
pub assume_specification[ <Bytes as Clone>::clone ](b: &Bytes) -> (r: Bytes)
    ensures
        bytes_contents(r) == bytes_contents(*b),
;

/// `Bytes::as_ref`.
///
/// Claimed: the slice holds the bytes of the buffer, in order.
#[verifier::external_body]
pub(crate) fn bytes_as_slice(b: &Bytes) -> (s: &[u8])
    ensures
        s@ == bytes_contents(*b),
{
    b.as_ref()
}

/// The `Debug` form of a `Bytes` value, as `format!("{:?}", ..)` gives it.
///
/// Claimed: the text depends on the bytes of the buffer alone. Nothing is
/// said of what the text is.
#[verifier::external_body]
pub(crate) fn bytes_debug(b: &Bytes) -> (s: String)
    ensures
        s@ == bytes_debug_text(bytes_contents(*b)),
{
    format!("{:?}", b)
}

/// `core::str::from_utf8`, with its error dropped.
///
/// Claimed: the answer is a text exactly where `v` is valid UTF-8, and the
/// text is then the one that `v` encodes.
#[verifier::external_body]
pub(crate) fn utf8_text(v: &[u8]) -> (r: Option<&str>)
    ensures
        match r {
            Some(s) => valid_utf8(v@) && s@ == decode_utf8(v@),
            None => !valid_utf8(v@),
        },
{
    core::str::from_utf8(v).ok()
}

/// `str::to_lowercase`.
///
/// Claimed: the result depends on the characters of `s` alone. Nothing is
/// said of what it is.
#[verifier::external_body]
pub(crate) fn to_lowercase(s: &str) -> (r: String)
    ensures
        r@ == lowercase(s@),
{
    s.to_lowercase()
}

} // verus!
