//! The field encodings of the wire format, as bincode writes and reads them.

use vstd::bytes::*;
use vstd::prelude::*;
use vstd::utf8::*;

verus! {

/// A text on the wire: its UTF-8 length as eight little-endian bytes, then
/// its UTF-8 bytes.
pub open spec fn text_bytes(t: Seq<char>) -> Seq<u8> {
    spec_u64_to_le_bytes(encode_utf8(t).len() as u64) + encode_utf8(t)
}

/// The UTF-8 length that the first eight bytes of `b` announce.
pub open spec fn announced_len(b: Seq<u8>) -> int {
    spec_u64_from_le_bytes(b.subrange(0, 8)) as int
}

/// `b` starts with a whole text: a length, then that many bytes of valid UTF-8.
pub open spec fn starts_with_text(b: Seq<u8>) -> bool {
    &&& b.len() >= 8
    &&& 8 + announced_len(b) <= b.len()
    &&& valid_utf8(b.subrange(8, 8 + announced_len(b)))
}

/// Relies on bincode::serialize with its default options: a `u32` is written
/// as its four little-endian bytes, and writing into a `Vec` cannot fail.
#[verifier::external_body]
pub(crate) fn put_u32(x: u32) -> (r: Vec<u8>)
    ensures
        r@ == spec_u32_to_le_bytes(x),
{
    bincode::serialize(&x).unwrap_or_default()
}

/// Relies on bincode::serialize with its default options: a `u64` is written
/// as its eight little-endian bytes, and writing into a `Vec` cannot fail.
#[verifier::external_body]
pub(crate) fn put_u64(x: u64) -> (r: Vec<u8>)
    ensures
        r@ == spec_u64_to_le_bytes(x),
{
    bincode::serialize(&x).unwrap_or_default()
}

/// Relies on bincode::serialize with its default options: a string is written
/// as its byte length (a `u64`, little-endian), then its UTF-8 bytes.
#[verifier::external_body]
pub(crate) fn put_text(s: &String) -> (r: Vec<u8>)
    ensures
        r@ == text_bytes(s@),
{
    bincode::serialize(s).unwrap_or_default()
}

/// Relies on bincode::deserialize with its default options: a `u32` is read
/// from the first four bytes, little-endian; fewer bytes are an error, and
/// bytes after them are left unread.
#[verifier::external_body]
pub(crate) fn take_u32(b: &[u8]) -> (r: Option<u32>)
    ensures
        r is Some <==> b@.len() >= 4,
        r is Some ==> r->0 == spec_u32_from_le_bytes(b@.subrange(0, 4)),
{
    bincode::deserialize::<u32>(b).ok()
}

/// Relies on bincode::deserialize with its default options: a `u64` is read
/// from the first eight bytes, little-endian; fewer bytes are an error, and
/// bytes after them are left unread.
#[verifier::external_body]
pub(crate) fn take_u64(b: &[u8]) -> (r: Option<u64>)
    ensures
        r is Some <==> b@.len() >= 8,
        r is Some ==> r->0 == spec_u64_from_le_bytes(b@.subrange(0, 8)),
{
    bincode::deserialize::<u64>(b).ok()
}

/// Relies on bincode::deserialize with its default options: a `String` is a
/// `u64` length, little-endian, then that many bytes, which must be valid
/// UTF-8; bytes after them are left unread.
#[verifier::external_body]
pub(crate) fn take_text(b: &[u8]) -> (r: Option<String>)
    ensures
        r is Some <==> starts_with_text(b@),
        r is Some ==> r->0@ == decode_utf8(b@.subrange(8, 8 + announced_len(b@))),
{
    bincode::deserialize::<String>(b).ok()
}

} // verus!
