//! Fixed-size headers at the start of byte strings, and big-endian fields.
//! The views into the bytes are those of the `zerocopy` crate.

use vstd::prelude::*;
use zerocopy::byteorder::big_endian::{U16, U32};
use zerocopy::{FromBytes, Ref};
use crate::bytes;

verus! {

/// Wraps `zerocopy::Ref::from_prefix` for a header of two bytes (and
/// `Ref::into_ref`): when the bytes are long enough, the first two of them and
/// the rest, and nothing otherwise. A byte array has no alignment to miss.
#[verifier::external_body]
pub(crate) fn prefix_2(data: &[u8]) -> (r: Option<(&[u8; 2], &[u8])>)
    ensures
        r is Some <==> data@.len() >= 2,
        r is Some ==> (r->0).0@ == data@.take(2) && (r->0).1@ == data@.skip(2),
{
    match Ref::<&[u8], [u8; 2]>::from_prefix(data) {
        Ok((header, rest)) => Some((Ref::into_ref(header), rest)),
        Err(_) => None,
    }
}

/// Wraps `zerocopy::FromBytes::ref_from_prefix` for a header of twelve bytes:
/// when the bytes are long enough, the first twelve of them and the rest, and
/// nothing otherwise. A byte array has no alignment to miss.
#[verifier::external_body]
pub(crate) fn prefix_12(data: &[u8]) -> (r: Option<(&[u8; 12], &[u8])>)
    ensures
        r is Some <==> data@.len() >= 12,
        r is Some ==> (r->0).0@ == data@.take(12) && (r->0).1@ == data@.skip(12),
{
    match <[u8; 12]>::ref_from_prefix(data) {
        Ok((header, rest)) => Some((header, rest)),
        Err(_) => None,
    }
}

/// Wraps `zerocopy`'s big-endian `U16` (`from_bytes`, `get`): the integer that
/// two bytes stand for.
#[verifier::external_body]
pub(crate) fn u16_from(field: [u8; 2]) -> (r: u16)
    ensures
        r == bytes::be16(field@, 0),
{
    U16::from_bytes(field).get()
}

/// Wraps `zerocopy`'s big-endian `U32` (`from_bytes`, `get`): the integer that
/// four bytes stand for.
#[verifier::external_body]
pub(crate) fn u32_from(field: [u8; 4]) -> (r: u32)
    ensures
        r == bytes::be32(field@, 0),
{
    U32::from_bytes(field).get()
}

/// Wraps `zerocopy`'s big-endian `U16` (`new`, `to_bytes`): the two bytes of
/// an integer.
#[verifier::external_body]
pub(crate) fn u16_field(value: u16) -> (r: [u8; 2])
    ensures
        r@ == bytes::be16_bytes(value),
{
    U16::new(value).to_bytes()
}

/// Wraps `zerocopy`'s big-endian `U32` (`new`, `to_bytes`): the four bytes of
/// an integer.
#[verifier::external_body]
pub(crate) fn u32_field(value: u32) -> (r: [u8; 4])
    ensures
        r@ == bytes::be32_bytes(value),
{
    U32::new(value).to_bytes()
}

} // verus!
