//! Single integers in fixed-width big-endian form, written and read by
//! `bincode`.
//!
//! Every function here is a thin call into `bincode` under one configuration:
//! big-endian byte order, fixed-width integers, no byte limit. Their contracts
//! are taken on trust from `bincode`'s source; nothing in this file is proved.

use vstd::prelude::*;
use bincode::error::{DecodeError, EncodeError};
use crate::byte_order::{u32_from_be, u32_to_be, u64_from_be, u64_to_be};

verus! {

/// `bincode::error::EncodeError`, carried through unopened.
#[verifier::external_type_specification]
#[verifier::external_body]
pub struct ExEncodeError(bincode::error::EncodeError);

/// `bincode::error::DecodeError`, carried through unopened.
#[verifier::external_type_specification]
#[verifier::external_body]
pub struct ExDecodeError(bincode::error::DecodeError);

/// `bincode::encode_into_slice` on a `u32`.
///
/// Trusted: with fixed-width big-endian integers `bincode` writes
/// `value.to_be_bytes()`, which always fits a destination of four bytes, and
/// reports the four bytes written.
#[verifier::external_body]
pub(crate) fn write_u32(value: u32, dst: &mut [u8; 4]) -> (written: Result<usize, EncodeError>)
    ensures
        written is Ok,
        written matches Ok(count) ==> count == 4,
        final(dst)@ == u32_to_be(value),
{
    let config = bincode::config::standard().with_big_endian().with_fixed_int_encoding();
    bincode::encode_into_slice(value, dst, config)
}

/// `bincode::encode_into_slice` on a `u64`.
///
/// Trusted: with fixed-width big-endian integers `bincode` writes
/// `value.to_be_bytes()`, which always fits a destination of eight bytes, and
/// reports the eight bytes written.
#[verifier::external_body]
pub(crate) fn write_u64(value: u64, dst: &mut [u8; 8]) -> (written: Result<usize, EncodeError>)
    ensures
        written is Ok,
        written matches Ok(count) ==> count == 8,
        final(dst)@ == u64_to_be(value),
{
    let config = bincode::config::standard().with_big_endian().with_fixed_int_encoding();
    bincode::encode_into_slice(value, dst, config)
}

/// `bincode::decode_from_slice` for a `u32`.
///
/// Trusted: with fixed-width big-endian integers `bincode` fails when fewer
/// than four bytes are there, and otherwise returns `u32::from_be_bytes` of the
/// first four together with the count of bytes read, which is four. Bytes
/// after the fourth are not looked at.
#[verifier::external_body]
pub(crate) fn read_u32(src: &[u8]) -> (read: Result<(u32, usize), DecodeError>)
    ensures
        src@.len() < 4 ==> read is Err,
        src@.len() >= 4 ==> read is Ok,
        read matches Ok(pair) ==> pair.0 == u32_from_be(src@.subrange(0, 4)),
        read matches Ok(pair) ==> pair.1 == 4,
{
    let config = bincode::config::standard().with_big_endian().with_fixed_int_encoding();
    bincode::decode_from_slice(src, config)
}

/// `bincode::decode_from_slice` for a `u64`.
///
/// Trusted: with fixed-width big-endian integers `bincode` fails when fewer
/// than eight bytes are there, and otherwise returns `u64::from_be_bytes` of
/// the first eight together with the count of bytes read, which is eight.
/// Bytes after the eighth are not looked at.
#[verifier::external_body]
pub(crate) fn read_u64(src: &[u8]) -> (read: Result<(u64, usize), DecodeError>)
    ensures
        src@.len() < 8 ==> read is Err,
        src@.len() >= 8 ==> read is Ok,
        read matches Ok(pair) ==> pair.0 == u64_from_be(src@.subrange(0, 8)),
        read matches Ok(pair) ==> pair.1 == 8,
{
    let config = bincode::config::standard().with_big_endian().with_fixed_int_encoding();
    bincode::decode_from_slice(src, config)
}

} // verus!
