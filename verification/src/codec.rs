//! The two messages of the exchange and their wire layouts.

use vstd::prelude::*;
use vstd::slice::slice_subrange;
use crate::byte_order::{
    lemma_u32_be_bytes_round_trip, lemma_u32_be_round_trip, lemma_u64_be_bytes_round_trip,
    lemma_u64_be_round_trip, u32_from_be, u32_to_be, u64_from_be, u64_to_be,
};
use crate::fixed_int::{read_u32, read_u64, write_u32, write_u64};

verus! {

/// Length of a ping on the wire.
pub const PING_LEN: usize = 12;

/// Length of a pong on the wire.
pub const PONG_LEN: usize = 24;

/// The request kind that marks a ping.
pub const PING_KIND: u32 = 0;

/// The request: a kind and the token that the answer will echo.
#[derive(Clone, Copy, Debug, PartialEq, Eq, Structural)]
pub struct Ping {
    pub kind: u32,
    pub identifier: u64,
}

/// The answer: what the server reports of itself.
#[derive(Clone, Copy, Debug, PartialEq, Eq, Structural)]
pub struct Pong {
    pub version_packed: u32,
    pub identifier: u64,
    pub connected_users: u32,
    pub max_users: u32,
    pub bandwidth: u32,
}

/// A datagram whose length is not that of the message asked for.
#[derive(Clone, Copy, Debug, PartialEq, Eq, Structural)]
pub struct MalformedError {
    pub expected: usize,
    pub found: usize,
}

/// The twelve bytes of a ping: kind, then identifier.
pub open spec fn ping_to_wire(ping: Ping) -> Seq<u8> {
    u32_to_be(ping.kind) + u64_to_be(ping.identifier)
}

/// The ping that twelve bytes stand for.
pub open spec fn ping_from_wire(bytes: Seq<u8>) -> Ping
    recommends
        bytes.len() == PING_LEN,
{
    Ping { kind: u32_from_be(bytes.subrange(0, 4)), identifier: u64_from_be(bytes.subrange(4, 12)) }
}

/// The twenty-four bytes of a pong, field after field.
pub open spec fn pong_to_wire(pong: Pong) -> Seq<u8> {
    u32_to_be(pong.version_packed) + u64_to_be(pong.identifier) + u32_to_be(pong.connected_users)
        + u32_to_be(pong.max_users) + u32_to_be(pong.bandwidth)
}

/// The pong that twenty-four bytes stand for.
pub open spec fn pong_from_wire(bytes: Seq<u8>) -> Pong
    recommends
        bytes.len() == PONG_LEN,
{
    Pong {
        version_packed: u32_from_be(bytes.subrange(0, 4)),
        identifier: u64_from_be(bytes.subrange(4, 12)),
        connected_users: u32_from_be(bytes.subrange(12, 16)),
        max_users: u32_from_be(bytes.subrange(16, 20)),
        bandwidth: u32_from_be(bytes.subrange(20, 24)),
    }
}

/// What decoding a datagram as a ping gives.
pub open spec fn decode_ping_spec(bytes: Seq<u8>) -> Result<Ping, MalformedError> {
    if bytes.len() == PING_LEN {
        Ok(ping_from_wire(bytes))
    } else {
        Err(MalformedError { expected: PING_LEN, found: bytes.len() as usize })
    }
}

/// What decoding a datagram as a pong gives.
pub open spec fn decode_pong_spec(bytes: Seq<u8>) -> Result<Pong, MalformedError> {
    if bytes.len() == PONG_LEN {
        Ok(pong_from_wire(bytes))
    } else {
        Err(MalformedError { expected: PONG_LEN, found: bytes.len() as usize })
    }
}

/// The four wire bytes of `value`.
fn put_u32(value: u32) -> (bytes: [u8; 4])
    ensures
        bytes@ == u32_to_be(value),
{
    let mut bytes = [0u8; 4];
    let _ = write_u32(value, &mut bytes);
    bytes
}

/// The eight wire bytes of `value`.
fn put_u64(value: u64) -> (bytes: [u8; 8])
    ensures
        bytes@ == u64_to_be(value),
{
    let mut bytes = [0u8; 8];
    let _ = write_u64(value, &mut bytes);
    bytes
}

/// The 32-bit field that begins at offset `at`. With four bytes there the
/// read cannot fail, so the result is never `None`.
fn get_u32(bytes: &[u8], at: usize) -> (value: Option<u32>)
    requires
        at + 4 <= bytes@.len(),
    ensures
        value == Some(u32_from_be(bytes@.subrange(at as int, at + 4))),
{
    assert(bytes@.len() == bytes.len());
    let field = slice_subrange(bytes, at, at + 4);
    match read_u32(field) {
        Ok((value, _)) => {
            assert(field@.subrange(0, 4) =~= field@);
            Some(value)
        },
        Err(_) => None,
    }
}

/// The 64-bit field that begins at offset `at`. With eight bytes there the
/// read cannot fail, so the result is never `None`.
fn get_u64(bytes: &[u8], at: usize) -> (value: Option<u64>)
    requires
        at + 8 <= bytes@.len(),
    ensures
        value == Some(u64_from_be(bytes@.subrange(at as int, at + 8))),
{
    assert(bytes@.len() == bytes.len());
    let field = slice_subrange(bytes, at, at + 8);
    match read_u64(field) {
        Ok((value, _)) => {
            assert(field@.subrange(0, 8) =~= field@);
            Some(value)
        },
        Err(_) => None,
    }
}

impl Ping {
    /// The ping that carries `identifier`.
    pub fn new(identifier: u64) -> (ping: Ping)
        ensures
            ping == (Ping { kind: PING_KIND, identifier }),
    {
        Ping { kind: PING_KIND, identifier }
    }
}

impl Pong {
    /// The four bytes packed into the version, most significant first.
    pub open spec fn version_parts(self) -> Seq<u8> {
        u32_to_be(self.version_packed)
    }

    /// Whether the counts agree: no more users connected than there are slots.
    pub open spec fn consistent(self) -> bool {
        self.connected_users <= self.max_users
    }

    /// The four bytes packed into the version, most significant first. What
    /// they mean is left to the caller.
    pub fn version_components(&self) -> (parts: [u8; 4])
        ensures
            parts@ == self.version_parts(),
    {
        let v = self.version_packed;
        let parts = [
            (v / 0x100_0000) as u8,
            (v / 0x1_0000 % 0x100) as u8,
            (v / 0x100 % 0x100) as u8,
            (v % 0x100) as u8,
        ];
        assert(parts@ =~= self.version_parts());
        parts
    }

    /// Whether the counts agree: no more users connected than there are slots.
    pub fn is_consistent(&self) -> (yes: bool)
        ensures
            yes == self.consistent(),
    {
        self.connected_users <= self.max_users
    }
}

/// The wire form of the ping that carries `identifier`.
pub fn encode_ping(identifier: u64) -> (wire: [u8; 12])
    ensures
        wire@ == ping_to_wire(Ping { kind: PING_KIND, identifier }),
{
    let k = put_u32(PING_KIND);
    let i = put_u64(identifier);
    let wire = [k[0], k[1], k[2], k[3], i[0], i[1], i[2], i[3], i[4], i[5], i[6], i[7]];
    assert(wire@ =~= ping_to_wire(Ping { kind: PING_KIND, identifier }));
    wire
}

/// The wire form of `pong`.
pub fn encode_pong(pong: &Pong) -> (wire: [u8; 24])
    ensures
        wire@ == pong_to_wire(*pong),
{
    let v = put_u32(pong.version_packed);
    let i = put_u64(pong.identifier);
    let c = put_u32(pong.connected_users);
    let m = put_u32(pong.max_users);
    let b = put_u32(pong.bandwidth);
    let wire = [
        v[0], v[1], v[2], v[3],
        i[0], i[1], i[2], i[3], i[4], i[5], i[6], i[7],
        c[0], c[1], c[2], c[3],
        m[0], m[1], m[2], m[3],
        b[0], b[1], b[2], b[3],
    ];
    assert(wire@ =~= pong_to_wire(*pong));
    wire
}

/// Reads a datagram as a ping. Anything but twelve bytes is malformed; twelve
/// bytes always decode.
pub fn decode_ping(bytes: &[u8]) -> (decoded: Result<Ping, MalformedError>)
    ensures
        decoded == decode_ping_spec(bytes@),
        decoded is Ok <==> bytes@.len() == PING_LEN,
{
    let malformed = MalformedError { expected: PING_LEN, found: bytes.len() };
    if bytes.len() != PING_LEN {
        return Err(malformed);
    }
    let kind = match get_u32(bytes, 0) {
        Some(value) => value,
        None => return Err(malformed),
    };
    let identifier = match get_u64(bytes, 4) {
        Some(value) => value,
        None => return Err(malformed),
    };
    Ok(Ping { kind, identifier })
}

/// Reads a datagram as a pong. Anything but twenty-four bytes is malformed and
/// no part of it is read; twenty-four bytes always decode.
pub fn decode_pong(bytes: &[u8]) -> (decoded: Result<Pong, MalformedError>)
    ensures
        decoded == decode_pong_spec(bytes@),
        decoded is Ok <==> bytes@.len() == PONG_LEN,
{
    let malformed = MalformedError { expected: PONG_LEN, found: bytes.len() };
    if bytes.len() != PONG_LEN {
        return Err(malformed);
    }
    let version_packed = match get_u32(bytes, 0) {
        Some(value) => value,
        None => return Err(malformed),
    };
    let identifier = match get_u64(bytes, 4) {
        Some(value) => value,
        None => return Err(malformed),
    };
    let connected_users = match get_u32(bytes, 12) {
        Some(value) => value,
        None => return Err(malformed),
    };
    let max_users = match get_u32(bytes, 16) {
        Some(value) => value,
        None => return Err(malformed),
    };
    let bandwidth = match get_u32(bytes, 20) {
        Some(value) => value,
        None => return Err(malformed),
    };
    Ok(Pong { version_packed, identifier, connected_users, max_users, bandwidth })
}

/// A pong survives the wire: its wire form has twenty-four bytes, and
/// decoding them gives the same pong back.
pub proof fn lemma_pong_round_trip(pong: Pong)
    ensures
        pong_to_wire(pong).len() == PONG_LEN,
        decode_pong_spec(pong_to_wire(pong)) == Ok::<Pong, MalformedError>(pong),
{
    let wire = pong_to_wire(pong);
    lemma_u32_be_round_trip(pong.version_packed);
    lemma_u64_be_round_trip(pong.identifier);
    lemma_u32_be_round_trip(pong.connected_users);
    lemma_u32_be_round_trip(pong.max_users);
    lemma_u32_be_round_trip(pong.bandwidth);
    assert(wire.subrange(0, 4) =~= u32_to_be(pong.version_packed));
    assert(wire.subrange(4, 12) =~= u64_to_be(pong.identifier));
    assert(wire.subrange(12, 16) =~= u32_to_be(pong.connected_users));
    assert(wire.subrange(16, 20) =~= u32_to_be(pong.max_users));
    assert(wire.subrange(20, 24) =~= u32_to_be(pong.bandwidth));
}

/// Twenty-four bytes survive decoding: encoding the pong they stand for gives
/// the same bytes back, so no two datagrams decode to one pong.
pub proof fn lemma_pong_wire_round_trip(bytes: Seq<u8>)
    requires
        bytes.len() == PONG_LEN,
    ensures
        pong_to_wire(pong_from_wire(bytes)) == bytes,
{
    lemma_u32_be_bytes_round_trip(bytes.subrange(0, 4));
    lemma_u64_be_bytes_round_trip(bytes.subrange(4, 12));
    lemma_u32_be_bytes_round_trip(bytes.subrange(12, 16));
    lemma_u32_be_bytes_round_trip(bytes.subrange(16, 20));
    lemma_u32_be_bytes_round_trip(bytes.subrange(20, 24));
    assert(pong_to_wire(pong_from_wire(bytes)) =~= bytes);
}

/// A ping survives the wire: its wire form has twelve bytes, and decoding
/// them gives the same ping back.
pub proof fn lemma_ping_round_trip(ping: Ping)
    ensures
        ping_to_wire(ping).len() == PING_LEN,
        decode_ping_spec(ping_to_wire(ping)) == Ok::<Ping, MalformedError>(ping),
{
    let wire = ping_to_wire(ping);
    lemma_u32_be_round_trip(ping.kind);
    lemma_u64_be_round_trip(ping.identifier);
    assert(wire.subrange(0, 4) =~= u32_to_be(ping.kind));
    assert(wire.subrange(4, 12) =~= u64_to_be(ping.identifier));
}

/// Twelve bytes survive decoding: encoding the ping they stand for gives the
/// same bytes back.
pub proof fn lemma_ping_wire_round_trip(bytes: Seq<u8>)
    requires
        bytes.len() == PING_LEN,
    ensures
        ping_to_wire(ping_from_wire(bytes)) == bytes,
{
    lemma_u32_be_bytes_round_trip(bytes.subrange(0, 4));
    lemma_u64_be_bytes_round_trip(bytes.subrange(4, 12));
    assert(ping_to_wire(ping_from_wire(bytes)) =~= bytes);
}

/// A datagram of any length but twenty-four is no pong.
pub proof fn lemma_decode_pong_rejects_other_lengths(bytes: Seq<u8>)
    requires
        bytes.len() != PONG_LEN,
    ensures
        decode_pong_spec(bytes) is Err,
{
}

} // verus!
