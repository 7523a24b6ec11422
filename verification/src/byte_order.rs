//! Big-endian (network order) integers as sequences of bytes.

use vstd::prelude::*;

verus! {

/// The four bytes of `value`, most significant first.
pub open spec fn u32_to_be(value: u32) -> Seq<u8> {
    seq![
        (value / 0x100_0000) as u8,
        (value / 0x1_0000 % 0x100) as u8,
        (value / 0x100 % 0x100) as u8,
        (value % 0x100) as u8,
    ]
}

/// The number whose four bytes, most significant first, are `bytes`.
pub open spec fn u32_from_be(bytes: Seq<u8>) -> u32
    recommends
        bytes.len() == 4,
{
    (bytes[0] * 0x100_0000 + bytes[1] * 0x1_0000 + bytes[2] * 0x100 + bytes[3]) as u32
}

/// The eight bytes of `value`, most significant first.
pub open spec fn u64_to_be(value: u64) -> Seq<u8> {
    seq![
        (value / 0x100_0000_0000_0000) as u8,
        (value / 0x1_0000_0000_0000 % 0x100) as u8,
        (value / 0x100_0000_0000 % 0x100) as u8,
        (value / 0x1_0000_0000 % 0x100) as u8,
        (value / 0x100_0000 % 0x100) as u8,
        (value / 0x1_0000 % 0x100) as u8,
        (value / 0x100 % 0x100) as u8,
        (value % 0x100) as u8,
    ]
}

/// The number whose eight bytes, most significant first, are `bytes`.
pub open spec fn u64_from_be(bytes: Seq<u8>) -> u64
    recommends
        bytes.len() == 8,
{
    (bytes[0] * 0x100_0000_0000_0000 + bytes[1] * 0x1_0000_0000_0000 + bytes[2]
        * 0x100_0000_0000 + bytes[3] * 0x1_0000_0000 + bytes[4] * 0x100_0000 + bytes[5] * 0x1_0000
        + bytes[6] * 0x100 + bytes[7]) as u64
}

/// Reading back the bytes of a 32-bit number gives that number.
pub proof fn lemma_u32_be_round_trip(value: u32)
    ensures
        u32_to_be(value).len() == 4,
        u32_from_be(u32_to_be(value)) == value,
{
    let q1 = value / 0x100;
    let q2 = q1 / 0x100;
    let q3 = q2 / 0x100;
    assert(q2 == value / 0x1_0000);
    assert(q3 == value / 0x100_0000);
    assert(q3 < 0x100);
}

/// Writing out the number read from four bytes gives those bytes.
pub proof fn lemma_u32_be_bytes_round_trip(bytes: Seq<u8>)
    requires
        bytes.len() == 4,
    ensures
        u32_to_be(u32_from_be(bytes)) == bytes,
{
    let t1 = bytes[0] as int;
    let t2 = t1 * 0x100 + bytes[1];
    let t3 = t2 * 0x100 + bytes[2];
    let t4 = t3 * 0x100 + bytes[3];
    assert(t4 == u32_from_be(bytes));
    assert(t4 / 0x100 == t3);
    assert(t4 / 0x1_0000 == t2);
    assert(t4 / 0x100_0000 == t1);
    assert(u32_to_be(u32_from_be(bytes)) =~= bytes);
}

/// Reading back the bytes of a 64-bit number gives that number.
pub proof fn lemma_u64_be_round_trip(value: u64)
    ensures
        u64_to_be(value).len() == 8,
        u64_from_be(u64_to_be(value)) == value,
{
    let q1 = value / 0x100;
    let q2 = q1 / 0x100;
    let q3 = q2 / 0x100;
    let q4 = q3 / 0x100;
    let q5 = q4 / 0x100;
    let q6 = q5 / 0x100;
    let q7 = q6 / 0x100;
    assert(q2 == value / 0x1_0000);
    assert(q3 == value / 0x100_0000);
    assert(q4 == value / 0x1_0000_0000);
    assert(q5 == value / 0x100_0000_0000);
    assert(q6 == value / 0x1_0000_0000_0000);
    assert(q7 == value / 0x100_0000_0000_0000);
    assert(q7 < 0x100);
}

/// Writing out the number read from eight bytes gives those bytes.
pub proof fn lemma_u64_be_bytes_round_trip(bytes: Seq<u8>)
    requires
        bytes.len() == 8,
    ensures
        u64_to_be(u64_from_be(bytes)) == bytes,
{
    let t1 = bytes[0] as int;
    let t2 = t1 * 0x100 + bytes[1];
    let t3 = t2 * 0x100 + bytes[2];
    let t4 = t3 * 0x100 + bytes[3];
    let t5 = t4 * 0x100 + bytes[4];
    let t6 = t5 * 0x100 + bytes[5];
    let t7 = t6 * 0x100 + bytes[6];
    let t8 = t7 * 0x100 + bytes[7];
    assert(t8 == u64_from_be(bytes));
    assert(t8 / 0x100 == t7);
    assert(t8 / 0x1_0000 == t6);
    assert(t8 / 0x100_0000 == t5);
    assert(t8 / 0x1_0000_0000 == t4);
    assert(t8 / 0x100_0000_0000 == t3);
    assert(t8 / 0x1_0000_0000_0000 == t2);
    assert(t8 / 0x100_0000_0000_0000 == t1);
    assert(u64_to_be(u64_from_be(bytes)) =~= bytes);
}

} // verus!
