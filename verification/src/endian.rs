//! Big-endian integers as byte sequences, and the library calls that read
//! and write them.

use byteorder::BigEndian;
use byteorder::ReadBytesExt;
use vstd::array::array_as_slice;
use vstd::prelude::*;
use vstd::slice::slice_to_vec;

verus! {

/// The unsigned number that two bytes write, most significant byte first.
pub open spec fn be_u16(b: Seq<u8>) -> int
    recommends
        b.len() == 2,
{
    b[0] as int * 0x100 + b[1] as int
}

/// The unsigned number that four bytes write, most significant byte first.
pub open spec fn be_u32(b: Seq<u8>) -> int
    recommends
        b.len() == 4,
{
    b[0] as int * 0x100_0000 + b[1] as int * 0x1_0000 + b[2] as int * 0x100 + b[3] as int
}

/// The two's-complement number that four bytes write, most significant
/// byte first.
pub open spec fn be_i32(b: Seq<u8>) -> int
    recommends
        b.len() == 4,
{
    if be_u32(b) >= 0x8000_0000 {
        be_u32(b) - 0x1_0000_0000
    } else {
        be_u32(b)
    }
}

/// The unsigned number that eight bytes write, most significant byte first.
pub open spec fn be_u64(b: Seq<u8>) -> int
    recommends
        b.len() == 8,
{
    be_u32(b.subrange(0, 4)) * 0x1_0000_0000 + be_u32(b.subrange(4, 8))
}

/// The two's-complement number that eight bytes write, most significant
/// byte first.
pub open spec fn be_i64(b: Seq<u8>) -> int
    recommends
        b.len() == 8,
{
    if be_u64(b) >= 0x8000_0000_0000_0000 {
        be_u64(b) - 0x1_0000_0000_0000_0000
    } else {
        be_u64(b)
    }
}

/// The two bytes of `v`, most significant first.
pub open spec fn u16_be_bytes(v: int) -> Seq<u8>
    recommends
        0 <= v < 0x1_0000,
{
    seq![(v / 0x100) as u8, (v % 0x100) as u8]
}

/// The four bytes of `v`, most significant first.
pub open spec fn u32_be_bytes(v: int) -> Seq<u8>
    recommends
        0 <= v < 0x1_0000_0000,
{
    seq![
        (v / 0x100_0000) as u8,
        ((v / 0x1_0000) % 0x100) as u8,
        ((v / 0x100) % 0x100) as u8,
        (v % 0x100) as u8,
    ]
}

/// The four bytes of the two's complement of `v`, most significant first.
pub open spec fn i32_be_bytes(v: int) -> Seq<u8>
    recommends
        -0x8000_0000 <= v < 0x8000_0000,
{
    if v < 0 {
        u32_be_bytes(v + 0x1_0000_0000)
    } else {
        u32_be_bytes(v)
    }
}

/// The eight bytes of `v`, most significant first.
pub open spec fn u64_be_bytes(v: int) -> Seq<u8>
    recommends
        0 <= v < 0x1_0000_0000_0000_0000,
{
    u32_be_bytes(v / 0x1_0000_0000) + u32_be_bytes(v % 0x1_0000_0000)
}

/// The eight bytes of the two's complement of `v`, most significant first.
pub open spec fn i64_be_bytes(v: int) -> Seq<u8>
    recommends
        -0x8000_0000_0000_0000 <= v < 0x8000_0000_0000_0000,
{
    if v < 0 {
        u64_be_bytes(v + 0x1_0000_0000_0000_0000)
    } else {
        u64_be_bytes(v)
    }
}

/// Reading back the four bytes of an unsigned number gives the number.
pub proof fn lemma_u32_round_trip(v: int)
    requires
        0 <= v < 0x1_0000_0000,
    ensures
        u32_be_bytes(v).len() == 4,
        be_u32(u32_be_bytes(v)) == v,
{
}

/// Reading back the four bytes of a signed number gives the number.
pub proof fn lemma_i32_round_trip(v: int)
    requires
        -0x8000_0000 <= v < 0x8000_0000,
    ensures
        i32_be_bytes(v).len() == 4,
        be_i32(i32_be_bytes(v)) == v,
{
    if v < 0 {
        lemma_u32_round_trip(v + 0x1_0000_0000);
    } else {
        lemma_u32_round_trip(v);
    }
}

/// Reading back the eight bytes of an unsigned number gives the number.
pub proof fn lemma_u64_round_trip(v: int)
    requires
        0 <= v < 0x1_0000_0000_0000_0000,
    ensures
        u64_be_bytes(v).len() == 8,
        be_u64(u64_be_bytes(v)) == v,
{
    let hi = v / 0x1_0000_0000;
    let lo = v % 0x1_0000_0000;
    lemma_u32_round_trip(hi);
    lemma_u32_round_trip(lo);
    let b = u64_be_bytes(v);
    assert(b.subrange(0, 4) =~= u32_be_bytes(hi));
    assert(b.subrange(4, 8) =~= u32_be_bytes(lo));
}

/// Reading back the eight bytes of a signed number gives the number.
pub proof fn lemma_i64_round_trip(v: int)
    requires
        -0x8000_0000_0000_0000 <= v < 0x8000_0000_0000_0000,
    ensures
        i64_be_bytes(v).len() == 8,
        be_i64(i64_be_bytes(v)) == v,
{
    if v < 0 {
        lemma_u64_round_trip(v + 0x1_0000_0000_0000_0000);
    } else {
        lemma_u64_round_trip(v);
    }
}

/// `i32::to_be_bytes`: the integer's bytes in big-endian order.
#[verifier::external_body]
pub(crate) fn i32_to_be(v: i32) -> (r: [u8; 4])
    ensures
        r@ == i32_be_bytes(v as int),
{
    v.to_be_bytes()
}

/// `i64::to_be_bytes`: the integer's bytes in big-endian order.
#[verifier::external_body]
pub(crate) fn i64_to_be(v: i64) -> (r: [u8; 8])
    ensures
        r@ == i64_be_bytes(v as int),
{
    v.to_be_bytes()
}

/// `u64::to_be_bytes`: the integer's bytes in big-endian order.
#[verifier::external_body]
pub(crate) fn u64_to_be(v: u64) -> (r: [u8; 8])
    ensures
        r@ == u64_be_bytes(v as int),
{
    v.to_be_bytes()
}

/// `i32::from_be_bytes`: the integer whose big-endian bytes the array
/// holds.
#[verifier::external_body]
pub(crate) fn i32_from_be(b: [u8; 4]) -> (r: i32)
    ensures
        r == be_i32(b@),
{
    i32::from_be_bytes(b)
}

/// `i64::from_be_bytes`: the integer whose big-endian bytes the array
/// holds.
#[verifier::external_body]
pub(crate) fn i64_from_be(b: [u8; 8]) -> (r: i64)
    ensures
        r == be_i64(b@),
{
    i64::from_be_bytes(b)
}

/// `u64::from_be_bytes`: the integer whose big-endian bytes the array
/// holds.
#[verifier::external_body]
pub(crate) fn u64_from_be(b: [u8; 8]) -> (r: u64)
    ensures
        r == be_u64(b@),
{
    u64::from_be_bytes(b)
}

/// `byteorder::ReadBytesExt::read_i32::<BigEndian>` on a byte slice as the
/// reader: with four bytes or more it takes the first four off the front
/// and returns the signed number they write; with fewer it fails.
#[verifier::external_body]
pub(crate) fn read_i32_be<'a>(bytes: &'a [u8]) -> (r: Result<(i32, &'a [u8]), std::io::Error>)
    ensures
        r is Ok <==> bytes@.len() >= 4,
        r matches Ok((v, rest)) ==> v == be_i32(bytes@.subrange(0, 4)) && rest@
            == bytes@.subrange(4, bytes@.len() as int),
{
    let mut rest = bytes;
    let v = rest.read_i32::<BigEndian>()?;
    Ok((v, rest))
}

/// The four big-endian bytes of `v`.
pub fn i32_be_vec(v: i32) -> (r: Vec<u8>)
    ensures
        r@ == i32_be_bytes(v as int),
{
    let a = i32_to_be(v);
    slice_to_vec(array_as_slice(&a))
}

/// The eight big-endian bytes of `v`.
pub fn i64_be_vec(v: i64) -> (r: Vec<u8>)
    ensures
        r@ == i64_be_bytes(v as int),
{
    let a = i64_to_be(v);
    slice_to_vec(array_as_slice(&a))
}

/// The eight big-endian bytes of `v`.
pub fn u64_be_vec(v: u64) -> (r: Vec<u8>)
    ensures
        r@ == u64_be_bytes(v as int),
{
    let a = u64_to_be(v);
    slice_to_vec(array_as_slice(&a))
}

/// The signed number that the four bytes of `b` write.
pub fn i32_of_be(b: &[u8]) -> (r: i32)
    requires
        b@.len() == 4,
    ensures
        r == be_i32(b@),
{
    let a = [b[0], b[1], b[2], b[3]];
    assert(a@ =~= b@);
    i32_from_be(a)
}

/// The signed number that the eight bytes of `b` write.
pub fn i64_of_be(b: &[u8]) -> (r: i64)
    requires
        b@.len() == 8,
    ensures
        r == be_i64(b@),
{
    let a = [b[0], b[1], b[2], b[3], b[4], b[5], b[6], b[7]];
    assert(a@ =~= b@);
    i64_from_be(a)
}

/// The unsigned number that the eight bytes of `b` write.
pub fn u64_of_be(b: &[u8]) -> (r: u64)
    requires
        b@.len() == 8,
    ensures
        r == be_u64(b@),
{
    let a = [b[0], b[1], b[2], b[3], b[4], b[5], b[6], b[7]];
    assert(a@ =~= b@);
    u64_from_be(a)
}

} // verus!
