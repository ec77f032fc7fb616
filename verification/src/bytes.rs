//! Byte views of plain values, taken with `bytemuck`.
//!
//! The recording format writes every scalar as its in-memory bytes, which is
//! what `bytemuck::bytes_of` hands out. The byte order is the target's.

use vstd::prelude::*;

verus! {

/// The bytes that `bytemuck::bytes_of` gives for an unsigned integer of
/// `width` bytes that holds `value`: its in-memory representation.
pub uninterp spec fn native_bytes(value: int, width: nat) -> Seq<u8>;

/// The bytes of a triple of 32-bit values, one after the other.
pub open spec fn u32x3_bytes(v: [u32; 3]) -> Seq<u8> {
    native_bytes(v[0] as int, 4) + native_bytes(v[1] as int, 4) + native_bytes(v[2] as int, 4)
}

/// The byte of a `bool`: 1 for `true`, 0 for `false`.
pub open spec fn bool_byte(b: bool) -> u8 {
    if b { 1 } else { 0 }
}

/// `bytemuck::bytes_of` on a `u16`: its two bytes in memory.
#[verifier::external_body]
pub(crate) fn bytes_of_u16(v: u16) -> (r: Vec<u8>)
    ensures
        r@ == native_bytes(v as int, 2),
        r@.len() == 2,
{
    bytemuck::bytes_of(&v).to_vec()
}

/// `bytemuck::bytes_of` on an `i16`: the two bytes in memory, which are
/// those of the `u16` with the same bits.
#[verifier::external_body]
pub(crate) fn bytes_of_i16(v: i16) -> (r: Vec<u8>)
    ensures
        r@ == native_bytes((v as u16) as int, 2),
        r@.len() == 2,
{
    bytemuck::bytes_of(&v).to_vec()
}

/// `bytemuck::bytes_of` on a `u32`: its four bytes in memory.
#[verifier::external_body]
pub(crate) fn bytes_of_u32(v: u32) -> (r: Vec<u8>)
    ensures
        r@ == native_bytes(v as int, 4),
        r@.len() == 4,
{
    bytemuck::bytes_of(&v).to_vec()
}

/// `bytemuck::bytes_of` on an `i32`: the four bytes in memory, which are
/// those of the `u32` with the same bits.
#[verifier::external_body]
pub(crate) fn bytes_of_i32(v: i32) -> (r: Vec<u8>)
    ensures
        r@ == native_bytes((v as u32) as int, 4),
        r@.len() == 4,
{
    bytemuck::bytes_of(&v).to_vec()
}

/// `bytemuck::bytes_of` on a `u64`: its eight bytes in memory.
#[verifier::external_body]
pub(crate) fn bytes_of_u64(v: u64) -> (r: Vec<u8>)
    ensures
        r@ == native_bytes(v as int, 8),
        r@.len() == 8,
{
    bytemuck::bytes_of(&v).to_vec()
}

/// `bytemuck::bytes_of` on a `u8`: the byte itself.
#[verifier::external_body]
pub(crate) fn bytes_of_u8(v: u8) -> (r: Vec<u8>)
    ensures
        r@ == seq![v],
{
    bytemuck::bytes_of(&v).to_vec()
}

/// `bytemuck::bytes_of` on a `bool`: one byte, 1 or 0.
#[verifier::external_body]
pub(crate) fn bytes_of_bool(v: bool) -> (r: Vec<u8>)
    ensures
        r@ == seq![bool_byte(v)],
{
    bytemuck::bytes_of(&v).to_vec()
}

/// `bytemuck::bytes_of` on a `[u32; 3]`: the bytes of the three elements,
/// which an array lays out one after the other.
#[verifier::external_body]
pub(crate) fn bytes_of_u32x3(v: [u32; 3]) -> (r: Vec<u8>)
    ensures
        r@ == u32x3_bytes(v),
        r@.len() == 12,
{
    bytemuck::bytes_of(&v).to_vec()
}

/// `bytemuck::bytes_of` on a `[u8; 2]`: the two bytes.
#[verifier::external_body]
pub(crate) fn bytes_of_u8x2(v: [u8; 2]) -> (r: Vec<u8>)
    ensures
        r@ == v@,
{
    bytemuck::bytes_of(&v).to_vec()
}

/// `bytemuck::bytes_of` on a `[u8; 3]`: the three bytes.
#[verifier::external_body]
pub(crate) fn bytes_of_u8x3(v: [u8; 3]) -> (r: Vec<u8>)
    ensures
        r@ == v@,
{
    bytemuck::bytes_of(&v).to_vec()
}

/// The `u8` with the same bits as each `i8` of `s`.
pub open spec fn i8s_as_u8s(s: Seq<i8>) -> Seq<u8> {
    Seq::new(s.len(), |i: int| s[i] as u8)
}

/// `bytemuck::cast_slice` from `[i8]` to `[u8]`: the same bytes, each read
/// as unsigned.
#[verifier::external_body]
pub(crate) fn cast_i8_slice(v: &[i8]) -> (r: Vec<u8>)
    ensures
        r@ == i8s_as_u8s(v@),
{
    bytemuck::cast_slice::<i8, u8>(v).to_vec()
}

/// Appends the bytes of `src` to `out`.
pub fn append_bytes(out: &mut Vec<u8>, src: Vec<u8>)
    ensures
        final(out)@ == old(out)@ + src@,
{
    let mut src = src;
    out.append(&mut src);
}

} // verus!
