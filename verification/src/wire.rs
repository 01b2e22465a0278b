//! Byte-order model for multi-byte fields.
//!
//! A field held "in wire order" is an integer whose least significant byte
//! is the first byte that travelled on the wire. Such a field can be compared
//! for equality as it is; before it is shown or compared with a host number
//! it is converted to host order, which reverses its bytes.

use vstd::prelude::*;

verus! {

/// The wire-order value of the two bytes `b0 b1`, `b0` first on the wire.
pub open spec fn wire16(b0: u8, b1: u8) -> u16 {
    (b0 + 256 * b1) as u16
}

/// The wire-order value of the four bytes `b0 b1 b2 b3`, `b0` first on the wire.
pub open spec fn wire32(b0: u8, b1: u8, b2: u8, b3: u8) -> u32 {
    (b0 + 256 * b1 + 65536 * b2 + 16777216 * b3) as u32
}

/// Byte `i` (0 or 1) of a 16-bit wire-order field, in wire sequence.
pub open spec fn byte16(w: u16, i: int) -> u8 {
    if i == 0 {
        (w % 256) as u8
    } else {
        (w / 256) as u8
    }
}

/// Byte `i` (0 to 3) of a 32-bit wire-order field, in wire sequence.
pub open spec fn byte32(w: u32, i: int) -> u8 {
    if i == 0 {
        (w % 256) as u8
    } else if i == 1 {
        (w / 256 % 256) as u8
    } else if i == 2 {
        (w / 65536 % 256) as u8
    } else {
        (w / 16777216) as u8
    }
}

/// The 16-bit value with the bytes of `w` reversed. It takes a wire-order
/// field to host order and a host number to wire order.
pub open spec fn swap16(w: u16) -> u16 {
    wire16(byte16(w, 1), byte16(w, 0))
}

/// The 32-bit value with the bytes of `w` reversed.
pub open spec fn swap32(w: u32) -> u32 {
    wire32(byte32(w, 3), byte32(w, 2), byte32(w, 1), byte32(w, 0))
}

/// Splitting a 16-bit field into its bytes and joining them again is the identity.
pub proof fn lemma_wire16_bytes(w: u16)
    ensures
        wire16(byte16(w, 0), byte16(w, 1)) == w,
{
}

/// Joining two bytes and splitting the field again gives the bytes back.
pub proof fn lemma_byte16_wire(b0: u8, b1: u8)
    ensures
        byte16(wire16(b0, b1), 0) == b0,
        byte16(wire16(b0, b1), 1) == b1,
{
}

/// Splitting a 32-bit field into its bytes and joining them again is the identity.
pub proof fn lemma_wire32_bytes(w: u32)
    ensures
        wire32(byte32(w, 0), byte32(w, 1), byte32(w, 2), byte32(w, 3)) == w,
{
}

/// Joining four bytes and splitting the field again gives the bytes back.
pub proof fn lemma_byte32_wire(b0: u8, b1: u8, b2: u8, b3: u8)
    ensures
        byte32(wire32(b0, b1, b2, b3), 0) == b0,
        byte32(wire32(b0, b1, b2, b3), 1) == b1,
        byte32(wire32(b0, b1, b2, b3), 2) == b2,
        byte32(wire32(b0, b1, b2, b3), 3) == b3,
{
}

/// Reversing the bytes twice is the identity, so the conversions between
/// wire order and host order undo each other.
pub proof fn lemma_swap_involutive(h: u16, w: u32)
    ensures
        swap16(swap16(h)) == h,
        swap32(swap32(w)) == w,
{
    lemma_byte16_wire(byte16(h, 1), byte16(h, 0));
    lemma_wire16_bytes(h);
    lemma_byte32_wire(byte32(w, 3), byte32(w, 2), byte32(w, 1), byte32(w, 0));
    lemma_wire32_bytes(w);
}

/// The host-order value of a wire-order field is the big-endian number of
/// its wire bytes.
pub proof fn lemma_swap_is_big_endian(b0: u8, b1: u8, b2: u8, b3: u8)
    ensures
        swap16(wire16(b0, b1)) == b0 * 256 + b1,
        swap32(wire32(b0, b1, b2, b3)) == b0 * 16777216 + b1 * 65536 + b2 * 256 + b3,
{
    lemma_byte16_wire(b0, b1);
    lemma_byte32_wire(b0, b1, b2, b3);
}

/// Joins two bytes, first wire byte first, into a wire-order field.
pub fn join16(b0: u8, b1: u8) -> (w: u16)
    ensures
        w == wire16(b0, b1),
{
    b0 as u16 + 256 * (b1 as u16)
}

/// Joins four bytes, first wire byte first, into a wire-order field.
pub fn join32(b0: u8, b1: u8, b2: u8, b3: u8) -> (w: u32)
    ensures
        w == wire32(b0, b1, b2, b3),
{
    b0 as u32 + 256 * (b1 as u32) + 65536 * (b2 as u32) + 16777216 * (b3 as u32)
}

/// The two bytes of a 16-bit field in wire sequence.
pub fn split16(w: u16) -> (b: (u8, u8))
    ensures
        b.0 == byte16(w, 0),
        b.1 == byte16(w, 1),
{
    ((w % 256) as u8, (w / 256) as u8)
}

/// The four bytes of a 32-bit field in wire sequence.
pub fn split32(w: u32) -> (b: (u8, u8, u8, u8))
    ensures
        b.0 == byte32(w, 0),
        b.1 == byte32(w, 1),
        b.2 == byte32(w, 2),
        b.3 == byte32(w, 3),
{
    ((w % 256) as u8, (w / 256 % 256) as u8, (w / 65536 % 256) as u8, (w / 16777216) as u8)
}

/// Converts a 16-bit field from wire order to host order.
pub fn to_host16(w: u16) -> (h: u16)
    ensures
        h == swap16(w),
{
    let (b0, b1) = split16(w);
    join16(b1, b0)
}

/// Converts a 16-bit host number to wire order.
pub fn to_wire16(h: u16) -> (w: u16)
    ensures
        w == swap16(h),
{
    let (b0, b1) = split16(h);
    join16(b1, b0)
}

/// Converts a 32-bit field from wire order to host order.
pub fn to_host32(w: u32) -> (h: u32)
    ensures
        h == swap32(w),
{
    let (b0, b1, b2, b3) = split32(w);
    join32(b3, b2, b1, b0)
}

/// Converts a 32-bit host number to wire order.
pub fn to_wire32(h: u32) -> (w: u32)
    ensures
        w == swap32(h),
{
    let (b0, b1, b2, b3) = split32(h);
    join32(b3, b2, b1, b0)
}

/// Reads the 16-bit wire-order field that starts at `offset`.
pub fn read16(buffer: &[u8], offset: usize) -> (w: u16)
    requires
        offset + 2 <= buffer.len(),
    ensures
        w == wire16(buffer[offset as int], buffer[offset + 1]),
{
    join16(buffer[offset], buffer[offset + 1])
}

/// Reads the 32-bit wire-order field that starts at `offset`.
pub fn read32(buffer: &[u8], offset: usize) -> (w: u32)
    requires
        offset + 4 <= buffer.len(),
    ensures
        w == wire32(
            buffer[offset as int],
            buffer[offset + 1],
            buffer[offset + 2],
            buffer[offset + 3],
        ),
{
    join32(buffer[offset], buffer[offset + 1], buffer[offset + 2], buffer[offset + 3])
}

} // verus!
