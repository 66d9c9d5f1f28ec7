//! Little-endian scalar encoding and 4-byte alignment arithmetic.
//!
//! The protocols here declare host byte order for their scalar fields, and
//! the codec fixes that to little-endian, the order of the captured
//! reference packets.

use vstd::prelude::*;

verus! {

/// Number of zero bytes needed after `n` bytes to reach a 4-byte boundary.
pub open spec fn pad4(n: int) -> int {
    if n % 4 == 0 {
        0
    } else {
        4 - n % 4
    }
}

/// `n` rounded up to the next multiple of 4.
pub open spec fn align4(n: int) -> int {
    n + pad4(n)
}

pub proof fn lemma_align4(n: int)
    requires
        n >= 0,
    ensures
        n <= align4(n) < n + 4,
        align4(n) % 4 == 0,
{
}

/// The two little-endian bytes of a 16-bit scalar.
pub open spec fn le16(x: u16) -> Seq<u8> {
    seq![(x % 256) as u8, (x / 256) as u8]
}

/// The 16-bit scalar read back from two little-endian bytes.
pub open spec fn le16_val(b0: u8, b1: u8) -> int {
    b0 + 256 * b1
}

pub proof fn lemma_le16_roundtrip(x: u16)
    ensures
        le16_val(le16(x)[0], le16(x)[1]) == x,
{
}

/// The four little-endian bytes of a 32-bit scalar.
pub open spec fn le32(x: u32) -> Seq<u8> {
    seq![
        (x % 256) as u8,
        ((x / 256) % 256) as u8,
        ((x / 65536) % 256) as u8,
        (x / 16777216) as u8,
    ]
}

/// The 32-bit scalar read back from four little-endian bytes.
pub open spec fn le32_val(b0: u8, b1: u8, b2: u8, b3: u8) -> int {
    b0 + 256 * b1 + 65536 * b2 + 16777216 * b3
}

pub proof fn lemma_le32_roundtrip(x: u32)
    ensures
        le32_val(le32(x)[0], le32(x)[1], le32(x)[2], le32(x)[3]) == x,
{
}

/// Appends the two little-endian bytes of `x`.
pub fn push_le16(out: &mut Vec<u8>, x: u16)
    ensures
        final(out)@ == old(out)@ + le16(x),
{
    out.push((x % 256) as u8);
    out.push((x / 256) as u8);
    assert(out@ =~= old(out)@ + le16(x));
}

/// Appends the four little-endian bytes of `x`.
pub fn push_le32(out: &mut Vec<u8>, x: u32)
    ensures
        final(out)@ == old(out)@ + le32(x),
{
    out.push((x % 256) as u8);
    out.push(((x / 256) % 256) as u8);
    out.push(((x / 65536) % 256) as u8);
    out.push((x / 16777216) as u8);
    assert(out@ =~= old(out)@ + le32(x));
}

/// Reads a 16-bit scalar from two little-endian bytes.
pub fn read_le16(b0: u8, b1: u8) -> (r: u16)
    ensures
        r == le16_val(b0, b1),
{
    (b0 as u16) + 256 * (b1 as u16)
}

/// Reads a 32-bit scalar from four little-endian bytes.
pub fn read_le32(b0: u8, b1: u8, b2: u8, b3: u8) -> (r: u32)
    ensures
        r == le32_val(b0, b1, b2, b3),
{
    (b0 as u32) + 256 * (b1 as u32) + 65536 * (b2 as u32) + 16777216 * (b3 as u32)
}

/// `n` rounded up to the next multiple of 4.
pub fn align4_usize(n: usize) -> (r: usize)
    requires
        n + 3 <= usize::MAX,
    ensures
        r == align4(n as int),
{
    let rem = n % 4;
    if rem == 0 {
        n
    } else {
        n + (4 - rem)
    }
}

} // verus!
