//! Little-endian integer reads over byte buffers, and UTF-8 validation.
use vstd::prelude::*;
use vstd::utf8::{decode_utf8, valid_utf8};

use crate::error::Error;

verus! {

/// The unsigned 16-bit little-endian integer stored at `off`.
pub open spec fn u16_le(b: Seq<u8>, off: int) -> u16 {
    (b[off] as int + 256 * (b[off + 1] as int)) as u16
}

/// The unsigned 32-bit little-endian integer stored at `off`.
pub open spec fn u32_le(b: Seq<u8>, off: int) -> u32 {
    (b[off] as int + 256 * (b[off + 1] as int) + 65536 * (b[off + 2] as int) + 16777216 * (
    b[off + 3] as int)) as u32
}

/// True when `n` bytes can be read at `pos`.
pub open spec fn fits(b: Seq<u8>, pos: int, n: int) -> bool {
    0 <= pos && pos + n <= b.len()
}

/// Reads the 16-bit little-endian integer at `off`.
pub fn u16_at(b: &[u8], off: usize) -> (r: u16)
    requires
        off + 2 <= b@.len(),
    ensures
        r == u16_le(b@, off as int),
{
    b[off] as u16 + (b[off + 1] as u16) * 256
}

/// Reads the 32-bit little-endian integer at `off`.
pub fn u32_at(b: &[u8], off: usize) -> (r: u32)
    requires
        off + 4 <= b@.len(),
    ensures
        r == u32_le(b@, off as int),
{
    b[off] as u32 + (b[off + 1] as u32) * 256 + (b[off + 2] as u32) * 65536 + (b[off + 3] as u32)
        * 16777216
}

/// Reads one byte at the cursor `pos` and advances it.
pub fn read_u8(b: &[u8], pos: &mut usize) -> (r: Result<u8, Error>)
    ensures
        fits(b@, *old(pos) as int, 1) ==> r == Ok::<u8, Error>(b@[*old(pos) as int]) && *final(pos)
            == *old(pos) + 1,
        !fits(b@, *old(pos) as int, 1) ==> r == Err::<u8, Error>(Error::TruncatedInput) && *final(pos) == *old(pos),
{
    if *pos >= b.len() {
        return Err(Error::TruncatedInput);
    }
    let v = b[*pos];
    *pos = *pos + 1;
    Ok(v)
}

/// Reads a 16-bit little-endian integer at the cursor `pos` and advances it.
pub fn read_u16(b: &[u8], pos: &mut usize) -> (r: Result<u16, Error>)
    ensures
        fits(b@, *old(pos) as int, 2) ==> r == Ok::<u16, Error>(u16_le(b@, *old(pos) as int))
            && *final(pos) == *old(pos) + 2,
        !fits(b@, *old(pos) as int, 2) ==> r == Err::<u16, Error>(Error::TruncatedInput) && *final(pos) == *old(pos),
{
    if *pos > b.len() || b.len() - *pos < 2 {
        return Err(Error::TruncatedInput);
    }
    let v = u16_at(b, *pos);
    *pos = *pos + 2;
    Ok(v)
}

/// Reads a 32-bit little-endian integer at the cursor `pos` and advances it.
pub fn read_u32(b: &[u8], pos: &mut usize) -> (r: Result<u32, Error>)
    ensures
        fits(b@, *old(pos) as int, 4) ==> r == Ok::<u32, Error>(u32_le(b@, *old(pos) as int))
            && *final(pos) == *old(pos) + 4,
        !fits(b@, *old(pos) as int, 4) ==> r == Err::<u32, Error>(Error::TruncatedInput) && *final(pos) == *old(pos),
{
    if *pos > b.len() || b.len() - *pos < 4 {
        return Err(Error::TruncatedInput);
    }
    let v = u32_at(b, *pos);
    *pos = *pos + 4;
    Ok(v)
}

/// Relies on std::str::from_utf8: it succeeds exactly on valid UTF-8, and
/// the string it gives holds the characters that the bytes encode.
#[verifier::external_body]
pub fn utf8_string(b: &[u8]) -> (r: Option<String>)
    ensures
        r.is_some() == valid_utf8(b@),
        r matches Some(s) ==> s@ == decode_utf8(b@),
{
    std::str::from_utf8(b).ok().map(|s| s.to_string())
}


/// The sixteen 16-bit little-endian integers stored from `off` on.
pub open spec fn u16_block_le(b: Seq<u8>, off: int) -> Seq<u16> {
    Seq::new(16, |j: int| u16_le(b, off + 2 * j))
}

/// Reads sixteen 16-bit little-endian integers from `off` on.
pub fn u16_block_at(b: &[u8], off: usize) -> (r: [u16; 16])
    requires
        off + 32 <= b@.len(),
    ensures
        r@ == u16_block_le(b@, off as int),
{
    let len = b.len();
    let mut out = [0u16; 16];
    let mut j: usize = 0;
    while j < 16
        invariant
            len == b@.len(),
            off + 32 <= b@.len(),
            j <= 16,
            forall|k: int| 0 <= k < j ==> out@[k] == u16_le(b@, off + 2 * k),
        decreases 16 - j,
    {
        out[j] = u16_at(b, off + 2 * j);
        j = j + 1;
    }
    assert(out@ =~= u16_block_le(b@, off as int));
    out
}

/// A record of `stride` bytes with index below `len / stride` lies within
/// the first `len` bytes.
pub proof fn lemma_record_fits(len: int, stride: int, i: int)
    requires
        0 < stride,
        0 <= len,
        0 <= i < len / stride,
    ensures
        stride * i + stride <= len,
{
    assert(stride * (len / stride) <= len) by (nonlinear_arith)
        requires
            0 < stride,
            0 <= len,
    {
        vstd::arithmetic::div_mod::lemma_fundamental_div_mod(len, stride);
    }
    assert(stride * i + stride <= stride * (len / stride)) by (nonlinear_arith)
        requires
            0 < stride,
            i + 1 <= len / stride,
    ;
}

} // verus!
