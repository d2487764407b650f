//! The pixel block table: 8x8 palette indices per minitile graphic.
use vstd::prelude::*;

use crate::bytes::lemma_record_fits;
use crate::error::Error;

verus! {

/// The bytes of one pixel block on disk.
pub const VR4_BLOCK_SIZE: usize = 64;

/// The palette indices of one 8x8 minitile, row by row.
pub type VR4 = [u8; 64];

/// The pixel block table.
#[derive(Clone)]
pub struct VR4s(pub Vec<VR4>);

impl View for VR4s {
    type V = Seq<Seq<u8>>;

    open spec fn view(&self) -> Seq<Seq<u8>> {
        self.0@.map_values(|a: VR4| a@)
    }
}

/// Copies the 64 bytes at `off`.
fn vr4_block(b: &[u8], off: usize) -> (r: VR4)
    requires
        off + 64 <= b@.len(),
    ensures
        r@ == b@.subrange(off as int, off + 64),
{
    let len = b.len();
    let mut out = [0u8; 64];
    let mut j: usize = 0;
    while j < 64
        invariant
            len == b@.len(),
            off + 64 <= b@.len(),
            j <= 64,
            forall|k: int| 0 <= k < j ==> out@[k] == b@[off + k],
        decreases 64 - j,
    {
        out[j] = b[off + j];
        j = j + 1;
    }
    assert(out@ =~= b@.subrange(off as int, off + 64));
    out
}

impl VR4s {
    /// The table stored in `b`, 64 bytes per block, or `TruncatedInput` when
    /// the length leaves a partial block.
    pub open spec fn decode(b: Seq<u8>) -> Result<Seq<Seq<u8>>, Error> {
        if b.len() % VR4_BLOCK_SIZE as nat != 0 {
            Err(Error::TruncatedInput)
        } else {
            Ok(
                Seq::new(
                    b.len() / VR4_BLOCK_SIZE as nat,
                    |i: int| b.subrange(VR4_BLOCK_SIZE * i, VR4_BLOCK_SIZE * i + VR4_BLOCK_SIZE),
                ),
            )
        }
    }

    /// Decodes the pixel block table.
    pub fn from_buffer(b: &[u8]) -> (r: Result<VR4s, Error>)
        ensures
            match r {
                Ok(t) => VR4s::decode(b@) == Ok::<Seq<Seq<u8>>, Error>(t@),
                Err(e) => VR4s::decode(b@) == Err::<Seq<Seq<u8>>, Error>(e),
            },
    {
        let len = b.len();
        if len % VR4_BLOCK_SIZE != 0 {
            return Err(Error::TruncatedInput);
        }
        let out_size = len / VR4_BLOCK_SIZE;
        let mut vr4s: Vec<VR4> = Vec::new();
        let mut i: usize = 0;
        while i < out_size
            invariant
                len == b@.len(),
                out_size == b@.len() / VR4_BLOCK_SIZE as nat,
                i <= out_size,
                vr4s@.len() == i,
                forall|k: int|
                    0 <= k < i ==> (#[trigger] vr4s@[k])@ == b@.subrange(
                        VR4_BLOCK_SIZE * k,
                        VR4_BLOCK_SIZE * k + VR4_BLOCK_SIZE,
                    ),
            decreases out_size - i,
        {
            proof {
                lemma_record_fits(b@.len() as int, VR4_BLOCK_SIZE as int, i as int);
            }
            vr4s.push(vr4_block(b, VR4_BLOCK_SIZE * i));
            i = i + 1;
        }
        let r = VR4s(vr4s);
        assert(r@ =~= Seq::new(
            b@.len() / VR4_BLOCK_SIZE as nat,
            |i: int| b@.subrange(VR4_BLOCK_SIZE * i, VR4_BLOCK_SIZE * i + VR4_BLOCK_SIZE),
        ));
        Ok(r)
    }
}

} // verus!
