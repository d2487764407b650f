//! The minitile graphic table: for each tile group, the pixel block and the
//! orientation of each of its sixteen minitiles.
use vstd::prelude::*;

use crate::bytes::{lemma_record_fits, u16_block_at, u16_block_le};
use crate::error::Error;

verus! {

/// The bytes of one block of sixteen minitile graphics on disk.
pub const VX4_BLOCK_SIZE: usize = 32;

/// One minitile graphic: a pixel block index and a mirroring bit.
#[derive(Debug, Clone, Copy)]
pub struct VX4 {
    pub value: u16,
}

impl VX4 {
    pub open spec fn spec_is_horizontally_flipped(self) -> bool {
        self.value & 1 == 1
    }

    pub open spec fn spec_index(self) -> int {
        (self.value >> 1u16) as int
    }

    /// Whether the pixel block is drawn mirrored left to right: the low bit.
    pub fn is_horizontally_flipped(&self) -> (r: bool)
        ensures
            r == self.spec_is_horizontally_flipped(),
    {
        self.value & 1 == 1
    }

    /// The index of the pixel block: the value without its low bit.
    pub fn index(&self) -> (r: usize)
        ensures
            r == self.spec_index(),
    {
        (self.value >> 1) as usize
    }
}

/// The minitile graphic table, sixteen minitiles per tile group.
#[derive(Debug, Clone)]
pub struct VX4s(pub Vec<[VX4; 16]>);

impl View for VX4s {
    type V = Seq<Seq<u16>>;

    open spec fn view(&self) -> Seq<Seq<u16>> {
        self.0@.map_values(|a: [VX4; 16]| a@.map_values(|m: VX4| m.value))
    }
}

/// Wraps each of sixteen graphic words.
fn vx4_block(words: [u16; 16]) -> (r: [VX4; 16])
    ensures
        r@.map_values(|m: VX4| m.value) == words@,
{
    let mut out = [VX4 { value: 0 };16];
    let mut j: usize = 0;
    while j < 16
        invariant
            j <= 16,
            forall|k: int| 0 <= k < j ==> out@[k].value == words@[k],
        decreases 16 - j,
    {
        out[j] = VX4 { value: words[j] };
        j = j + 1;
    }
    assert(out@.map_values(|m: VX4| m.value) =~= words@);
    out
}

impl VX4s {
    /// The table stored in `b`, 32 bytes per block, or `TruncatedInput` when
    /// the length leaves a partial block.
    pub open spec fn decode(b: Seq<u8>) -> Result<Seq<Seq<u16>>, Error> {
        if b.len() % VX4_BLOCK_SIZE as nat != 0 {
            Err(Error::TruncatedInput)
        } else {
            Ok(Seq::new(b.len() / VX4_BLOCK_SIZE as nat, |i: int| u16_block_le(b, VX4_BLOCK_SIZE * i)))
        }
    }

    /// Decodes the minitile graphic table.
    pub fn from_buffer(b: &[u8]) -> (r: Result<VX4s, Error>)
        ensures
            match r {
                Ok(t) => VX4s::decode(b@) == Ok::<Seq<Seq<u16>>, Error>(t@),
                Err(e) => VX4s::decode(b@) == Err::<Seq<Seq<u16>>, Error>(e),
            },
    {
        let len = b.len();
        if len % VX4_BLOCK_SIZE != 0 {
            return Err(Error::TruncatedInput);
        }
        let out_size = len / VX4_BLOCK_SIZE;
        let mut vx4s: Vec<[VX4; 16]> = Vec::new();
        let mut i: usize = 0;
        while i < out_size
            invariant
                len == b@.len(),
                out_size == b@.len() / VX4_BLOCK_SIZE as nat,
                i <= out_size,
                vx4s@.len() == i,
                forall|k: int|
                    0 <= k < i ==> (#[trigger] vx4s@[k])@.map_values(|m: VX4| m.value)
                        == u16_block_le(b@, VX4_BLOCK_SIZE * k),
            decreases out_size - i,
        {
            proof {
                lemma_record_fits(b@.len() as int, VX4_BLOCK_SIZE as int, i as int);
            }
            vx4s.push(vx4_block(u16_block_at(b, VX4_BLOCK_SIZE * i)));
            i = i + 1;
        }
        let r = VX4s(vx4s);
        assert(r@ =~= Seq::new(
            b@.len() / VX4_BLOCK_SIZE as nat,
            |i: int| u16_block_le(b@, VX4_BLOCK_SIZE * i),
        ));
        Ok(r)
    }
}

} // verus!
