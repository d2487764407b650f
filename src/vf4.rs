//! The minitile flag table: sixteen flag words per tile group.
use vstd::prelude::*;

use crate::bytes::{lemma_record_fits, u16_block_at, u16_block_le};
use crate::error::Error;

verus! {

/// The bytes of one block of sixteen flag words on disk.
pub const VF4_BLOCK_SIZE: usize = 32;

/// The flags of one minitile.
#[derive(Debug, Clone, Copy)]
pub struct VF4 {
    pub value: u16,
}

pub const WALKABLE: u16 = 0x0001;

pub const MID: u16 = 0x0002;

pub const HIGH: u16 = 0x0004;

pub const LOW: u16 = 0x0006;

pub const BLOCKS_VIEW: u16 = 0x0008;

pub const RAMP: u16 = 0x0010;

impl VF4 {
    /// True when every bit of `mask` is set.
    pub open spec fn has(self, mask: u16) -> bool {
        self.value & mask == mask
    }

    pub fn is_walkable(&self) -> (r: bool)
        ensures
            r == self.has(WALKABLE),
    {
        self.value & WALKABLE == WALKABLE
    }

    pub fn is_elevation_mid(&self) -> (r: bool)
        ensures
            r == self.has(MID),
    {
        self.value & MID == MID
    }

    pub fn is_elevation_high(&self) -> (r: bool)
        ensures
            r == self.has(HIGH),
    {
        self.value & HIGH == HIGH
    }

    /// Low ground is marked by the mid and the high bits together.
    pub fn is_elevation_low(&self) -> (r: bool)
        ensures
            r == self.has(LOW),
            r == (self.has(MID) && self.has(HIGH)),
    {
        let v = self.value;
        assert((v & 6u16 == 6u16) == ((v & 2u16 == 2u16) && (v & 4u16 == 4u16))) by (bit_vector);
        v & LOW == LOW
    }

    pub fn blocks_view(&self) -> (r: bool)
        ensures
            r == self.has(BLOCKS_VIEW),
    {
        self.value & BLOCKS_VIEW == BLOCKS_VIEW
    }

    pub fn is_ramp(&self) -> (r: bool)
        ensures
            r == self.has(RAMP),
    {
        self.value & RAMP == RAMP
    }
}

/// The minitile flag table, sixteen minitiles per tile group.
#[derive(Debug, Clone)]
pub struct VF4s(pub Vec<[VF4; 16]>);

impl View for VF4s {
    type V = Seq<Seq<u16>>;

    open spec fn view(&self) -> Seq<Seq<u16>> {
        self.0@.map_values(|a: [VF4; 16]| a@.map_values(|f: VF4| f.value))
    }
}

/// Wraps each of sixteen flag words.
fn vf4_block(words: [u16; 16]) -> (r: [VF4; 16])
    ensures
        r@.map_values(|f: VF4| f.value) == words@,
{
    let mut out = [VF4 { value: 0 };16];
    let mut j: usize = 0;
    while j < 16
        invariant
            j <= 16,
            forall|k: int| 0 <= k < j ==> out@[k].value == words@[k],
        decreases 16 - j,
    {
        out[j] = VF4 { value: words[j] };
        j = j + 1;
    }
    assert(out@.map_values(|f: VF4| f.value) =~= words@);
    out
}

impl VF4s {
    /// The table stored in `b`, 32 bytes per block, or `TruncatedInput` when
    /// the length leaves a partial block.
    pub open spec fn decode(b: Seq<u8>) -> Result<Seq<Seq<u16>>, Error> {
        if b.len() % VF4_BLOCK_SIZE as nat != 0 {
            Err(Error::TruncatedInput)
        } else {
            Ok(Seq::new(b.len() / VF4_BLOCK_SIZE as nat, |i: int| u16_block_le(b, VF4_BLOCK_SIZE * i)))
        }
    }

    /// Decodes the minitile flag table.
    pub fn from_buffer(b: &[u8]) -> (r: Result<VF4s, Error>)
        ensures
            match r {
                Ok(t) => VF4s::decode(b@) == Ok::<Seq<Seq<u16>>, Error>(t@),
                Err(e) => VF4s::decode(b@) == Err::<Seq<Seq<u16>>, Error>(e),
            },
    {
        let len = b.len();
        if len % VF4_BLOCK_SIZE != 0 {
            return Err(Error::TruncatedInput);
        }
        let out_size = len / VF4_BLOCK_SIZE;
        let mut vf4s: Vec<[VF4; 16]> = Vec::new();
        let mut i: usize = 0;
        while i < out_size
            invariant
                len == b@.len(),
                out_size == b@.len() / VF4_BLOCK_SIZE as nat,
                i <= out_size,
                vf4s@.len() == i,
                forall|k: int|
                    0 <= k < i ==> (#[trigger] vf4s@[k])@.map_values(|f: VF4| f.value)
                        == u16_block_le(b@, VF4_BLOCK_SIZE * k),
            decreases out_size - i,
        {
            proof {
                lemma_record_fits(b@.len() as int, VF4_BLOCK_SIZE as int, i as int);
            }
            vf4s.push(vf4_block(u16_block_at(b, VF4_BLOCK_SIZE * i)));
            i = i + 1;
        }
        let r = VF4s(vf4s);
        assert(r@ =~= Seq::new(
            b@.len() / VF4_BLOCK_SIZE as nat,
            |i: int| u16_block_le(b@, VF4_BLOCK_SIZE * i),
        ));
        Ok(r)
    }
}

} // verus!
