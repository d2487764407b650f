//! The palette table.
use vstd::prelude::*;

use crate::bytes::lemma_record_fits;
use crate::error::Error;

verus! {

/// The bytes of one palette entry on disk: red, green, blue, then one unused.
pub const WPE_BLOCK_SIZE: usize = 4;

/// One palette color.
#[derive(Debug, Clone, Copy, PartialEq, Eq, Structural)]
pub struct WPE {
    pub r: u8,
    pub g: u8,
    pub b: u8,
}

/// The palette.
#[derive(Debug, Clone)]
pub struct WPEs(pub Vec<WPE>);

impl View for WPEs {
    type V = Seq<WPE>;

    open spec fn view(&self) -> Seq<WPE> {
        self.0@
    }
}

impl WPEs {
    /// The palette stored in `b`, four bytes per color, the fourth ignored;
    /// a partial entry at the end is left out.
    pub open spec fn decode(b: Seq<u8>) -> Seq<WPE> {
        Seq::new(
            b.len() / WPE_BLOCK_SIZE as nat,
            |i: int| WPE { r: b[4 * i], g: b[4 * i + 1], b: b[4 * i + 2] },
        )
    }

    /// Decodes the palette.
    pub fn from_buffer(b: &[u8]) -> (r: Result<WPEs, Error>)
        ensures
            r matches Ok(t) && t@ == WPEs::decode(b@),
    {
        let len = b.len();
        let out_size = len / WPE_BLOCK_SIZE;
        let mut colors: Vec<WPE> = Vec::new();
        let mut i: usize = 0;
        while i < out_size
            invariant
                len == b@.len(),
                out_size == b@.len() / WPE_BLOCK_SIZE as nat,
                i <= out_size,
                colors@ =~= Seq::new(
                    i as nat,
                    |k: int| WPE { r: b@[4 * k], g: b@[4 * k + 1], b: b@[4 * k + 2] },
                ),
            decreases out_size - i,
        {
            proof {
                lemma_record_fits(b@.len() as int, WPE_BLOCK_SIZE as int, i as int);
            }
            let off = WPE_BLOCK_SIZE * i;
            colors.push(WPE { r: b[off], g: b[off + 1], b: b[off + 2] });
            i = i + 1;
        }
        Ok(WPEs(colors))
    }
}

} // verus!
