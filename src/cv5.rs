//! The tile group table: for each group, the minitile graphics of its sixteen
//! variations.
use vstd::prelude::*;

use crate::bytes::{lemma_record_fits, u16_block_at, u16_block_le};
use crate::error::Error;

verus! {

/// The bytes of one tile group record on disk.
pub const CV5_BLOCK_SIZE: usize = 52;

/// The bytes that open each record and are not read.
pub const CV5_SKIPPED: usize = 20;

/// The minitile graphic references of one tile group, by variation.
#[derive(Debug, Clone, Copy)]
pub struct CV5(pub [u16; 16]);

/// The tile group table.
#[derive(Debug, Clone)]
pub struct CV5s(pub Vec<CV5>);

impl View for CV5s {
    type V = Seq<Seq<u16>>;

    open spec fn view(&self) -> Seq<Seq<u16>> {
        self.0@.map_values(|c: CV5| c.0@)
    }
}

impl CV5s {
    /// The table stored in `b`: one record per 52 bytes, whose bytes 20 to
    /// 51 hold the sixteen references; a partial record at the end is left out.
    pub open spec fn decode(b: Seq<u8>) -> Seq<Seq<u16>> {
        Seq::new(
            b.len() / CV5_BLOCK_SIZE as nat,
            |i: int| u16_block_le(b, CV5_BLOCK_SIZE * i + CV5_SKIPPED),
        )
    }

    /// Decodes the tile group table.
    pub fn from_buffer(b: &[u8]) -> (r: Result<CV5s, Error>)
        ensures
            r matches Ok(t) && t@ == CV5s::decode(b@),
    {
        let len = b.len();
        let out_size = len / CV5_BLOCK_SIZE;
        let mut cv5s: Vec<CV5> = Vec::new();
        let mut i: usize = 0;
        while i < out_size
            invariant
                len == b@.len(),
                out_size == b@.len() / CV5_BLOCK_SIZE as nat,
                i <= out_size,
                cv5s@.len() == i,
                forall|k: int|
                    0 <= k < i ==> (#[trigger] cv5s@[k]).0@ == u16_block_le(
                        b@,
                        CV5_BLOCK_SIZE * k + CV5_SKIPPED,
                    ),
            decreases out_size - i,
        {
            proof {
                lemma_record_fits(b@.len() as int, CV5_BLOCK_SIZE as int, i as int);
            }
            cv5s.push(CV5(u16_block_at(b, CV5_BLOCK_SIZE * i + CV5_SKIPPED)));
            i = i + 1;
        }
        let r = CV5s(cv5s);
        assert(r@ =~= CV5s::decode(b@));
        Ok(r)
    }
}

/// A table of `52 * n + r` bytes, with `r` below 52, holds exactly `n` tile
/// groups: a trailing partial record never counts as one.
pub proof fn lemma_cv5_record_count(b: Seq<u8>, n: nat, r: nat)
    requires
        b.len() == CV5_BLOCK_SIZE * n + r,
        r < CV5_BLOCK_SIZE,
    ensures
        CV5s::decode(b).len() == n,
{
    vstd::arithmetic::div_mod::lemma_fundamental_div_mod_converse(
        b.len() as int,
        CV5_BLOCK_SIZE as int,
        n as int,
        r as int,
    );
}

} // verus!
