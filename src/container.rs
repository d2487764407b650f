//! A scenario file laid out as a list of chunks, and what reading such a file
//! gives.
use vstd::prelude::*;
use vstd::utf8::valid_utf8;

use crate::bytes::{u16_le, u32_le};
use crate::chk::{header_result, Chunk, ChunkName, ChunkView, Dimensions};
use crate::error::Error;
use crate::map::{parse, parse_from, DeserializedMapView};

verus! {

/// A chunk as it lies in a file: its tag and its body.
pub struct RawChunk {
    pub tag: Seq<u8>,
    pub body: Seq<u8>,
}

/// The four little-endian bytes of `n`.
pub open spec fn le32(n: u32) -> Seq<u8> {
    seq![(n % 256) as u8, ((n / 256) % 256) as u8, ((n / 65536) % 256) as u8, (n / 16777216) as u8]
}

/// The bytes of one chunk: tag, body size, body.
pub open spec fn encode_chunk(c: RawChunk) -> Seq<u8> {
    c.tag + le32(c.body.len() as u32) + c.body
}

/// The bytes of a list of chunks, one after the other.
pub open spec fn encode_chunks(cs: Seq<RawChunk>) -> Seq<u8>
    decreases cs.len(),
{
    if cs.len() == 0 {
        Seq::empty()
    } else {
        encode_chunk(cs[0]) + encode_chunks(cs.drop_first())
    }
}

/// A chunk with a four-byte UTF-8 tag whose body decodes without failure
/// (or whose tag is not recognized).
pub open spec fn chunk_wf(c: RawChunk) -> bool {
    &&& c.tag.len() == 4
    &&& valid_utf8(c.tag)
    &&& c.body.len() <= u32::MAX
    &&& Chunk::spec_read(c.tag, c.body.len() as usize, c.body) is Ok
}

/// What reading a well-formed chunk gives.
pub open spec fn read_chunk(c: RawChunk) -> Option<ChunkView> {
    Chunk::spec_read(c.tag, c.body.len() as usize, c.body)->Ok_0
}

/// The chunks seen after reading `cs` in order, with `acc` seen before.
pub open spec fn fold_chunks(acc: DeserializedMapView, cs: Seq<RawChunk>) -> DeserializedMapView
    decreases cs.len(),
{
    if cs.len() == 0 {
        acc
    } else {
        fold_chunks(acc.merge(read_chunk(cs[0])), cs.drop_first())
    }
}

/// The size field of an encoded chunk reads back as the body size.
proof fn lemma_le32(n: u32)
    ensures
        u32_le(le32(n), 0) == n,
{
    let b = le32(n);
    assert(n == (n % 256) + 256 * ((n / 256) % 256) + 65536 * ((n / 65536) % 256) + 16777216 * (n
        / 16777216)) by (bit_vector);
    assert(n / 16777216 < 256) by (bit_vector);
}

/// Reading a buffer whose tail from `pos` on is the encoding of well-formed
/// chunks gives what folding those chunks gives.
proof fn lemma_parse_encoded(b: Seq<u8>, pos: int, acc: DeserializedMapView, cs: Seq<RawChunk>)
    requires
        0 <= pos <= b.len(),
        b.subrange(pos, b.len() as int) == encode_chunks(cs),
        forall|k: int| 0 <= k < cs.len() ==> chunk_wf(#[trigger] cs[k]),
    ensures
        parse_from(b, pos, acc) == Ok::<DeserializedMapView, Error>(fold_chunks(acc, cs)),
    decreases cs.len(),
{
    if cs.len() == 0 {
        assert(b.subrange(pos, b.len() as int).len() == 0);
    } else {
        let c = cs[0];
        assert(chunk_wf(c));
        let size = c.body.len();
        let rest = cs.drop_first();
        let enc = encode_chunk(c);
        let tail = b.subrange(pos, b.len() as int);
        assert(tail == enc + encode_chunks(rest));
        assert(enc.len() == 8 + size);
        assert(b.subrange(pos, pos + 4) =~= c.tag) by {
            assert forall|k: int| 0 <= k < 4 implies #[trigger] b.subrange(pos, pos + 4)[k]
                == c.tag[k] by {
                assert(b[pos + k] == tail[k]);
                assert(tail[k] == enc[k]);
            }
        }
        lemma_le32(size as u32);
        let sz = le32(size as u32);
        assert(b.subrange(pos + 4, pos + 8) =~= sz) by {
            assert forall|k: int| 0 <= k < 4 implies #[trigger] b.subrange(pos + 4, pos + 8)[k]
                == sz[k] by {
                assert(b[pos + 4 + k] == tail[4 + k]);
                assert(tail[4 + k] == enc[4 + k]);
            }
        }
        assert(b[pos + 4] == sz[0] && b[pos + 5] == sz[1] && b[pos + 6] == sz[2] && b[pos + 7]
            == sz[3]) by {
            assert(b[pos + 4] == b.subrange(pos + 4, pos + 8)[0]);
            assert(b[pos + 5] == b.subrange(pos + 4, pos + 8)[1]);
            assert(b[pos + 6] == b.subrange(pos + 4, pos + 8)[2]);
            assert(b[pos + 7] == b.subrange(pos + 4, pos + 8)[3]);
        }
        assert(header_result(b, pos) == Ok::<(Seq<u8>, usize), Error>((c.tag, size as usize)));
        assert(b.subrange(pos + 8, pos + 8 + size) =~= c.body) by {
            assert forall|k: int| 0 <= k < size implies #[trigger] b.subrange(
                pos + 8,
                pos + 8 + size,
            )[k] == c.body[k] by {
                assert(b[pos + 8 + k] == tail[8 + k]);
                assert(tail[8 + k] == enc[8 + k]);
            }
        }
        assert(b.subrange(pos + 8 + size, b.len() as int) =~= encode_chunks(rest)) by {
            assert forall|k: int| 0 <= k < b.len() - (pos + 8 + size) implies #[trigger] b.subrange(
                pos + 8 + size,
                b.len() as int,
            )[k] == encode_chunks(rest)[k] by {
                assert(b[pos + 8 + size + k] == tail[8 + size + k]);
            }
        }
        assert forall|k: int| 0 <= k < rest.len() implies chunk_wf(#[trigger] rest[k]) by {
            assert(rest[k] == cs[k + 1]);
        }
        lemma_parse_encoded(b, pos + 8 + size, acc.merge(read_chunk(c)), rest);
    }
}

/// Reading the encoding of well-formed chunks gives what folding them gives.
pub proof fn lemma_parse_chunks(cs: Seq<RawChunk>)
    requires
        forall|k: int| 0 <= k < cs.len() ==> chunk_wf(#[trigger] cs[k]),
    ensures
        parse(encode_chunks(cs)) == fold_chunks(DeserializedMapView::empty(), cs).finish(),
{
    let b = encode_chunks(cs);
    assert(b.subrange(0, b.len() as int) =~= b);
    lemma_parse_encoded(b, 0, DeserializedMapView::empty(), cs);
}

/// The chunk of kind `n` among those seen, if any.
pub open spec fn slot(acc: DeserializedMapView, n: ChunkName) -> Option<ChunkView> {
    match n {
        ChunkName::Type => match acc.scenario_type {
            Some(v) => Some(ChunkView::ScenarioType(v)),
            None => None,
        },
        ChunkName::Version => match acc.file_format_version {
            Some(v) => Some(ChunkView::FileFormatVersion(v)),
            None => None,
        },
        ChunkName::Tileset => match acc.tileset {
            Some(v) => Some(ChunkView::Tileset(v)),
            None => None,
        },
        ChunkName::Controllers => match acc.controllers {
            Some(v) => Some(ChunkView::Controllers(v)),
            None => None,
        },
        ChunkName::Dimensions => match acc.dimensions {
            Some(v) => Some(ChunkView::Dimensions(v)),
            None => None,
        },
        ChunkName::Side => match acc.sides {
            Some(v) => Some(ChunkView::Sides(v)),
            None => None,
        },
        ChunkName::MegaTileIDs => match acc.mega_tile_ids {
            Some(v) => Some(ChunkView::MegaTileIDs(v)),
            None => None,
        },
        ChunkName::StringData => match acc.str_data {
            Some(v) => Some(ChunkView::StringData(v)),
            None => None,
        },
    }
}

/// A tag names a kind exactly when it is that kind's tag.
proof fn lemma_of_tag(t: Seq<u8>, n: ChunkName)
    ensures
        (ChunkName::of_tag(t) == Some(n)) == (t == n.tag()),
{
    let all = seq![
        ChunkName::Type,
        ChunkName::Version,
        ChunkName::Tileset,
        ChunkName::Controllers,
        ChunkName::Dimensions,
        ChunkName::Side,
        ChunkName::MegaTileIDs,
        ChunkName::StringData,
    ];
    assert forall|i: int, j: int| 0 <= i < 8 && 0 <= j < 8 && i != j implies all[i].tag()
        != all[j].tag() by {
        let a = all[i].tag();
        let b = all[j].tag();
        assert(a[0] != b[0] || a[1] != b[1] || a[2] != b[2] || a[3] != b[3]);
    }
    assert(all[0] == ChunkName::Type);
    assert(all[1] == ChunkName::Version);
    assert(all[2] == ChunkName::Tileset);
    assert(all[3] == ChunkName::Controllers);
    assert(all[4] == ChunkName::Dimensions);
    assert(all[5] == ChunkName::Side);
    assert(all[6] == ChunkName::MegaTileIDs);
    assert(all[7] == ChunkName::StringData);
}

/// Adding a well-formed chunk with tag `t` fills the slot of the kind that
/// `t` names and leaves every other slot as it was.
proof fn lemma_merge_slot(acc: DeserializedMapView, c: RawChunk, n: ChunkName)
    requires
        chunk_wf(c),
    ensures
        c.tag == n.tag() ==> slot(acc.merge(read_chunk(c)), n) == read_chunk(c) && read_chunk(
            c,
        ) is Some,
        c.tag != n.tag() ==> slot(acc.merge(read_chunk(c)), n) == slot(acc, n),
{
    lemma_of_tag(c.tag, n);
    match ChunkName::of_tag(c.tag) {
        Some(m) => {
            lemma_of_tag(c.tag, m);
        },
        None => {},
    }
}

/// Slots of kinds that no chunk in `cs` has keep their value.
proof fn lemma_fold_absent(acc: DeserializedMapView, cs: Seq<RawChunk>, n: ChunkName)
    requires
        forall|k: int| 0 <= k < cs.len() ==> chunk_wf(#[trigger] cs[k]),
        forall|k: int| 0 <= k < cs.len() ==> (#[trigger] cs[k]).tag != n.tag(),
    ensures
        slot(fold_chunks(acc, cs), n) == slot(acc, n),
    decreases cs.len(),
{
    if cs.len() > 0 {
        lemma_merge_slot(acc, cs[0], n);
        let rest = cs.drop_first();
        assert forall|k: int| 0 <= k < rest.len() implies chunk_wf(#[trigger] rest[k]) && rest[k].tag
            != n.tag() by {
            assert(rest[k] == cs[k + 1]);
        }
        lemma_fold_absent(acc.merge(read_chunk(cs[0])), rest, n);
    }
}

/// A filled slot stays filled.
proof fn lemma_fold_keeps(acc: DeserializedMapView, cs: Seq<RawChunk>, n: ChunkName)
    requires
        forall|k: int| 0 <= k < cs.len() ==> chunk_wf(#[trigger] cs[k]),
        slot(acc, n) is Some,
    ensures
        slot(fold_chunks(acc, cs), n) is Some,
    decreases cs.len(),
{
    if cs.len() > 0 {
        lemma_merge_slot(acc, cs[0], n);
        let rest = cs.drop_first();
        assert forall|k: int| 0 <= k < rest.len() implies chunk_wf(#[trigger] rest[k]) by {
            assert(rest[k] == cs[k + 1]);
        }
        lemma_fold_keeps(acc.merge(read_chunk(cs[0])), rest, n);
    }
}

/// A kind that some chunk in `cs` has ends up with a filled slot.
proof fn lemma_fold_present(acc: DeserializedMapView, cs: Seq<RawChunk>, n: ChunkName, i: int)
    requires
        forall|k: int| 0 <= k < cs.len() ==> chunk_wf(#[trigger] cs[k]),
        0 <= i < cs.len(),
        cs[i].tag == n.tag(),
    ensures
        slot(fold_chunks(acc, cs), n) is Some,
    decreases cs.len(),
{
    lemma_merge_slot(acc, cs[0], n);
    let rest = cs.drop_first();
    assert forall|k: int| 0 <= k < rest.len() implies chunk_wf(#[trigger] rest[k]) by {
        assert(rest[k] == cs[k + 1]);
    }
    if i == 0 {
        lemma_fold_keeps(acc.merge(read_chunk(cs[0])), rest, n);
    } else {
        assert(rest[i - 1] == cs[i]);
        lemma_fold_present(acc.merge(read_chunk(cs[0])), rest, n, i - 1);
    }
}

/// The slot of a kind that exactly one chunk has holds that chunk.
proof fn lemma_fold_unique(acc: DeserializedMapView, cs: Seq<RawChunk>, n: ChunkName, i: int)
    requires
        forall|k: int| 0 <= k < cs.len() ==> chunk_wf(#[trigger] cs[k]),
        0 <= i < cs.len(),
        cs[i].tag == n.tag(),
        forall|k: int| 0 <= k < cs.len() && k != i ==> (#[trigger] cs[k]).tag != n.tag(),
    ensures
        slot(fold_chunks(acc, cs), n) == read_chunk(cs[i]),
    decreases cs.len(),
{
    lemma_merge_slot(acc, cs[0], n);
    let rest = cs.drop_first();
    assert forall|k: int| 0 <= k < rest.len() implies chunk_wf(#[trigger] rest[k]) by {
        assert(rest[k] == cs[k + 1]);
    }
    if i == 0 {
        assert forall|k: int| 0 <= k < rest.len() implies (#[trigger] rest[k]).tag != n.tag() by {
            assert(rest[k] == cs[k + 1]);
        }
        lemma_fold_absent(acc.merge(read_chunk(cs[0])), rest, n);
    } else {
        assert(rest[i - 1] == cs[i]);
        assert forall|k: int| 0 <= k < rest.len() && k != i - 1 implies (#[trigger] rest[k]).tag
            != n.tag() by {
            assert(rest[k] == cs[k + 1]);
        }
        lemma_fold_unique(acc.merge(read_chunk(cs[0])), rest, n, i - 1);
    }
}

/// The kinds of chunk that every scenario must hold.
pub open spec fn is_required(n: ChunkName) -> bool {
    n != ChunkName::Type && n != ChunkName::StringData
}

/// Some chunk of `cs` has the tag of `n`.
pub open spec fn has_chunk(cs: Seq<RawChunk>, n: ChunkName) -> bool {
    exists|k: int| 0 <= k < cs.len() && (#[trigger] cs[k]).tag == n.tag()
}

/// Exactly one chunk of `cs` has the tag of `n`.
pub open spec fn has_one_chunk(cs: Seq<RawChunk>, n: ChunkName) -> bool {
    exists|i: int|
        0 <= i < cs.len() && (#[trigger] cs[i]).tag == n.tag() && forall|k: int|
            0 <= k < cs.len() && k != i ==> (#[trigger] cs[k]).tag != n.tag()
}

proof fn lemma_has_chunk_slot(cs: Seq<RawChunk>, n: ChunkName)
    requires
        forall|k: int| 0 <= k < cs.len() ==> chunk_wf(#[trigger] cs[k]),
        has_chunk(cs, n),
    ensures
        slot(fold_chunks(DeserializedMapView::empty(), cs), n) is Some,
{
    let i = choose|k: int| 0 <= k < cs.len() && (#[trigger] cs[k]).tag == n.tag();
    lemma_fold_present(DeserializedMapView::empty(), cs, n, i);
}

proof fn lemma_has_one_chunk_slot(cs: Seq<RawChunk>, n: ChunkName) -> (i: int)
    requires
        forall|k: int| 0 <= k < cs.len() ==> chunk_wf(#[trigger] cs[k]),
        has_one_chunk(cs, n),
    ensures
        0 <= i < cs.len(),
        cs[i].tag == n.tag(),
        read_chunk(cs[i]) is Some,
        slot(fold_chunks(DeserializedMapView::empty(), cs), n) == read_chunk(cs[i]),
{
    let i = choose|i: int|
        0 <= i < cs.len() && (#[trigger] cs[i]).tag == n.tag() && forall|k: int|
            0 <= k < cs.len() && k != i ==> (#[trigger] cs[k]).tag != n.tag();
    lemma_fold_unique(DeserializedMapView::empty(), cs, n, i);
    lemma_merge_slot(DeserializedMapView::empty(), cs[i], n);
    i
}

/// A scenario of well-formed chunks that holds every required chunk but one
/// is refused with `MissingRequiredChunk` naming the one it lacks.
pub proof fn lemma_missing_required_chunk(cs: Seq<RawChunk>, missing: ChunkName)
    requires
        forall|k: int| 0 <= k < cs.len() ==> chunk_wf(#[trigger] cs[k]),
        is_required(missing),
        !has_chunk(cs, missing),
        forall|n: ChunkName| is_required(n) && n != missing ==> #[trigger] has_chunk(cs, n),
    ensures
        parse(encode_chunks(cs)) == Err::<crate::map::ScenarioMapView, Error>(
            Error::MissingRequiredChunk(missing),
        ),
{
    lemma_parse_chunks(cs);
    let acc = fold_chunks(DeserializedMapView::empty(), cs);
    lemma_fold_absent(DeserializedMapView::empty(), cs, missing);
    assert(slot(acc, missing) is None);
    if missing != ChunkName::Version {
        lemma_has_chunk_slot(cs, ChunkName::Version);
    }
    if missing != ChunkName::Tileset {
        lemma_has_chunk_slot(cs, ChunkName::Tileset);
    }
    if missing != ChunkName::Controllers {
        lemma_has_chunk_slot(cs, ChunkName::Controllers);
    }
    if missing != ChunkName::Dimensions {
        lemma_has_chunk_slot(cs, ChunkName::Dimensions);
    }
    if missing != ChunkName::Side {
        lemma_has_chunk_slot(cs, ChunkName::Side);
    }
    if missing != ChunkName::MegaTileIDs {
        lemma_has_chunk_slot(cs, ChunkName::MegaTileIDs);
    }
}

/// A scenario of well-formed chunks that holds exactly one chunk of each
/// required kind, with as many tile references as its dimensions have
/// cells, is read successfully, and its map has `width * height` tile
/// references.
pub proof fn lemma_complete_scenario_parses(cs: Seq<RawChunk>)
    requires
        forall|k: int| 0 <= k < cs.len() ==> chunk_wf(#[trigger] cs[k]),
        forall|n: ChunkName| is_required(n) ==> #[trigger] has_one_chunk(cs, n),
        forall|d: int, m: int|
            0 <= d < cs.len() && 0 <= m < cs.len() && (#[trigger] cs[d]).tag
                == ChunkName::Dimensions.tag() && (#[trigger] cs[m]).tag
                == ChunkName::MegaTileIDs.tag() ==> cs[m].body.len() == 2 * u16_le(cs[d].body, 0)
                * u16_le(cs[d].body, 2),
    ensures
        parse(encode_chunks(cs)) is Ok,
        parse(encode_chunks(cs))->Ok_0.dimensions.width * parse(
            encode_chunks(cs),
        )->Ok_0.dimensions.height == parse(encode_chunks(cs))->Ok_0.mega_tile_ids.len(),
{
    lemma_parse_chunks(cs);
    let acc = fold_chunks(DeserializedMapView::empty(), cs);
    assert(has_one_chunk(cs, ChunkName::Version));
    assert(has_one_chunk(cs, ChunkName::Tileset));
    assert(has_one_chunk(cs, ChunkName::Controllers));
    assert(has_one_chunk(cs, ChunkName::Dimensions));
    assert(has_one_chunk(cs, ChunkName::Side));
    assert(has_one_chunk(cs, ChunkName::MegaTileIDs));
    lemma_has_one_chunk_slot(cs, ChunkName::Version);
    lemma_has_one_chunk_slot(cs, ChunkName::Tileset);
    lemma_has_one_chunk_slot(cs, ChunkName::Controllers);
    lemma_has_one_chunk_slot(cs, ChunkName::Side);
    let d = lemma_has_one_chunk_slot(cs, ChunkName::Dimensions);
    let m = lemma_has_one_chunk_slot(cs, ChunkName::MegaTileIDs);
    lemma_of_tag(cs[d].tag, ChunkName::Dimensions);
    lemma_of_tag(cs[m].tag, ChunkName::MegaTileIDs);
    let dbody = cs[d].body;
    let mbody = cs[m].body;
    assert(acc.dimensions == Some(Dimensions::decode(dbody, 0)));
    let w = u16_le(dbody, 0) as int;
    let h = u16_le(dbody, 2) as int;
    assert(mbody.len() == 2 * w * h);
    assert(acc.mega_tile_ids->0.len() == mbody.len() / 2);
    assert((2 * w * h) / 2 == w * h) by (nonlinear_arith);
}

} // verus!
