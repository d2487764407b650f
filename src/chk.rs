//! The chunks of a scenario file: headers, tags and the decoder of each
//! recognized chunk.
use vstd::prelude::*;
use vstd::string::StringSliceAdditionalSpecFns;
use vstd::utf8::{decode_utf8, encode_utf8, is_ascii_chars, is_ascii_chars_encode_utf8, valid_utf8};

use crate::bytes::{fits, read_u16, read_u32, read_u8, u16_at, u16_le, u32_le, utf8_string};
use crate::error::{result_view, EnumField, Error};

verus! {

broadcast use vstd::utf8::decode_utf8_encode_utf8;

/// The header that opens each chunk: a four-byte tag and the size of the body
/// that follows it.
pub struct Header {
    name: [u8; 4],
    pub size: usize,
}

impl View for Header {
    /// The tag bytes and the declared body size.
    type V = (Seq<u8>, usize);

    closed spec fn view(&self) -> (Seq<u8>, usize) {
        (self.name@, self.size)
    }
}

impl Header {
    #[verifier::type_invariant]
    spec fn inv(&self) -> bool {
        valid_utf8(self.name@)
    }

    /// A header with the given tag and size; the tag must be valid UTF-8.
    pub fn new(name: [u8; 4], size: usize) -> (r: Result<Header, Error>)
        ensures
            valid_utf8(name@) ==> (r matches Ok(h) && h@ == (name@, size)),
            !valid_utf8(name@) ==> r == Err::<Header, Error>(Error::InvalidTag),
    {
        let s = utf8_string(name.as_slice());
        if s.is_none() {
            return Err(Error::InvalidTag);
        }
        Ok(Header { name, size })
    }

    /// Reads a header at the cursor `pos`: the tag, then the size as a 32-bit
    /// little-endian integer. The cursor moves past the header on success.
    pub fn from_buffer(b: &[u8], pos: &mut usize) -> (r: Result<Header, Error>)
        ensures
            header_result(b@, *old(pos) as int) == result_view(r),
            r is Ok ==> *final(pos) == *old(pos) + 8,
            r is Err ==> *final(pos) == *old(pos),
    {
        if *pos > b.len() || b.len() - *pos < 8 {
            return Err(Error::TruncatedInput);
        }
        let p = *pos;
        let name: [u8; 4] = [b[p], b[p + 1], b[p + 2], b[p + 3]];
        assert(name@ =~= b@.subrange(p as int, p + 4));
        let size = b[p + 4] as u32 + (b[p + 5] as u32) * 256 + (b[p + 6] as u32) * 65536 + (b[p
            + 7] as u32) * 16777216;
        let h = Header::new(name, size as usize);
        if h.is_ok() {
            *pos = p + 8;
        }
        h
    }

    /// The declared size of the body.
    pub fn size(&self) -> (r: usize)
        ensures
            r == self@.1,
    {
        self.size
    }

    /// The tag as a string.
    pub fn name(&self) -> (r: String)
        ensures
            r@ == decode_utf8(self@.0),
    {
        proof {
            use_type_invariant(self);
        }
        let s = utf8_string(self.name.as_slice());
        match s {
            Some(s) => s,
            None => String::new(),
        }
    }
}

/// What reading a header at `pos` gives: its tag and size, or the failure.
pub open spec fn header_result(b: Seq<u8>, pos: int) -> Result<(Seq<u8>, usize), Error> {
    if !fits(b, pos, 8) {
        Err(Error::TruncatedInput)
    } else if !valid_utf8(b.subrange(pos, pos + 4)) {
        Err(Error::InvalidTag)
    } else {
        Ok((b.subrange(pos, pos + 4), u32_le(b, pos + 4) as usize))
    }
}

/// Reads a four-byte chunk tag at the cursor `pos` as a string.
pub fn read_chunk_header_name(b: &[u8], pos: &mut usize) -> (r: Result<String, Error>)
    ensures
        !fits(b@, *old(pos) as int, 4) ==> r == Err::<String, Error>(Error::TruncatedInput),
        fits(b@, *old(pos) as int, 4) && !valid_utf8(b@.subrange(*old(pos) as int, *old(pos) + 4))
            ==> r == Err::<String, Error>(Error::InvalidTag),
        fits(b@, *old(pos) as int, 4) && valid_utf8(b@.subrange(*old(pos) as int, *old(pos) + 4))
            ==> (r matches Ok(s) && s@ == decode_utf8(b@.subrange(*old(pos) as int, *old(pos) + 4))),
        r is Ok ==> *final(pos) == *old(pos) + 4,
        r is Err ==> *final(pos) == *old(pos),
{
    if *pos > b.len() || b.len() - *pos < 4 {
        return Err(Error::TruncatedInput);
    }
    let p = *pos;
    let tag = &b[p..p + 4];
    assert(tag@ =~= b@.subrange(p as int, p + 4));
    match utf8_string(tag) {
        Some(s) => {
            *pos = p + 4;
            Ok(s)
        },
        None => Err(Error::InvalidTag),
    }
}

/// Reads the 32-bit little-endian size field of a chunk header.
pub fn read_chunk_header_size(b: &[u8], pos: &mut usize) -> (r: Result<u32, Error>)
    ensures
        fits(b@, *old(pos) as int, 4) ==> r == Ok::<u32, Error>(u32_le(b@, *old(pos) as int))
            && *final(pos) == *old(pos) + 4,
        !fits(b@, *old(pos) as int, 4) ==> r == Err::<u32, Error>(Error::TruncatedInput) && *final(pos) == *old(pos),
{
    read_u32(b, pos)
}


/// The kinds of chunk that are decoded; every other tag is skipped.
#[derive(Debug, Clone, Copy, PartialEq, Eq, Structural)]
pub enum ChunkName {
    Type,
    Version,
    Tileset,
    Controllers,
    Dimensions,
    Side,
    MegaTileIDs,
    StringData,
}

/// True when `b` holds exactly the four bytes given.
fn bytes_are(b: &[u8], c0: u8, c1: u8, c2: u8, c3: u8) -> (r: bool)
    ensures
        r == (b@ == seq![c0, c1, c2, c3]),
{
    if b.len() == 4 && b[0] == c0 && b[1] == c1 && b[2] == c2 && b[3] == c3 {
        assert(b@ =~= seq![c0, c1, c2, c3]);
        true
    } else {
        false
    }
}

impl ChunkName {
    /// The tag of the chunk kind, as bytes.
    pub open spec fn tag(self) -> Seq<u8> {
        match self {
            ChunkName::Type => seq![0x54u8, 0x59, 0x50, 0x45],
            ChunkName::Version => seq![0x56u8, 0x45, 0x52, 0x20],
            ChunkName::Tileset => seq![0x45u8, 0x52, 0x41, 0x20],
            ChunkName::Controllers => seq![0x4Fu8, 0x57, 0x4E, 0x52],
            ChunkName::Dimensions => seq![0x44u8, 0x49, 0x4D, 0x20],
            ChunkName::Side => seq![0x53u8, 0x49, 0x44, 0x45],
            ChunkName::MegaTileIDs => seq![0x4Du8, 0x54, 0x58, 0x4D],
            ChunkName::StringData => seq![0x53u8, 0x54, 0x52, 0x20],
        }
    }

    /// The chunk kind whose tag is `t`, if any.
    pub open spec fn of_tag(t: Seq<u8>) -> Option<ChunkName> {
        if t == ChunkName::Type.tag() {
            Some(ChunkName::Type)
        } else if t == ChunkName::Version.tag() {
            Some(ChunkName::Version)
        } else if t == ChunkName::Tileset.tag() {
            Some(ChunkName::Tileset)
        } else if t == ChunkName::Controllers.tag() {
            Some(ChunkName::Controllers)
        } else if t == ChunkName::Dimensions.tag() {
            Some(ChunkName::Dimensions)
        } else if t == ChunkName::Side.tag() {
            Some(ChunkName::Side)
        } else if t == ChunkName::MegaTileIDs.tag() {
            Some(ChunkName::MegaTileIDs)
        } else if t == ChunkName::StringData.tag() {
            Some(ChunkName::StringData)
        } else {
            None
        }
    }

    /// The chunk kind whose tag is spelled by `s`, compared byte for byte.
    pub fn from_str(s: &str) -> (r: Option<ChunkName>)
        ensures
            r == ChunkName::of_tag(s.spec_bytes()),
    {
        let b = s.as_bytes();
        if bytes_are(b, 0x54, 0x59, 0x50, 0x45) {
            Some(ChunkName::Type)
        } else if bytes_are(b, 0x56, 0x45, 0x52, 0x20) {
            Some(ChunkName::Version)
        } else if bytes_are(b, 0x45, 0x52, 0x41, 0x20) {
            Some(ChunkName::Tileset)
        } else if bytes_are(b, 0x4F, 0x57, 0x4E, 0x52) {
            Some(ChunkName::Controllers)
        } else if bytes_are(b, 0x44, 0x49, 0x4D, 0x20) {
            Some(ChunkName::Dimensions)
        } else if bytes_are(b, 0x53, 0x49, 0x44, 0x45) {
            Some(ChunkName::Side)
        } else if bytes_are(b, 0x4D, 0x54, 0x58, 0x4D) {
            Some(ChunkName::MegaTileIDs)
        } else if bytes_are(b, 0x53, 0x54, 0x52, 0x20) {
            Some(ChunkName::StringData)
        } else {
            None
        }
    }

    /// The tag of the chunk kind.
    pub fn as_str(&self) -> (r: &'static str)
        ensures
            r.spec_bytes() == self.tag(),
    {
        let r = match self {
            ChunkName::Type => "TYPE",
            ChunkName::Version => "VER ",
            ChunkName::Tileset => "ERA ",
            ChunkName::Controllers => "OWNR",
            ChunkName::Dimensions => "DIM ",
            ChunkName::Side => "SIDE",
            ChunkName::MegaTileIDs => "MTXM",
            ChunkName::StringData => "STR ",
        };
        proof {
            reveal_strlit("TYPE");
            reveal_strlit("VER ");
            reveal_strlit("ERA ");
            reveal_strlit("OWNR");
            reveal_strlit("DIM ");
            reveal_strlit("SIDE");
            reveal_strlit("MTXM");
            reveal_strlit("STR ");
            lemma_ascii_bytes(r@);
            assert(r.spec_bytes() =~= self.tag());
        }
        r
    }
}

/// The UTF-8 encoding of four ASCII characters is their codes.
proof fn lemma_ascii_bytes(s: Seq<char>)
    requires
        s.len() == 4,
        is_ascii_chars(s),
    ensures
        encode_utf8(s) =~= seq![s[0] as u8, s[1] as u8, s[2] as u8, s[3] as u8],
{
    is_ascii_chars_encode_utf8(s);
}


/// The game a scenario was made for.
#[derive(Debug, Clone, Copy, PartialEq, Eq, Structural)]
pub enum ScenarioType {
    /// Starcraft ("RAWS")
    RAWS,
    /// Brood War ("RAWB")
    RAWB,
}

impl ScenarioType {
    /// The scenario type stored as `v`, or the failure.
    pub open spec fn decode(v: u32) -> Result<ScenarioType, Error> {
        if v == 0x53574152 {
            Ok(ScenarioType::RAWS)
        } else if v == 0x42574152 {
            Ok(ScenarioType::RAWB)
        } else {
            Err(Error::UnrecognizedEnumValue { field: EnumField::ScenarioType, raw: v })
        }
    }

    /// Reads a scenario type as a 32-bit little-endian integer.
    pub fn from_buffer(b: &[u8], pos: &mut usize) -> (r: Result<ScenarioType, Error>)
        ensures
            !fits(b@, *old(pos) as int, 4) ==> r == Err::<ScenarioType, Error>(
                Error::TruncatedInput,
            ),
            fits(b@, *old(pos) as int, 4) ==> r == ScenarioType::decode(
                u32_le(b@, *old(pos) as int),
            ) && *final(pos) == *old(pos) + 4,
    {
        match read_u32(b, pos) {
            Ok(v) => if v == 0x53574152 {
                Ok(ScenarioType::RAWS)
            } else if v == 0x42574152 {
                Ok(ScenarioType::RAWB)
            } else {
                Err(Error::UnrecognizedEnumValue { field: EnumField::ScenarioType, raw: v })
            },
            Err(e) => Err(e),
        }
    }
}

/// The version of the scenario file format.
#[derive(Debug, Clone, Copy, PartialEq, Eq, Structural)]
pub enum FileFormatVersion {
    /// 1.00 Starcraft (59)
    Starcraft,
    /// 1.04 Starcraft and above, "hybrid" (63)
    StarcraftHybrid,
    /// Brood War (205)
    BroodWar,
}

impl FileFormatVersion {
    /// The version stored as `v`, or the failure.
    pub open spec fn decode(v: u16) -> Result<FileFormatVersion, Error> {
        if v == 59 {
            Ok(FileFormatVersion::Starcraft)
        } else if v == 63 {
            Ok(FileFormatVersion::StarcraftHybrid)
        } else if v == 205 {
            Ok(FileFormatVersion::BroodWar)
        } else {
            Err(Error::UnrecognizedEnumValue { field: EnumField::FileFormatVersion, raw: v as u32 })
        }
    }

    /// Reads a file format version as a 16-bit little-endian integer.
    pub fn from_buffer(b: &[u8], pos: &mut usize) -> (r: Result<FileFormatVersion, Error>)
        ensures
            !fits(b@, *old(pos) as int, 2) ==> r == Err::<FileFormatVersion, Error>(
                Error::TruncatedInput,
            ),
            fits(b@, *old(pos) as int, 2) ==> r == FileFormatVersion::decode(
                u16_le(b@, *old(pos) as int),
            ) && *final(pos) == *old(pos) + 2,
    {
        match read_u16(b, pos) {
            Ok(v) => if v == 59 {
                Ok(FileFormatVersion::Starcraft)
            } else if v == 63 {
                Ok(FileFormatVersion::StarcraftHybrid)
            } else if v == 205 {
                Ok(FileFormatVersion::BroodWar)
            } else {
                Err(
                    Error::UnrecognizedEnumValue {
                        field: EnumField::FileFormatVersion,
                        raw: v as u32,
                    },
                )
            },
            Err(e) => Err(e),
        }
    }
}

/// The tileset of the scenario.
#[derive(Debug, Clone, Copy, PartialEq, Eq, Structural)]
pub enum Tileset {
    Badlands,
    SpacePlatform,
    Installation,
    Ashworld,
    Jungle,
    Desert,
    Arctic,
    Twilight,
}

impl Tileset {
    /// The tileset whose identifier is the low three bits of `v`; the higher
    /// bits are reused by some editors and carry no meaning here.
    pub open spec fn decode(v: u16) -> Tileset {
        let m = v & 7;
        if m == 0 {
            Tileset::Badlands
        } else if m == 1 {
            Tileset::SpacePlatform
        } else if m == 2 {
            Tileset::Installation
        } else if m == 3 {
            Tileset::Ashworld
        } else if m == 4 {
            Tileset::Jungle
        } else if m == 5 {
            Tileset::Desert
        } else if m == 6 {
            Tileset::Arctic
        } else {
            Tileset::Twilight
        }
    }

    /// The tileset whose identifier is `v`, masked to its low three bits.
    pub fn from_raw(v: u16) -> (r: Tileset)
        ensures
            r == Tileset::decode(v),
    {
        let m = v & 7;
        if m == 0 {
            Tileset::Badlands
        } else if m == 1 {
            Tileset::SpacePlatform
        } else if m == 2 {
            Tileset::Installation
        } else if m == 3 {
            Tileset::Ashworld
        } else if m == 4 {
            Tileset::Jungle
        } else if m == 5 {
            Tileset::Desert
        } else if m == 6 {
            Tileset::Arctic
        } else {
            Tileset::Twilight
        }
    }

    /// Reads a tileset identifier as a 16-bit little-endian integer.
    pub fn from_buffer(b: &[u8], pos: &mut usize) -> (r: Result<Tileset, Error>)
        ensures
            !fits(b@, *old(pos) as int, 2) ==> r == Err::<Tileset, Error>(Error::TruncatedInput),
            fits(b@, *old(pos) as int, 2) ==> r == Ok::<Tileset, Error>(
                Tileset::decode(u16_le(b@, *old(pos) as int)),
            ) && *final(pos) == *old(pos) + 2,
    {
        match read_u16(b, pos) {
            Ok(v) => Ok(Tileset::from_raw(v)),
            Err(e) => Err(e),
        }
    }
}

/// Masking a tileset identifier to its low three bits before decoding it
/// changes nothing: the decoder looks at those bits alone.
pub proof fn lemma_tileset_mask(v: u16)
    ensures
        Tileset::decode(v) == Tileset::decode(v & 7),
{
    assert((v & 7) & 7 == v & 7) by (bit_vector);
}

/// Who controls a player slot.
#[derive(Debug, Clone, Copy, PartialEq, Eq, Structural)]
pub enum Controller {
    /// 0
    Inactive,
    /// 3
    RescuePassive,
    /// 4
    Unused,
    /// 5
    Computer,
    /// 6
    HumanOpenSlot,
    /// 7
    Neutral,
}

impl Controller {
    /// The controller stored as `v`, or the failure.
    pub open spec fn decode(v: u8) -> Result<Controller, Error> {
        if v == 0 {
            Ok(Controller::Inactive)
        } else if v == 3 {
            Ok(Controller::RescuePassive)
        } else if v == 4 {
            Ok(Controller::Unused)
        } else if v == 5 {
            Ok(Controller::Computer)
        } else if v == 6 {
            Ok(Controller::HumanOpenSlot)
        } else if v == 7 {
            Ok(Controller::Neutral)
        } else {
            Err(Error::UnrecognizedEnumValue { field: EnumField::Controller, raw: v as u32 })
        }
    }

    /// Reads a controller from one byte.
    pub fn from_buffer(b: &[u8], pos: &mut usize) -> (r: Result<Controller, Error>)
        ensures
            !fits(b@, *old(pos) as int, 1) ==> r == Err::<Controller, Error>(Error::TruncatedInput),
            fits(b@, *old(pos) as int, 1) ==> r == Controller::decode(b@[*old(pos) as int])
                && *final(pos) == *old(pos) + 1,
    {
        match read_u8(b, pos) {
            Ok(v) => if v == 0 {
                Ok(Controller::Inactive)
            } else if v == 3 {
                Ok(Controller::RescuePassive)
            } else if v == 4 {
                Ok(Controller::Unused)
            } else if v == 5 {
                Ok(Controller::Computer)
            } else if v == 6 {
                Ok(Controller::HumanOpenSlot)
            } else if v == 7 {
                Ok(Controller::Neutral)
            } else {
                Err(Error::UnrecognizedEnumValue { field: EnumField::Controller, raw: v as u32 })
            },
            Err(e) => Err(e),
        }
    }
}

/// The race of a player.
#[derive(Debug, Clone, Copy, PartialEq, Eq, Structural)]
pub enum Side {
    Zerg,
    Terran,
    Protoss,
    Independent,
    Neutral,
    UserSelectable,
    Random,
    Inactive,
}

impl Side {
    /// The side stored as `v`, or the failure.
    pub open spec fn decode(v: u8) -> Result<Side, Error> {
        if v == 0 {
            Ok(Side::Zerg)
        } else if v == 1 {
            Ok(Side::Terran)
        } else if v == 2 {
            Ok(Side::Protoss)
        } else if v == 3 {
            Ok(Side::Independent)
        } else if v == 4 {
            Ok(Side::Neutral)
        } else if v == 5 {
            Ok(Side::UserSelectable)
        } else if v == 6 {
            Ok(Side::Random)
        } else if v == 7 {
            Ok(Side::Inactive)
        } else {
            Err(Error::UnrecognizedEnumValue { field: EnumField::Side, raw: v as u32 })
        }
    }

    /// Reads a side from one byte.
    pub fn from_buffer(b: &[u8], pos: &mut usize) -> (r: Result<Side, Error>)
        ensures
            !fits(b@, *old(pos) as int, 1) ==> r == Err::<Side, Error>(Error::TruncatedInput),
            fits(b@, *old(pos) as int, 1) ==> r == Side::decode(b@[*old(pos) as int])
                && *final(pos) == *old(pos) + 1,
    {
        match read_u8(b, pos) {
            Ok(v) => if v == 0 {
                Ok(Side::Zerg)
            } else if v == 1 {
                Ok(Side::Terran)
            } else if v == 2 {
                Ok(Side::Protoss)
            } else if v == 3 {
                Ok(Side::Independent)
            } else if v == 4 {
                Ok(Side::Neutral)
            } else if v == 5 {
                Ok(Side::UserSelectable)
            } else if v == 6 {
                Ok(Side::Random)
            } else if v == 7 {
                Ok(Side::Inactive)
            } else {
                Err(Error::UnrecognizedEnumValue { field: EnumField::Side, raw: v as u32 })
            },
            Err(e) => Err(e),
        }
    }
}

/// The dimensions of the map, counted in square tiles of 32x32 pixels.
#[derive(Debug, Clone, Copy, PartialEq, Eq, Structural)]
pub struct Dimensions {
    pub width: usize,
    pub height: usize,
}

impl Dimensions {
    /// Reads the width, then the height, each as a 16-bit little-endian integer.
    pub fn from_buffer(b: &[u8], pos: &mut usize) -> (r: Result<Dimensions, Error>)
        ensures
            !fits(b@, *old(pos) as int, 4) ==> r == Err::<Dimensions, Error>(Error::TruncatedInput),
            fits(b@, *old(pos) as int, 4) ==> r == Ok::<Dimensions, Error>(
                Dimensions::decode(b@, *old(pos) as int),
            ) && *final(pos) == *old(pos) + 4,
    {
        if *pos > b.len() || b.len() - *pos < 4 {
            return Err(Error::TruncatedInput);
        }
        let width = read_u16(b, pos);
        let height = read_u16(b, pos);
        match (width, height) {
            (Ok(w), Ok(h)) => Ok(Dimensions { width: w as usize, height: h as usize }),
            _ => Err(Error::TruncatedInput),
        }
    }

    /// The dimensions stored at `pos`.
    pub open spec fn decode(b: Seq<u8>, pos: int) -> Dimensions {
        Dimensions { width: u16_le(b, pos) as usize, height: u16_le(b, pos + 2) as usize }
    }
}

/// A reference from one map cell to a tile group and one of its sixteen
/// variations.
#[derive(Debug, Clone, Copy, PartialEq, Eq, Structural)]
pub struct MegaTileID {
    pub raw_value: u16,
}

impl MegaTileID {
    pub open spec fn spec_group_index(self) -> int {
        ((self.raw_value >> 4u16) & 0x7ffu16) as int
    }

    pub open spec fn spec_subtile_index(self) -> int {
        (self.raw_value & 0xfu16) as int
    }

    /// Reads a reference as a 16-bit little-endian integer.
    pub fn from_buffer(b: &[u8], pos: &mut usize) -> (r: Result<MegaTileID, Error>)
        ensures
            !fits(b@, *old(pos) as int, 2) ==> r == Err::<MegaTileID, Error>(Error::TruncatedInput),
            fits(b@, *old(pos) as int, 2) ==> r == Ok::<MegaTileID, Error>(
                MegaTileID { raw_value: u16_le(b@, *old(pos) as int) },
            ) && *final(pos) == *old(pos) + 2,
    {
        match read_u16(b, pos) {
            Ok(v) => Ok(MegaTileID { raw_value: v }),
            Err(e) => Err(e),
        }
    }

    /// The tile group: bits 4 to 14 of the raw value.
    pub fn group_index(&self) -> (r: usize)
        ensures
            r == self.spec_group_index(),
            r < 2048,
    {
        let v = self.raw_value;
        let g = (v >> 4) & 0x7ff;
        assert(g <= 0x7ff) by (bit_vector)
            requires
                g == (v >> 4u16) & 0x7ffu16,
        ;
        g as usize
    }

    /// The variation within the group: the low four bits of the raw value.
    pub fn subtile_index(&self) -> (r: usize)
        ensures
            r == self.spec_subtile_index(),
            r < 16,
    {
        let v = self.raw_value;
        let s = v & 0xf;
        assert(s <= 0xf) by (bit_vector)
            requires
                s == v & 0xfu16,
        ;
        s as usize
    }
}


/// Decodes each byte of `b` with `f`, in order; the first failure is the result.
pub open spec fn decode_each<T>(b: Seq<u8>, f: spec_fn(u8) -> Result<T, Error>) -> Result<
    Seq<T>,
    Error,
>
    decreases b.len(),
{
    if b.len() == 0 {
        Ok(Seq::empty())
    } else {
        match decode_each(b.drop_last(), f) {
            Err(e) => Err(e),
            Ok(s) => match f(b.last()) {
                Err(e) => Err(e),
                Ok(v) => Ok(s.push(v)),
            },
        }
    }
}

/// Once a prefix fails to decode, every longer prefix fails the same way.
proof fn lemma_decode_each_failure_stays<T>(
    b: Seq<u8>,
    f: spec_fn(u8) -> Result<T, Error>,
    i: int,
    j: int,
)
    requires
        0 <= i <= j <= b.len(),
        decode_each(b.subrange(0, i), f) is Err,
    ensures
        decode_each(b.subrange(0, j), f) == decode_each(b.subrange(0, i), f),
    decreases j - i,
{
    if i < j {
        lemma_decode_each_failure_stays(b, f, i, j - 1);
        assert(b.subrange(0, j).drop_last() =~= b.subrange(0, j - 1));
    }
}

/// The controllers stored one per byte.
pub open spec fn decode_controllers(b: Seq<u8>) -> Result<Seq<Controller>, Error> {
    decode_each(b, |v: u8| Controller::decode(v))
}

/// The sides stored one per byte.
pub open spec fn decode_sides(b: Seq<u8>) -> Result<Seq<Side>, Error> {
    decode_each(b, |v: u8| Side::decode(v))
}

/// Reads `n` controllers, one per byte, from the start of `b`.
fn read_controllers(b: &[u8], n: usize) -> (r: Result<Vec<Controller>, Error>)
    requires
        n <= b@.len(),
    ensures
        result_view(r) == decode_controllers(b@.subrange(0, n as int)),
{
    let mut out: Vec<Controller> = Vec::new();
    let mut pos: usize = 0;
    assert(b@.subrange(0, 0) =~= Seq::<u8>::empty());
    while pos < n
        invariant
            pos <= n <= b@.len(),
            decode_controllers(b@.subrange(0, pos as int)) == Ok::<Seq<Controller>, Error>(out@),
        decreases n - pos,
    {
        let p = pos;
        let c = Controller::from_buffer(b, &mut pos);
        assert(b@.subrange(0, p + 1).drop_last() =~= b@.subrange(0, p as int));
        match c {
            Ok(c) => {
                out.push(c);
            },
            Err(e) => {
                proof {
                    lemma_decode_each_failure_stays(
                        b@,
                        |v: u8| Controller::decode(v),
                        p + 1,
                        n as int,
                    );
                }
                return Err(e);
            },
        }
    }
    Ok(out)
}

/// Reads `n` sides, one per byte, from the start of `b`.
fn read_sides(b: &[u8], n: usize) -> (r: Result<Vec<Side>, Error>)
    requires
        n <= b@.len(),
    ensures
        result_view(r) == decode_sides(b@.subrange(0, n as int)),
{
    let mut out: Vec<Side> = Vec::new();
    let mut pos: usize = 0;
    assert(b@.subrange(0, 0) =~= Seq::<u8>::empty());
    while pos < n
        invariant
            pos <= n <= b@.len(),
            decode_sides(b@.subrange(0, pos as int)) == Ok::<Seq<Side>, Error>(out@),
        decreases n - pos,
    {
        let p = pos;
        let c = Side::from_buffer(b, &mut pos);
        assert(b@.subrange(0, p + 1).drop_last() =~= b@.subrange(0, p as int));
        match c {
            Ok(c) => {
                out.push(c);
            },
            Err(e) => {
                proof {
                    lemma_decode_each_failure_stays(b@, |v: u8| Side::decode(v), p + 1, n as int);
                }
                return Err(e);
            },
        }
    }
    Ok(out)
}


/// The index just past the first NUL byte at or after `i`, or the end of `b`.
pub open spec fn string_end(b: Seq<u8>, i: int) -> int
    decreases b.len() - i,
{
    if i >= b.len() {
        b.len() as int
    } else if b[i] == 0 {
        i + 1
    } else {
        string_end(b, i + 1)
    }
}

/// The string stored at `off`: its bytes up to and including the terminating
/// NUL, or up to the end of `b` when none follows.
pub open spec fn string_at(b: Seq<u8>, off: int) -> Seq<u8> {
    if off < b.len() {
        b.subrange(off, string_end(b, off))
    } else {
        Seq::empty()
    }
}

/// The strings of the string table.
#[derive(Debug, Clone)]
pub struct StringData(pub Vec<Vec<u8>>);

impl View for StringData {
    type V = Seq<Seq<u8>>;

    open spec fn view(&self) -> Seq<Seq<u8>> {
        self.0@.map_values(|s: Vec<u8>| s@)
    }
}

/// Reads the string at `off`, as `string_at` describes it.
fn read_string(b: &[u8], off: usize) -> (r: Vec<u8>)
    ensures
        r@ == string_at(b@, off as int),
{
    let mut out: Vec<u8> = Vec::new();
    if off >= b.len() {
        return out;
    }
    let mut i: usize = off;
    while i < b.len()
        invariant
            off <= i <= b@.len(),
            off < b@.len(),
            out@ == b@.subrange(off as int, i as int),
            string_end(b@, off as int) == string_end(b@, i as int),
        decreases b@.len() - i,
    {
        let c = b[i];
        out.push(c);
        assert(out@ =~= b@.subrange(off as int, i + 1));
        i = i + 1;
        if c == 0 {
            return out;
        }
    }
    out
}

impl StringData {
    /// The strings of a table: a 16-bit count, then one 16-bit offset per
    /// string, each counted from the start of `b`.
    pub open spec fn decode(b: Seq<u8>) -> Result<Seq<Seq<u8>>, Error> {
        if b.len() < 2 {
            Err(Error::TruncatedInput)
        } else if b.len() < 2 + 2 * u16_le(b, 0) {
            Err(Error::TruncatedInput)
        } else {
            Ok(Seq::new(u16_le(b, 0) as nat, |i: int| string_at(b, u16_le(b, 2 + 2 * i) as int)))
        }
    }

    /// Reads a string table that fills `b`.
    pub fn from_buffer(b: &[u8]) -> (r: Result<StringData, Error>)
        ensures
            result_view(r) == StringData::decode(b@),
    {
        let mut pos: usize = 0;
        let count = match read_u16(b, &mut pos) {
            Ok(c) => c as usize,
            Err(e) => {
                return Err(e);
            },
        };
        if b.len() - 2 < 2 * count {
            return Err(Error::TruncatedInput);
        }
        let mut strings: Vec<Vec<u8>> = Vec::new();
        let mut i: usize = 0;
        while i < count
            invariant
                count == u16_le(b@, 0),
                2 + 2 * count <= b@.len(),
                i <= count,
                strings@.len() == i,
                forall|k: int|
                    0 <= k < i ==> (#[trigger] strings@[k])@ == string_at(
                        b@,
                        u16_le(b@, 2 + 2 * k) as int,
                    ),
            decreases count - i,
        {
            let off = u16_at(b, 2 + 2 * i);
            let s = read_string(b, off as usize);
            strings.push(s);
            i = i + 1;
        }
        let r = StringData(strings);
        assert(r@ =~= Seq::new(count as nat, |k: int| string_at(b@, u16_le(b@, 2 + 2 * k) as int)));
        Ok(r)
    }
}


/// A decoded chunk.
#[derive(Debug)]
pub enum Chunk {
    ScenarioType(ScenarioType),
    FileFormatVersion(FileFormatVersion),
    Tileset(Tileset),
    Controllers(Vec<Controller>),
    Dimensions(Dimensions),
    Sides(Vec<Side>),
    MegaTileIDs(Vec<MegaTileID>),
    StringData(StringData),
}

/// The value of a decoded chunk.
pub enum ChunkView {
    ScenarioType(ScenarioType),
    FileFormatVersion(FileFormatVersion),
    Tileset(Tileset),
    Controllers(Seq<Controller>),
    Dimensions(Dimensions),
    Sides(Seq<Side>),
    MegaTileIDs(Seq<MegaTileID>),
    StringData(Seq<Seq<u8>>),
}

impl View for Chunk {
    type V = ChunkView;

    open spec fn view(&self) -> ChunkView {
        match self {
            Chunk::ScenarioType(v) => ChunkView::ScenarioType(*v),
            Chunk::FileFormatVersion(v) => ChunkView::FileFormatVersion(*v),
            Chunk::Tileset(v) => ChunkView::Tileset(*v),
            Chunk::Controllers(v) => ChunkView::Controllers(v@),
            Chunk::Dimensions(v) => ChunkView::Dimensions(*v),
            Chunk::Sides(v) => ChunkView::Sides(v@),
            Chunk::MegaTileIDs(v) => ChunkView::MegaTileIDs(v@),
            Chunk::StringData(v) => ChunkView::StringData(v@),
        }
    }
}

/// The tile references stored two bytes each at the start of `b`.
pub open spec fn decode_megatiles(b: Seq<u8>, n: nat) -> Seq<MegaTileID> {
    Seq::new(n, |i: int| MegaTileID { raw_value: u16_le(b, 2 * i) })
}

/// The largest body that a tile reference chunk may declare.
pub const MEGATILE_CHUNK_LIMIT: usize = 0x20000;

/// The value of a chunk of kind `name` that declares `size` bytes, read from
/// `body`, or the failure.
pub open spec fn decode_chunk(name: ChunkName, size: usize, body: Seq<u8>) -> Result<
    ChunkView,
    Error,
> {
    let bad_size = Error::InvalidChunkSize { chunk: name, size };
    match name {
        ChunkName::Type => if body.len() < 4 {
            Err(Error::TruncatedInput)
        } else {
            match ScenarioType::decode(u32_le(body, 0)) {
                Ok(v) => Ok(ChunkView::ScenarioType(v)),
                Err(e) => Err(e),
            }
        },
        ChunkName::Version => if size != 2 {
            Err(bad_size)
        } else if body.len() < 2 {
            Err(Error::TruncatedInput)
        } else {
            match FileFormatVersion::decode(u16_le(body, 0)) {
                Ok(v) => Ok(ChunkView::FileFormatVersion(v)),
                Err(e) => Err(e),
            }
        },
        ChunkName::Tileset => if size != 2 {
            Err(bad_size)
        } else if body.len() < 2 {
            Err(Error::TruncatedInput)
        } else {
            Ok(ChunkView::Tileset(Tileset::decode(u16_le(body, 0))))
        },
        ChunkName::Controllers => if size != 12 {
            Err(bad_size)
        } else if body.len() < 12 {
            Err(Error::TruncatedInput)
        } else {
            match decode_controllers(body.subrange(0, 12)) {
                Ok(v) => Ok(ChunkView::Controllers(v)),
                Err(e) => Err(e),
            }
        },
        ChunkName::Dimensions => if size != 4 {
            Err(bad_size)
        } else if body.len() < 4 {
            Err(Error::TruncatedInput)
        } else {
            Ok(ChunkView::Dimensions(Dimensions::decode(body, 0)))
        },
        ChunkName::Side => if size != 12 {
            Err(bad_size)
        } else if body.len() < 12 {
            Err(Error::TruncatedInput)
        } else {
            match decode_sides(body.subrange(0, 12)) {
                Ok(v) => Ok(ChunkView::Sides(v)),
                Err(e) => Err(e),
            }
        },
        ChunkName::MegaTileIDs => if size > MEGATILE_CHUNK_LIMIT || size % 2 != 0 {
            Err(bad_size)
        } else if body.len() < size {
            Err(Error::TruncatedInput)
        } else {
            Ok(ChunkView::MegaTileIDs(decode_megatiles(body, (size / 2) as nat)))
        },
        ChunkName::StringData => match StringData::decode(body) {
            Ok(v) => Ok(ChunkView::StringData(v)),
            Err(e) => Err(e),
        },
    }
}

impl Chunk {
    /// What reading a chunk with tag `tag`, declared size `size` and body
    /// `body` gives: nothing for an unrecognized tag.
    pub open spec fn spec_read(tag: Seq<u8>, size: usize, body: Seq<u8>) -> Result<
        Option<ChunkView>,
        Error,
    > {
        match ChunkName::of_tag(tag) {
            None => Ok(None),
            Some(name) => match decode_chunk(name, size, body) {
                Ok(v) => Ok(Some(v)),
                Err(e) => Err(e),
            },
        }
    }

    pub open spec fn read_view(r: Result<Option<Chunk>, Error>) -> Result<Option<ChunkView>, Error> {
        match r {
            Ok(Some(c)) => Ok(Some(c@)),
            Ok(None) => Ok(None),
            Err(e) => Err(e),
        }
    }

    /// Decodes the body of the chunk that `header` opens. Unrecognized tags
    /// give `None`.
    pub fn read(header: &Header, body: &[u8]) -> (r: Result<Option<Chunk>, Error>)
        ensures
            Chunk::read_view(r) == Chunk::spec_read(header@.0, header@.1, body@),
    {
        proof {
            use_type_invariant(header);
        }
        let name = header.name();
        let chunk_name = ChunkName::from_str(name.as_str());
        let size = header.size;
        let chunk_name = match chunk_name {
            None => {
                return Ok(None);
            },
            Some(n) => n,
        };
        let mut pos: usize = 0;
        match chunk_name {
            ChunkName::Type => match ScenarioType::from_buffer(body, &mut pos) {
                Ok(v) => Ok(Some(Chunk::ScenarioType(v))),
                Err(e) => Err(e),
            },
            ChunkName::Version => {
                if size != 2 {
                    return Err(Error::InvalidChunkSize { chunk: chunk_name, size });
                }
                match FileFormatVersion::from_buffer(body, &mut pos) {
                    Ok(v) => Ok(Some(Chunk::FileFormatVersion(v))),
                    Err(e) => Err(e),
                }
            },
            ChunkName::Tileset => {
                if size != 2 {
                    return Err(Error::InvalidChunkSize { chunk: chunk_name, size });
                }
                match Tileset::from_buffer(body, &mut pos) {
                    Ok(v) => Ok(Some(Chunk::Tileset(v))),
                    Err(e) => Err(e),
                }
            },
            ChunkName::Controllers => {
                if size != 12 {
                    return Err(Error::InvalidChunkSize { chunk: chunk_name, size });
                }
                if body.len() < 12 {
                    return Err(Error::TruncatedInput);
                }
                match read_controllers(body, 12) {
                    Ok(v) => Ok(Some(Chunk::Controllers(v))),
                    Err(e) => Err(e),
                }
            },
            ChunkName::Dimensions => {
                if size != 4 {
                    return Err(Error::InvalidChunkSize { chunk: chunk_name, size });
                }
                match Dimensions::from_buffer(body, &mut pos) {
                    Ok(v) => Ok(Some(Chunk::Dimensions(v))),
                    Err(e) => Err(e),
                }
            },
            ChunkName::Side => {
                if size != 12 {
                    return Err(Error::InvalidChunkSize { chunk: chunk_name, size });
                }
                if body.len() < 12 {
                    return Err(Error::TruncatedInput);
                }
                match read_sides(body, 12) {
                    Ok(v) => Ok(Some(Chunk::Sides(v))),
                    Err(e) => Err(e),
                }
            },
            ChunkName::MegaTileIDs => {
                if size > MEGATILE_CHUNK_LIMIT || size % 2 != 0 {
                    return Err(Error::InvalidChunkSize { chunk: chunk_name, size });
                }
                if body.len() < size {
                    return Err(Error::TruncatedInput);
                }
                let tile_count = size / 2;
                let mut tiles: Vec<MegaTileID> = Vec::new();
                let mut i: usize = 0;
                while i < tile_count
                    invariant
                        tile_count * 2 <= body@.len(),
                        tile_count <= MEGATILE_CHUNK_LIMIT,
                        i <= tile_count,
                        tiles@ =~= decode_megatiles(body@, i as nat),
                    decreases tile_count - i,
                {
                    tiles.push(MegaTileID { raw_value: u16_at(body, 2 * i) });
                    i = i + 1;
                }
                Ok(Some(Chunk::MegaTileIDs(tiles)))
            },
            ChunkName::StringData => match StringData::from_buffer(body) {
                Ok(v) => Ok(Some(Chunk::StringData(v))),
                Err(e) => Err(e),
            },
        }
    }
}

} // verus!
