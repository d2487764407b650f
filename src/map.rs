//! Assembling a map from the chunks of a scenario file.
use vstd::prelude::*;

use crate::chk::{
    header_result, Chunk, ChunkName, ChunkView, Controller, Dimensions, FileFormatVersion, Header,
    MegaTileID, ScenarioType, Side, StringData, Tileset,
};
use crate::error::{result_view, Error};

verus! {

/// A decoded scenario.
#[derive(Debug)]
pub struct ScenarioMap {
    pub scenario_type: Option<ScenarioType>,
    pub file_format_version: FileFormatVersion,
    pub tileset: Tileset,
    pub controllers: Vec<Controller>,
    pub dimensions: Dimensions,
    pub sides: Vec<Side>,
    pub mega_tile_ids: Vec<MegaTileID>,
    pub str_data: Option<StringData>,
}

/// The value of a decoded scenario.
pub struct ScenarioMapView {
    pub scenario_type: Option<ScenarioType>,
    pub file_format_version: FileFormatVersion,
    pub tileset: Tileset,
    pub controllers: Seq<Controller>,
    pub dimensions: Dimensions,
    pub sides: Seq<Side>,
    pub mega_tile_ids: Seq<MegaTileID>,
    pub str_data: Option<Seq<Seq<u8>>>,
}

impl View for ScenarioMap {
    type V = ScenarioMapView;

    open spec fn view(&self) -> ScenarioMapView {
        ScenarioMapView {
            scenario_type: self.scenario_type,
            file_format_version: self.file_format_version,
            tileset: self.tileset,
            controllers: self.controllers@,
            dimensions: self.dimensions,
            sides: self.sides@,
            mega_tile_ids: self.mega_tile_ids@,
            str_data: match self.str_data {
                Some(s) => Some(s@),
                None => None,
            },
        }
    }
}

/// The chunks seen so far while a scenario is read: for each kind, the last
/// value seen.
#[derive(Debug)]
pub struct DeserializedMap {
    pub scenario_type: Option<ScenarioType>,
    pub file_format_version: Option<FileFormatVersion>,
    pub tileset: Option<Tileset>,
    pub controllers: Option<Vec<Controller>>,
    pub dimensions: Option<Dimensions>,
    pub sides: Option<Vec<Side>>,
    pub mega_tile_ids: Option<Vec<MegaTileID>>,
    pub str_data: Option<StringData>,
}

/// The value of the chunks seen so far.
pub struct DeserializedMapView {
    pub scenario_type: Option<ScenarioType>,
    pub file_format_version: Option<FileFormatVersion>,
    pub tileset: Option<Tileset>,
    pub controllers: Option<Seq<Controller>>,
    pub dimensions: Option<Dimensions>,
    pub sides: Option<Seq<Side>>,
    pub mega_tile_ids: Option<Seq<MegaTileID>>,
    pub str_data: Option<Seq<Seq<u8>>>,
}

impl View for DeserializedMap {
    type V = DeserializedMapView;

    open spec fn view(&self) -> DeserializedMapView {
        DeserializedMapView {
            scenario_type: self.scenario_type,
            file_format_version: self.file_format_version,
            tileset: self.tileset,
            controllers: match self.controllers {
                Some(v) => Some(v@),
                None => None,
            },
            dimensions: self.dimensions,
            sides: match self.sides {
                Some(v) => Some(v@),
                None => None,
            },
            mega_tile_ids: match self.mega_tile_ids {
                Some(v) => Some(v@),
                None => None,
            },
            str_data: match self.str_data {
                Some(v) => Some(v@),
                None => None,
            },
        }
    }
}

impl DeserializedMapView {
    /// Nothing seen yet.
    pub open spec fn empty() -> DeserializedMapView {
        DeserializedMapView {
            scenario_type: None,
            file_format_version: None,
            tileset: None,
            controllers: None,
            dimensions: None,
            sides: None,
            mega_tile_ids: None,
            str_data: None,
        }
    }

    /// The chunks seen once `c` is added: it replaces the value of its kind.
    pub open spec fn merge(self, c: Option<ChunkView>) -> DeserializedMapView {
        match c {
            None => self,
            Some(ChunkView::ScenarioType(v)) => DeserializedMapView {
                scenario_type: Some(v),
                ..self
            },
            Some(ChunkView::FileFormatVersion(v)) => DeserializedMapView {
                file_format_version: Some(v),
                ..self
            },
            Some(ChunkView::Tileset(v)) => DeserializedMapView { tileset: Some(v), ..self },
            Some(ChunkView::Controllers(v)) => DeserializedMapView {
                controllers: Some(v),
                ..self
            },
            Some(ChunkView::Dimensions(v)) => DeserializedMapView { dimensions: Some(v), ..self },
            Some(ChunkView::Sides(v)) => DeserializedMapView { sides: Some(v), ..self },
            Some(ChunkView::MegaTileIDs(v)) => DeserializedMapView {
                mega_tile_ids: Some(v),
                ..self
            },
            Some(ChunkView::StringData(v)) => DeserializedMapView { str_data: Some(v), ..self },
        }
    }

    /// The map that the chunks seen make up, or the first required chunk
    /// that is missing.
    pub open spec fn finish(self) -> Result<ScenarioMapView, Error> {
        if self.file_format_version is None {
            Err(Error::MissingRequiredChunk(ChunkName::Version))
        } else if self.tileset is None {
            Err(Error::MissingRequiredChunk(ChunkName::Tileset))
        } else if self.controllers is None {
            Err(Error::MissingRequiredChunk(ChunkName::Controllers))
        } else if self.dimensions is None {
            Err(Error::MissingRequiredChunk(ChunkName::Dimensions))
        } else if self.sides is None {
            Err(Error::MissingRequiredChunk(ChunkName::Side))
        } else if self.mega_tile_ids is None {
            Err(Error::MissingRequiredChunk(ChunkName::MegaTileIDs))
        } else {
            Ok(
                ScenarioMapView {
                    scenario_type: self.scenario_type,
                    file_format_version: self.file_format_version->0,
                    tileset: self.tileset->0,
                    controllers: self.controllers->0,
                    dimensions: self.dimensions->0,
                    sides: self.sides->0,
                    mega_tile_ids: self.mega_tile_ids->0,
                    str_data: self.str_data,
                },
            )
        }
    }
}

/// Reading the chunks of `b` from `pos` on, with `acc` seen before: the
/// chunks seen at the end, or the first failure.
pub open spec fn parse_from(b: Seq<u8>, pos: int, acc: DeserializedMapView) -> Result<
    DeserializedMapView,
    Error,
>
    decreases b.len() - pos,
{
    if pos < 0 || pos >= b.len() {
        Ok(acc)
    } else {
        match header_result(b, pos) {
            Err(e) => Err(e),
            Ok((tag, size)) => if b.len() - (pos + 8) < size {
                Err(Error::TruncatedChunk)
            } else {
                match Chunk::spec_read(tag, size, b.subrange(pos + 8, pos + 8 + size)) {
                    Err(e) => Err(e),
                    Ok(c) => parse_from(b, pos + 8 + size, acc.merge(c)),
                }
            },
        }
    }
}

/// The map that the scenario file `b` holds, or the failure.
pub open spec fn parse(b: Seq<u8>) -> Result<ScenarioMapView, Error> {
    match parse_from(b, 0, DeserializedMapView::empty()) {
        Ok(acc) => acc.finish(),
        Err(e) => Err(e),
    }
}

impl DeserializedMap {
    pub fn new() -> (r: DeserializedMap)
        ensures
            r@ == DeserializedMapView::empty(),
    {
        DeserializedMap {
            scenario_type: None,
            file_format_version: None,
            tileset: None,
            controllers: None,
            dimensions: None,
            sides: None,
            mega_tile_ids: None,
            str_data: None,
        }
    }

    /// Records a decoded chunk; it replaces any earlier one of its kind.
    pub fn add(&mut self, c: Option<Chunk>)
        ensures
            final(self)@ == old(self)@.merge(
                match c {
                    Some(c) => Some(c@),
                    None => None,
                },
            ),
    {
        match c {
            None => {},
            Some(Chunk::ScenarioType(v)) => {
                self.scenario_type = Some(v);
            },
            Some(Chunk::FileFormatVersion(v)) => {
                self.file_format_version = Some(v);
            },
            Some(Chunk::Tileset(v)) => {
                self.tileset = Some(v);
            },
            Some(Chunk::Controllers(v)) => {
                self.controllers = Some(v);
            },
            Some(Chunk::Dimensions(v)) => {
                self.dimensions = Some(v);
            },
            Some(Chunk::Sides(v)) => {
                self.sides = Some(v);
            },
            Some(Chunk::MegaTileIDs(v)) => {
                self.mega_tile_ids = Some(v);
            },
            Some(Chunk::StringData(v)) => {
                self.str_data = Some(v);
            },
        }
    }

    /// The map made of the chunks seen, or the first required chunk missing.
    pub fn into_map(self) -> (r: Result<ScenarioMap, Error>)
        ensures
            result_view(r) == self@.finish(),
    {
        let DeserializedMap {
            scenario_type,
            file_format_version,
            tileset,
            controllers,
            dimensions,
            sides,
            mega_tile_ids,
            str_data,
        } = self;
        let file_format_version = match file_format_version {
            Some(v) => v,
            None => {
                return Err(Error::MissingRequiredChunk(ChunkName::Version));
            },
        };
        let tileset = match tileset {
            Some(v) => v,
            None => {
                return Err(Error::MissingRequiredChunk(ChunkName::Tileset));
            },
        };
        let controllers = match controllers {
            Some(v) => v,
            None => {
                return Err(Error::MissingRequiredChunk(ChunkName::Controllers));
            },
        };
        let dimensions = match dimensions {
            Some(v) => v,
            None => {
                return Err(Error::MissingRequiredChunk(ChunkName::Dimensions));
            },
        };
        let sides = match sides {
            Some(v) => v,
            None => {
                return Err(Error::MissingRequiredChunk(ChunkName::Side));
            },
        };
        let mega_tile_ids = match mega_tile_ids {
            Some(v) => v,
            None => {
                return Err(Error::MissingRequiredChunk(ChunkName::MegaTileIDs));
            },
        };
        Ok(
            ScenarioMap {
                scenario_type,
                file_format_version,
                tileset,
                controllers,
                dimensions,
                sides,
                mega_tile_ids,
                str_data,
            },
        )
    }
}

impl ScenarioMap {
    /// Decodes a scenario file: its chunks one after another until the buffer
    /// ends, the last chunk of each kind winning, then the map they make up.
    pub fn from_chunks(chunks: &[u8]) -> (r: Result<ScenarioMap, Error>)
        ensures
            result_view(r) == parse(chunks@),
    {
        let mut map = DeserializedMap::new();
        let mut pos: usize = 0;
        while pos < chunks.len()
            invariant
                pos <= chunks@.len(),
                parse_from(chunks@, pos as int, map@) == parse_from(
                    chunks@,
                    0,
                    DeserializedMapView::empty(),
                ),
            decreases chunks@.len() - pos,
        {
            let start = pos;
            let header = match Header::from_buffer(chunks, &mut pos) {
                Ok(h) => h,
                Err(e) => {
                    return Err(e);
                },
            };
            let size = header.size();
            if chunks.len() - pos < size {
                return Err(Error::TruncatedChunk);
            }
            let body = vstd::slice::slice_subrange(chunks, pos, pos + size);
            pos = pos + size;
            match Chunk::read(&header, body) {
                Ok(c) => {
                    map.add(c);
                },
                Err(e) => {
                    return Err(e);
                },
            }
        }
        map.into_map()
    }
}

} // verus!
