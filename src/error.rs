//! The failures that decoding and composition report.
use vstd::prelude::*;

use crate::chk::{ChunkName, Tileset};
use crate::loader::EXT;

verus! {

/// An enumerated field of the scenario format.
#[derive(Debug, Clone, Copy, PartialEq, Eq, Structural)]
pub enum EnumField {
    ScenarioType,
    FileFormatVersion,
    Tileset,
    Controller,
    Side,
}

#[derive(Debug, Clone, Copy, PartialEq, Eq, Structural)]
pub enum Error {
    /// The buffer ends before a value that has to be read.
    TruncatedInput,
    /// A chunk declares more bytes than the buffer has left.
    TruncatedChunk,
    /// A chunk tag is not valid UTF-8.
    InvalidTag,
    /// A chunk declares a size that its kind does not allow.
    InvalidChunkSize { chunk: ChunkName, size: usize },
    /// An enumerated field holds a value with no meaning.
    UnrecognizedEnumValue { field: EnumField, raw: u32 },
    /// A chunk that every scenario needs never appeared.
    MissingRequiredChunk(ChunkName),
    /// No archive holds the tileset file.
    AssetNotFound { tileset: Tileset, ext: EXT },
    /// No archive holds the requested file.
    FileNotFound,
    /// An index read from one table is out of the range of the next.
    IndexOutOfRange,
}

/// A result with the success value replaced by its view.
pub open spec fn result_view<T: View>(r: Result<T, Error>) -> Result<T::V, Error> {
    match r {
        Ok(v) => Ok(v@),
        Err(e) => Err(e),
    }
}

} // verus!
