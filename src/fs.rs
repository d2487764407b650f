//! Read access to the files that hold map and tileset data.
use vstd::prelude::*;

use crate::error::Error;

verus! {

/// A source of files by path; implemented over archives by the caller.
pub trait ReadonlyFileSystem {
    /// The contents of the file at `file_name`.
    fn read(&self, file_name: &str) -> Result<Vec<u8>, Error>;
}

} // verus!
