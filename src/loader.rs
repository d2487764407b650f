//! Locating and decoding the five tables of a tileset.
use vstd::prelude::*;
use vstd::string::StringExecFns;

use crate::assets::AssetLoader as LoadTables;
use crate::chk::Tileset;
use crate::cv5::CV5s;
use crate::error::Error;
use crate::fs::ReadonlyFileSystem;
use crate::vf4::VF4s;
use crate::vr4::VR4s;
use crate::vx4::VX4s;
use crate::wpe::WPEs;

verus! {

/// The extension of each tileset table file.
#[derive(Debug, Clone, Copy, PartialEq, Eq, Structural)]
pub enum EXT {
    CV5,
    VF4,
    VX4,
    VR4,
    WPE,
}

impl EXT {
    pub open spec fn spec_file_name(self) -> Seq<char> {
        match self {
            EXT::CV5 => "cv5"@,
            EXT::VF4 => "vf4"@,
            EXT::VX4 => "vx4"@,
            EXT::VR4 => "vr4"@,
            EXT::WPE => "wpe"@,
        }
    }

    /// The file extension, without the dot.
    pub fn file_name(&self) -> (r: &'static str)
        ensures
            r@ == self.spec_file_name(),
    {
        match self {
            EXT::CV5 => "cv5",
            EXT::VF4 => "vf4",
            EXT::VX4 => "vx4",
            EXT::VR4 => "vr4",
            EXT::WPE => "wpe",
        }
    }
}

impl Tileset {
    pub open spec fn spec_file_name(self) -> Seq<char> {
        match self {
            Tileset::Ashworld => "ashworld"@,
            Tileset::Badlands => "badlands"@,
            Tileset::Installation => "install"@,
            Tileset::Jungle => "jungle"@,
            Tileset::SpacePlatform => "platform"@,
            Tileset::Desert => "desert"@,
            Tileset::Arctic => "ice"@,
            Tileset::Twilight => "twilight"@,
        }
    }

    pub open spec fn spec_display_name(self) -> Seq<char> {
        match self {
            Tileset::Ashworld => "Ash"@,
            Tileset::Badlands => "Badland"@,
            Tileset::Installation => "Installation"@,
            Tileset::Jungle => "Jungle"@,
            Tileset::SpacePlatform => "Space Platform"@,
            Tileset::Desert => "Desert"@,
            Tileset::Arctic => "Arctic"@,
            Tileset::Twilight => "Twilight"@,
        }
    }

    /// The name of the tileset as players know it.
    pub fn display_name(&self) -> (r: &'static str)
        ensures
            r@ == self.spec_display_name(),
    {
        match self {
            Tileset::Ashworld => "Ash",
            Tileset::Badlands => "Badland",
            Tileset::Installation => "Installation",
            Tileset::Jungle => "Jungle",
            Tileset::SpacePlatform => "Space Platform",
            Tileset::Desert => "Desert",
            Tileset::Arctic => "Arctic",
            Tileset::Twilight => "Twilight",
        }
    }

    /// The base name of the tileset's files.
    pub fn file_name(&self) -> (r: &'static str)
        ensures
            r@ == self.spec_file_name(),
    {
        match self {
            Tileset::Ashworld => "ashworld",
            Tileset::Badlands => "badlands",
            Tileset::Installation => "install",
            Tileset::Jungle => "jungle",
            Tileset::SpacePlatform => "platform",
            Tileset::Desert => "desert",
            Tileset::Arctic => "ice",
            Tileset::Twilight => "twilight",
        }
    }
}

/// The path of a tileset table: `tileset/<name>.<ext>`.
pub open spec fn spec_tileset_path(ext: EXT, tileset: Tileset) -> Seq<char> {
    "tileset/"@ + tileset.spec_file_name() + "."@ + ext.spec_file_name()
}

/// The path of the table `ext` of `tileset`.
pub fn tileset_path(ext: &EXT, tileset: &Tileset) -> (r: String)
    ensures
        r@ == spec_tileset_path(*ext, *tileset),
{
    let mut path = String::from_str("tileset/");
    path.append(tileset.file_name());
    path.append(".");
    path.append(ext.file_name());
    path
}

/// Loads the tables of one tileset from a file system.
pub struct AssetLoader<'a, FS: ReadonlyFileSystem> {
    pub tileset: Tileset,
    pub fs: &'a FS,
}

impl<'a, FS: ReadonlyFileSystem> AssetLoader<'a, FS> {
    pub fn new(tileset: Tileset, fs: &'a FS) -> (r: AssetLoader<'a, FS>)
        ensures
            r.tileset == tileset,
            r.fs == fs,
    {
        AssetLoader { tileset, fs }
    }

    /// The bytes of the table `ext`; `AssetNotFound` when the file system
    /// cannot give them.
    pub fn load_asset(&self, ext: EXT) -> (r: Result<Vec<u8>, Error>)
        ensures
            r is Err ==> r == Err::<Vec<u8>, Error>(
                Error::AssetNotFound { tileset: self.tileset, ext },
            ),
    {
        let path = tileset_path(&ext, &self.tileset);
        match self.fs.read(path.as_str()) {
            Ok(buf) => Ok(buf),
            Err(_) => Err(Error::AssetNotFound { tileset: self.tileset, ext }),
        }
    }
}

impl<'a, FS: ReadonlyFileSystem> LoadTables for AssetLoader<'a, FS> {
    /// The cv5 table of the tileset: `AssetNotFound` when its file cannot
    /// be read, else the decoding of the file's bytes.
    fn load_cv5s(&self) -> (r: Result<CV5s, Error>)
        ensures
            r is Err ==> r == Err::<CV5s, Error>(
                Error::AssetNotFound { tileset: self.tileset, ext: EXT::CV5 },
            ),
            r matches Ok(t) ==> exists|b: Seq<u8>| t@ == CV5s::decode(b),
    {
        match self.load_asset(EXT::CV5) {
            Ok(buf) => {
                let r = CV5s::from_buffer(buf.as_slice());
                proof {
                    assert(r->Ok_0@ == CV5s::decode(buf@));
                }
                r
            },
            Err(e) => Err(e),
        }
    }

    /// The vf4 table of the tileset: `AssetNotFound` when its file cannot
    /// be read, else the decoding of the file's bytes.
    fn load_vf4s(&self) -> (r: Result<VF4s, Error>)
        ensures
            r is Err ==> r == Err::<VF4s, Error>(
                Error::AssetNotFound { tileset: self.tileset, ext: EXT::VF4 },
            ) || r == Err::<VF4s, Error>(Error::TruncatedInput),
            r matches Ok(t) ==> exists|b: Seq<u8>| VF4s::decode(b) == Ok::<_, Error>(t@),
    {
        match self.load_asset(EXT::VF4) {
            Ok(buf) => {
                let r = VF4s::from_buffer(buf.as_slice());
                proof {
                    if r is Ok {
                        assert(VF4s::decode(buf@) == Ok::<_, Error>(r->Ok_0@));
                    }
                }
                r
            },
            Err(e) => Err(e),
        }
    }

    /// The vx4 table of the tileset: `AssetNotFound` when its file cannot
    /// be read, else the decoding of the file's bytes.
    fn load_vx4s(&self) -> (r: Result<VX4s, Error>)
        ensures
            r is Err ==> r == Err::<VX4s, Error>(
                Error::AssetNotFound { tileset: self.tileset, ext: EXT::VX4 },
            ) || r == Err::<VX4s, Error>(Error::TruncatedInput),
            r matches Ok(t) ==> exists|b: Seq<u8>| VX4s::decode(b) == Ok::<_, Error>(t@),
    {
        match self.load_asset(EXT::VX4) {
            Ok(buf) => {
                let r = VX4s::from_buffer(buf.as_slice());
                proof {
                    if r is Ok {
                        assert(VX4s::decode(buf@) == Ok::<_, Error>(r->Ok_0@));
                    }
                }
                r
            },
            Err(e) => Err(e),
        }
    }

    /// The vr4 table of the tileset: `AssetNotFound` when its file cannot
    /// be read, else the decoding of the file's bytes.
    fn load_vr4s(&self) -> (r: Result<VR4s, Error>)
        ensures
            r is Err ==> r == Err::<VR4s, Error>(
                Error::AssetNotFound { tileset: self.tileset, ext: EXT::VR4 },
            ) || r == Err::<VR4s, Error>(Error::TruncatedInput),
            r matches Ok(t) ==> exists|b: Seq<u8>| VR4s::decode(b) == Ok::<_, Error>(t@),
    {
        match self.load_asset(EXT::VR4) {
            Ok(buf) => {
                let r = VR4s::from_buffer(buf.as_slice());
                proof {
                    if r is Ok {
                        assert(VR4s::decode(buf@) == Ok::<_, Error>(r->Ok_0@));
                    }
                }
                r
            },
            Err(e) => Err(e),
        }
    }

    /// The wpe table of the tileset: `AssetNotFound` when its file cannot
    /// be read, else the decoding of the file's bytes.
    fn load_wpes(&self) -> (r: Result<WPEs, Error>)
        ensures
            r is Err ==> r == Err::<WPEs, Error>(
                Error::AssetNotFound { tileset: self.tileset, ext: EXT::WPE },
            ),
            r matches Ok(t) ==> exists|b: Seq<u8>| t@ == WPEs::decode(b),
    {
        match self.load_asset(EXT::WPE) {
            Ok(buf) => {
                let r = WPEs::from_buffer(buf.as_slice());
                proof {
                    assert(r->Ok_0@ == WPEs::decode(buf@));
                }
                r
            },
            Err(e) => Err(e),
        }
    }
}

} // verus!
