use std::cell::RefCell;

use starcraft_assets::assets::{AssetLoader as _, Assets};
use starcraft_assets::chk::Tileset;
use starcraft_assets::error::Error;
use starcraft_assets::fs::ReadonlyFileSystem;
use starcraft_assets::loader::{tileset_path, AssetLoader, EXT};
use starcraft_assets::mpq::{ReadOnlyMPQArchive, UnifiedMPQArchive};

struct FakeArchive {
    files: Vec<(String, Vec<u8>)>,
    asked: RefCell<Vec<String>>,
}

impl FakeArchive {
    fn new(files: Vec<(&str, Vec<u8>)>) -> FakeArchive {
        FakeArchive {
            files: files.into_iter().map(|(n, b)| (n.to_string(), b)).collect(),
            asked: RefCell::new(Vec::new()),
        }
    }
}

impl ReadOnlyMPQArchive for FakeArchive {
    fn read_file(&self, name: &str) -> Result<Vec<u8>, Error> {
        self.asked.borrow_mut().push(name.to_string());
        for (n, b) in &self.files {
            if n == name {
                return Ok(b.clone());
            }
        }
        Err(Error::FileNotFound)
    }
}

#[test]
fn tileset_paths() {
    assert_eq!(tileset_path(&EXT::CV5, &Tileset::Jungle), "tileset/jungle.cv5");
    assert_eq!(tileset_path(&EXT::WPE, &Tileset::Arctic), "tileset/ice.wpe");
    assert_eq!(tileset_path(&EXT::VR4, &Tileset::Installation), "tileset/install.vr4");
    assert_eq!(tileset_path(&EXT::VX4, &Tileset::SpacePlatform), "tileset/platform.vx4");
    assert_eq!(tileset_path(&EXT::VF4, &Tileset::Ashworld), "tileset/ashworld.vf4");
    assert_eq!(Tileset::Badlands.file_name(), "badlands");
    assert_eq!(Tileset::Desert.file_name(), "desert");
    assert_eq!(Tileset::Twilight.file_name(), "twilight");
}

#[test]
fn first_archive_holding_the_file_wins() {
    let mut unified = UnifiedMPQArchive::from_existing(vec![
        FakeArchive::new(vec![("a", vec![1])]),
        FakeArchive::new(vec![("a", vec![2]), ("b", vec![3])]),
    ]);
    assert_eq!(unified.read_file("a"), Ok(vec![1]));
    assert_eq!(unified.read_file("b"), Ok(vec![3]));
    assert_eq!(unified.read_file("c"), Err(Error::FileNotFound));
    unified.add(FakeArchive::new(vec![("c", vec![4])]));
    assert_eq!(unified.read("c"), Ok(vec![4]));
    let empty: UnifiedMPQArchive<FakeArchive> = UnifiedMPQArchive::new();
    assert_eq!(empty.read_file("a"), Err(Error::FileNotFound));
}

fn tileset_files() -> Vec<(&'static str, Vec<u8>)> {
    vec![
        ("tileset/desert.cv5", vec![0; 52]),
        ("tileset/desert.vf4", vec![0; 32]),
        ("tileset/desert.vx4", vec![0; 32]),
        ("tileset/desert.vr4", vec![0; 64]),
        ("tileset/desert.wpe", vec![5, 6, 7, 0]),
    ]
}

#[test]
fn loader_reads_the_five_tables() {
    let fs = UnifiedMPQArchive::from_existing(vec![FakeArchive::new(tileset_files())]);
    let loader = AssetLoader::new(Tileset::Desert, &fs);
    let assets = Assets::from(&loader).expect("should load tileset");
    assert_eq!(assets.cv5s.0.len(), 1);
    assert_eq!(assets.vf4s.0.len(), 1);
    assert_eq!(assets.vx4s.0.len(), 1);
    assert_eq!(assets.vr4s.0.len(), 1);
    assert_eq!(assets.wpes.0[0].g, 6);
}

#[test]
fn missing_table_is_asset_not_found() {
    let files: Vec<(&str, Vec<u8>)> =
        tileset_files().into_iter().filter(|(n, _)| !n.ends_with(".vx4")).collect();
    let fs = UnifiedMPQArchive::from_existing(vec![FakeArchive::new(files)]);
    let loader = AssetLoader::new(Tileset::Desert, &fs);
    assert_eq!(
        loader.load_vx4s().err(),
        Some(Error::AssetNotFound { tileset: Tileset::Desert, ext: EXT::VX4 })
    );
    assert_eq!(
        Assets::from(&loader).err(),
        Some(Error::AssetNotFound { tileset: Tileset::Desert, ext: EXT::VX4 })
    );
}

#[test]
fn malformed_table_fails_the_load() {
    let mut files = tileset_files();
    files[3].1 = vec![0; 65];
    let fs = UnifiedMPQArchive::from_existing(vec![FakeArchive::new(files)]);
    let loader = AssetLoader::new(Tileset::Desert, &fs);
    assert_eq!(Assets::from(&loader).err(), Some(Error::TruncatedInput));
}

#[test]
fn from_results_reports_first_failure() {
    let fs = UnifiedMPQArchive::from_existing(vec![FakeArchive::new(tileset_files())]);
    let loader = AssetLoader::new(Tileset::Desert, &fs);
    let r = Assets::from_results(
        loader.load_cv5s(),
        Err(Error::FileNotFound),
        loader.load_vx4s(),
        Err(Error::TruncatedInput),
        loader.load_wpes(),
    );
    assert_eq!(r.err(), Some(Error::FileNotFound));
    let ok = Assets::from_results(
        loader.load_cv5s(),
        loader.load_vf4s(),
        loader.load_vx4s(),
        loader.load_vr4s(),
        loader.load_wpes(),
    );
    assert!(ok.is_ok());
}

#[test]
fn tileset_display_names() {
    assert_eq!(Tileset::Ashworld.display_name(), "Ash");
    assert_eq!(Tileset::Badlands.display_name(), "Badland");
    assert_eq!(Tileset::SpacePlatform.display_name(), "Space Platform");
    assert_eq!(Tileset::Arctic.display_name(), "Arctic");
}

#[test]
fn missing_flag_table_fails_the_load() {
    let files: Vec<(&str, Vec<u8>)> =
        tileset_files().into_iter().filter(|(n, _)| !n.ends_with(".vf4")).collect();
    let archive = FakeArchive::new(files);
    let fs = UnifiedMPQArchive::from_existing(vec![archive]);
    let loader = AssetLoader::new(Tileset::Desert, &fs);
    assert_eq!(
        Assets::from(&loader).err(),
        Some(Error::AssetNotFound { tileset: Tileset::Desert, ext: EXT::VF4 })
    );
}

#[test]
fn archives_are_asked_in_order_until_one_gives_the_file() {
    let unified = UnifiedMPQArchive::from_existing(vec![
        FakeArchive::new(vec![]),
        FakeArchive::new(vec![("a", vec![2])]),
        FakeArchive::new(vec![("a", vec![3])]),
    ]);
    assert_eq!(unified.read_file("a"), Ok(vec![2]));
}
