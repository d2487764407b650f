use starcraft_assets::chk::{
    Chunk, ChunkName, Controller, Dimensions, FileFormatVersion, Header, ScenarioType, Side,
    Tileset,
};
use starcraft_assets::error::Error;
use starcraft_assets::map::ScenarioMap;

fn chunk(tag: &str, body: &[u8]) -> Vec<u8> {
    let mut out: Vec<u8> = tag.as_bytes().to_vec();
    out.extend((body.len() as u32).to_le_bytes());
    out.extend_from_slice(body);
    out
}

fn grid(cells: &[u16]) -> Vec<u8> {
    cells.iter().flat_map(|c| c.to_le_bytes()).collect()
}

fn required_chunks() -> Vec<Vec<u8>> {
    vec![
        chunk("VER ", &[205, 0]),
        chunk("ERA ", &[4, 0]),
        chunk("OWNR", &[6, 6, 5, 5, 0, 0, 0, 0, 0, 0, 0, 7]),
        chunk("DIM ", &[3, 0, 2, 0]),
        chunk("SIDE", &[0, 1, 2, 5, 6, 7, 7, 7, 7, 7, 7, 4]),
        chunk("MTXM", &grid(&[1, 2, 3, 4, 5, 6])),
    ]
}

#[test]
fn complete_scenario_parses() {
    let mut buf: Vec<u8> = chunk("TYPE", b"RAWB");
    for c in required_chunks() {
        buf.extend(c);
    }
    buf.extend(chunk("UNIT", &[1, 2, 3]));
    let map = ScenarioMap::from_chunks(&buf).expect("should parse scenario");
    assert_eq!(map.scenario_type, Some(ScenarioType::RAWB));
    assert_eq!(map.file_format_version, FileFormatVersion::BroodWar);
    assert_eq!(map.tileset, Tileset::Jungle);
    assert_eq!(map.controllers.len(), 12);
    assert_eq!(map.controllers[0], Controller::HumanOpenSlot);
    assert_eq!(map.controllers[2], Controller::Computer);
    assert_eq!(map.controllers[11], Controller::Neutral);
    assert_eq!(map.dimensions, Dimensions { width: 3, height: 2 });
    assert_eq!(map.sides[3], Side::UserSelectable);
    assert_eq!(map.sides[11], Side::Neutral);
    assert_eq!(map.dimensions.width * map.dimensions.height, map.mega_tile_ids.len());
    assert_eq!(map.mega_tile_ids[5].raw_value, 6);
    assert!(map.str_data.is_none());
}

#[test]
fn later_chunk_of_a_kind_wins() {
    let mut buf: Vec<u8> = Vec::new();
    for c in required_chunks() {
        buf.extend(c);
    }
    buf.extend(chunk("ERA ", &[6, 0]));
    buf.extend(chunk("STR ", &[1, 0, 4, 0, b'h', b'i', 0]));
    let map = ScenarioMap::from_chunks(&buf).unwrap();
    assert_eq!(map.tileset, Tileset::Arctic);
    assert_eq!(map.str_data.unwrap().0, vec![vec![b'h', b'i', 0]]);
}

#[test]
fn each_missing_required_chunk_is_named() {
    let names = [
        ChunkName::Version,
        ChunkName::Tileset,
        ChunkName::Controllers,
        ChunkName::Dimensions,
        ChunkName::Side,
        ChunkName::MegaTileIDs,
    ];
    for (skip, name) in names.iter().enumerate() {
        let mut buf: Vec<u8> = Vec::new();
        for (i, c) in required_chunks().into_iter().enumerate() {
            if i != skip {
                buf.extend(c);
            }
        }
        assert_eq!(ScenarioMap::from_chunks(&buf).err(), Some(Error::MissingRequiredChunk(*name)));
    }
}

#[test]
fn empty_scenario_misses_the_version() {
    assert_eq!(
        ScenarioMap::from_chunks(&[]).err(),
        Some(Error::MissingRequiredChunk(ChunkName::Version))
    );
}

#[test]
fn chunk_longer_than_buffer_is_truncated() {
    let mut buf: Vec<u8> = required_chunks().concat();
    buf.extend(b"MTXM");
    buf.extend((10u32).to_le_bytes());
    buf.extend([0, 0]);
    assert_eq!(ScenarioMap::from_chunks(&buf).err(), Some(Error::TruncatedChunk));
}

#[test]
fn partial_header_is_truncated_input() {
    let mut buf: Vec<u8> = required_chunks().concat();
    buf.extend(b"SID");
    assert_eq!(ScenarioMap::from_chunks(&buf).err(), Some(Error::TruncatedInput));
}

#[test]
fn non_utf8_tag_is_refused() {
    let mut buf: Vec<u8> = vec![221, 248, 206, 155, 0, 0, 0, 0];
    buf.extend(required_chunks().concat());
    assert_eq!(ScenarioMap::from_chunks(&buf).err(), Some(Error::InvalidTag));
}

#[test]
fn wrong_fixed_sizes_are_refused() {
    let cases: [(&str, Vec<u8>, ChunkName); 6] = [
        ("VER ", vec![205, 0, 0], ChunkName::Version),
        ("ERA ", vec![1], ChunkName::Tileset),
        ("OWNR", vec![0; 11], ChunkName::Controllers),
        ("DIM ", vec![1, 0, 1, 0, 0], ChunkName::Dimensions),
        ("SIDE", vec![0; 13], ChunkName::Side),
        ("MTXM", vec![0; 3], ChunkName::MegaTileIDs),
    ];
    for (tag, body, name) in cases {
        let size = body.len();
        let buf = chunk(tag, &body);
        assert_eq!(
            ScenarioMap::from_chunks(&buf).err(),
            Some(Error::InvalidChunkSize { chunk: name, size })
        );
    }
    let too_big = chunk("MTXM", &vec![0; 0x20002]);
    assert_eq!(
        ScenarioMap::from_chunks(&too_big).err(),
        Some(Error::InvalidChunkSize { chunk: ChunkName::MegaTileIDs, size: 0x20002 })
    );
}

#[test]
fn largest_tile_grid_is_accepted() {
    let mut buf: Vec<u8> = Vec::new();
    for c in required_chunks() {
        buf.extend(c);
    }
    buf.extend(chunk("MTXM", &vec![0; 0x20000]));
    let map = ScenarioMap::from_chunks(&buf).unwrap();
    assert_eq!(map.mega_tile_ids.len(), 0x10000);
}

#[test]
fn chunk_read_skips_unknown_tags() {
    let header = Header::new(*b"UNIT", 3).unwrap();
    assert!(Chunk::read(&header, &[1, 2, 3]).unwrap().is_none());
    let header = Header::new(*b"DIM ", 4).unwrap();
    match Chunk::read(&header, &[2, 0, 1, 0]).unwrap() {
        Some(Chunk::Dimensions(d)) => assert_eq!(d, Dimensions { width: 2, height: 1 }),
        other => panic!("unexpected chunk {:?}", other),
    }
}
