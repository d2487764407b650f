use starcraft_assets::chk::{
    read_chunk_header_name, read_chunk_header_size, ChunkName, Controller, Dimensions,
    FileFormatVersion, Header, MegaTileID, ScenarioType, Side, StringData, Tileset,
};
use starcraft_assets::error::{EnumField, Error};

fn read_controller(buf: &Vec<u8>) -> Result<Controller, Error> {
    let mut pos: usize = 0;
    Controller::from_buffer(buf, &mut pos)
}

fn read_side(buf: &Vec<u8>) -> Result<Side, Error> {
    let mut pos: usize = 0;
    Side::from_buffer(buf, &mut pos)
}

fn read_tileset(buf: &Vec<u8>) -> Result<Tileset, Error> {
    let mut pos: usize = 0;
    Tileset::from_buffer(buf, &mut pos)
}

#[test]
fn test_header_does_not_accept_non_utf8_characters() {
    assert_eq!(Header::new([221, 248, 206, 155], 30).is_err(), true);

    let buf = [&vec![221u8, 248, 206, 155][..], &(204 as u64).to_le_bytes().to_vec()[..]].concat();
    let mut pos: usize = 0;
    assert_eq!(Header::from_buffer(&buf, &mut pos).is_err(), true);
}

#[test]
fn header_reads_tag_and_size() {
    let mut buf: Vec<u8> = "DIM ".into();
    buf.extend((4 as u32).to_le_bytes());
    let mut pos: usize = 0;
    let header = Header::from_buffer(&buf, &mut pos).expect("should read header");
    assert_eq!(header.name(), "DIM ");
    assert_eq!(header.size(), 4);
    assert_eq!(pos, 8);
}

#[test]
fn header_fails_on_short_input() {
    let buf: Vec<u8> = vec![b'D', b'I', b'M', b' ', 4, 0, 0];
    let mut pos: usize = 0;
    assert_eq!(Header::from_buffer(&buf, &mut pos).err(), Some(Error::TruncatedInput));
    assert_eq!(pos, 0);
}

#[test]
fn header_reports_invalid_tag() {
    assert_eq!(Header::new([0xff, b'A', b'B', b'C'], 2).err(), Some(Error::InvalidTag));
}

#[test]
fn controller_test_reads_inactive() {
    let buf: Vec<u8> = (0 as u8).to_le_bytes().to_vec();
    assert_eq!(read_controller(&buf).expect("should read inactive controller"), Controller::Inactive)
}

#[test]
fn test_reads_rescue_passive() {
    let buf: Vec<u8> = (3 as u64).to_le_bytes().to_vec();
    assert_eq!(
        read_controller(&buf).expect("should read rescue passive controller"),
        Controller::RescuePassive
    )
}

#[test]
fn test_reads_unused() {
    let buf: Vec<u8> = (4 as u8).to_le_bytes().to_vec();
    assert_eq!(read_controller(&buf).expect("should read unused controller"), Controller::Unused)
}

#[test]
fn test_reads_computer() {
    let buf: Vec<u8> = (5 as u8).to_le_bytes().to_vec();
    assert_eq!(read_controller(&buf).expect("should read computer controller"), Controller::Computer)
}

#[test]
fn test_reads_human_open_slot() {
    let buf: Vec<u8> = (6 as u8).to_le_bytes().to_vec();
    assert_eq!(
        read_controller(&buf).expect("should read human open slot controller"),
        Controller::HumanOpenSlot
    )
}

#[test]
fn controller_test_reads_neutral() {
    let buf: Vec<u8> = (7 as u8).to_le_bytes().to_vec();
    assert_eq!(read_controller(&buf).expect("should read neutral controller"), Controller::Neutral)
}

#[test]
fn test_fails_computer_game() {
    let buf: Vec<u8> = (1 as u8).to_le_bytes().to_vec();
    assert_eq!(read_controller(&buf).is_err(), true)
}

#[test]
fn test_fails_human_occupied() {
    let buf: Vec<u8> = (2 as u8).to_le_bytes().to_vec();
    assert_eq!(read_controller(&buf).is_err(), true)
}

#[test]
fn test_fails_closed_slot() {
    let buf: Vec<u8> = (8 as u8).to_le_bytes().to_vec();
    assert_eq!(read_controller(&buf).is_err(), true)
}

#[test]
fn test_fails_if_cursor_is_at_end() {
    let buf: Vec<u8> = vec![];
    assert_eq!(read_controller(&buf).is_err(), true)
}

#[test]
fn controller_failure_names_field_and_value() {
    let buf: Vec<u8> = vec![8];
    assert_eq!(
        read_controller(&buf).err(),
        Some(Error::UnrecognizedEnumValue { field: EnumField::Controller, raw: 8 })
    );
    assert_eq!(read_controller(&vec![]).err(), Some(Error::TruncatedInput));
}

#[test]
fn test_reads_dimensions() {
    let mut buf: Vec<u8> = (256 as u16).to_le_bytes().to_vec();
    buf.extend((256 as u16).to_le_bytes().to_vec());

    let mut pos: usize = 0;
    assert_eq!(
        Dimensions::from_buffer(&buf, &mut pos).expect("should read dimensions"),
        Dimensions { width: 256, height: 256 }
    )
}

#[test]
fn dimensions_read_width_then_height() {
    let buf: Vec<u8> = vec![0x40, 0x00, 0x80, 0x00];
    let mut pos: usize = 0;
    assert_eq!(Dimensions::from_buffer(&buf, &mut pos), Ok(Dimensions { width: 64, height: 128 }));
    assert_eq!(pos, 4);
}

#[test]
fn test_reads_utf8_chunk_header() {
    let buf: Vec<u8> = "ERA ".into();
    let mut pos: usize = 0;
    assert_eq!(
        read_chunk_header_name(&buf, &mut pos).expect("should read utf8 chunk header"),
        "ERA "
    )
}

#[test]
fn test_fail_read_non_utf8_chunk_header() {
    let buf: Vec<u8> = vec![221, 248, 206, 155];
    let mut pos: usize = 0;
    assert_eq!(read_chunk_header_name(&buf, &mut pos).is_err(), true)
}

#[test]
fn test_reads_chunk_header_size() {
    let buf: Vec<u8> = (204 as u64).to_le_bytes().to_vec();
    let mut pos: usize = 0;
    assert_eq!(read_chunk_header_size(&buf, &mut pos).expect("should read chunk header size"), 204)
}

#[test]
fn chunk_header_size_is_little_endian() {
    let buf: Vec<u8> = vec![0x01, 0x02, 0x03, 0x04];
    let mut pos: usize = 0;
    assert_eq!(read_chunk_header_size(&buf, &mut pos), Ok(0x04030201));
}

#[test]
fn test_reads_zerg() {
    let buf: Vec<u8> = (0 as u8).to_le_bytes().to_vec();
    assert_eq!(read_side(&buf).expect("should read zerg side"), Side::Zerg)
}

#[test]
fn test_reads_terran() {
    let buf: Vec<u8> = (1 as u8).to_le_bytes().to_vec();
    assert_eq!(read_side(&buf).expect("should read zerg side"), Side::Terran)
}

#[test]
fn test_reads_protoss() {
    let buf: Vec<u8> = (2 as u8).to_le_bytes().to_vec();
    assert_eq!(read_side(&buf).expect("should read protoss side"), Side::Protoss)
}

#[test]
fn test_reads_independent() {
    let buf: Vec<u8> = (3 as u8).to_le_bytes().to_vec();
    assert_eq!(read_side(&buf).expect("should read independent side"), Side::Independent)
}

#[test]
fn side_test_reads_neutral() {
    let buf: Vec<u8> = (4 as u8).to_le_bytes().to_vec();
    assert_eq!(read_side(&buf).expect("should read neutral side"), Side::Neutral)
}

#[test]
fn test_reads_user_selectable() {
    let buf: Vec<u8> = (5 as u8).to_le_bytes().to_vec();
    assert_eq!(read_side(&buf).expect("should read user selectable side"), Side::UserSelectable)
}

#[test]
fn test_reads_random() {
    let buf: Vec<u8> = (6 as u8).to_le_bytes().to_vec();
    assert_eq!(read_side(&buf).expect("should read random side"), Side::Random)
}

#[test]
fn side_test_reads_inactive() {
    let buf: Vec<u8> = (7 as u8).to_le_bytes().to_vec();
    assert_eq!(read_side(&buf).expect("should read inactive side"), Side::Inactive)
}

#[test]
fn side_rejects_unknown_value() {
    assert_eq!(
        read_side(&vec![9]).err(),
        Some(Error::UnrecognizedEnumValue { field: EnumField::Side, raw: 9 })
    );
}

#[test]
fn test_reads_badlands() {
    let buf: Vec<u8> = (80 as u64).to_le_bytes().to_vec();
    assert_eq!(read_tileset(&buf).expect("should read badlands tileset"), Tileset::Badlands)
}

#[test]
fn test_reads_space_platform() {
    let buf: Vec<u8> = (81 as u64).to_le_bytes().to_vec();
    assert_eq!(
        read_tileset(&buf).expect("should read space platform tileset"),
        Tileset::SpacePlatform
    )
}

#[test]
fn test_reads_installation() {
    let buf: Vec<u8> = (82 as u64).to_le_bytes().to_vec();
    assert_eq!(read_tileset(&buf).expect("should read installation tileset"), Tileset::Installation)
}

#[test]
fn test_reads_ashworld() {
    let buf: Vec<u8> = (83 as u64).to_le_bytes().to_vec();
    assert_eq!(read_tileset(&buf).expect("should read ashworld tileset"), Tileset::Ashworld)
}

#[test]
fn test_reads_jungle() {
    let buf: Vec<u8> = (84 as u64).to_le_bytes().to_vec();
    assert_eq!(read_tileset(&buf).expect("should read jungle tileset"), Tileset::Jungle)
}

#[test]
fn test_reads_desert() {
    let buf: Vec<u8> = (85 as u64).to_le_bytes().to_vec();
    assert_eq!(read_tileset(&buf).expect("should read desert tileset"), Tileset::Desert)
}

#[test]
fn test_reads_arctic() {
    let buf: Vec<u8> = (86 as u64).to_le_bytes().to_vec();
    assert_eq!(read_tileset(&buf).expect("should read arctic tileset"), Tileset::Arctic)
}

#[test]
fn test_reads_twlight() {
    let buf: Vec<u8> = (87 as u64).to_le_bytes().to_vec();
    assert_eq!(read_tileset(&buf).expect("should read twlight tileset"), Tileset::Twilight)
}

#[test]
fn test_fails_reads_non_little_endian_input() {
    let buf: Vec<u8> = vec![0];
    assert_eq!(read_tileset(&buf).is_err(), true)
}

#[test]
fn tileset_masking_keeps_the_identifier() {
    for v in [0u16, 5, 7, 8, 0x55, 0x8003, 0xffff] {
        assert_eq!(Tileset::from_raw(v), Tileset::from_raw(v & 0x7));
    }
    assert_eq!(Tileset::from_raw(0xfff9), Tileset::SpacePlatform);
}

#[test]
fn scenario_type_and_version_decode() {
    let mut pos: usize = 0;
    assert_eq!(ScenarioType::from_buffer(b"RAWB", &mut pos), Ok(ScenarioType::RAWB));
    let mut pos: usize = 0;
    assert_eq!(ScenarioType::from_buffer(b"RAWS", &mut pos), Ok(ScenarioType::RAWS));
    let mut pos: usize = 0;
    assert_eq!(
        ScenarioType::from_buffer(&[1, 0, 0, 0], &mut pos),
        Err(Error::UnrecognizedEnumValue { field: EnumField::ScenarioType, raw: 1 })
    );
    let mut pos: usize = 0;
    assert_eq!(FileFormatVersion::from_buffer(&[205, 0], &mut pos), Ok(FileFormatVersion::BroodWar));
    let mut pos: usize = 0;
    assert_eq!(FileFormatVersion::from_buffer(&[59, 0], &mut pos), Ok(FileFormatVersion::Starcraft));
    let mut pos: usize = 0;
    assert_eq!(
        FileFormatVersion::from_buffer(&[63, 0], &mut pos),
        Ok(FileFormatVersion::StarcraftHybrid)
    );
    let mut pos: usize = 0;
    assert_eq!(
        FileFormatVersion::from_buffer(&[60, 0], &mut pos),
        Err(Error::UnrecognizedEnumValue { field: EnumField::FileFormatVersion, raw: 60 })
    );
}

#[test]
fn megatile_splits_group_and_subtile() {
    let mut pos: usize = 0;
    let tile = MegaTileID::from_buffer(&[0x35, 0x12], &mut pos).unwrap();
    assert_eq!(tile.raw_value, 0x1235);
    assert_eq!(tile.group_index(), 0x123);
    assert_eq!(tile.subtile_index(), 0x5);
    let top = MegaTileID { raw_value: 0xffff };
    assert_eq!(top.group_index(), 0x7ff);
    assert_eq!(top.subtile_index(), 0xf);
}

#[test]
fn chunk_names_round_trip() {
    let names = [
        ChunkName::Type,
        ChunkName::Version,
        ChunkName::Tileset,
        ChunkName::Controllers,
        ChunkName::Dimensions,
        ChunkName::Side,
        ChunkName::MegaTileIDs,
        ChunkName::StringData,
    ];
    for n in names {
        assert_eq!(ChunkName::from_str(n.as_str()), Some(n));
    }
    assert_eq!(ChunkName::Controllers.as_str(), "OWNR");
    assert_eq!(ChunkName::from_str("UNIT"), None);
    assert_eq!(ChunkName::from_str("era "), None);
}

#[test]
fn string_table_reads_nul_terminated_strings() {
    // two strings: offsets 6 and 9
    let buf: Vec<u8> = vec![2, 0, 6, 0, 9, 0, b'a', b'b', 0, b'c', b'd'];
    let table = StringData::from_buffer(&buf).unwrap();
    assert_eq!(table.0, vec![vec![b'a', b'b', 0], vec![b'c', b'd']]);
    let beyond: Vec<u8> = vec![1, 0, 40, 0];
    assert_eq!(StringData::from_buffer(&beyond).unwrap().0, vec![Vec::<u8>::new()]);
    assert_eq!(StringData::from_buffer(&[3, 0, 4, 0]).err(), Some(Error::TruncatedInput));
    assert_eq!(StringData::from_buffer(&[1]).err(), Some(Error::TruncatedInput));
}
