use starcraft_assets::assets::Assets;
use starcraft_assets::chk::{Dimensions, MegaTileID};
use starcraft_assets::cv5::{CV5s, CV5};
use starcraft_assets::error::Error;
use starcraft_assets::terrain::{generate_bitmap, pixel_in_minitile, resolve_pixel};
use starcraft_assets::vf4::VF4s;
use starcraft_assets::vr4::VR4s;
use starcraft_assets::vx4::{VX4s, VX4};
use starcraft_assets::wpe::{WPEs, WPE};

fn one_color_assets(color: WPE) -> Assets {
    Assets {
        cv5s: CV5s(vec![CV5([0; 16])]),
        vf4s: VF4s(Vec::new()),
        vx4s: VX4s(vec![[VX4 { value: 0 }; 16]]),
        vr4s: VR4s(vec![[0; 64]]),
        wpes: WPEs(vec![color]),
    }
}

#[test]
fn flipped_minitile_reads_mirrored() {
    let mut block = [0u8; 64];
    for (i, v) in block.iter_mut().enumerate() {
        *v = i as u8;
    }
    assert_eq!(pixel_in_minitile(&block, true, 0, 0), 7);
    assert_eq!(pixel_in_minitile(&block, false, 0, 0), 0);
    assert_eq!(pixel_in_minitile(&block, true, 7, 7), 56);
    assert_eq!(pixel_in_minitile(&block, false, 3, 2), 19);
}

#[test]
fn two_cell_map_is_one_color() {
    let color = WPE { r: 5, g: 5, b: 5 };
    let assets = one_color_assets(color);
    let dims = Dimensions { width: 2, height: 1 };
    let grid = vec![MegaTileID { raw_value: 0 }, MegaTileID { raw_value: 5 }];
    let pixels = generate_bitmap(&dims, &grid, &assets).unwrap();
    assert_eq!(pixels.len(), 64 * 32);
    assert!(pixels.iter().all(|p| *p == color));
}

#[test]
fn group_beyond_table_is_index_out_of_range() {
    let assets = one_color_assets(WPE { r: 1, g: 2, b: 3 });
    let dims = Dimensions { width: 2, height: 1 };
    let grid = vec![MegaTileID { raw_value: 0 }, MegaTileID { raw_value: 1 << 4 }];
    assert_eq!(generate_bitmap(&dims, &grid, &assets).err(), Some(Error::IndexOutOfRange));
}

#[test]
fn short_grid_is_index_out_of_range() {
    let assets = one_color_assets(WPE { r: 1, g: 2, b: 3 });
    let dims = Dimensions { width: 2, height: 2 };
    let grid = vec![MegaTileID { raw_value: 0 }; 3];
    assert_eq!(generate_bitmap(&dims, &grid, &assets).err(), Some(Error::IndexOutOfRange));
}

#[test]
fn every_table_is_checked() {
    let color = WPE { r: 9, g: 9, b: 9 };
    let dims = Dimensions { width: 1, height: 1 };
    let grid = vec![MegaTileID { raw_value: 0 }];

    let mut a = one_color_assets(color);
    a.cv5s.0[0].0[0] = 1;
    assert_eq!(generate_bitmap(&dims, &grid, &a).err(), Some(Error::IndexOutOfRange));

    let mut a = one_color_assets(color);
    a.vx4s.0[0][5] = VX4 { value: 2 };
    assert_eq!(generate_bitmap(&dims, &grid, &a).err(), Some(Error::IndexOutOfRange));

    let mut a = one_color_assets(color);
    a.vr4s.0[0][63] = 1;
    assert_eq!(generate_bitmap(&dims, &grid, &a).err(), Some(Error::IndexOutOfRange));
}

#[test]
fn empty_map_has_no_pixels() {
    let assets = one_color_assets(WPE { r: 0, g: 0, b: 0 });
    let dims = Dimensions { width: 0, height: 4 };
    assert_eq!(generate_bitmap(&dims, &Vec::new(), &assets).unwrap().len(), 0);
}

#[test]
fn pixels_follow_every_table() {
    // Two tile groups; group 1, variation 2 points at graphic 1, whose
    // minitile (1, 0) is pixel block 1 drawn flipped.
    let mut cv5 = [0u16; 16];
    cv5[2] = 1;
    let mut vx4 = [VX4 { value: 0 }; 16];
    vx4[1] = VX4 { value: (1 << 1) | 1 };
    let mut block = [0u8; 64];
    block[7] = 2;
    block[6 + 8 * 3] = 1;
    let assets = Assets {
        cv5s: CV5s(vec![CV5([0; 16]), CV5(cv5)]),
        vf4s: VF4s(Vec::new()),
        vx4s: VX4s(vec![[VX4 { value: 0 }; 16], vx4]),
        vr4s: VR4s(vec![[0; 64], block]),
        wpes: WPEs(vec![
            WPE { r: 0, g: 0, b: 0 },
            WPE { r: 1, g: 1, b: 1 },
            WPE { r: 2, g: 2, b: 2 },
        ]),
    };
    let dims = Dimensions { width: 2, height: 1 };
    let grid = vec![MegaTileID { raw_value: 0 }, MegaTileID { raw_value: (1 << 4) | 2 }];
    // Cell 1 starts at x = 32; minitile (1, 0) covers x 40..48, y 0..8.
    assert_eq!(resolve_pixel(&dims, &grid, &assets, 40, 0), Some(WPE { r: 2, g: 2, b: 2 }));
    assert_eq!(resolve_pixel(&dims, &grid, &assets, 41, 3), Some(WPE { r: 1, g: 1, b: 1 }));
    assert_eq!(resolve_pixel(&dims, &grid, &assets, 8, 0), Some(WPE { r: 0, g: 0, b: 0 }));
    let pixels = generate_bitmap(&dims, &grid, &assets).unwrap();
    assert_eq!(pixels[40], WPE { r: 2, g: 2, b: 2 });
    assert_eq!(pixels[41 + 3 * 64], WPE { r: 1, g: 1, b: 1 });
}
