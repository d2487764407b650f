//! Composition of a map's terrain into pixels: each pixel goes from its map
//! cell through the tile group, minitile graphic and pixel block tables to
//! a palette color.
use vstd::prelude::*;

use crate::assets::Assets;
use crate::chk::{Dimensions, MegaTileID};
use crate::error::Error;
use crate::vr4::VR4;
use crate::vx4::VX4;
use crate::wpe::WPE;

verus! {

/// The edge of a map cell, in pixels.
pub const TILE_SIZE: usize = 32;

/// The edge of a minitile, in pixels.
pub const MINITILE_SIZE: usize = 8;

/// Where the pixel at column `x`, row `y` of a minitile lies in its pixel
/// block; a flipped minitile is read mirrored left to right.
pub open spec fn minitile_pixel_index(x: int, y: int, flipped: bool) -> int {
    if flipped {
        (7 - x) + y * 8
    } else {
        x + y * 8
    }
}

/// The palette index of the pixel at column `x`, row `y` of a minitile
/// drawn from `block`.
pub fn pixel_in_minitile(block: &VR4, flipped: bool, x: usize, y: usize) -> (r: u8)
    requires
        x < 8,
        y < 8,
    ensures
        r == block@[minitile_pixel_index(x as int, y as int, flipped)],
{
    if flipped {
        block[(7 - x) + y * 8]
    } else {
        block[x + y * 8]
    }
}

/// The color of the pixel at column `x`, row `y` of the map, or `None` when
/// an index on the way is out of its table's range.
pub open spec fn pixel_color(
    dims: Dimensions,
    grid: Seq<MegaTileID>,
    assets: Assets,
    x: int,
    y: int,
) -> Option<WPE> {
    let cell = x / 32 + (y / 32) * dims.width;
    if cell >= grid.len() {
        None
    } else {
        let tile = grid[cell];
        let groups = assets.cv5s@;
        if tile.spec_group_index() >= groups.len() {
            None
        } else {
            let graphic = groups[tile.spec_group_index()][tile.spec_subtile_index()] as int;
            let graphics = assets.vx4s@;
            if graphic >= graphics.len() {
                None
            } else {
                let minitile = VX4 { value: graphics[graphic][(x % 32) / 8 + ((y % 32) / 8) * 4] };
                let blocks = assets.vr4s@;
                if minitile.spec_index() >= blocks.len() {
                    None
                } else {
                    let color = blocks[minitile.spec_index()][minitile_pixel_index(
                        x % 8,
                        y % 8,
                        minitile.spec_is_horizontally_flipped(),
                    )] as int;
                    if color >= assets.wpes@.len() {
                        None
                    } else {
                        Some(assets.wpes@[color])
                    }
                }
            }
        }
    }
}

/// The color of the `i`-th pixel of the map in row-major order.
pub open spec fn pixel_at(dims: Dimensions, grid: Seq<MegaTileID>, assets: Assets, i: int) -> Option<
    WPE,
> {
    let w = dims.width * 32;
    pixel_color(dims, grid, assets, i % w, i / w)
}

/// The number of pixels of a map.
pub open spec fn pixel_count(dims: Dimensions) -> int {
    (dims.width * 32) * (dims.height * 32)
}

/// The bitmap of a map, row-major from the top left, `32 * width` pixels
/// wide and `32 * height` high; `IndexOutOfRange` when any pixel cannot be
/// resolved.
pub open spec fn bitmap(dims: Dimensions, grid: Seq<MegaTileID>, assets: Assets) -> Result<
    Seq<WPE>,
    Error,
> {
    if forall|i: int| 0 <= i < pixel_count(dims) ==> (#[trigger] pixel_at(dims, grid, assets, i)) is Some {
        Ok(Seq::new(pixel_count(dims) as nat, |i: int| pixel_at(dims, grid, assets, i)->0))
    } else {
        Err(Error::IndexOutOfRange)
    }
}

/// The color of the pixel at column `x`, row `y` of the map.
pub fn resolve_pixel(
    dimensions: &Dimensions,
    megatiles: &Vec<MegaTileID>,
    assets: &Assets,
    x: usize,
    y: usize,
) -> (r: Option<WPE>)
    requires
        x < dimensions.width * 32,
        y < dimensions.height * 32,
        pixel_count(*dimensions) <= usize::MAX,
    ensures
        r == pixel_color(*dimensions, megatiles@, *assets, x as int, y as int),
{
    proof {
        assert((y / 32) * dimensions.width + x / 32 <= pixel_count(*dimensions)) by (nonlinear_arith)
            requires
                x < dimensions.width * 32,
                y < dimensions.height * 32,
                pixel_count(*dimensions) == (dimensions.width * 32) * (dimensions.height * 32),
        ;
    }
    let cell = x / TILE_SIZE + (y / TILE_SIZE) * dimensions.width;
    if cell >= megatiles.len() {
        return None;
    }
    let tile = &megatiles[cell];
    let group = tile.group_index();
    if group >= assets.cv5s.0.len() {
        return None;
    }
    let graphic = assets.cv5s.0[group].0[tile.subtile_index()] as usize;
    if graphic >= assets.vx4s.0.len() {
        return None;
    }
    let minitile = assets.vx4s.0[graphic][(x % TILE_SIZE) / MINITILE_SIZE + ((y % TILE_SIZE)
        / MINITILE_SIZE) * 4];
    let block = minitile.index();
    if block >= assets.vr4s.0.len() {
        return None;
    }
    let color = pixel_in_minitile(
        &assets.vr4s.0[block],
        minitile.is_horizontally_flipped(),
        x % MINITILE_SIZE,
        y % MINITILE_SIZE,
    ) as usize;
    if color >= assets.wpes.0.len() {
        return None;
    }
    Some(assets.wpes.0[color])
}

/// Resolves every pixel of the map, row-major from the top left, failing
/// with `IndexOutOfRange` as soon as one cannot be resolved.
pub fn generate_bitmap(dimensions: &Dimensions, megatiles: &Vec<MegaTileID>, assets: &Assets) -> (r:
    Result<Vec<WPE>, Error>)
    requires
        pixel_count(*dimensions) <= usize::MAX,
    ensures
        match r {
            Ok(pixels) => bitmap(*dimensions, megatiles@, *assets) == Ok::<Seq<WPE>, Error>(
                pixels@,
            ),
            Err(e) => bitmap(*dimensions, megatiles@, *assets) == Err::<Seq<WPE>, Error>(e),
        },
{
    let ghost dims = *dimensions;
    proof {
        assert(dims.width * 32 * (dims.height * 32) >= 0) by (nonlinear_arith);
        assert(dims.width * 32 <= pixel_count(dims) || dims.height == 0) by (nonlinear_arith)
            requires
                pixel_count(dims) == (dims.width * 32) * (dims.height * 32),
        ;
        assert(dims.height * 32 <= pixel_count(dims) || dims.width == 0) by (nonlinear_arith)
            requires
                pixel_count(dims) == (dims.width * 32) * (dims.height * 32),
        ;
    }
    if dimensions.width == 0 || dimensions.height == 0 {
        let out: Vec<WPE> = Vec::new();
        proof {
            assert(pixel_count(dims) == 0) by (nonlinear_arith)
                requires
                    dims.width == 0 || dims.height == 0,
                    pixel_count(dims) == (dims.width * 32) * (dims.height * 32),
            ;
            assert(out@ =~= Seq::new(
                pixel_count(dims) as nat,
                |i: int| pixel_at(dims, megatiles@, *assets, i)->0,
            ));
        }
        return Ok(out);
    }
    let width = dimensions.width * TILE_SIZE;
    let height = dimensions.height * TILE_SIZE;
    let size = width * height;
    let mut out: Vec<WPE> = Vec::new();
    let mut i: usize = 0;
    while i < size
        invariant
            dims == *dimensions,
            width == dims.width * 32,
            height == dims.height * 32,
            size == pixel_count(dims),
            pixel_count(dims) <= usize::MAX,
            width > 0,
            i <= size,
            out@ =~= Seq::new(i as nat, |k: int| pixel_at(dims, megatiles@, *assets, k)->0),
            forall|k: int| 0 <= k < i ==> (#[trigger] pixel_at(dims, megatiles@, *assets, k)) is Some,
        decreases size - i,
    {
        let x = i % width;
        let y = i / width;
        proof {
            assert(y < height) by (nonlinear_arith)
                requires
                    i < size,
                    size == width * height,
                    y == i / width,
                    width > 0,
            {
                vstd::arithmetic::div_mod::lemma_multiply_divide_lt(i as int, width as int, height as int);
            }
        }
        match resolve_pixel(dimensions, megatiles, assets, x, y) {
            Some(c) => {
                out.push(c);
            },
            None => {
                assert(pixel_at(dims, megatiles@, *assets, i as int) is None);
                return Err(Error::IndexOutOfRange);
            },
        }
        i = i + 1;
    }
    Ok(out)
}

/// A map cell whose reference names a tile group beyond the end of the tile
/// group table makes the whole composition fail with `IndexOutOfRange`.
pub proof fn lemma_missing_group_fails(
    dims: Dimensions,
    grid: Seq<MegaTileID>,
    assets: Assets,
    c: int,
)
    requires
        0 <= c < dims.width * dims.height,
        c < grid.len(),
        grid[c].spec_group_index() >= assets.cv5s@.len(),
    ensures
        bitmap(dims, grid, assets) == Err::<Seq<WPE>, Error>(Error::IndexOutOfRange),
{
    let cw = dims.width as int;
    let ch = dims.height as int;
    let w = cw * 32;
    assert(cw > 0 && ch > 0) by (nonlinear_arith)
        requires
            0 <= c < cw * ch,
            cw >= 0,
            ch >= 0,
    ;
    let col = c % cw;
    let row = c / cw;
    vstd::arithmetic::div_mod::lemma_fundamental_div_mod(c, cw);
    assert(0 <= col < cw);
    assert(0 <= row < ch) by (nonlinear_arith)
        requires
            c == cw * row + col,
            0 <= col < cw,
            0 <= c < cw * ch,
            cw > 0,
    ;
    let x = col * 32;
    let y = row * 32;
    let i = y * w + x;
    assert(0 <= x < w);
    assert(0 <= i < pixel_count(dims)) by (nonlinear_arith)
        requires
            i == y * w + x,
            y == row * 32,
            0 <= row < ch,
            0 <= x < w,
            w == cw * 32,
            pixel_count(dims) == w * (ch * 32),
    ;
    vstd::arithmetic::div_mod::lemma_fundamental_div_mod_converse(i, w, y, x);
    assert(x / 32 == col);
    assert(y / 32 == row);
    assert(col + row * cw == c) by (nonlinear_arith)
        requires
            c == cw * row + col,
    ;
    assert(i % (dims.width * 32) == x && i / (dims.width * 32) == y);
    assert(x / 32 + (y / 32) * dims.width == c);
    assert(pixel_at(dims, grid, assets, i) is None);
}

} // verus!
