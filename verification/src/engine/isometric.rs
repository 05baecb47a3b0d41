use vstd::prelude::*;
use crate::math::arith::{tdiv, trem};
use crate::math::point::{Point, fits_i32};

verus! {

/// A diamond tile is 64 pixels wide on screen.
pub const TILE_WIDTH: i32 = 64;
/// A diamond tile is 32 pixels tall on screen.
pub const TILE_HEIGHT: i32 = 32;
/// Map width in mega tiles.
pub const DMAXX: i32 = 40;
/// Map height in mega tiles.
pub const DMAXY: i32 = 40;
/// Map width in micro tiles.
pub const MAXDUNX: i32 = 112;
/// Map height in micro tiles.
pub const MAXDUNY: i32 = 112;
/// Border around the mega tile map, in micro tiles.
pub const BORDER_SIZE: i32 = 16;

/// The isometric projection: screen = ((y - x) * 32, (y + x) * -16).
pub open spec fn spec_world_to_screen(x: int, y: int) -> (int, int) {
    ((y - x) * 32, (y + x) * -16)
}

/// The inverse projection, with Rust's truncating division.
pub open spec fn spec_screen_to_world(sx: int, sy: int) -> (int, int) {
    (tdiv(2 * sy + sx, -64), tdiv(2 * sy - sx, -64))
}

/// The projection of `(x, y)` fits in `i32`, intermediate values included.
pub open spec fn world_to_screen_fits(x: int, y: int) -> bool {
    fits_i32(y - x) && fits_i32(y + x) && fits_i32((y - x) * 32) && fits_i32((y + x) * -16)
}

/// The inverse projection of `(sx, sy)` fits in `i32`.
pub open spec fn screen_to_world_fits(sx: int, sy: int) -> bool {
    fits_i32(2 * sy) && fits_i32(2 * sy + sx) && fits_i32(2 * sy - sx)
}

/// World coordinates to screen coordinates.
pub fn world_to_screen(world_x: i32, world_y: i32) -> (r: (i32, i32))
    requires
        world_to_screen_fits(world_x as int, world_y as int),
    ensures
        (r.0 as int, r.1 as int) == spec_world_to_screen(world_x as int, world_y as int),
{
    let screen_x = (world_y - world_x) * 32;
    let screen_y = (world_y + world_x) * -16;
    (screen_x, screen_y)
}

/// Screen coordinates to world coordinates.
pub fn screen_to_world(screen_x: i32, screen_y: i32) -> (r: (i32, i32))
    requires
        screen_to_world_fits(screen_x as int, screen_y as int),
    ensures
        (r.0 as int, r.1 as int) == spec_screen_to_world(screen_x as int, screen_y as int),
{
    let world_x = (2 * screen_y + screen_x) / -64;
    let world_y = (2 * screen_y - screen_x) / -64;
    (world_x, world_y)
}

/// Projecting a world position to the screen and back gives the same position.
pub proof fn lemma_world_screen_round_trip(x: int, y: int)
    requires
        world_to_screen_fits(x, y),
        screen_to_world_fits(spec_world_to_screen(x, y).0, spec_world_to_screen(x, y).1),
    ensures
        spec_screen_to_world(spec_world_to_screen(x, y).0, spec_world_to_screen(x, y).1) == (x, y),
{
    let sx = (y - x) * 32;
    let sy = (y + x) * -16;
    assert(2 * sy + sx == -64 * x) by (nonlinear_arith)
        requires
            sx == (y - x) * 32,
            sy == (y + x) * -16,
    ;
    assert(2 * sy - sx == -64 * y) by (nonlinear_arith)
        requires
            sx == (y - x) * 32,
            sy == (y + x) * -16,
    ;
    lemma_tdiv_exact(x, -64);
    lemma_tdiv_exact(y, -64);
}

/// Dividing an exact multiple gives the factor back.
pub proof fn lemma_tdiv_exact(q: int, d: int)
    requires
        d == -64 || d == 2 || d == 64 || d == 32,
    ensures
        tdiv(d * q, d) == q,
{
    if q >= 0 {
        if d > 0 {
            assert(d * q >= 0) by (nonlinear_arith)
                requires d > 0, q >= 0;
            vstd::arithmetic::div_mod::lemma_div_by_multiple(q, d);
            assert((q * d) / d == q);
            assert(d * q == q * d) by (nonlinear_arith);
        } else {
            assert(d * q <= 0) by (nonlinear_arith)
                requires d < 0, q >= 0;
            if q == 0 {
            } else {
                assert(-d > 0);
                assert((d * q) < 0) by (nonlinear_arith)
                    requires d < 0, q > 0;
                assert(-(d * q) == q * (-d)) by (nonlinear_arith);
                vstd::arithmetic::div_mod::lemma_div_by_multiple(q, -d);
            }
        }
    } else {
        if d > 0 {
            assert(d * q < 0) by (nonlinear_arith)
                requires d > 0, q < 0;
            assert(-(d * q) == (-q) * d) by (nonlinear_arith);
            vstd::arithmetic::div_mod::lemma_div_by_multiple(-q, d);
        } else {
            assert(d * q > 0) by (nonlinear_arith)
                requires d < 0, q < 0;
            assert(-(d * q) == (-q) * d) by (nonlinear_arith);
            assert(d * q == (-q) * (-d)) by (nonlinear_arith);
            vstd::arithmetic::div_mod::lemma_div_by_multiple(-q, -d);
        }
    }
}

/// The number of whole or partial tiles that cover a viewport: (columns, rows).
pub open spec fn spec_tiles_in_view(viewport_width: u32, viewport_height: u32) -> (int, int) {
    (
        viewport_width / 64 + if viewport_width % 64 != 0 { 1int } else { 0int },
        viewport_height / 32 + if viewport_height % 32 != 0 { 1int } else { 0int },
    )
}

/// Tiles (columns, rows) needed to cover a viewport, partial tiles included.
pub fn tiles_in_view(viewport_width: u32, viewport_height: u32) -> (r: (i32, i32))
    ensures
        (r.0 as int, r.1 as int) == spec_tiles_in_view(viewport_width, viewport_height),
{
    let mut columns = (viewport_width / 64) as i32;
    if viewport_width % 64 != 0 {
        columns += 1;
    }
    let mut rows = (viewport_height / 32) as i32;
    if viewport_height % 32 != 0 {
        rows += 1;
    }
    (columns, rows)
}

/// Move a tile on the isometric grid: right/left and down/up on screen.
pub fn shift_grid(tile: &mut Point, horizontal: i32, vertical: i32)
    requires
        fits_i32(vertical + horizontal),
        fits_i32(vertical - horizontal),
        fits_i32(old(tile).x + (vertical + horizontal)),
        fits_i32(old(tile).y + (vertical - horizontal)),
    ensures
        final(tile).x == old(tile).x + vertical + horizontal,
        final(tile).y == old(tile).y + vertical - horizontal,
{
    tile.x += vertical + horizontal;
    tile.y += vertical - horizontal;
}

/// The tile under a screen position before diamond alignment, following Diablo's
/// `ConvertToTileGrid`: start from the view tile shifted to the top-left of the
/// screen, align the grid by the parity of the tile counts, then step by whole tiles.
pub open spec fn spec_screen_to_tile(
    screen_x: int,
    screen_y: int,
    view: Point,
    viewport_width: u32,
    viewport_height: u32,
    tile_offset_x: int,
    tile_offset_y: int,
) -> (int, int) {
    let (columns, rows) = spec_tiles_in_view(viewport_width, viewport_height);
    let h0 = -tdiv(columns, 2);
    let v0 = -tdiv(rows, 2);
    let x0 = view.x + (v0 + h0);
    let y0 = view.y + (v0 - h0);
    let ax = screen_x + tile_offset_x;
    let ay = screen_y + tile_offset_y;
    let even_c = trem(columns, 2) == 0;
    let even_r = trem(rows, 2) == 0;
    let ay2 = if even_c && even_r { ay + 16 } else { ay };
    let ax2 = if !even_c && !even_r { ax - 32 } else { ax };
    let y1 = if !even_c && even_r { y0 + 1 } else { y0 };
    let tx = tdiv(ax2, 64);
    let ty = tdiv(ay2, 32);
    (x0 + (ty + tx), y1 + (ty - tx))
}

/// The view tile and the screen position are small enough that no step of
/// `screen_to_tile` overflows.
pub open spec fn screen_to_tile_fits(
    screen_x: int,
    screen_y: int,
    view: Point,
    tile_offset_x: int,
    tile_offset_y: int,
) -> bool {
    &&& -0x1000_0000 <= view.x <= 0x1000_0000
    &&& -0x1000_0000 <= view.y <= 0x1000_0000
    &&& -0x1000_0000 <= screen_x <= 0x1000_0000
    &&& -0x1000_0000 <= screen_y <= 0x1000_0000
    &&& -0x1000_0000 <= tile_offset_x <= 0x1000_0000
    &&& -0x1000_0000 <= tile_offset_y <= 0x1000_0000
}

/// The tile under a screen position, given the view tile, the viewport size and the
/// sub-tile offset of the rendering.
pub fn screen_to_tile(
    screen_x: i32,
    screen_y: i32,
    view_tile: Point,
    viewport_width: u32,
    viewport_height: u32,
    tile_offset_x: i32,
    tile_offset_y: i32,
) -> (p: Point)
    requires
        screen_to_tile_fits(
            screen_x as int,
            screen_y as int,
            view_tile,
            tile_offset_x as int,
            tile_offset_y as int,
        ),
    ensures
        (p.x as int, p.y as int) == spec_screen_to_tile(
            screen_x as int,
            screen_y as int,
            view_tile,
            viewport_width,
            viewport_height,
            tile_offset_x as int,
            tile_offset_y as int,
        ),
{
    let (columns, rows) = tiles_in_view(viewport_width, viewport_height);
    let lrow = rows;
    let mut current_tile = view_tile;
    shift_grid(&mut current_tile, -(columns / 2), -(lrow / 2));

    let mut adjusted_screen_x = screen_x + tile_offset_x;
    let mut adjusted_screen_y = screen_y + tile_offset_y;

    if (columns % 2) == 0 && (lrow % 2) == 0 {
        adjusted_screen_y += TILE_HEIGHT / 2;
    } else if (columns % 2) != 0 && (lrow % 2) != 0 {
        adjusted_screen_x -= TILE_WIDTH / 2;
    } else if (columns % 2) != 0 && (lrow % 2) == 0 {
        current_tile.y += 1;
    }

    let tx = adjusted_screen_x / TILE_WIDTH;
    let ty = adjusted_screen_y / TILE_HEIGHT;
    shift_grid(&mut current_tile, tx, ty);
    current_tile
}

/// `v` clamped into `[lo, hi]`.
pub open spec fn clamp_int(v: int, lo: int, hi: int) -> int {
    if v < lo { lo } else if v > hi { hi } else { v }
}

/// Whether the position within its tile lies above the upper-left edge of the diamond.
pub open spec fn diamond_flipy(screen_x: int, screen_y: int) -> bool {
    trem(screen_y, 32) < tdiv(trem(screen_x, 64), 2)
}

/// Whether the position within its tile lies below the lower-right edge of the diamond.
pub open spec fn diamond_flipx(screen_x: int, screen_y: int) -> bool {
    trem(screen_y, 32) >= 32 - tdiv(trem(screen_x, 64), 2)
}

/// Move a tile to the diamond that a screen position actually falls in, then keep it
/// on the micro tile map. Returns whether the cursor should be flipped.
pub fn shift_to_diamond_grid_alignment(screen_x: i32, screen_y: i32, tile: &mut Point) -> (flip: bool)
    requires
        old(tile).y > i32::MIN,
        old(tile).x < i32::MAX,
    ensures
        final(tile).y == clamp_int(
            old(tile).y - if diamond_flipy(screen_x as int, screen_y as int) { 1int } else { 0int },
            0,
            MAXDUNY - 1,
        ),
        final(tile).x == clamp_int(
            old(tile).x + if diamond_flipx(screen_x as int, screen_y as int) { 1int } else { 0int },
            0,
            MAXDUNX - 1,
        ),
        0 <= final(tile).x < MAXDUNX,
        0 <= final(tile).y < MAXDUNY,
        flip == ((diamond_flipy(screen_x as int, screen_y as int) && diamond_flipx(
            screen_x as int,
            screen_y as int,
        )) || ((diamond_flipy(screen_x as int, screen_y as int) || diamond_flipx(
            screen_x as int,
            screen_y as int,
        )) && trem(screen_x as int, 64) < 32)),
{
    let px = screen_x % TILE_WIDTH;
    let py = screen_y % TILE_HEIGHT;

    let flipy = py < (px / 2);
    if flipy {
        tile.y -= 1;
    }
    let flipx = py >= TILE_HEIGHT - (px / 2);
    if flipx {
        tile.x += 1;
    }

    tile.x = if tile.x < 0 { 0 } else if tile.x > MAXDUNX - 1 { MAXDUNX - 1 } else { tile.x };
    tile.y = if tile.y < 0 { 0 } else if tile.y > MAXDUNY - 1 { MAXDUNY - 1 } else { tile.y };

    (flipy && flipx) || ((flipy || flipx) && px < TILE_WIDTH / 2)
}

/// `screen_to_tile` with no sub-tile offset, followed by diamond alignment.
pub fn screen_to_tile_simple(
    screen_x: i32,
    screen_y: i32,
    view_tile: Point,
    viewport_width: u32,
    viewport_height: u32,
) -> (p: Point)
    requires
        screen_to_tile_fits(screen_x as int, screen_y as int, view_tile, 0, 0),
    ensures
        0 <= p.x < MAXDUNX,
        0 <= p.y < MAXDUNY,
        ({
            let (x, y) = spec_screen_to_tile(
                screen_x as int,
                screen_y as int,
                view_tile,
                viewport_width,
                viewport_height,
                0,
                0,
            );
            &&& p.x == clamp_int(
                x + if diamond_flipx(screen_x as int, screen_y as int) { 1int } else { 0int },
                0,
                MAXDUNX - 1,
            )
            &&& p.y == clamp_int(
                y - if diamond_flipy(screen_x as int, screen_y as int) { 1int } else { 0int },
                0,
                MAXDUNY - 1,
            )
        }),
{
    let mut tile = screen_to_tile(screen_x, screen_y, view_tile, viewport_width, viewport_height, 0, 0);
    shift_to_diamond_grid_alignment(screen_x, screen_y, &mut tile);
    tile
}

/// World pixel coordinates to world tile coordinates on the orthogonal grid.
#[verifier::nonlinear]
pub fn world_pixel_to_tile(world_pixel_x: i32, world_pixel_y: i32, tile_size: i32) -> (p: Point)
    requires
        tile_size != 0,
        tile_size == -1 ==> world_pixel_x != i32::MIN && world_pixel_y != i32::MIN,
    ensures
        p.x == tdiv(world_pixel_x as int, tile_size as int),
        p.y == tdiv(world_pixel_y as int, tile_size as int),
{
    Point::new(world_pixel_x / tile_size, world_pixel_y / tile_size)
}

/// World pixel coordinates to micro tile coordinates, border included.
pub fn world_pixel_to_micro_tile(world_pixel_x: i32, world_pixel_y: i32, tile_size: i32) -> (p: Point)
    requires
        tile_size != 0,
        tile_size == -1 ==> world_pixel_x != i32::MIN && world_pixel_y != i32::MIN,
        fits_i32(tdiv(world_pixel_x as int, tile_size as int) + BORDER_SIZE),
        fits_i32(tdiv(world_pixel_y as int, tile_size as int) + BORDER_SIZE),
    ensures
        p.x == tdiv(world_pixel_x as int, tile_size as int) + BORDER_SIZE,
        p.y == tdiv(world_pixel_y as int, tile_size as int) + BORDER_SIZE,
{
    let tile = world_pixel_to_tile(world_pixel_x, world_pixel_y, tile_size);
    Point::new(tile.x + BORDER_SIZE, tile.y + BORDER_SIZE)
}

/// Mega tile coordinates to micro tile coordinates: `2 * m + 16`.
pub fn mega_to_micro(mega_x: i32, mega_y: i32) -> (r: (i32, i32))
    requires
        fits_i32(mega_x * 2),
        fits_i32(mega_y * 2),
        fits_i32(mega_x * 2 + BORDER_SIZE),
        fits_i32(mega_y * 2 + BORDER_SIZE),
    ensures
        r.0 == mega_x * 2 + BORDER_SIZE,
        r.1 == mega_y * 2 + BORDER_SIZE,
{
    (mega_x * 2 + BORDER_SIZE, mega_y * 2 + BORDER_SIZE)
}

/// Micro tile coordinates to mega tile coordinates: `(m - 16) / 2`.
pub fn micro_to_mega(micro_x: i32, micro_y: i32) -> (r: (i32, i32))
    requires
        fits_i32(micro_x - BORDER_SIZE),
        fits_i32(micro_y - BORDER_SIZE),
    ensures
        r.0 == tdiv(micro_x - BORDER_SIZE, 2),
        r.1 == tdiv(micro_y - BORDER_SIZE, 2),
{
    ((micro_x - BORDER_SIZE) / 2, (micro_y - BORDER_SIZE) / 2)
}

/// Converting mega tile coordinates to micro tiles and back gives the same coordinates.
pub proof fn lemma_mega_micro_round_trip(x: int)
    requires
        fits_i32(x * 2),
        fits_i32(x * 2 + BORDER_SIZE),
    ensures
        fits_i32((x * 2 + BORDER_SIZE) - BORDER_SIZE),
        tdiv((x * 2 + BORDER_SIZE) - BORDER_SIZE, 2) == x,
{
    assert((x * 2 + BORDER_SIZE) - BORDER_SIZE == 2 * x);
    lemma_tdiv_exact(x, 2);
}

/// Whether mega tile coordinates are on the 40x40 map.
pub fn in_mega_bounds(x: i32, y: i32) -> (b: bool)
    ensures
        b == (0 <= x < DMAXX && 0 <= y < DMAXY),
{
    x >= 0 && x < DMAXX && y >= 0 && y < DMAXY
}

/// Whether micro tile coordinates are on the 112x112 map.
pub fn in_micro_bounds(x: i32, y: i32) -> (b: bool)
    ensures
        b == (0 <= x < MAXDUNX && 0 <= y < MAXDUNY),
{
    x >= 0 && x < MAXDUNX && y >= 0 && y < MAXDUNY
}

/// Every mega tile on the map lands on a micro tile on the map.
pub proof fn lemma_mega_in_bounds_maps_into_micro(x: int, y: int)
    requires
        0 <= x < DMAXX,
        0 <= y < DMAXY,
    ensures
        0 <= x * 2 + BORDER_SIZE < MAXDUNX,
        0 <= y * 2 + BORDER_SIZE < MAXDUNY,
{
}

} // verus!
