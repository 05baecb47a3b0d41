use vstd::prelude::*;
use vstd::arithmetic::div_mod::lemma_fundamental_div_mod_converse;
use crate::levels::random::{draw_key, draw_range, draw_ratio, seeded_range, seeded_ratio, spec_draw_key};
use crate::tiles::{MegaTile, TilData};

verus! {

/// Width of the dungeon layout in mega tiles.
pub const DMAXX: usize = 40;

/// Height of the dungeon layout in mega tiles.
pub const DMAXY: usize = 40;

/// Width of the level-piece map in micro tiles.
pub const MAXDUNX: usize = 112;

/// Height of the level-piece map in micro tiles.
pub const MAXDUNY: usize = 112;

/// The mega tile kinds of a cathedral layout; `value` gives the number stored in
/// the layout grid.
#[derive(Debug, Clone, Copy, PartialEq, Eq, Structural)]
pub enum Tile {
    VWall,
    HWall,
    Corner,
    DWall,
    DArch,
    VWallEnd,
    HWallEnd,
    HArchEnd,
    VArchEnd,
    HArchVWall,
    VArch,
    HArch,
    Floor,
    HWallVArch,
    Pillar,
    VCorner,
    HCorner,
    DirtHwall,
    DirtVwall,
    VDirtCorner,
    HDirtCorner,
    Dirt,
    DirtHwallEnd,
    DirtVwallEnd,
    VDoor,
    HDoor,
}

/// The number that stands for a tile kind in the layout grid.
pub open spec fn tile_value(t: Tile) -> u8 {
    match t {
        Tile::VWall => 1,
        Tile::HWall => 2,
        Tile::Corner => 3,
        Tile::DWall => 4,
        Tile::DArch => 5,
        Tile::VWallEnd => 6,
        Tile::HWallEnd => 7,
        Tile::HArchEnd => 8,
        Tile::VArchEnd => 9,
        Tile::HArchVWall => 10,
        Tile::VArch => 11,
        Tile::HArch => 12,
        Tile::Floor => 13,
        Tile::HWallVArch => 14,
        Tile::Pillar => 15,
        Tile::VCorner => 16,
        Tile::HCorner => 17,
        Tile::DirtHwall => 18,
        Tile::DirtVwall => 19,
        Tile::VDirtCorner => 20,
        Tile::HDirtCorner => 21,
        Tile::Dirt => 16,
        Tile::DirtHwallEnd => 23,
        Tile::DirtVwallEnd => 24,
        Tile::VDoor => 25,
        Tile::HDoor => 26,
    }
}

impl Tile {
    /// The number that stands for this tile kind in the layout grid.
    pub fn value(self) -> (v: u8)
        ensures
            v == tile_value(self),
    {
        match self {
            Tile::VWall => 1,
            Tile::HWall => 2,
            Tile::Corner => 3,
            Tile::DWall => 4,
            Tile::DArch => 5,
            Tile::VWallEnd => 6,
            Tile::HWallEnd => 7,
            Tile::HArchEnd => 8,
            Tile::VArchEnd => 9,
            Tile::HArchVWall => 10,
            Tile::VArch => 11,
            Tile::HArch => 12,
            Tile::Floor => 13,
            Tile::HWallVArch => 14,
            Tile::Pillar => 15,
            Tile::VCorner => 16,
            Tile::HCorner => 17,
            Tile::DirtHwall => 18,
            Tile::DirtVwall => 19,
            Tile::VDirtCorner => 20,
            Tile::HDirtCorner => 21,
            Tile::Dirt => 16,
            Tile::DirtHwallEnd => 23,
            Tile::DirtVwallEnd => 24,
            Tile::VDoor => 25,
            Tile::HDoor => 26,
        }
    }
}

/// A cathedral level generator and the state of its last generation.
pub struct CathedralGenerator {
    /// Which layout cells belong to a room or the hallway.
    pub dungeon_mask: [[bool; DMAXY]; DMAXX],
    /// The tile value of each layout cell, indexed `[x][y]`.
    pub dungeon: [[u8; DMAXY]; DMAXX],
    /// The level piece of each micro tile, indexed `[x][y]`.
    pub d_piece: [[u16; MAXDUNY]; MAXDUNX],
    /// Whether the chambers are stacked vertically.
    pub vertical_layout: bool,
    /// Whether the first chamber is there.
    pub has_chamber1: bool,
    /// Whether the middle chamber is there.
    pub has_chamber2: bool,
    /// Whether the last chamber is there.
    pub has_chamber3: bool,
    /// The seed the generator was made with.
    pub seed: u32,
}

/// The room mask as nested sequences, `[x][y]`.
pub open spec fn mask_view(m: [[bool; DMAXY]; DMAXX]) -> Seq<Seq<bool>> {
    Seq::new(40, |i: int| m@[i]@)
}

/// The layout grid as nested sequences, `[x][y]`.
pub open spec fn layout_view(d: [[u8; DMAXY]; DMAXX]) -> Seq<Seq<u8>> {
    Seq::new(40, |i: int| d@[i]@)
}

/// The level-piece map as nested sequences, `[x][y]`.
pub open spec fn piece_view(p: [[u16; MAXDUNY]; MAXDUNX]) -> Seq<Seq<u16>> {
    Seq::new(112, |i: int| p@[i]@)
}

/// Cell `(i, j)` lies in the rectangle `(x, y, w, h)`.
pub open spec fn in_rect(r: (int, int, int, int), i: int, j: int) -> bool {
    r.0 <= i < r.0 + r.2 && r.1 <= j < r.1 + r.3
}

/// The three chamber rectangles `(x, y, w, h)` of a layout.
pub open spec fn chamber_rects(vertical: bool) -> ((int, int, int, int), (int, int, int, int), (int, int, int, int)) {
    if vertical {
        ((15, 1, 10, 10), (15, 15, 10, 10), (15, 29, 10, 10))
    } else {
        ((1, 15, 10, 10), (15, 15, 10, 10), (29, 15, 10, 10))
    }
}

/// The hallway rectangle: it spans the layout, less the end of a missing first
/// (17 cells) or last (16 cells) chamber.
pub open spec fn hallway_rect(vertical: bool, first: bool, last: bool) -> (int, int, int, int) {
    let start: int = if first { 1 } else { 18 };
    let len: int = 38 - (if first { 0int } else { 17int }) - (if last { 0int } else { 16int });
    if vertical {
        (17, start, 6, len)
    } else {
        (start, 17, len, 6)
    }
}

/// The room mask of a layout: the chambers that are there, and the hallway.
pub open spec fn room_mask(vertical: bool, c1: bool, c2: bool, c3: bool) -> Seq<Seq<bool>> {
    let (r1, r2, r3) = chamber_rects(vertical);
    let hall = hallway_rect(vertical, c1, c3);
    Seq::new(
        40,
        |i: int|
            Seq::new(
                40,
                |j: int|
                    (c1 && in_rect(r1, i, j)) || (c2 && in_rect(r2, i, j)) || (c3 && in_rect(r3, i, j))
                        || in_rect(hall, i, j),
            ),
    )
}

/// The tile of layout cell `(i, j)` from the room mask, by the cell and its right,
/// lower and diagonal neighbours.
pub open spec fn dmt_cell(m: Seq<Seq<bool>>, i: int, j: int) -> u8 {
    let here = m[i][j];
    let right = m[i + 1][j];
    let down = m[i][j + 1];
    let diag = m[i + 1][j + 1];
    if here {
        tile_value(Tile::Floor)
    } else if !diag && down && right {
        tile_value(Tile::Floor)
    } else if diag && down && right {
        tile_value(Tile::VCorner)
    } else if down {
        tile_value(Tile::HWall)
    } else if right {
        tile_value(Tile::VWall)
    } else if diag {
        tile_value(Tile::DWall)
    } else {
        tile_value(Tile::Dirt)
    }
}

/// The layout made from a room mask: `dmt_cell` everywhere but the last row and
/// column, which are dirt.
pub open spec fn dmt_layout(m: Seq<Seq<bool>>) -> Seq<Seq<u8>> {
    Seq::new(
        40,
        |i: int| Seq::new(40, |j: int| if i < 39 && j < 39 { dmt_cell(m, i, j) } else { tile_value(Tile::Dirt) }),
    )
}

/// The tile numbers that `make_dmt` gives each layout cell, by the cell and its
/// right, lower and diagonal neighbours in the room mask: 13 (floor) in the mask
/// and where both the right and the lower neighbour are in it but the diagonal is
/// not; 16 (the inner corner) where all three neighbours are; 2 (horizontal wall)
/// where only the lower one of the two is; 1 (vertical wall) where only the right
/// one is; 4 (diagonal wall) where only the diagonal is; 16 (dirt) where none is,
/// and on the last row and column.
pub proof fn lemma_dmt_tile_table(m: Seq<Seq<bool>>, i: int, j: int)
    requires
        0 <= i < 40,
        0 <= j < 40,
    ensures
        ({
            let t = dmt_layout(m)[i][j];
            if i == 39 || j == 39 {
                t == 16
            } else {
                let here = m[i][j];
                let right = m[i + 1][j];
                let down = m[i][j + 1];
                let diag = m[i + 1][j + 1];
                &&& here ==> t == 13
                &&& !here && right && down && !diag ==> t == 13
                &&& !here && right && down && diag ==> t == 16
                &&& !here && !right && down ==> t == 2
                &&& !here && right && !down ==> t == 1
                &&& !here && !right && !down && diag ==> t == 4
                &&& !here && !right && !down && !diag ==> t == 16
            }
        }),
{
}

/// The new tile of cell `(i, j)` when wall ends, corners and dirt edges are fixed,
/// from the cell and its four neighbours in `g`.
pub open spec fn fix_cell(g: Seq<Seq<u8>>, i: int, j: int) -> u8 {
    let tile = g[i][j];
    let up = g[i][j - 1];
    let down = g[i][j + 1];
    let left = g[i - 1][j];
    let right = g[i + 1][j];
    if tile == tile_value(Tile::VWall) && down == tile_value(Tile::Floor) {
        tile_value(Tile::VWallEnd)
    } else if tile == tile_value(Tile::HWall) && right == tile_value(Tile::Floor) {
        tile_value(Tile::HWallEnd)
    } else if tile == tile_value(Tile::DWall) && (up == tile_value(Tile::VWall) || up == tile_value(Tile::VWallEnd))
        && (left == tile_value(Tile::HWall) || left == tile_value(Tile::HWallEnd)) {
        tile_value(Tile::Corner)
    } else if tile == tile_value(Tile::Dirt) && (down == tile_value(Tile::Floor) || down == tile_value(Tile::VCorner)) {
        tile_value(Tile::DirtHwall)
    } else if tile == tile_value(Tile::Dirt) && (right == tile_value(Tile::Floor) || right == tile_value(Tile::HCorner)) {
        tile_value(Tile::DirtVwall)
    } else {
        tile
    }
}

/// `g` with cell `(i, j)` fixed.
pub open spec fn fix_step(g: Seq<Seq<u8>>, i: int, j: int) -> Seq<Seq<u8>> {
    g.update(i, g[i].update(j, fix_cell(g, i, j)))
}

/// `g` after fixing the first `n` inner cells, row by row (`y` from 1), each row from
/// `x` = 1: a fixed cell is seen by the cells fixed after it.
pub open spec fn fix_upto(g: Seq<Seq<u8>>, n: nat) -> Seq<Seq<u8>>
    decreases n,
{
    if n == 0 {
        g
    } else {
        let k = (n - 1) as int;
        fix_step(fix_upto(g, (n - 1) as nat), 1 + k % 38, 1 + k / 38)
    }
}

/// `g` with every inner cell fixed.
pub open spec fn fix_layout(g: Seq<Seq<u8>>) -> Seq<Seq<u8>> {
    fix_upto(g, 38 * 38)
}

/// The tile of cell `(i, j)` after trying a wall of `length` cells from `(x, y)`
/// across the floor: only when `(x, y)` is floor; a cell of the segment becomes
/// wall when it and both its neighbours across the wall are floor.
pub open spec fn wall_cell(g: Seq<Seq<u8>>, x: int, y: int, horizontal: bool, length: int, i: int, j: int) -> u8 {
    let floor = tile_value(Tile::Floor);
    if g[x][y] != floor {
        g[i][j]
    } else if horizontal {
        if j == y && x <= i < x + length && i < 40 && g[i][y] == floor && y > 0 && g[i][y - 1] == floor && y + 1 < 40
            && g[i][y + 1] == floor {
            tile_value(Tile::HWall)
        } else {
            g[i][j]
        }
    } else {
        if i == x && y <= j < y + length && j < 40 && g[x][j] == floor && x > 0 && g[x - 1][j] == floor && x + 1 < 40
            && g[x + 1][j] == floor {
            tile_value(Tile::VWall)
        } else {
            g[i][j]
        }
    }
}

/// The layout after trying one wall (see `wall_cell`).
pub open spec fn wall_layout(g: Seq<Seq<u8>>, x: int, y: int, horizontal: bool, length: int) -> Seq<Seq<u8>> {
    Seq::new(40, |i: int| Seq::new(40, |j: int| wall_cell(g, x, y, horizontal, length, i, j)))
}

/// The layout after trying the walls `(x, y, horizontal, length)` of `walls` in order.
pub open spec fn walls_layout(g: Seq<Seq<u8>>, walls: Seq<(int, int, bool, int)>) -> Seq<Seq<u8>>
    decreases walls.len(),
{
    if walls.len() == 0 {
        g
    } else {
        let w = walls.last();
        wall_layout(walls_layout(g, walls.drop_last()), w.0, w.1, w.2, w.3)
    }
}

/// A wall that the random walls can be: start in `5 .. 35` on both axes, length in
/// `2 .. 5`.
pub open spec fn random_wall(w: (int, int, bool, int)) -> bool {
    5 <= w.0 < 35 && 5 <= w.1 < 35 && 2 <= w.3 < 5
}

/// The micro tile of mega tile `m` at micro position `(a, b)`: top-left on even
/// `a` and `b`, top-right on odd `a`, bottom-left on odd `b`.
pub open spec fn mega_micro(m: MegaTile, a: int, b: int) -> u16 {
    if a % 2 == 0 {
        if b % 2 == 0 { m.micro1 } else { m.micro3 }
    } else {
        if b % 2 == 0 { m.micro2 } else { m.micro4 }
    }
}

/// Mega tile `index` of `tiles`, if there is one.
pub open spec fn mega_at(tiles: Seq<MegaTile>, index: int) -> Option<MegaTile> {
    if 0 <= index < tiles.len() { Some(tiles[index]) } else { None }
}

/// The mega tile index of a layout value: one less, or 0 for 0.
pub open spec fn mega_index(v: u8) -> int {
    if v == 0 { 0 } else { v - 1 }
}

/// Level piece `(a, b)` after expanding the layout: the layout occupies micro tiles
/// `16 .. 96` on both axes, each cell a 2x2 block of its mega tile; elsewhere, and
/// where the mega tile is missing, the dirt mega tile fills in, or the piece stays.
pub open spec fn pass3_cell(p: Seq<Seq<u16>>, d: Seq<Seq<u8>>, tiles: Seq<MegaTile>, a: int, b: int) -> u16 {
    let base = match mega_at(tiles, tile_value(Tile::Dirt) - 1) {
        Some(m) => mega_micro(m, a, b),
        None => p[a][b],
    };
    if 16 <= a < 96 && 16 <= b < 96 {
        match mega_at(tiles, mega_index(d[(a - 16) / 2][(b - 16) / 2])) {
            Some(m) => mega_micro(m, a, b),
            None => base,
        }
    } else {
        base
    }
}

/// The level-piece map after expanding the layout (see `pass3_cell`).
pub open spec fn pass3_pieces(p: Seq<Seq<u16>>, d: Seq<Seq<u8>>, tiles: Seq<MegaTile>) -> Seq<Seq<u16>> {
    Seq::new(112, |a: int| Seq::new(112, |b: int| pass3_cell(p, d, tiles, a, b)))
}

/// The centre of the layout, cells 18 to 22 on both axes, is always open: whatever
/// the orientation and chambers, the hallway covers it.
pub proof fn lemma_center_always_open(vertical: bool, c1: bool, c2: bool, c3: bool, i: int, j: int)
    requires
        18 <= i < 23,
        18 <= j < 23,
    ensures
        room_mask(vertical, c1, c2, c3)[i][j],
{
}

/// A 40 by 40 grid.
pub open spec fn is_layout(g: Seq<Seq<u8>>) -> bool {
    g.len() == 40 && forall|k: int| 0 <= k < 40 ==> #[trigger] g[k].len() == 40
}

/// Fixing the first `n` inner cells keeps the grid's shape and its border cells.
proof fn lemma_fix_upto_keeps_border(g: Seq<Seq<u8>>, n: nat)
    requires
        is_layout(g),
        n <= 38 * 38,
    ensures
        is_layout(fix_upto(g, n)),
        forall|i: int, j: int|
            0 <= i < 40 && 0 <= j < 40 && (i == 0 || i == 39 || j == 0 || j == 39) ==> #[trigger] fix_upto(g, n)[i][j]
                == g[i][j],
    decreases n,
{
    if n > 0 {
        let k = (n - 1) as int;
        lemma_fix_upto_keeps_border(g, (n - 1) as nat);
        assert(k / 38 < 38) by (nonlinear_arith)
            requires 0 <= k < 38 * 38;
        assert(0 <= k % 38 < 38) by (nonlinear_arith)
            requires 0 <= k;
        assert(k / 38 >= 0) by (nonlinear_arith)
            requires 0 <= k;
        let h = fix_upto(g, (n - 1) as nat);
        assert forall|t: int| 0 <= t < 40 implies #[trigger] fix_upto(g, n)[t].len() == 40 by {
            assert(h[t].len() == 40);
        }
    }
}

/// Fixing wall ends, corners and dirt edges never touches the border of the layout.
pub proof fn lemma_fix_keeps_border(g: Seq<Seq<u8>>, i: int, j: int)
    requires
        is_layout(g),
        0 <= i < 40,
        0 <= j < 40,
        i == 0 || i == 39 || j == 0 || j == 39,
    ensures
        fix_layout(g)[i][j] == g[i][j],
{
    lemma_fix_upto_keeps_border(g, 38 * 38);
}

/// Random walls only ever turn floor into wall: every cell keeps its tile, or was
/// floor and is now a horizontal or vertical wall.
pub proof fn lemma_walls_only_on_floor(g: Seq<Seq<u8>>, walls: Seq<(int, int, bool, int)>, i: int, j: int)
    requires
        is_layout(g),
        0 <= i < 40,
        0 <= j < 40,
    ensures
        walls_layout(g, walls)[i][j] == g[i][j] || (g[i][j] == tile_value(Tile::Floor) && (walls_layout(g, walls)[i][j]
            == tile_value(Tile::HWall) || walls_layout(g, walls)[i][j] == tile_value(Tile::VWall))),
    decreases walls.len(),
{
    if walls.len() > 0 {
        lemma_walls_only_on_floor(g, walls.drop_last(), i, j);
    }
}

/// What holds of a generated level whatever the random choices were: the room mask
/// is the layout of its orientation and chambers, with the middle chamber there when
/// the first or the last is not; the tiles are that mask's tiles, fixed, with some
/// random walls tried; the level-piece map is their expansion from `pieces`.
pub open spec fn is_generated_level(g: CathedralGenerator, pieces: Seq<Seq<u16>>, tiles: Seq<MegaTile>) -> bool {
    &&& mask_view(g.dungeon_mask) == room_mask(g.vertical_layout, g.has_chamber1, g.has_chamber2, g.has_chamber3)
    &&& (!g.has_chamber1 || !g.has_chamber3) ==> g.has_chamber2
    &&& exists|walls: Seq<(int, int, bool, int)>|
        3 <= walls.len() < 8 && (forall|k: int| 0 <= k < walls.len() ==> #[trigger] random_wall(walls[k]))
            && layout_view(g.dungeon) == walls_layout(fix_layout(dmt_layout(mask_view(g.dungeon_mask))), walls)
    &&& piece_view(g.d_piece) == pass3_pieces(pieces, layout_view(g.dungeon), tiles)
}

/// Draw number `c` of a level made with `seed`, as a fair coin.
pub open spec fn seeded_coin(seed: u32, c: int) -> bool {
    seeded_ratio(spec_draw_key(seed, c as u32), 1, 2)
}

/// Draw number `c` of a level made with `seed`, in `low .. high`.
pub open spec fn seeded_draw(seed: u32, c: int, low: u32, high: u32) -> int {
    seeded_range(spec_draw_key(seed, c as u32), low, high) as int
}

/// One random wall tried from draw number `c` on: a place (two draws); when it is
/// floor, a direction and a length (two more draws). Gives the layout and the next
/// draw number.
pub open spec fn wall_step(seed: u32, g: Seq<Seq<u8>>, c: int) -> (Seq<Seq<u8>>, int) {
    let x = seeded_draw(seed, c, 5, 35);
    let y = seeded_draw(seed, c + 1, 5, 35);
    if g[x][y] == tile_value(Tile::Floor) {
        (wall_layout(g, x, y, seeded_coin(seed, c + 2), seeded_draw(seed, c + 3, 2, 5)), c + 4)
    } else {
        (g, c + 2)
    }
}

/// The layout and the next draw number after `k` random walls, the first drawn from
/// draw number 5.
pub open spec fn walls_after(seed: u32, g: Seq<Seq<u8>>, k: nat) -> (Seq<Seq<u8>>, int)
    decreases k,
{
    if k == 0 {
        (g, 5)
    } else {
        let prev = walls_after(seed, g, (k - 1) as nat);
        wall_step(seed, prev.0, prev.1)
    }
}

/// The layout after the random walls of a level made with `seed`: as many walls as
/// draw number 4 says (3 to 7).
pub open spec fn seeded_walls(seed: u32, g: Seq<Seq<u8>>) -> Seq<Seq<u8>> {
    walls_after(seed, g, seeded_draw(seed, 4, 3, 8) as nat).0
}

/// The level that `seed` gives: draws 0 to 3 choose the orientation and the
/// chambers, the later ones the random walls; the rest is `is_generated_level`.
pub open spec fn generated_from(g: CathedralGenerator, seed: u32, pieces: Seq<Seq<u16>>, tiles: Seq<MegaTile>) -> bool {
    &&& g.seed == seed
    &&& g.vertical_layout == seeded_coin(seed, 0)
    &&& g.has_chamber1 == seeded_coin(seed, 1)
    &&& g.has_chamber2 == (seeded_coin(seed, 2) || !seeded_coin(seed, 1) || !seeded_coin(seed, 3))
    &&& g.has_chamber3 == seeded_coin(seed, 3)
    &&& layout_view(g.dungeon) == seeded_walls(seed, fix_layout(dmt_layout(mask_view(g.dungeon_mask))))
    &&& is_generated_level(g, pieces, tiles)
}

/// Two levels generated with one seed, from the same level-piece map and mega
/// tiles, are the same level: generation is reproducible from its seed.
pub proof fn lemma_same_seed_same_level(
    g1: CathedralGenerator,
    g2: CathedralGenerator,
    seed: u32,
    pieces: Seq<Seq<u16>>,
    tiles: Seq<MegaTile>,
)
    requires
        generated_from(g1, seed, pieces, tiles),
        generated_from(g2, seed, pieces, tiles),
    ensures
        g1 == g2,
{
    assert forall|i: int| 0 <= i < 40 implies #[trigger] g1.dungeon_mask[i] == g2.dungeon_mask[i] by {
        assert(mask_view(g1.dungeon_mask)[i] == mask_view(g2.dungeon_mask)[i]);
        assert(g1.dungeon_mask[i] =~= g2.dungeon_mask[i]);
    }
    assert(g1.dungeon_mask =~= g2.dungeon_mask);
    assert forall|i: int| 0 <= i < 40 implies #[trigger] g1.dungeon[i] == g2.dungeon[i] by {
        assert(layout_view(g1.dungeon)[i] == layout_view(g2.dungeon)[i]);
        assert(g1.dungeon[i] =~= g2.dungeon[i]);
    }
    assert(g1.dungeon =~= g2.dungeon);
    assert forall|i: int| 0 <= i < 112 implies #[trigger] g1.d_piece[i] == g2.d_piece[i] by {
        assert(piece_view(g1.d_piece)[i] == piece_view(g2.d_piece)[i]);
        assert(g1.d_piece[i] =~= g2.d_piece[i]);
    }
    assert(g1.d_piece =~= g2.d_piece);
}

impl CathedralGenerator {
    /// A generator with nothing generated yet.
    pub fn new(seed: u32) -> (g: CathedralGenerator)
        ensures
            g.seed == seed,
            forall|i: int, j: int| 0 <= i < 40 && 0 <= j < 40 ==> !#[trigger] g.dungeon_mask@[i]@[j],
            forall|i: int, j: int| 0 <= i < 40 && 0 <= j < 40 ==> #[trigger] g.dungeon@[i]@[j] == 0,
            forall|i: int, j: int| 0 <= i < 112 && 0 <= j < 112 ==> #[trigger] g.d_piece@[i]@[j] == 0,
            !g.vertical_layout,
            !g.has_chamber1,
            !g.has_chamber2,
            !g.has_chamber3,
    {
        CathedralGenerator {
            dungeon_mask: [[false; DMAXY]; DMAXX],
            dungeon: [[0; DMAXY]; DMAXX],
            d_piece: [[0; MAXDUNY]; MAXDUNX],
            vertical_layout: false,
            has_chamber1: false,
            has_chamber2: false,
            has_chamber3: false,
            seed,
        }
    }

    /// The level piece at `(x, y)`, or 0 outside the map.
    pub fn get_piece(&self, x: i32, y: i32) -> (p: u16)
        ensures
            0 <= x < 112 && 0 <= y < 112 ==> p == self.d_piece@[x as int]@[y as int],
            !(0 <= x < 112 && 0 <= y < 112) ==> p == 0,
    {
        if x >= 0 && x < MAXDUNX as i32 && y >= 0 && y < MAXDUNY as i32 {
            self.d_piece[x as usize][y as usize]
        } else {
            0
        }
    }

    /// Whether `(x, y)` is on the level-piece map.
    pub fn in_bounds(&self, x: i32, y: i32) -> (b: bool)
        ensures
            b == (0 <= x < 112 && 0 <= y < 112),
    {
        x >= 0 && x < MAXDUNX as i32 && y >= 0 && y < MAXDUNY as i32
    }

    /// Mark the cells of the rectangle `(x, y, w, h)` that lie in the layout.
    fn map_room(&mut self, x: usize, y: usize, w: usize, h: usize)
        requires
            x + w <= usize::MAX,
            y + h <= usize::MAX,
        ensures
            forall|i: int, j: int|
                0 <= i < 40 && 0 <= j < 40 ==> #[trigger] final(self).dungeon_mask@[i]@[j] == (old(self).dungeon_mask@[i]@[j]
                    || in_rect((x as int, y as int, w as int, h as int), i, j)),
            final(self).dungeon == old(self).dungeon,
            final(self).d_piece == old(self).d_piece,
            final(self).vertical_layout == old(self).vertical_layout,
            final(self).has_chamber1 == old(self).has_chamber1,
            final(self).has_chamber2 == old(self).has_chamber2,
            final(self).has_chamber3 == old(self).has_chamber3,
            final(self).seed == old(self).seed,
    {
        let y_end = if y + h < DMAXY { y + h } else { DMAXY };
        let x_end = if x + w < DMAXX { x + w } else { DMAXX };
        let mut j = y;
        while j < y_end
            invariant
                y <= j,
                y_end <= 40,
                x_end <= 40,
                x_end == (if x + w < 40 { x + w } else { 40 }),
                y_end == (if y + h < 40 { y + h } else { 40 }),
                forall|i: int, jj: int|
                    0 <= i < 40 && 0 <= jj < 40 ==> #[trigger] self.dungeon_mask@[i]@[jj] == (old(self).dungeon_mask@[i]@[jj]
                        || (in_rect((x as int, y as int, w as int, h as int), i, jj) && jj < j)),
                self.dungeon == old(self).dungeon,
                self.d_piece == old(self).d_piece,
                self.vertical_layout == old(self).vertical_layout,
                self.has_chamber1 == old(self).has_chamber1,
                self.has_chamber2 == old(self).has_chamber2,
                self.has_chamber3 == old(self).has_chamber3,
                self.seed == old(self).seed,
            decreases y_end - j,
        {
            let mut i = x;
            while i < x_end
                invariant
                    y <= j < y_end,
                    y_end <= 40,
                    x_end <= 40,
                    x_end == (if x + w < 40 { x + w } else { 40 }),
                    y_end == (if y + h < 40 { y + h } else { 40 }),
                    x <= i,
                    forall|ii: int, jj: int|
                        0 <= ii < 40 && 0 <= jj < 40 ==> #[trigger] self.dungeon_mask@[ii]@[jj] == (old(self).dungeon_mask@[ii]@[jj]
                            || (in_rect((x as int, y as int, w as int, h as int), ii, jj) && (jj < j || (jj == j && ii < i)))),
                    self.dungeon == old(self).dungeon,
                    self.d_piece == old(self).d_piece,
                    self.vertical_layout == old(self).vertical_layout,
                    self.has_chamber1 == old(self).has_chamber1,
                    self.has_chamber2 == old(self).has_chamber2,
                    self.has_chamber3 == old(self).has_chamber3,
                    self.seed == old(self).seed,
                decreases x_end - i,
            {
                self.dungeon_mask[i][j] = true;
                i += 1;
            }
            j += 1;
        }
    }

    /// Mark the inside of a chamber `(x, y, w, h)`: the rectangle 2 cells in from
    /// each side.
    fn generate_room(&mut self, x: usize, y: usize, w: usize, h: usize)
        requires
            x + w <= usize::MAX,
            y + h <= usize::MAX,
        ensures
            forall|i: int, j: int|
                0 <= i < 40 && 0 <= j < 40 ==> #[trigger] final(self).dungeon_mask@[i]@[j] == (old(self).dungeon_mask@[i]@[j]
                    || in_rect((x + 2, y + 2, w - 4, h - 4), i, j)),
            final(self).dungeon == old(self).dungeon,
            final(self).d_piece == old(self).d_piece,
            final(self).vertical_layout == old(self).vertical_layout,
            final(self).has_chamber1 == old(self).has_chamber1,
            final(self).has_chamber2 == old(self).has_chamber2,
            final(self).has_chamber3 == old(self).has_chamber3,
            final(self).seed == old(self).seed,
    {
        if w >= 4 && h >= 4 {
            self.map_room(x + 2, y + 2, w - 4, h - 4);
        }
    }

    /// Lay out the rooms for the given choices: the orientation and which chambers
    /// are there. The middle chamber is forced in when the first or the last is
    /// missing; the hallway joins the chambers that are there.
    pub fn layout_rooms(&mut self, vertical: bool, chamber1: bool, chamber2: bool, chamber3: bool)
        ensures
            final(self).vertical_layout == vertical,
            final(self).has_chamber1 == chamber1,
            final(self).has_chamber2 == (chamber2 || !chamber1 || !chamber3),
            final(self).has_chamber3 == chamber3,
            mask_view(final(self).dungeon_mask) == room_mask(vertical, chamber1, final(self).has_chamber2, chamber3),
            final(self).dungeon == old(self).dungeon,
            final(self).d_piece == old(self).d_piece,
            final(self).seed == old(self).seed,
    {
        self.dungeon_mask = [[false; DMAXY]; DMAXX];
        self.vertical_layout = vertical;
        self.has_chamber1 = chamber1;
        self.has_chamber2 = chamber2;
        self.has_chamber3 = chamber3;
        if !self.has_chamber1 || !self.has_chamber3 {
            self.has_chamber2 = true;
        }
        let (r1, r2, r3): ((usize, usize, usize, usize), (usize, usize, usize, usize), (usize, usize, usize, usize)) = if vertical {
            ((15, 1, 10, 10), (15, 15, 10, 10), (15, 29, 10, 10))
        } else {
            ((1, 15, 10, 10), (15, 15, 10, 10), (29, 15, 10, 10))
        };
        let (mut hx, mut hy, mut hw, mut hh): (usize, usize, usize, usize) = if vertical {
            (17, 1, 6, 38)
        } else {
            (1, 17, 38, 6)
        };
        if !self.has_chamber1 {
            if vertical {
                hy += 17;
                hh -= 17;
            } else {
                hx += 17;
                hw -= 17;
            }
        }
        if !self.has_chamber3 {
            if vertical {
                hh -= 16;
            } else {
                hw -= 16;
            }
        }
        assert(hallway_rect(vertical, chamber1, chamber3) == (hx as int, hy as int, hw as int, hh as int));
        let ghost c2 = self.has_chamber2;
        if self.has_chamber1 {
            self.map_room(r1.0, r1.1, r1.2, r1.3);
            self.generate_room(r1.0, r1.1, r1.2, r1.3);
        }
        if self.has_chamber2 {
            self.map_room(r2.0, r2.1, r2.2, r2.3);
            self.generate_room(r2.0, r2.1, r2.2, r2.3);
        }
        if self.has_chamber3 {
            self.map_room(r3.0, r3.1, r3.2, r3.3);
            self.generate_room(r3.0, r3.1, r3.2, r3.3);
        }
        self.map_room(hx, hy, hw, hh);
        assert(mask_view(self.dungeon_mask) =~~= room_mask(vertical, chamber1, c2, chamber3));
    }

    /// Turn the room mask into tiles (see `dmt_layout`).
    pub fn make_dmt(&mut self)
        ensures
            layout_view(final(self).dungeon) == dmt_layout(mask_view(old(self).dungeon_mask)),
            final(self).dungeon_mask == old(self).dungeon_mask,
            final(self).d_piece == old(self).d_piece,
            final(self).vertical_layout == old(self).vertical_layout,
            final(self).has_chamber1 == old(self).has_chamber1,
            final(self).has_chamber2 == old(self).has_chamber2,
            final(self).has_chamber3 == old(self).has_chamber3,
            final(self).seed == old(self).seed,
    {
        let ghost m = mask_view(self.dungeon_mask);
        let floor = Tile::Floor.value();
        let dirt = Tile::Dirt.value();
        let mut i: usize = 0;
        while i < DMAXX
            invariant
                i <= 40,
                floor == tile_value(Tile::Floor),
                dirt == tile_value(Tile::Dirt),
                m == mask_view(self.dungeon_mask),
                self.dungeon_mask == old(self).dungeon_mask,
                self.d_piece == old(self).d_piece,
                self.vertical_layout == old(self).vertical_layout,
                self.has_chamber1 == old(self).has_chamber1,
                self.has_chamber2 == old(self).has_chamber2,
                self.has_chamber3 == old(self).has_chamber3,
                self.seed == old(self).seed,
                forall|a: int, b: int| 0 <= a < i && 0 <= b < 40 ==> #[trigger] self.dungeon@[a]@[b] == dmt_layout(m)[a][b],
            decreases 40 - i,
        {
            let mut j: usize = 0;
            while j < DMAXY
                invariant
                    i < 40,
                    j <= 40,
                    floor == tile_value(Tile::Floor),
                    dirt == tile_value(Tile::Dirt),
                    m == mask_view(self.dungeon_mask),
                    self.dungeon_mask == old(self).dungeon_mask,
                    self.d_piece == old(self).d_piece,
                    self.vertical_layout == old(self).vertical_layout,
                    self.has_chamber1 == old(self).has_chamber1,
                    self.has_chamber2 == old(self).has_chamber2,
                    self.has_chamber3 == old(self).has_chamber3,
                    self.seed == old(self).seed,
                    forall|a: int, b: int| 0 <= a < i && 0 <= b < 40 ==> #[trigger] self.dungeon@[a]@[b] == dmt_layout(m)[a][b],
                    forall|b: int| 0 <= b < j ==> #[trigger] self.dungeon@[i as int]@[b] == dmt_layout(m)[i as int][b],
                decreases 40 - j,
            {
                let v = if i < DMAXX - 1 && j < DMAXY - 1 {
                    let here = self.dungeon_mask[i][j];
                    let right = self.dungeon_mask[i + 1][j];
                    let down = self.dungeon_mask[i][j + 1];
                    let diag = self.dungeon_mask[i + 1][j + 1];
                    if here {
                        floor
                    } else if !diag && down && right {
                        floor
                    } else if diag && down && right {
                        Tile::VCorner.value()
                    } else if down {
                        Tile::HWall.value()
                    } else if right {
                        Tile::VWall.value()
                    } else if diag {
                        Tile::DWall.value()
                    } else {
                        dirt
                    }
                } else {
                    dirt
                };
                assert(v == dmt_layout(m)[i as int][j as int]);
                self.dungeon[i][j] = v;
                j += 1;
            }
            i += 1;
        }
        assert(layout_view(self.dungeon) =~~= dmt_layout(m));
    }

    /// Fix wall ends, corners and dirt edges over the inner cells, in place (see
    /// `fix_layout`).
    pub fn fix_tiles_patterns(&mut self)
        ensures
            layout_view(final(self).dungeon) == fix_layout(layout_view(old(self).dungeon)),
            final(self).dungeon_mask == old(self).dungeon_mask,
            final(self).d_piece == old(self).d_piece,
            final(self).vertical_layout == old(self).vertical_layout,
            final(self).has_chamber1 == old(self).has_chamber1,
            final(self).has_chamber2 == old(self).has_chamber2,
            final(self).has_chamber3 == old(self).has_chamber3,
            final(self).seed == old(self).seed,
    {
        let ghost g0 = layout_view(self.dungeon);
        let floor = Tile::Floor.value();
        let dirt = Tile::Dirt.value();
        let vwall = Tile::VWall.value();
        let hwall = Tile::HWall.value();
        let vwall_end = Tile::VWallEnd.value();
        let hwall_end = Tile::HWallEnd.value();
        let mut j: usize = 1;
        while j < DMAXY - 1
            invariant
                1 <= j <= 39,
                floor == tile_value(Tile::Floor),
                dirt == tile_value(Tile::Dirt),
                vwall == tile_value(Tile::VWall),
                hwall == tile_value(Tile::HWall),
                vwall_end == tile_value(Tile::VWallEnd),
                hwall_end == tile_value(Tile::HWallEnd),
                layout_view(self.dungeon) == fix_upto(g0, ((j - 1) * 38) as nat),
                self.dungeon_mask == old(self).dungeon_mask,
                self.d_piece == old(self).d_piece,
                self.vertical_layout == old(self).vertical_layout,
                self.has_chamber1 == old(self).has_chamber1,
                self.has_chamber2 == old(self).has_chamber2,
                self.has_chamber3 == old(self).has_chamber3,
                self.seed == old(self).seed,
            decreases 39 - j,
        {
            let mut i: usize = 1;
            while i < DMAXX - 1
                invariant
                    1 <= j < 39,
                    1 <= i <= 39,
                    floor == tile_value(Tile::Floor),
                    dirt == tile_value(Tile::Dirt),
                    vwall == tile_value(Tile::VWall),
                    hwall == tile_value(Tile::HWall),
                    vwall_end == tile_value(Tile::VWallEnd),
                    hwall_end == tile_value(Tile::HWallEnd),
                    layout_view(self.dungeon) == fix_upto(g0, ((j - 1) * 38 + (i - 1)) as nat),
                    self.dungeon_mask == old(self).dungeon_mask,
                    self.d_piece == old(self).d_piece,
                    self.vertical_layout == old(self).vertical_layout,
                    self.has_chamber1 == old(self).has_chamber1,
                    self.has_chamber2 == old(self).has_chamber2,
                    self.has_chamber3 == old(self).has_chamber3,
                    self.seed == old(self).seed,
                decreases 39 - i,
            {
                let ghost k: int = (j - 1) * 38 + (i - 1);
                let ghost g = layout_view(self.dungeon);
                proof {
                    lemma_fundamental_div_mod_converse(k, 38, (j - 1) as int, (i - 1) as int);
                }
                let tile = self.dungeon[i][j];
                let up = self.dungeon[i][j - 1];
                let down = self.dungeon[i][j + 1];
                let left = self.dungeon[i - 1][j];
                let right = self.dungeon[i + 1][j];
                let v = if tile == vwall && down == floor {
                    vwall_end
                } else if tile == hwall && right == floor {
                    hwall_end
                } else if tile == Tile::DWall.value() && (up == vwall || up == vwall_end) && (left == hwall
                    || left == hwall_end) {
                    Tile::Corner.value()
                } else if tile == dirt && (down == floor || down == Tile::VCorner.value()) {
                    Tile::DirtHwall.value()
                } else if tile == dirt && (right == floor || right == Tile::HCorner.value()) {
                    Tile::DirtVwall.value()
                } else {
                    tile
                };
                assert(v == fix_cell(g, i as int, j as int));
                self.dungeon[i][j] = v;
                assert(layout_view(self.dungeon) =~~= fix_step(g, i as int, j as int));
                assert(fix_upto(g0, (k + 1) as nat) == fix_step(fix_upto(g0, k as nat), i as int, j as int));
                i += 1;
            }
            j += 1;
        }
    }

    /// Try a wall of `length` cells from `(x, y)`, across the floor (see `wall_cell`).
    pub fn add_wall(&mut self, x: usize, y: usize, horizontal: bool, length: usize)
        requires
            x < 40,
            y < 40,
            x + length <= usize::MAX,
            y + length <= usize::MAX,
        ensures
            layout_view(final(self).dungeon) == wall_layout(layout_view(old(self).dungeon), x as int, y as int, horizontal, length as int),
            final(self).dungeon_mask == old(self).dungeon_mask,
            final(self).d_piece == old(self).d_piece,
            final(self).vertical_layout == old(self).vertical_layout,
            final(self).has_chamber1 == old(self).has_chamber1,
            final(self).has_chamber2 == old(self).has_chamber2,
            final(self).has_chamber3 == old(self).has_chamber3,
            final(self).seed == old(self).seed,
    {
        let ghost g = layout_view(self.dungeon);
        let floor = Tile::Floor.value();
        if self.dungeon[x][y] != floor {
            assert(layout_view(self.dungeon) =~~= wall_layout(g, x as int, y as int, horizontal, length as int));
            return;
        }
        let mut k: usize = 0;
        while k < length
            invariant
                x < 40,
                y < 40,
                x + length <= usize::MAX,
                y + length <= usize::MAX,
                k <= length,
                floor == tile_value(Tile::Floor),
                g[x as int][y as int] == floor,
                self.dungeon_mask == old(self).dungeon_mask,
                self.d_piece == old(self).d_piece,
                self.vertical_layout == old(self).vertical_layout,
                self.has_chamber1 == old(self).has_chamber1,
                self.has_chamber2 == old(self).has_chamber2,
                self.has_chamber3 == old(self).has_chamber3,
                self.seed == old(self).seed,
                g == layout_view(old(self).dungeon),
                forall|i: int, j: int|
                    0 <= i < 40 && 0 <= j < 40 ==> #[trigger] self.dungeon@[i]@[j] == (if (horizontal && i < x + k) || (
                    !horizontal && j < y + k) {
                        wall_cell(g, x as int, y as int, horizontal, length as int, i, j)
                    } else {
                        g[i][j]
                    }),
            decreases length - k,
        {
            if horizontal {
                let i = x + k;
                if i < DMAXX && self.dungeon[i][y] == floor {
                    let above = y > 0 && self.dungeon[i][y - 1] == floor;
                    let below = y + 1 < DMAXY && self.dungeon[i][y + 1] == floor;
                    if above && below {
                        self.dungeon[i][y] = Tile::HWall.value();
                    }
                }
            } else {
                let j = y + k;
                if j < DMAXY && self.dungeon[x][j] == floor {
                    let left = x > 0 && self.dungeon[x - 1][j] == floor;
                    let right = x + 1 < DMAXX && self.dungeon[x + 1][j] == floor;
                    if left && right {
                        self.dungeon[x][j] = Tile::VWall.value();
                    }
                }
            }
            k += 1;
        }
        assert(layout_view(self.dungeon) =~~= wall_layout(g, x as int, y as int, horizontal, length as int));
    }

    /// Expand the layout into the level-piece map (see `pass3_cell`).
    pub fn pass3(&mut self, til_data: &TilData)
        ensures
            piece_view(final(self).d_piece) == pass3_pieces(
                piece_view(old(self).d_piece),
                layout_view(old(self).dungeon),
                til_data.mega_tiles@,
            ),
            final(self).dungeon == old(self).dungeon,
            final(self).dungeon_mask == old(self).dungeon_mask,
            final(self).vertical_layout == old(self).vertical_layout,
            final(self).has_chamber1 == old(self).has_chamber1,
            final(self).has_chamber2 == old(self).has_chamber2,
            final(self).has_chamber3 == old(self).has_chamber3,
            final(self).seed == old(self).seed,
    {
        let ghost p0 = piece_view(self.d_piece);
        let ghost d = layout_view(self.dungeon);
        let ghost tiles = til_data.mega_tiles@;
        let default_index = Tile::Dirt.value() as usize - 1;
        if let Some(dm) = til_data.get(default_index) {
            let m = *dm;
            let mut b: usize = 0;
            while b < MAXDUNY
                invariant
                    b <= 112,
                    b % 2 == 0,
                    self.dungeon == old(self).dungeon,
                    self.dungeon_mask == old(self).dungeon_mask,
                    self.vertical_layout == old(self).vertical_layout,
                    self.has_chamber1 == old(self).has_chamber1,
                    self.has_chamber2 == old(self).has_chamber2,
                    self.has_chamber3 == old(self).has_chamber3,
                    self.seed == old(self).seed,
                    forall|a2: int, b2: int|
                        0 <= a2 < 112 && 0 <= b2 < 112 ==> #[trigger] self.d_piece@[a2]@[b2] == (if b2 < b {
                            mega_micro(m, a2, b2)
                        } else {
                            p0[a2][b2]
                        }),
                decreases 112 - b,
            {
                let mut a: usize = 0;
                while a < MAXDUNX
                    invariant
                        b < 112,
                        b % 2 == 0,
                        a <= 112,
                        a % 2 == 0,
                        self.dungeon == old(self).dungeon,
                        self.dungeon_mask == old(self).dungeon_mask,
                        self.vertical_layout == old(self).vertical_layout,
                        self.has_chamber1 == old(self).has_chamber1,
                        self.has_chamber2 == old(self).has_chamber2,
                        self.has_chamber3 == old(self).has_chamber3,
                        self.seed == old(self).seed,
                        forall|a2: int, b2: int|
                            0 <= a2 < 112 && 0 <= b2 < 112 ==> #[trigger] self.d_piece@[a2]@[b2] == (if b2 < b || (b2
                                < b + 2 && a2 < a) {
                                mega_micro(m, a2, b2)
                            } else {
                                p0[a2][b2]
                            }),
                    decreases 112 - a,
                {
                    self.d_piece[a][b] = m.micro1;
                    self.d_piece[a + 1][b] = m.micro2;
                    self.d_piece[a][b + 1] = m.micro3;
                    self.d_piece[a + 1][b + 1] = m.micro4;
                    a += 2;
                }
                b += 2;
            }
        }
        let ghost p1 = piece_view(self.d_piece);
        assert forall|a2: int, b2: int| 0 <= a2 < 112 && 0 <= b2 < 112 implies #[trigger] p1[a2][b2] == match mega_at(
            tiles,
            tile_value(Tile::Dirt) - 1,
        ) {
            Some(m) => mega_micro(m, a2, b2),
            None => p0[a2][b2],
        } by {
            assert(p1[a2][b2] == self.d_piece@[a2]@[b2]);
        }
        let mut j: usize = 0;
        while j < DMAXY
            invariant
                j <= 40,
                self.dungeon == old(self).dungeon,
                d == layout_view(self.dungeon),
                tiles == til_data.mega_tiles@,
                self.dungeon_mask == old(self).dungeon_mask,
                self.vertical_layout == old(self).vertical_layout,
                self.has_chamber1 == old(self).has_chamber1,
                self.has_chamber2 == old(self).has_chamber2,
                self.has_chamber3 == old(self).has_chamber3,
                self.seed == old(self).seed,
                forall|a2: int, b2: int|
                    0 <= a2 < 112 && 0 <= b2 < 112 ==> #[trigger] self.d_piece@[a2]@[b2] == (if 16 <= a2 < 96 && 16
                        <= b2 < 96 && (b2 - 16) / 2 < j && mega_at(tiles, mega_index(d[(a2 - 16) / 2][(b2 - 16) / 2])) is Some {
                        pass3_cell(p0, d, tiles, a2, b2)
                    } else {
                        p1[a2][b2]
                    }),
            decreases 40 - j,
        {
            let mut i: usize = 0;
            while i < DMAXX
                invariant
                    j < 40,
                    i <= 40,
                    self.dungeon == old(self).dungeon,
                    d == layout_view(self.dungeon),
                    tiles == til_data.mega_tiles@,
                    self.dungeon_mask == old(self).dungeon_mask,
                    self.vertical_layout == old(self).vertical_layout,
                    self.has_chamber1 == old(self).has_chamber1,
                    self.has_chamber2 == old(self).has_chamber2,
                    self.has_chamber3 == old(self).has_chamber3,
                    self.seed == old(self).seed,
                    forall|a2: int, b2: int|
                        0 <= a2 < 112 && 0 <= b2 < 112 ==> #[trigger] self.d_piece@[a2]@[b2] == (if 16 <= a2 < 96 && 16
                            <= b2 < 96 && ((b2 - 16) / 2 < j || ((b2 - 16) / 2 == j && (a2 - 16) / 2 < i)) && mega_at(
                            tiles,
                            mega_index(d[(a2 - 16) / 2][(b2 - 16) / 2]),
                        ) is Some {
                            pass3_cell(p0, d, tiles, a2, b2)
                        } else {
                            p1[a2][b2]
                        }),
                decreases 40 - i,
            {
                let tile_id = self.dungeon[i][j];
                let index = if tile_id == 0 { 0 } else { tile_id as usize - 1 };
                let xx = 16 + 2 * i;
                let yy = 16 + 2 * j;
                if let Some(mega) = til_data.get(index) {
                    let m = *mega;
                    self.d_piece[xx][yy] = m.micro1;
                    self.d_piece[xx + 1][yy] = m.micro2;
                    self.d_piece[xx][yy + 1] = m.micro3;
                    self.d_piece[xx + 1][yy + 1] = m.micro4;
                }
                i += 1;
            }
            j += 1;
        }
        assert(piece_view(self.d_piece) =~~= pass3_pieces(p0, d, tiles));
    }

    /// Generate a level from the generator's seed: rooms, tiles, fixes, random walls,
    /// and the level-piece map. Draw number `c` is made by a generator seeded from
    /// the seed and `c`, so the same seed gives the same level.
    pub fn generate(&mut self, til_data: &TilData)
        ensures
            generated_from(*final(self), old(self).seed, piece_view(old(self).d_piece), til_data.mega_tiles@),
    {
        self.dungeon_mask = [[false; DMAXY]; DMAXX];
        self.dungeon = [[0; DMAXY]; DMAXX];
        self.first_room();
        self.make_dmt();
        self.fix_tiles_patterns();
        self.add_walls();
        self.pass3(til_data);
    }

    /// Choose the orientation and the chambers (draws 0 to 3, each a fair coin) and
    /// lay out the rooms.
    fn first_room(&mut self)
        ensures
            mask_view(final(self).dungeon_mask) == room_mask(
                final(self).vertical_layout,
                final(self).has_chamber1,
                final(self).has_chamber2,
                final(self).has_chamber3,
            ),
            (!final(self).has_chamber1 || !final(self).has_chamber3) ==> final(self).has_chamber2,
            final(self).vertical_layout == seeded_coin(old(self).seed, 0),
            final(self).has_chamber1 == seeded_coin(old(self).seed, 1),
            final(self).has_chamber2 == (seeded_coin(old(self).seed, 2) || !seeded_coin(old(self).seed, 1)
                || !seeded_coin(old(self).seed, 3)),
            final(self).has_chamber3 == seeded_coin(old(self).seed, 3),
            final(self).dungeon == old(self).dungeon,
            final(self).d_piece == old(self).d_piece,
            final(self).seed == old(self).seed,
    {
        let vertical = draw_ratio(draw_key(self.seed, 0), 1, 2);
        let chamber1 = draw_ratio(draw_key(self.seed, 1), 1, 2);
        let chamber2 = draw_ratio(draw_key(self.seed, 2), 1, 2);
        let chamber3 = draw_ratio(draw_key(self.seed, 3), 1, 2);
        self.layout_rooms(vertical, chamber1, chamber2, chamber3);
    }

    /// Try 3 to 7 walls at random places (see `random_wall` and `wall_step`), each
    /// across the floor in a random direction.
    fn add_walls(&mut self)
        ensures
            exists|walls: Seq<(int, int, bool, int)>|
                3 <= walls.len() < 8 && (forall|k: int| 0 <= k < walls.len() ==> #[trigger] random_wall(walls[k]))
                    && layout_view(final(self).dungeon) == walls_layout(layout_view(old(self).dungeon), walls),
            layout_view(final(self).dungeon) == seeded_walls(old(self).seed, layout_view(old(self).dungeon)),
            final(self).dungeon_mask == old(self).dungeon_mask,
            final(self).d_piece == old(self).d_piece,
            final(self).vertical_layout == old(self).vertical_layout,
            final(self).has_chamber1 == old(self).has_chamber1,
            final(self).has_chamber2 == old(self).has_chamber2,
            final(self).has_chamber3 == old(self).has_chamber3,
            final(self).seed == old(self).seed,
    {
        let ghost g0 = layout_view(self.dungeon);
        let seed = self.seed;
        let floor = Tile::Floor.value();
        let num_walls = draw_range(draw_key(seed, 4), 3, 8);
        let ghost mut walls: Seq<(int, int, bool, int)> = Seq::empty();
        let mut counter: u32 = 5;
        let mut n: u32 = 0;
        while n < num_walls
            invariant
                3 <= num_walls < 8,
                num_walls == seeded_draw(seed, 4, 3, 8),
                seed == self.seed,
                n <= num_walls,
                counter <= 5 + 4 * n,
                walls_after(seed, g0, n as nat) == (layout_view(self.dungeon), counter as int),
                floor == tile_value(Tile::Floor),
                walls.len() == n,
                forall|k: int| 0 <= k < walls.len() ==> #[trigger] random_wall(walls[k]),
                layout_view(self.dungeon) == walls_layout(g0, walls),
                self.dungeon_mask == old(self).dungeon_mask,
                self.d_piece == old(self).d_piece,
                self.vertical_layout == old(self).vertical_layout,
                self.has_chamber1 == old(self).has_chamber1,
                self.has_chamber2 == old(self).has_chamber2,
                self.has_chamber3 == old(self).has_chamber3,
                self.seed == old(self).seed,
            decreases num_walls - n,
        {
            let ghost before = walls;
            let ghost before_layout = layout_view(self.dungeon);
            let x = draw_range(draw_key(seed, counter), 5, 35) as usize;
            let y = draw_range(draw_key(seed, counter + 1), 5, 35) as usize;
            assert(before_layout[x as int][y as int] == self.dungeon[x as int][y as int]);
            if self.dungeon[x][y] == floor {
                let horizontal = draw_ratio(draw_key(seed, counter + 2), 1, 2);
                let length = draw_range(draw_key(seed, counter + 3), 2, 5) as usize;
                self.add_wall(x, y, horizontal, length);
                proof {
                    walls = walls.push((x as int, y as int, horizontal, length as int));
                }
                counter = counter + 4;
            } else {
                proof {
                    walls = walls.push((x as int, y as int, false, 2));
                    assert(layout_view(self.dungeon) =~~= wall_layout(walls_layout(g0, before), x as int, y as int, false, 2));
                }
                counter = counter + 2;
            }
            assert(walls.drop_last() =~= before);
            assert forall|k: int| 0 <= k < walls.len() implies #[trigger] random_wall(walls[k]) by {
                if k < before.len() {
                    assert(walls[k] == before[k]);
                }
            }
            n += 1;
        }
        assert(3 <= walls.len() < 8 && (forall|k: int| 0 <= k < walls.len() ==> #[trigger] random_wall(walls[k]))
            && layout_view(self.dungeon) == walls_layout(g0, walls));
    }
}

/// Make a generator with `seed` and generate a level with it.
pub fn create_l1_dungeon(seed: u32, til_data: &TilData) -> (g: CathedralGenerator)
    ensures
        generated_from(g, seed, Seq::new(112, |i: int| Seq::new(112, |j: int| 0u16)), til_data.mega_tiles@),
{
    let mut generator = CathedralGenerator::new(seed);
    assert(piece_view(generator.d_piece) =~~= Seq::new(112, |i: int| Seq::new(112, |j: int| 0u16)));
    generator.generate(til_data);
    generator
}

} // verus!
