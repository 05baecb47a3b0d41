use rust_diablo::assets::AssetPaths;
use rust_diablo::engine::tile_renderer::{render_left_triangle_full, render_right_triangle_full, TileRenderError};
use rust_diablo::levels::drlg_l1::{create_l1_dungeon, CathedralGenerator, Tile, DMAXX, DMAXY, MAXDUNX, MAXDUNY};
use rust_diablo::resources::palette::{Color, Palette};
use rust_diablo::tiles::{MegaTile, TilData};

#[test]
fn test_tile_enum() {
    assert_eq!(Tile::VWall.value(), 1);
    assert_eq!(Tile::Floor.value(), 13);
    assert_eq!(Tile::Dirt.value(), 16);
}

#[test]
fn test_generator_creation() {
    let gen = CathedralGenerator::new(12345);
    assert_eq!(gen.seed, 12345);
}

fn til_data() -> TilData {
    let mut mega_tiles = Vec::new();
    for i in 0..30u16 {
        mega_tiles.push(MegaTile { micro1: i * 10 + 1, micro2: i * 10 + 2, micro3: i * 10 + 3, micro4: i * 10 + 4 });
    }
    TilData { mega_tiles }
}

#[test]
fn vertical_layout_with_outer_chambers() {
    let mut gen = CathedralGenerator::new(1);
    gen.layout_rooms(true, true, false, true);
    assert!(!gen.has_chamber2);
    assert!(gen.vertical_layout);
    // Chamber 1 is (15, 1, 10, 10); the hallway is (17, 1, 6, 38).
    assert!(gen.dungeon_mask[15][1]);
    assert!(gen.dungeon_mask[24][10]);
    assert!(!gen.dungeon_mask[14][1]);
    assert!(gen.dungeon_mask[17][38]);
    assert!(!gen.dungeon_mask[17][39]);
    assert!(!gen.dungeon_mask[0][0]);
}

#[test]
fn missing_first_chamber_shortens_hallway() {
    let mut gen = CathedralGenerator::new(1);
    gen.layout_rooms(false, false, false, true);
    assert!(gen.has_chamber2);
    // The hallway starts at x = 18.
    assert!(!gen.dungeon_mask[14][17]);
    assert!(gen.dungeon_mask[26][17]);
    assert!(!gen.dungeon_mask[1][15]);
}

#[test]
fn mask_becomes_tiles() {
    let mut gen = CathedralGenerator::new(1);
    gen.dungeon_mask[10][10] = true;
    gen.make_dmt();
    assert_eq!(gen.dungeon[10][10], Tile::Floor.value());
    assert_eq!(gen.dungeon[9][9], Tile::DWall.value());
    assert_eq!(gen.dungeon[10][9], Tile::HWall.value());
    assert_eq!(gen.dungeon[9][10], Tile::VWall.value());
    assert_eq!(gen.dungeon[0][0], Tile::Dirt.value());
    assert_eq!(gen.dungeon[39][39], Tile::Dirt.value());
}

#[test]
fn wall_ends_are_fixed() {
    let mut gen = CathedralGenerator::new(1);
    for i in 0..DMAXX {
        for j in 0..DMAXY {
            gen.dungeon[i][j] = Tile::Floor.value();
        }
    }
    gen.dungeon[5][5] = Tile::VWall.value();
    gen.dungeon[8][8] = Tile::HWall.value();
    gen.fix_tiles_patterns();
    assert_eq!(gen.dungeon[5][5], Tile::VWallEnd.value());
    assert_eq!(gen.dungeon[8][8], Tile::HWallEnd.value());
    assert_eq!(gen.dungeon[0][0], Tile::Floor.value());
}

#[test]
fn walls_go_across_floor_only() {
    let mut gen = CathedralGenerator::new(1);
    for i in 0..DMAXX {
        for j in 0..DMAXY {
            gen.dungeon[i][j] = Tile::Floor.value();
        }
    }
    gen.add_wall(10, 10, true, 3);
    assert_eq!(gen.dungeon[10][10], Tile::HWall.value());
    assert_eq!(gen.dungeon[12][10], Tile::HWall.value());
    assert_eq!(gen.dungeon[13][10], Tile::Floor.value());
    gen.dungeon[20][21] = Tile::Dirt.value();
    gen.add_wall(20, 20, false, 3);
    assert_eq!(gen.dungeon[20][20], Tile::VWall.value());
    assert_eq!(gen.dungeon[20][21], Tile::Dirt.value());
    assert_eq!(gen.dungeon[20][22], Tile::VWall.value());
    let before = gen.dungeon;
    gen.add_wall(20, 21, true, 4);
    assert_eq!(gen.dungeon, before);
}

#[test]
fn layout_expands_into_pieces() {
    let mut gen = CathedralGenerator::new(1);
    for i in 0..DMAXX {
        for j in 0..DMAXY {
            gen.dungeon[i][j] = Tile::Floor.value();
        }
    }
    gen.dungeon[0][0] = 0;
    gen.pass3(&til_data());
    // Floor is 13: mega tile 12.
    assert_eq!(gen.get_piece(18, 16), 121);
    assert_eq!(gen.get_piece(19, 16), 122);
    assert_eq!(gen.get_piece(18, 17), 123);
    assert_eq!(gen.get_piece(19, 17), 124);
    // Value 0 uses mega tile 0.
    assert_eq!(gen.get_piece(16, 16), 1);
    // Outside the layout the dirt mega tile (16 - 1 = 15) fills in.
    assert_eq!(gen.get_piece(0, 0), 151);
    assert_eq!(gen.get_piece(111, 111), 154);
    assert_eq!(gen.get_piece(-1, 0), 0);
    assert!(gen.in_bounds(111, 0));
    assert!(!gen.in_bounds(112, 0));
    assert_eq!(MAXDUNX, 112);
    assert_eq!(MAXDUNY, 112);
}

#[test]
fn missing_mega_tiles_leave_pieces() {
    let mut gen = CathedralGenerator::new(1);
    gen.pass3(&TilData { mega_tiles: Vec::new() });
    assert_eq!(gen.get_piece(50, 50), 0);
}

#[test]
fn generated_level_has_a_hallway() {
    let gen = create_l1_dungeon(7, &til_data());
    assert_eq!(gen.seed, 7);
    assert!(gen.has_chamber2 || (gen.has_chamber1 && gen.has_chamber3));
    // The hallway always covers (17, 17) .. (22, 22).
    assert!(gen.dungeon_mask[20][20]);
    assert_eq!(gen.get_piece(0, 0), 151);
}

#[test]
fn test_render_left_triangle_full_buffer_size() {
    let palette = Palette::from_bytes(&[0u8; 768]).unwrap();
    // A raw 544-byte left triangle of zeros decodes to 32x31 zero pixels.
    let indexed_pixels = vec![0u8; 32 * 31];
    let mut buffer = vec![0u8; 32 * 31 * 4];
    let result = render_left_triangle_full(&mut buffer, 32 * 4, &indexed_pixels, &palette, true);
    assert_eq!(result, Ok(()));
}

fn red_palette() -> Palette {
    let mut palette = Palette::new();
    palette.colors[1] = Color::new(200, 0, 0);
    palette
}

#[test]
fn right_triangle_rows_are_right_aligned() {
    let pixels = vec![1u8; 32 * 31];
    let mut buffer = vec![9u8; 32 * 31 * 4];
    render_right_triangle_full(&mut buffer, 128, &pixels, &red_palette(), true).unwrap();
    // Row 0 is 2 pixels wide at the right edge.
    assert_eq!(&buffer[0..4], &[9, 9, 9, 9]);
    assert_eq!(&buffer[120..128], &[200, 0, 0, 255, 200, 0, 0, 255]);
    // Row 15 is full width.
    assert_eq!(&buffer[15 * 128..15 * 128 + 4], &[200, 0, 0, 255]);
}

#[test]
fn left_triangle_rows_are_right_aligned() {
    let mut pixels = vec![1u8; 32 * 31];
    pixels[15 * 32] = 0;
    pixels[30 * 32 + 1] = 0;
    let mut buffer = vec![9u8; 32 * 31 * 4];
    let result = render_left_triangle_full(&mut buffer, 128, &pixels, &red_palette(), true);
    assert_eq!(result, Ok(()));
    // Row 0 is 2 pixels wide at the right edge.
    assert_eq!(&buffer[0..120], &[9u8; 120][..]);
    assert_eq!(&buffer[120..128], &[200, 0, 0, 255, 200, 0, 0, 255]);
    // Row 15 is full width; index 0 is drawn transparent.
    assert_eq!(&buffer[15 * 128..15 * 128 + 8], &[0, 0, 0, 0, 200, 0, 0, 255]);
    // Row 16 is 30 pixels wide, from the third pixel on.
    assert_eq!(&buffer[16 * 128..16 * 128 + 8], &[9u8; 8][..]);
    assert_eq!(&buffer[16 * 128 + 8..16 * 128 + 12], &[200, 0, 0, 255]);
    // Row 30, the last, is 2 pixels wide at the right edge of the buffer.
    assert_eq!(&buffer[30 * 128 + 112..30 * 128 + 120], &[9u8; 8][..]);
    assert_eq!(&buffer[30 * 128 + 120..31 * 128], &[200, 0, 0, 255, 0, 0, 0, 0]);

    let mut small = vec![0u8; 10];
    assert_eq!(
        render_left_triangle_full(&mut small, 128, &pixels, &red_palette(), false),
        Err(TileRenderError::BufferTooSmall(31 * 128, 10))
    );
    let mut full = vec![9u8; 32 * 31 * 4];
    assert_eq!(
        render_right_triangle_full(&mut full, 128, &pixels[..10], &red_palette(), false),
        Err(TileRenderError::SizeMismatch(992, 10))
    );
}

#[test]
fn triangle_rows_past_a_short_buffer_are_refused() {
    let pixels = vec![1u8; 32 * 31];
    // Pitch 120 with room for 31 rows: the last row starts at the very end.
    let mut buffer = vec![9u8; 31 * 120];
    let result = render_left_triangle_full(&mut buffer, 120, &pixels, &red_palette(), true);
    assert_eq!(result, Err(TileRenderError::DestinationTooSmall(8, 0)));
}

#[test]
fn asset_paths() {
    assert_eq!(AssetPaths::assets_dir(), "assets");
    assert_eq!(AssetPaths::sprites_dir(), "assets/sprites");
    assert_eq!(AssetPaths::sprite("hero.png"), "assets/sprites/hero.png");
}

#[test]
fn generation_uses_both_orientations() {
    let til = til_data();
    let mut vertical = false;
    let mut horizontal = false;
    for seed in 0..64 {
        let gen = create_l1_dungeon(seed, &til);
        if gen.vertical_layout {
            vertical = true;
        } else {
            horizontal = true;
        }
    }
    assert!(vertical && horizontal);
}

#[test]
fn same_seed_gives_same_level() {
    let til = til_data();
    for seed in [0u32, 1, 7, 12345, u32::MAX] {
        let a = create_l1_dungeon(seed, &til);
        let b = create_l1_dungeon(seed, &til);
        assert_eq!(a.dungeon, b.dungeon);
        assert_eq!(a.dungeon_mask, b.dungeon_mask);
        assert_eq!(a.d_piece, b.d_piece);
        assert_eq!(
            (a.vertical_layout, a.has_chamber1, a.has_chamber2, a.has_chamber3),
            (b.vertical_layout, b.has_chamber1, b.has_chamber2, b.has_chamber3)
        );
    }
}

#[test]
fn different_seeds_give_different_levels() {
    let til = til_data();
    let first = create_l1_dungeon(1, &til);
    let differ = (2..20u32).any(|seed| create_l1_dungeon(seed, &til).dungeon != first.dungeon);
    assert!(differ);
}
