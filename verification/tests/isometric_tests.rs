use rust_diablo::engine::diamond::{diamond_outline, diamond_spans, DIAMOND_SPAN_COUNT};
use rust_diablo::engine::isometric::{
    in_mega_bounds, in_micro_bounds, mega_to_micro, micro_to_mega, screen_to_tile, screen_to_tile_simple,
    screen_to_world, shift_grid, shift_to_diamond_grid_alignment, tiles_in_view, world_pixel_to_micro_tile,
    world_pixel_to_tile, world_to_screen, BORDER_SIZE, DMAXX, DMAXY, MAXDUNX, MAXDUNY, TILE_HEIGHT, TILE_WIDTH,
};
use rust_diablo::math::point::Point;

#[test]
fn test_world_to_screen_origin() {
    let (sx, sy) = world_to_screen(0, 0);
    assert_eq!(sx, 0);
    assert_eq!(sy, 0);
}

#[test]
fn test_world_to_screen_x_axis() {
    let (sx, sy) = world_to_screen(1, 0);
    assert_eq!(sx, -32);
    assert_eq!(sy, -16);
}

#[test]
fn test_world_to_screen_y_axis() {
    let (sx, sy) = world_to_screen(0, 1);
    assert_eq!(sx, 32);
    assert_eq!(sy, -16);
}

#[test]
fn test_world_to_screen_diagonal() {
    let (sx, sy) = world_to_screen(3, 5);
    assert_eq!(sx, 64);
    assert_eq!(sy, -128);
}

#[test]
fn test_screen_to_world_origin() {
    let (wx, wy) = screen_to_world(0, 0);
    assert_eq!(wx, 0);
    assert_eq!(wy, 0);
}

#[test]
fn test_screen_to_world_roundtrip() {
    let test_cases = [(0, 0), (1, 0), (0, 1), (5, 7), (10, 20), (39, 39)];
    for (wx, wy) in test_cases.iter() {
        let (sx, sy) = world_to_screen(*wx, *wy);
        let (wx2, wy2) = screen_to_world(sx, sy);
        assert_eq!(*wx, wx2, "x coordinate mismatch for ({}, {})", wx, wy);
        assert_eq!(*wy, wy2, "y coordinate mismatch for ({}, {})", wx, wy);
    }
}

#[test]
fn test_mega_to_micro() {
    let (mx, my) = mega_to_micro(0, 0);
    assert_eq!(mx, 16);
    assert_eq!(my, 16);
    let (mx, my) = mega_to_micro(10, 10);
    assert_eq!(mx, 36);
    assert_eq!(my, 36);
    let (mx, my) = mega_to_micro(39, 39);
    assert_eq!(mx, 94);
    assert_eq!(my, 94);
}

#[test]
fn test_micro_to_mega() {
    let (mx, my) = micro_to_mega(16, 16);
    assert_eq!(mx, 0);
    assert_eq!(my, 0);
    let (mx, my) = micro_to_mega(36, 36);
    assert_eq!(mx, 10);
    assert_eq!(my, 10);
    let (mx, my) = micro_to_mega(94, 94);
    assert_eq!(mx, 39);
    assert_eq!(my, 39);
}

#[test]
fn test_mega_micro_roundtrip() {
    let test_cases = [(0, 0), (10, 10), (20, 30), (39, 39)];
    for (mega_x, mega_y) in test_cases.iter() {
        let (micro_x, micro_y) = mega_to_micro(*mega_x, *mega_y);
        let (mega_x2, mega_y2) = micro_to_mega(micro_x, micro_y);
        assert_eq!(*mega_x, mega_x2, "x coordinate mismatch for ({}, {})", mega_x, mega_y);
        assert_eq!(*mega_y, mega_y2, "y coordinate mismatch for ({}, {})", mega_x, mega_y);
    }
}

#[test]
fn test_in_mega_bounds() {
    assert!(in_mega_bounds(0, 0));
    assert!(in_mega_bounds(39, 39));
    assert!(in_mega_bounds(20, 20));
    assert!(!in_mega_bounds(-1, 0));
    assert!(!in_mega_bounds(0, -1));
    assert!(!in_mega_bounds(40, 0));
    assert!(!in_mega_bounds(0, 40));
    assert!(!in_mega_bounds(40, 40));
}

#[test]
fn test_in_micro_bounds() {
    assert!(in_micro_bounds(0, 0));
    assert!(in_micro_bounds(111, 111));
    assert!(in_micro_bounds(50, 50));
    assert!(!in_micro_bounds(-1, 0));
    assert!(!in_micro_bounds(0, -1));
    assert!(!in_micro_bounds(112, 0));
    assert!(!in_micro_bounds(0, 112));
    assert!(!in_micro_bounds(112, 112));
}

#[test]
fn test_tile_dimensions() {
    assert_eq!(TILE_WIDTH, 64);
    assert_eq!(TILE_HEIGHT, 32);
    assert_eq!(DMAXX, 40);
    assert_eq!(DMAXY, 40);
    assert_eq!(MAXDUNX, 112);
    assert_eq!(MAXDUNY, 112);
    assert_eq!(BORDER_SIZE, 16);
}

#[test]
fn test_tiles_in_view() {
    let (columns, rows) = tiles_in_view(640, 480);
    assert_eq!(columns, 10);
    assert_eq!(rows, 15);
    let (columns, rows) = tiles_in_view(641, 481);
    assert_eq!(columns, 11);
    assert_eq!(rows, 16);
    let (columns, rows) = tiles_in_view(128, 64);
    assert_eq!(columns, 2);
    assert_eq!(rows, 2);
}

#[test]
fn test_shift_grid() {
    let mut tile = Point::new(10, 10);
    shift_grid(&mut tile, 1, 0);
    assert_eq!(tile.x, 11);
    assert_eq!(tile.y, 9);

    tile = Point::new(10, 10);
    shift_grid(&mut tile, 0, 1);
    assert_eq!(tile.x, 11);
    assert_eq!(tile.y, 11);

    tile = Point::new(10, 10);
    shift_grid(&mut tile, 1, 1);
    assert_eq!(tile.x, 12);
    assert_eq!(tile.y, 10);
}

#[test]
fn test_screen_to_tile() {
    let view_tile = Point::new(10, 10);
    let viewport_width = 640;
    let viewport_height = 480;
    let tile = screen_to_tile(320, 240, view_tile, viewport_width, viewport_height, 0, 0);
    assert!(tile.x >= 8 && tile.x <= 12);
    assert!(tile.y >= 8 && tile.y <= 12);
}

#[test]
fn test_shift_to_diamond_grid_alignment() {
    let mut tile = Point::new(10, 10);
    let _flipflag = shift_to_diamond_grid_alignment(32, 16, &mut tile);
    assert!(tile.x >= 0 && tile.x < MAXDUNX);
    assert!(tile.y >= 0 && tile.y < MAXDUNY);

    let mut tile = Point::new(10, 10);
    let _flipflag = shift_to_diamond_grid_alignment(0, 0, &mut tile);
    assert!(tile.x >= 0 && tile.x < MAXDUNX);
    assert!(tile.y >= 0 && tile.y < MAXDUNY);

    let mut tile = Point::new(10, 10);
    let _flipflag = shift_to_diamond_grid_alignment(63, 31, &mut tile);
    assert!(tile.x >= 0 && tile.x < MAXDUNX);
    assert!(tile.y >= 0 && tile.y < MAXDUNY);

    let mut tile = Point::new(5, 5);
    let flipflag1 = shift_to_diamond_grid_alignment(0, 0, &mut tile);
    assert!(tile.x >= 0 && tile.x < MAXDUNX);
    assert!(tile.y >= 0 && tile.y < MAXDUNY);

    let mut tile = Point::new(5, 5);
    let flipflag2 = shift_to_diamond_grid_alignment(63, 31, &mut tile);
    assert!(tile.x >= 0 && tile.x < MAXDUNX);
    assert!(tile.y >= 0 && tile.y < MAXDUNY);

    assert!(flipflag1 == true || flipflag1 == false);
    assert!(flipflag2 == true || flipflag2 == false);
}

#[test]
fn test_screen_to_tile_simple() {
    let view_tile = Point::new(10, 10);
    let tile = screen_to_tile_simple(320, 240, view_tile, 640, 480);
    assert!(tile.x >= 0 && tile.x < MAXDUNX);
    assert!(tile.y >= 0 && tile.y < MAXDUNY);
}

#[test]
fn test_screen_to_tile_roundtrip() {
    let view_tile = Point::new(10, 10);
    let test_positions = [(320, 240), (0, 0), (639, 479), (100, 100)];
    for (screen_x, screen_y) in test_positions.iter() {
        let tile = screen_to_tile_simple(*screen_x, *screen_y, view_tile, 640, 480);
        assert!(tile.x >= 0 && tile.x < MAXDUNX, "Tile x out of bounds: {} for screen ({}, {})", tile.x, screen_x, screen_y);
        assert!(tile.y >= 0 && tile.y < MAXDUNY, "Tile y out of bounds: {} for screen ({}, {})", tile.y, screen_x, screen_y);
    }
}

#[test]
fn world_pixels_map_to_tiles() {
    assert_eq!(world_pixel_to_tile(65, 130, 64), Point::new(1, 2));
    assert_eq!(world_pixel_to_tile(-65, 0, 64), Point::new(-1, 0));
    let p = world_pixel_to_micro_tile(0, 0, 64);
    assert_eq!(p, Point::new(16, 16));
}

#[test]
fn screen_to_world_inverts_every_small_world_point() {
    for wx in -5..45 {
        for wy in -5..45 {
            let (sx, sy) = world_to_screen(wx, wy);
            assert_eq!(screen_to_world(sx, sy), (wx, wy));
        }
    }
}

#[test]
fn test_diamond_spans() {
    let spans = diamond_spans(Point::new(100, 50));
    assert_eq!(spans.len(), DIAMOND_SPAN_COUNT);
    assert_eq!(spans[0], (34, 100, 100));
    assert_eq!(spans[1], (35, 98, 102));
    assert_eq!(spans[16], (50, 68, 132));
    assert_eq!(spans[17], (51, 70, 130));
    assert_eq!(spans[32], (66, 100, 100));
    for (i, span) in spans.iter().enumerate() {
        assert_eq!(span.0, 34 + i as i32);
        assert_eq!(span.1 + span.2, 200);
    }
}

#[test]
fn test_diamond_outline() {
    let edges = diamond_outline(Point::new(0, 0));
    let top = Point::new(0, -16);
    let bottom = Point::new(0, 16);
    let left = Point::new(-32, 0);
    let right = Point::new(32, 0);
    assert_eq!(edges, [(left, top), (left, bottom), (top, right), (bottom, right)]);
}
