use rust_diablo::lighting::crawl::is_line_clear;
use rust_diablo::lighting::{crawl_light, LightSource, LightTables, LightType, LightingSystem, MAXDUNX, MAXDUNY};
use rust_diablo::resources::palette::{Color, Palette};

/// The level a cell at squared distance `d2` gets from a light of `radius`, for
/// every `d2` within the radius, in f32 as the light crawl computes it.
fn light_falloff(radius: u8) -> Vec<u8> {
    let r = radius as u32;
    (0..=r * r)
        .map(|d2| {
            let dist = (d2 as f32).sqrt();
            let intensity = 15.0 * (1.0 - dist / radius as f32);
            intensity.max(0.0).min(15.0) as u8
        })
        .collect()
}

fn create_test_palette() -> Palette {
    let mut palette = Palette::new();
    for i in 0..256 {
        let val = i as u8;
        palette.colors[i] = Color::new(val, val, val);
    }
    palette
}

#[test]
fn test_is_line_clear_straight() {
    let block_map = [[false; MAXDUNY]; MAXDUNX];
    assert!(is_line_clear(50, 50, 60, 50, &block_map));
    assert!(is_line_clear(50, 50, 50, 60, &block_map));
}

#[test]
fn test_is_line_clear_blocked() {
    let mut block_map = [[false; MAXDUNY]; MAXDUNX];
    block_map[55][50] = true;
    assert!(!is_line_clear(50, 50, 60, 50, &block_map));
}

#[test]
fn test_crawl_light_attenuation() {
    let mut grid = [[0u8; MAXDUNY]; MAXDUNX];
    let source = LightSource::player((50, 50));
    let block_map = [[false; MAXDUNY]; MAXDUNX];
    crawl_light(&mut grid, &source, &block_map, &light_falloff(source.radius));

    let center_light = grid[50][50];
    assert!(center_light >= 13, "Center should be bright, got {}", center_light);

    let dist_1 = grid[51][50];
    let dist_2 = grid[52][50];
    let dist_3 = grid[53][50];
    assert!(center_light > dist_1);
    assert!(dist_1 >= dist_2);
    assert!(dist_2 >= dist_3);
}

#[test]
fn test_crawl_light_radius() {
    let mut grid = [[0u8; MAXDUNY]; MAXDUNX];
    let source = LightSource::player((50, 50));
    let block_map = [[false; MAXDUNY]; MAXDUNX];
    crawl_light(&mut grid, &source, &block_map, &light_falloff(source.radius));

    assert!(grid[55][50] > 0, "Within radius should be lit");
    assert!(grid[50][55] > 0, "Within radius should be lit");

    let far_x = 50 + source.radius as usize + 2;
    let far_y = 50 + source.radius as usize + 2;
    if far_x < MAXDUNX {
        assert_eq!(grid[far_x][50], 0, "Beyond radius should be dark");
    }
    if far_y < MAXDUNY {
        assert_eq!(grid[50][far_y], 0, "Beyond radius should be dark");
    }
}

#[test]
fn test_light_blocking() {
    let mut grid = [[0u8; MAXDUNY]; MAXDUNX];
    let source = LightSource::player((50, 50));
    let mut block_map = [[false; MAXDUNY]; MAXDUNX];
    block_map[55][50] = true;
    crawl_light(&mut grid, &source, &block_map, &light_falloff(source.radius));

    assert!(grid[54][50] > 0, "Before wall should be lit");
    assert!(grid[56][50] < 5, "Behind wall should be dark, got {}", grid[56][50]);
    assert!(grid[57][50] < 5, "Far behind wall should be dark");
}

#[test]
fn test_player_light_creation() {
    let light = LightSource::player((50, 50));
    assert_eq!(light.radius, 10);
    assert_eq!(light.position, (50, 50));
    assert!(light.active);
    assert_eq!(light.light_type, LightType::Player);
}

#[test]
fn test_torch_light_creation() {
    let light = LightSource::torch((30, 40));
    assert_eq!(light.radius, 8);
    assert_eq!(light.position, (30, 40));
    assert!(light.active);
    assert_eq!(light.light_type, LightType::Torch);
}

#[test]
fn test_light_tables_generation() {
    let palette = create_test_palette();
    let tables = LightTables::from_palette(&palette);
    assert_eq!(tables.get(0, 128), 0);
    assert_eq!(tables.get(0, 255), 0);
    assert_eq!(tables.get(15, 128), 128);
    assert_eq!(tables.get(15, 255), 255);
}

#[test]
fn test_light_tables_gradual_darkening() {
    let palette = create_test_palette();
    let tables = LightTables::from_palette(&palette);
    let test_color = 200;
    let mut prev_value = 255;
    for level in (0..=15).rev() {
        let value = tables.get(level, test_color);
        assert!(value <= prev_value, "Level {} value {} should be <= prev {}", level, value, prev_value);
        prev_value = value;
    }
}

#[test]
fn light_tables_dim_by_level_fifteenths() {
    let palette = create_test_palette();
    let tables = LightTables::from_palette(&palette);
    // 200 * 7 / 15 = 93.3, rounded down; the gradient palette holds 93 exactly.
    assert_eq!(tables.get(7, 200), 93);
    // Levels above 15 count as full light.
    assert_eq!(tables.get(40, 200), 200);
}

#[test]
fn test_lighting_system_creation() {
    let palette = create_test_palette();
    let lighting = LightingSystem::new(&palette);
    assert_eq!(lighting.light_sources.len(), 0);
    assert_eq!(lighting.ambient_light, 3);
    assert_eq!(lighting.next_light_id, 1);
    for x in 0..MAXDUNX {
        for y in 0..MAXDUNY {
            assert_eq!(lighting.light_grid[x][y], 0);
        }
    }
}

#[test]
fn test_add_remove_light() {
    let palette = create_test_palette();
    let mut lighting = LightingSystem::new(&palette);

    let id1 = lighting.add_light(LightSource::player((50, 50)));
    assert_eq!(lighting.light_sources.len(), 1);
    assert_eq!(id1, 1);

    let id2 = lighting.add_light(LightSource::torch((60, 60)));
    assert_eq!(lighting.light_sources.len(), 2);
    assert_eq!(id2, 2);

    lighting.remove_light(id1);
    assert_eq!(lighting.light_sources.len(), 1);

    lighting.remove_light(id2);
    assert_eq!(lighting.light_sources.len(), 0);
}

#[test]
fn test_update_light_position() {
    let palette = create_test_palette();
    let mut lighting = LightingSystem::new(&palette);
    let id = lighting.add_light(LightSource::player((50, 50)));
    lighting.update_light_position(id, (60, 60));
    let source = lighting.light_sources.iter().find(|s| s.id == id).unwrap();
    assert_eq!(source.position, (60, 60));
}

#[test]
fn test_get_light_level() {
    let palette = create_test_palette();
    let mut lighting = LightingSystem::new(&palette);
    lighting.ambient_light = 5;
    assert_eq!(lighting.get_light_level(0, 0), 5);
    lighting.light_grid[10][10] = 12;
    assert_eq!(lighting.get_light_level(10, 10), 12);
    assert_eq!(lighting.get_light_level(MAXDUNX, MAXDUNY), 5);
}

#[test]
fn add_then_remove_keeps_other_lights() {
    let palette = create_test_palette();
    let mut lighting = LightingSystem::new(&palette);
    let keep = lighting.add_light(LightSource::torch((10, 10)));
    let gone = lighting.add_light(LightSource::player((20, 20)));
    lighting.remove_light(gone);
    assert_eq!(lighting.light_sources.len(), 1);
    assert_eq!(lighting.light_sources[0].id, keep);
    assert_eq!(lighting.light_sources[0].position, (10, 10));
}

#[test]
fn update_lights_grid_from_active_sources() {
    let palette = create_test_palette();
    let mut lighting = LightingSystem::new(&palette);
    lighting.add_light(LightSource::player((50, 50)));
    let block_map = [[false; MAXDUNY]; MAXDUNX];
    let falloffs: Vec<Vec<u8>> = lighting.light_sources.iter().map(|s| light_falloff(s.radius)).collect();
    lighting.update(&block_map, &falloffs);
    assert_eq!(lighting.light_grid[50][50], 15);
    assert_eq!(lighting.light_grid[0][0], 0);
    assert_eq!(lighting.get_light_level(0, 0), 3);
}

#[test]
fn crawl_uses_the_falloff_levels() {
    let mut grid = [[9u8; MAXDUNY]; MAXDUNX];
    let source = LightSource::player((50, 50));
    let block_map = [[false; MAXDUNY]; MAXDUNX];
    let falloff = light_falloff(source.radius);
    assert_eq!(falloff[0], 15);
    // 15 * (1 - 6 / 10) in f32 is just under 6.
    assert_eq!(falloff[36], 5);
    assert_eq!(falloff[100], 0);
    crawl_light(&mut grid, &source, &block_map, &falloff);
    assert_eq!(grid[50][50], 15);
    assert_eq!(grid[56][50], 5);
    assert_eq!(grid[53][54], falloff[25]);
    // Inside the square but outside the radius: dark.
    assert_eq!(grid[59][59], 0);
    // Outside the square: unchanged.
    assert_eq!(grid[61][50], 9);
}
