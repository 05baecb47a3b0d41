use rust_diablo::resources::palette::{Color, Palette, PaletteError};
use std::time::Instant;

#[test]
fn test_palette_from_bytes() {
    let mut data = vec![0u8; 768];
    data[0] = 255;
    data[1] = 0;
    data[2] = 0;
    data[3] = 0;
    data[4] = 255;
    data[5] = 0;
    let palette = Palette::from_bytes(&data).unwrap();
    assert_eq!(palette.colors[0], Color { r: 255, g: 0, b: 0 });
    assert_eq!(palette.colors[1], Color { r: 0, g: 255, b: 0 });
}

#[test]
fn test_palette_invalid_size() {
    let data = vec![0u8; 100];
    assert!(Palette::from_bytes(&data).is_err());
}

#[test]
fn palette_invalid_size_reports_length() {
    let data = vec![0u8; 769];
    assert_eq!(Palette::from_bytes(&data).unwrap_err(), PaletteError::InvalidSize(769));
}

#[test]
fn test_palette_to_rgb() {
    let mut data = vec![0u8; 768];
    data[0] = 255;
    data[3] = 0;
    data[4] = 255;
    data[5] = 0;
    let palette = Palette::from_bytes(&data).unwrap();
    assert_eq!(palette.to_rgb(0), Color { r: 255, g: 0, b: 0 });
    assert_eq!(palette.to_rgb(1), Color { r: 0, g: 255, b: 0 });
}

#[test]
fn test_palette_to_rgba_transparent() {
    let mut data = vec![0u8; 768];
    data[0] = 255;
    let palette = Palette::from_bytes(&data).unwrap();
    let rgba = palette.to_rgba(0, true);
    assert_eq!(rgba, [255, 0, 0, 0]);
    let rgba = palette.to_rgba(0, false);
    assert_eq!(rgba, [255, 0, 0, 255]);
    let rgba = palette.to_rgba(1, true);
    assert_eq!(rgba[3], 255);
}

#[test]
fn test_palette_indices_to_rgba() {
    let mut data = vec![0u8; 768];
    data[0] = 255;
    data[3] = 0;
    data[4] = 255;
    data[5] = 0;
    let palette = Palette::from_bytes(&data).unwrap();
    let indices = vec![0u8, 1u8];
    let rgba = palette.indices_to_rgba(&indices, false);
    assert_eq!(rgba.len(), 8);
    assert_eq!(rgba[0..4], [255, 0, 0, 255]);
    assert_eq!(rgba[4..8], [0, 255, 0, 255]);
}

#[test]
fn test_palette_indices_to_rgba_transparent() {
    let mut data = vec![0u8; 768];
    data[0] = 255;
    let palette = Palette::from_bytes(&data).unwrap();
    let indices = vec![0u8, 1u8];
    let rgba = palette.indices_to_rgba(&indices, true);
    assert_eq!(rgba[0..4], [255, 0, 0, 0]);
    assert_eq!(rgba[4..8], [0, 0, 0, 255]);
}

#[test]
fn test_palette_color_operations() {
    let mut data = vec![0u8; 768];
    data[0] = 255;
    data[1] = 0;
    data[2] = 0;
    data[3] = 0;
    data[4] = 255;
    data[5] = 0;
    data[6] = 0;
    data[7] = 0;
    data[8] = 255;
    data[765] = 255;
    data[766] = 255;
    data[767] = 255;
    let palette = Palette::from_bytes(&data).unwrap();

    let color_0 = palette.to_rgb(0);
    assert_eq!(color_0, Color { r: 255, g: 0, b: 0 });
    let color_255 = palette.to_rgb(255);
    assert_eq!(color_255, Color { r: 255, g: 255, b: 255 });

    let rgba_transparent = palette.to_rgba(0, true);
    assert_eq!(rgba_transparent[3], 0);
    let rgba_opaque = palette.to_rgba(0, false);
    assert_eq!(rgba_opaque[3], 255);

    let indices = vec![0u8, 1u8, 2u8, 255u8];
    let rgba_data = palette.indices_to_rgba(&indices, false);
    assert_eq!(rgba_data.len(), 16);
    assert_eq!(&rgba_data[0..4], &[255, 0, 0, 255]);
    assert_eq!(&rgba_data[4..8], &[0, 255, 0, 255]);
    assert_eq!(&rgba_data[8..12], &[0, 0, 255, 255]);
    assert_eq!(&rgba_data[12..16], &[255, 255, 255, 255]);
}

#[test]
fn test_palette_transparency_index_zero() {
    let mut data = vec![0u8; 768];
    for i in 0..256 {
        let offset = i * 3;
        data[offset] = i as u8;
        data[offset + 1] = 128;
        data[offset + 2] = 255 - i as u8;
    }
    let palette = Palette::from_bytes(&data).unwrap();
    for i in 0..=255u8 {
        let rgba_transparent = palette.to_rgba(i, true);
        let rgba_opaque = palette.to_rgba(i, false);
        if i == 0 {
            assert_eq!(rgba_transparent[3], 0, "Index 0 should be transparent");
        } else {
            assert_eq!(rgba_transparent[3], 255, "Index {} should be opaque", i);
        }
        assert_eq!(rgba_opaque[3], 255, "Index {} should be opaque in opaque mode", i);
    }
}

#[test]
fn test_palette_image_conversion() {
    let mut data = vec![0u8; 768];
    for i in 0..256 {
        let offset = i * 3;
        let value = i as u8;
        data[offset] = value;
        data[offset + 1] = value;
        data[offset + 2] = value;
    }
    let palette = Palette::from_bytes(&data).unwrap();
    let mut indices = Vec::new();
    for y in 0..8 {
        for x in 0..8 {
            let index = ((y * 8 + x) * 4) as u8;
            indices.push(index);
        }
    }
    let rgba = palette.indices_to_rgba(&indices, false);
    assert_eq!(rgba.len(), 64 * 4);
    assert_eq!(&rgba[0..4], &[0, 0, 0, 255]);
    let last_pixel_offset = 63 * 4;
    assert_eq!(&rgba[last_pixel_offset..last_pixel_offset + 4], &[252, 252, 252, 255]);
}

#[test]
fn test_palette_clone() {
    let mut data = vec![0u8; 768];
    data[0] = 255;
    let palette1 = Palette::from_bytes(&data).unwrap();
    let palette2 = palette1.clone();
    assert_eq!(palette1.to_rgb(0), palette2.to_rgb(0));
    assert_eq!(palette1.len(), palette2.len());
    for i in 0..=255u8 {
        assert_eq!(palette1.to_rgb(i), palette2.to_rgb(i));
    }
}

#[test]
fn test_palette_performance() {
    let mut data = vec![0u8; 768];
    for i in 0..768 {
        data[i] = (i % 256) as u8;
    }
    let palette = Palette::from_bytes(&data).unwrap();
    let size = 256 * 256;
    let mut indices = Vec::with_capacity(size);
    for i in 0..size {
        indices.push((i % 256) as u8);
    }
    let start = Instant::now();
    let rgba = palette.indices_to_rgba(&indices, true);
    let duration = start.elapsed();
    println!("Converted {}x{} pixels in {:?}", 256, 256, duration);
    assert_eq!(rgba.len(), size * 4);
    assert!(duration.as_millis() < 100, "Conversion should be fast");
}

#[test]
fn nearest_color_prefers_exact_and_first() {
    let mut palette = Palette::new();
    palette.colors[3] = Color::new(10, 20, 30);
    palette.colors[7] = Color::new(10, 20, 30);
    assert_eq!(palette.find_nearest_color((10, 20, 30)), 3);
    assert_eq!(palette.find_nearest_color((0, 0, 0)), 0);
    assert_eq!(palette.find_nearest_color((11, 21, 29)), 3);
    assert_eq!(palette.len(), 256);
}

#[test]
fn color_to_rgba_appends_alpha() {
    assert_eq!(Color::new(1, 2, 3).to_rgba(9), [1, 2, 3, 9]);
}
