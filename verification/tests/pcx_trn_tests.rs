use rust_diablo::resources::pcx::{PcxError, PcxHeader, PcxImage};
use rust_diablo::resources::palette::Palette;
use rust_diablo::resources::trn::{ColorTransform, TrnError};

#[test]
fn test_pcx_header_parse() {
    let mut header_data = vec![0u8; 128];
    header_data[0] = 0x0A;
    header_data[1] = 5;
    header_data[2] = 1;
    header_data[3] = 8;
    header_data[8] = 99;
    header_data[9] = 0;
    header_data[10] = 99;
    header_data[11] = 0;
    header_data[65] = 1;
    let header = PcxHeader::from_bytes(&header_data).unwrap();
    assert_eq!(header.manufacturer, 0x0A);
    assert_eq!(header.width(), 100);
    assert_eq!(header.height(), 100);
}

#[test]
fn test_pcx_rle_decode_single_pixels() {
    let data = vec![0x10, 0x20, 0x30, 0x40];
    let result = PcxImage::decode_rle(&data, 4, 1).unwrap();
    assert_eq!(result, vec![0x10, 0x20, 0x30, 0x40]);
}

#[test]
fn test_pcx_rle_decode_compressed() {
    let data = vec![0xC5, 0x10, 0x20, 0x30];
    let result = PcxImage::decode_rle(&data, 7, 1).unwrap();
    assert_eq!(result, vec![0x10, 0x10, 0x10, 0x10, 0x10, 0x20, 0x30]);
}

#[test]
fn test_pcx_rle_decode_overflow() {
    let data = vec![0xC5];
    let result = PcxImage::decode_rle(&data, 5, 1);
    assert!(result.is_err());
}

#[test]
fn pcx_decode_errors() {
    assert_eq!(PcxImage::decode_rle(&[0xC5], 5, 1).unwrap_err(), PcxError::MissingRunValue);
    assert_eq!(PcxImage::decode_rle(&[0x01], 2, 1).unwrap_err(), PcxError::RleOverflow);
    assert_eq!(PcxImage::decode_rle(&[0xC3, 0x01], 2, 1).unwrap_err(), PcxError::RunExceedsWidth);
    // Odd widths skip one pad byte per row.
    assert_eq!(PcxImage::decode_rle(&[1, 2, 3, 0, 4, 5, 6, 0], 3, 2).unwrap(), vec![1, 2, 3, 4, 5, 6]);
}

fn pcx_file(width: u16, height: u16, body: &[u8], palette: bool) -> Vec<u8> {
    let mut data = vec![0u8; 128];
    data[0] = 0x0A;
    data[3] = 8;
    data[8..10].copy_from_slice(&(width - 1).to_le_bytes());
    data[10..12].copy_from_slice(&(height - 1).to_le_bytes());
    data.extend_from_slice(body);
    if palette {
        data.push(0x0C);
        let mut pal = vec![0u8; 768];
        pal[3] = 9;
        data.extend_from_slice(&pal);
    }
    data
}

#[test]
fn pcx_file_with_palette() {
    let data = pcx_file(2, 2, &[1, 2, 3, 4], true);
    let image = PcxImage::from_bytes(&data).unwrap();
    assert_eq!((image.width, image.height), (2, 2));
    assert_eq!(image.pixels, vec![1, 2, 3, 4]);
    let pal = image.palette.clone().unwrap();
    assert_eq!(pal.colors[1].r, 9);
    let rgba = image.to_rgba(&pal, Some(1));
    assert_eq!(&rgba[0..4], &[9, 0, 0, 0]);
    assert_eq!(&rgba[4..8], &[0, 0, 0, 255]);
}

#[test]
fn pcx_file_errors() {
    assert_eq!(PcxImage::from_bytes(&[0u8; 10]).unwrap_err(), PcxError::TooSmall(10));
    let mut data = pcx_file(2, 1, &[1, 2], false);
    assert!(PcxImage::from_bytes(&data).unwrap().palette.is_none());
    data[3] = 4;
    assert_eq!(PcxImage::from_bytes(&data).unwrap_err(), PcxError::UnsupportedBitsPerPixel(4));
    data[0] = 0x0B;
    assert_eq!(PcxImage::from_bytes(&data).unwrap_err(), PcxError::InvalidManufacturer(0x0B));
    let header_only = pcx_file(2, 1, &[], false);
    assert_eq!(PcxImage::from_bytes(&header_only).unwrap_err(), PcxError::NoPixelData);
    let _ = Palette::new();
}

#[test]
fn test_from_bytes_correct_size() {
    let data = vec![0u8; 256];
    let result = ColorTransform::from_bytes(&data);
    assert!(result.is_ok());
}

#[test]
fn test_from_bytes_wrong_size() {
    let data = vec![0u8; 255];
    let result = ColorTransform::from_bytes(&data);
    assert!(result.is_err());
    let data = vec![0u8; 257];
    let result = ColorTransform::from_bytes(&data);
    assert!(result.is_err());
}

#[test]
fn trn_wrong_size_reports_length() {
    assert!(matches!(ColorTransform::from_bytes(&[0u8; 3]), Err(TrnError::InvalidSize(3))));
}

#[test]
fn test_identity_mapping() {
    let trn = ColorTransform::identity();
    assert!(trn.is_identity());
    for i in 0..256 {
        assert_eq!(trn.apply(i as u8), i as u8);
    }
}

#[test]
fn test_simple_mapping() {
    let mut data = vec![0u8; 256];
    for i in 0..256 {
        data[i] = ((i + 1) % 256) as u8;
    }
    let trn = ColorTransform::from_bytes(&data).unwrap();
    assert_eq!(trn.apply(0), 1);
    assert_eq!(trn.apply(10), 11);
    assert_eq!(trn.apply(255), 0);
    assert!(!trn.is_identity());
}

#[test]
fn test_apply_to_pixels() {
    let mut data = vec![0u8; 256];
    for i in 0..256 {
        data[i] = ((i * 2) % 256) as u8;
    }
    let trn = ColorTransform::from_bytes(&data).unwrap();
    let mut pixels = vec![Some(10), None, Some(20), Some(100), None];
    trn.apply_to_pixels(&mut pixels);
    assert_eq!(pixels[0], Some(20));
    assert_eq!(pixels[1], None);
    assert_eq!(pixels[2], Some(40));
    assert_eq!(pixels[3], Some(200));
    assert_eq!(pixels[4], None);
}

#[test]
fn test_change_stats() {
    let trn_id = ColorTransform::identity();
    let (changed, total) = trn_id.change_stats();
    assert_eq!(changed, 0);
    assert_eq!(total, 256);

    let mut data = vec![0u8; 256];
    for i in 0..256 {
        data[i] = i as u8;
    }
    for i in 0..10 {
        data[i] = (i + 100) as u8;
    }
    let trn = ColorTransform::from_bytes(&data).unwrap();
    let (changed, total) = trn.change_stats();
    assert_eq!(changed, 10);
    assert_eq!(total, 256);
}

#[test]
fn test_apply_preserves_zero() {
    let mut data = vec![0u8; 256];
    for i in 0..256 {
        data[i] = i as u8;
    }
    data[0] = 10;
    let trn = ColorTransform::from_bytes(&data).unwrap();
    assert_eq!(trn.apply(0), 10);
}

#[test]
fn test_round_trip_mapping() {
    let mut forward = vec![0u8; 256];
    let mut backward = vec![0u8; 256];
    for i in 0..256 {
        forward[i] = (255 - i) as u8;
        backward[255 - i] = i as u8;
    }
    let trn_fwd = ColorTransform::from_bytes(&forward).unwrap();
    let trn_bwd = ColorTransform::from_bytes(&backward).unwrap();
    for i in 0..256 {
        let mapped = trn_fwd.apply(i as u8);
        let unmapped = trn_bwd.apply(mapped);
        assert_eq!(unmapped, i as u8);
    }
}
