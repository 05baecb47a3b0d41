use rust_diablo::engine::texture::{clx_frame_rgba, copy_rgba_rows, write_rgba_as_abgr};
use rust_diablo::resources::cl2::{Cl2DirectionalSpriteSheet, Cl2Sprite};
use rust_diablo::resources::clx::{ClxError, ClxFrame, ClxFrameHeader, ClxHeader, ClxSprite};
use rust_diablo::resources::dungeon_cel::{DungeonCelError, DungeonCelSprite, DUN_FRAME_HEIGHT, DUN_FRAME_WIDTH};
use rust_diablo::resources::palette::{Color, Palette};

fn gradient_palette() -> Palette {
    let mut palette = Palette::new();
    for i in 0..256 {
        let v = i as u8;
        palette.colors[i] = Color::new(v, v, v);
    }
    palette
}

#[test]
fn test_cl2_basic_structure() {
    let data = vec![
        0x01, 0x00, 0x00, 0x00, 0x08, 0x00, 0x00, 0x00, 0x0C, 0x00, 0x00, 0x00,
    ];
    let result = Cl2Sprite::from_bytes(&data, 32);
    assert!(result.is_err());
}

#[test]
fn test_clx_header_parse() {
    let mut header_data = vec![0u8; 12];
    header_data[0] = 1;
    header_data[4] = 12;
    header_data[8] = 20;
    let header = ClxHeader::from_bytes(&header_data).unwrap();
    assert_eq!(header.num_frames, 1);
    assert_eq!(header.frame_offsets.len(), 2);
    assert_eq!(header.frame_offsets[0], 12);
    assert_eq!(header.frame_offsets[1], 20);
    assert_eq!(header.file_size, 20);
}

#[test]
fn test_clx_frame_header_parse() {
    let mut frame_data = vec![0u8; 10];
    frame_data[0] = 6;
    frame_data[1] = 0;
    frame_data[2] = 10;
    frame_data[3] = 0;
    frame_data[4] = 20;
    frame_data[5] = 0;
    let header = ClxFrameHeader::from_bytes(&frame_data, 0).unwrap();
    assert_eq!(header.header_size, 6);
    assert_eq!(header.width, 10);
    assert_eq!(header.height, 20);
}

#[test]
fn test_cl2_rle_decode_transparent() {
    let data = vec![0x05];
    let result = ClxSprite::decode_cl2_rle(&data, 5, 1).unwrap();
    assert_eq!(result.len(), 5);
    assert!(result.iter().all(|p| p.is_none()));
}

#[test]
fn test_cl2_rle_decode_opaque_fill() {
    let data = vec![0xBE, 0x42];
    let result = ClxSprite::decode_cl2_rle(&data, 1, 1).unwrap();
    assert_eq!(result.len(), 1);
    assert_eq!(result[0], Some(0x42));
}

#[test]
fn test_cl2_rle_decode_opaque_pixels() {
    let data = vec![0xC3, 0x10, 0x20, 0x30, 0x40];
    let result = ClxSprite::decode_cl2_rle(&data, 4, 1).unwrap();
    assert_eq!(result.len(), 4);
    assert_eq!(result[0], Some(0x10));
    assert_eq!(result[1], Some(0x20));
    assert_eq!(result[2], Some(0x30));
    assert_eq!(result[3], Some(0x40));
}

#[test]
fn test_cl2_rle_decode_mixed() {
    let data = vec![0x02, 0xBE, 0x10, 0xC2, 0x20, 0x30, 0x40];
    let result = ClxSprite::decode_cl2_rle(&data, 6, 1).unwrap();
    assert_eq!(result.len(), 6);
    assert_eq!(result[0], None);
    assert_eq!(result[1], None);
    assert_eq!(result[2], Some(0x10));
    assert_eq!(result[3], Some(0x20));
    assert_eq!(result[4], Some(0x30));
    assert_eq!(result[5], Some(0x40));
}

#[test]
fn test_cl2_rle_decode_simple_mixed() {
    let data = vec![0x01, 0xBE, 0x42];
    let result = ClxSprite::decode_cl2_rle(&data, 2, 1).unwrap();
    assert_eq!(result.len(), 2);
    assert_eq!(result[0], None);
    assert_eq!(result[1], Some(0x42));
}

#[test]
fn clx_rle_errors() {
    assert_eq!(ClxSprite::decode_cl2_rle(&[], 1, 1).unwrap_err(), ClxError::RleOverflow);
    assert_eq!(ClxSprite::decode_cl2_rle(&[0x05], 2, 2).unwrap_err(), ClxError::TransparentRunOverflow);
    assert_eq!(ClxSprite::decode_cl2_rle(&[0xBE], 1, 1).unwrap_err(), ClxError::FillMissingColor);
    assert_eq!(ClxSprite::decode_cl2_rle(&[0xBC, 1], 2, 1).unwrap_err(), ClxError::FillOverflow);
    assert_eq!(ClxSprite::decode_cl2_rle(&[0xBC, 1], 2, 2).unwrap_err(), ClxError::FillExceedsLine);
    assert_eq!(ClxSprite::decode_cl2_rle(&[0xC2, 1], 2, 1).unwrap_err(), ClxError::PixelDataOverflow);
    assert_eq!(ClxSprite::decode_cl2_rle(&[0xC2, 1, 2, 3], 2, 1).unwrap_err(), ClxError::PixelsOverflow);
    assert_eq!(ClxSprite::decode_cl2_rle(&[0xC2, 1, 2, 3], 2, 2).unwrap_err(), ClxError::PixelsExceedLine);
    // A transparent run that spills into the next line leaves that line short.
    assert_eq!(ClxSprite::decode_cl2_rle(&[0x03, 0x01], 2, 2).unwrap_err(), ClxError::RleOverflow);
}

fn one_frame_clx() -> Vec<u8> {
    vec![
        1, 0, 0, 0, 12, 0, 0, 0, 24, 0, 0, 0, // count, frame offset, file size
        6, 0, 2, 0, 2, 0, // header size, width, height
        0xC1, 5, 6, // line 0: two raw pixels
        0x01, 0xBE, 7, // line 1: one transparent, one fill
    ]
}

#[test]
fn clx_sprite_parses_and_flips() {
    let sprite = ClxSprite::from_bytes(&one_frame_clx()).unwrap();
    assert_eq!(sprite.num_frames(), 1);
    let frame = sprite.get_frame(0).unwrap();
    assert_eq!((frame.width, frame.height), (2, 2));
    assert_eq!(frame.pixels, vec![Some(5), Some(6), None, Some(7)]);
    assert!(sprite.get_frame(1).is_none());

    let rgba = sprite.frame_to_rgba(0, &gradient_palette()).unwrap();
    assert_eq!(rgba, vec![0, 0, 0, 0, 7, 7, 7, 255, 5, 5, 5, 255, 6, 6, 6, 255]);
    assert_eq!(
        sprite.frame_to_rgba(3, &gradient_palette()).unwrap_err(),
        ClxError::FrameIndexOutOfBounds(3)
    );
}

#[test]
fn clx_sprite_errors() {
    assert_eq!(ClxSprite::from_bytes(&[1, 0, 0]).unwrap_err(), ClxError::HeaderTooSmall(3));
    assert_eq!(ClxSprite::from_bytes(&[0u8; 8]).unwrap_err(), ClxError::ZeroFrames);
    assert_eq!(ClxSprite::from_bytes(&[2, 0, 0, 0, 0, 0, 0, 0]).unwrap_err(), ClxError::HeaderIncomplete(16, 8));
    let mut data = one_frame_clx();
    data[8] = 30;
    assert_eq!(ClxSprite::from_bytes(&data).unwrap_err(), ClxError::FileSizeMismatch(30, 24));
    let mut data = one_frame_clx();
    data[12] = 20;
    assert_eq!(ClxSprite::from_bytes(&data).unwrap_err(), ClxError::PixelDataOffsetInvalid(0, 12, 20, 24));
    assert_eq!(ClxFrameHeader::from_bytes(&[0u8; 4], 0).unwrap_err(), ClxError::FrameHeaderOutOfBounds(0, 4));
}

fn cl2_group() -> Vec<u8> {
    vec![1, 0, 0, 0, 12, 0, 0, 0, 17, 0, 0, 0, 2, 0, 0xC1, 1, 2]
}

#[test]
fn cl2_decode_counts_lines() {
    let data = [0x03, 0xC1, 9, 8, 0xBE, 4];
    let (pixels, height) = Cl2Sprite::decode_cl2_rle_with_height(&data, 2).unwrap();
    assert_eq!(pixels, vec![None, None, None, Some(9), Some(8), Some(4)]);
    assert_eq!(height, 3);
    let (_, height) = Cl2Sprite::decode_cl2_rle_with_height(&data, 4).unwrap();
    assert_eq!(height, 2);
    let (_, height) = Cl2Sprite::decode_cl2_rle_with_height(&data, 7).unwrap();
    assert_eq!(height, 1);
    assert_eq!(Cl2Sprite::decode_cl2_rle_with_height(&[0xC3, 1], 2).unwrap_err(), ClxError::PixelDataOverflow);
    assert_eq!(Cl2Sprite::decode_cl2_rle_with_height(&[0xBE], 2).unwrap_err(), ClxError::FillMissingColor);
}

#[test]
fn cl2_single_list_and_sheet() {
    let group = cl2_group();
    assert_eq!(Cl2Sprite::is_single_list(&group), Ok(true));
    let sprite = Cl2Sprite::from_bytes(&group, 2).unwrap();
    assert_eq!(sprite.frames.len(), 1);
    assert_eq!(sprite.frames[0].pixels, vec![Some(1), Some(2)]);
    assert_eq!(sprite.frames[0].height, 1);
    let clx = sprite.clone().to_clx_sprite();
    assert_eq!(clx.num_frames(), 1);

    let mut sheet = vec![8, 0, 0, 0, 25, 0, 0, 0];
    sheet.extend_from_slice(&group);
    sheet.extend_from_slice(&group);
    assert_eq!(Cl2Sprite::is_single_list(&sheet), Ok(false));
    assert_eq!(Cl2Sprite::read_sheet_offsets(&sheet).unwrap(), vec![8, 25]);
    let first = Cl2Sprite::from_bytes(&sheet, 2).unwrap();
    assert_eq!(first.frames.len(), 1);
    let dirs = Cl2DirectionalSpriteSheet::from_bytes(&sheet, 2).unwrap();
    assert_eq!(dirs.direction_count(), 2);
    assert_eq!(dirs.direction(1).unwrap().frames[0].pixels, vec![Some(1), Some(2)]);
    assert!(dirs.direction(2).is_none());

    let single = Cl2DirectionalSpriteSheet::from_bytes(&group, 2).unwrap();
    assert_eq!(single.direction_count(), 1);
}

#[test]
fn cl2_errors() {
    assert_eq!(Cl2Sprite::from_bytes(&[0u8; 4], 2).unwrap_err(), ClxError::HeaderTooSmall(4));
    let bad_sheet = [6, 0, 0, 0, 0, 0, 0, 0, 0, 0];
    assert_eq!(Cl2Sprite::from_bytes(&bad_sheet, 2).unwrap_err(), ClxError::InvalidSheetHeader(6));
    let far_group = [8, 0, 0, 0, 99, 0, 0, 0, 0, 0];
    assert_eq!(Cl2Sprite::read_sheet_offsets(&far_group).unwrap_err(), ClxError::GroupOffsetOutOfBounds(1, 99));
    let zero = [0u8, 0, 0, 0, 4, 0, 0, 0, 8, 0, 0, 0];
    assert_eq!(Cl2Sprite::parse_frame_list(&zero, 2).unwrap_err(), ClxError::ZeroFrames);
}

#[test]
fn test_dungeon_cel_structure() {
    let frame_size = (DUN_FRAME_WIDTH as usize) * (DUN_FRAME_HEIGHT as usize);
    let offset1 = 8u32;
    let offset2 = (8 + frame_size) as u32;
    let mut data = Vec::new();
    data.extend_from_slice(&offset1.to_le_bytes());
    data.extend_from_slice(&offset2.to_le_bytes());
    data.extend(vec![10u8; frame_size]);
    data.extend(vec![20u8; frame_size]);

    let sprite = DungeonCelSprite::from_bytes(&data).unwrap();
    assert_eq!(sprite.frames.len(), 2);
    assert_eq!(sprite.frames[0].size(), frame_size);
    assert_eq!(sprite.frames[0].raw_data[0], 10);
    assert_eq!(sprite.frames[1].raw_data[0], 20);
    assert!(!sprite.frames[0].is_decoded);
    assert!(!sprite.frames[1].is_decoded);
}

#[test]
fn test_from_clx_bytes_conversion() {
    let mut clx_data = Vec::new();
    clx_data.extend_from_slice(&1u32.to_le_bytes());
    clx_data.extend_from_slice(&8u32.to_le_bytes());
    clx_data.extend_from_slice(&50u32.to_le_bytes());
    clx_data.extend_from_slice(&6u16.to_le_bytes());
    clx_data.extend_from_slice(&4u16.to_le_bytes());
    clx_data.extend_from_slice(&4u16.to_le_bytes());
    clx_data.push(0x10);
    clx_data.push(0x10);

    match DungeonCelSprite::from_clx_bytes(&clx_data) {
        Ok(sprite) => {
            assert_eq!(sprite.frames.len(), 1);
            assert!(!sprite.frames[0].raw_data.is_empty());
        }
        Err(e) => {
            println!("Note: CLX parsing failed (expected for minimal test data): {:?}", e);
        }
    }
}

#[test]
fn special_tiles_from_clx() {
    let sprite = DungeonCelSprite::from_clx_bytes(&one_frame_clx()).unwrap();
    assert_eq!(sprite.frames.len(), 1);
    assert_eq!(sprite.frames[0].raw_data, vec![5, 6, 0, 7]);
    assert!(sprite.frames[0].is_decoded);
    assert_eq!(
        DungeonCelSprite::from_clx_bytes(&[0u8; 8]).unwrap_err(),
        DungeonCelError::Clx(ClxError::ZeroFrames)
    );
}

#[test]
fn tile_set_errors() {
    assert_eq!(DungeonCelSprite::from_bytes(&[0u8; 5]).unwrap_err(), DungeonCelError::TooSmall(5));
    assert_eq!(DungeonCelSprite::from_bytes(&[0u8; 8]).unwrap_err(), DungeonCelError::InvalidFrameCount(0));
    let data = [16u8, 0, 0, 0, 0, 0, 0, 0];
    assert_eq!(DungeonCelSprite::from_bytes(&data).unwrap_err(), DungeonCelError::OffsetTableBeyondFile(16, 8));
    let data = [8u8, 0, 0, 0, 8, 0, 0, 0, 1, 2];
    assert_eq!(DungeonCelSprite::from_bytes(&data).unwrap_err(), DungeonCelError::InvalidFrameOffset(0, 8, 8));
}

#[test]
fn cel_file_decodes_frames() {
    let data = [1u8, 0, 0, 0, 12, 0, 0, 0, 16, 0, 0, 0, 2, 5, 6, 0xFE];
    let sprite = DungeonCelSprite::from_cel_bytes_with_width(&data, 2).unwrap();
    assert_eq!(sprite.frames.len(), 1);
    assert_eq!(sprite.frames[0].raw_data, vec![5, 6, 0, 0]);
    assert!(sprite.frames[0].is_decoded);

    assert_eq!(DungeonCelSprite::decode_cel_rle(&[0x05, 1], 2).unwrap_err(), DungeonCelError::TruncatedRle(5, 1));
    // A 10-byte frame header is skipped.
    let mut framed = vec![10u8, 0, 0, 0, 0, 0, 0, 0, 0, 0];
    framed.extend_from_slice(&[0x81]);
    assert_eq!(DungeonCelSprite::decode_cel_rle(&framed, 4).unwrap().len(), 127);

    let multi = [7u8, 0, 0, 0, 4, 0, 0, 0, 9, 9];
    assert_eq!(
        DungeonCelSprite::from_cel_bytes_with_width(&multi, 2).unwrap_err(),
        DungeonCelError::MultiGroupUnsupported(7, 10)
    );
}

#[test]
fn frame_from_rgba_masks_by_alpha() {
    let rgba = [10, 1, 1, 255, 20, 2, 2, 127, 30, 3, 3, 128, 99];
    let frame = ClxFrame::from_rgba_alpha_mask(3, 1, &rgba);
    assert_eq!((frame.width, frame.height), (3, 1));
    assert_eq!(frame.pixels, vec![Some(10), None, Some(30)]);
}

#[test]
fn test_clx_frame_texture_rgba_keeps_line_order() {
    let palette = gradient_palette();
    // 2x2 frame that holds only three pixels: the missing one stays zero.
    let frame = ClxFrame { width: 2, height: 2, pixels: vec![Some(10), None, Some(20)] };
    let rgba = clx_frame_rgba(&frame, &palette);
    assert_eq!(
        rgba,
        vec![10, 10, 10, 255, 0, 0, 0, 0, 20, 20, 20, 255, 0, 0, 0, 0]
    );
    // The same frame read top line first comes out flipped.
    let flipped = frame.to_rgba(&palette);
    assert_eq!(&flipped[0..4], &[20, 20, 20, 255]);
}

#[test]
fn test_copy_rgba_rows_keeps_padding() {
    // Two rows of one texel each, rows 6 bytes apart.
    let rgba = [1, 2, 3, 4, 5, 6, 7, 8];
    let mut buffer = [9u8; 12];
    copy_rgba_rows(&mut buffer, 6, &rgba, 1, 2);
    assert_eq!(buffer, [1, 2, 3, 4, 9, 9, 5, 6, 7, 8, 9, 9]);
}

#[test]
fn test_write_rgba_as_abgr() {
    let rgba = [1, 2, 3, 4, 5, 6, 7, 8];
    let mut buffer = [0u8; 10];
    write_rgba_as_abgr(&mut buffer, 5, &rgba, 1, 2);
    assert_eq!(buffer, [4, 3, 2, 1, 0, 8, 7, 6, 5, 0]);
}

#[test]
fn test_write_rgba_as_abgr_skips_texels_outside() {
    // The second row starts too close to the end of the buffer for a texel, and
    // its last texel is missing from the data.
    let rgba = [1, 2, 3, 4, 5, 6, 7, 8, 9, 10, 11, 12];
    let mut buffer = [0u8; 12];
    write_rgba_as_abgr(&mut buffer, 10, &rgba, 2, 2);
    assert_eq!(buffer, [4, 3, 2, 1, 8, 7, 6, 5, 0, 0, 0, 0]);
}

#[test]
fn test_cl2_width_zero_refused_before_decoding() {
    assert_eq!(Cl2Sprite::from_bytes(&[1, 0, 0], 0).err(), Some(ClxError::HeaderTooSmall(3)));
    // One frame whose offsets are equal: refused before any pixel is decoded.
    let data = vec![0x01, 0x00, 0x00, 0x00, 0x0C, 0x00, 0x00, 0x00, 0x0C, 0x00, 0x00, 0x00];
    assert_eq!(
        Cl2Sprite::parse_frame_list(&data, 0).err(),
        Some(ClxError::InvalidFrameOffsets(0))
    );
}
