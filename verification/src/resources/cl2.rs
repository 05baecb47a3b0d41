use vstd::prelude::*;
use vstd::arithmetic::div_mod::{lemma_fundamental_div_mod, lemma_fundamental_div_mod_converse};
use crate::resources::bytes::{read_le_u16, read_le_u32, spec_le_u16, spec_le_u32};
use crate::resources::clx::{ClxError, ClxFrame, ClxSprite, fill_width, raw_width};

verus! {

/// `n` transparent pixels.
pub open spec fn none_run(n: int) -> Seq<Option<u8>> {
    Seq::new(n as nat, |i: int| None)
}

/// `n` opaque pixels of color `v`.
pub open spec fn some_run(n: int, v: u8) -> Seq<Option<u8>> {
    Seq::new(n as nat, |i: int| Some(v))
}

/// The bytes of `s` as opaque pixels.
pub open spec fn some_bytes(s: Seq<u8>) -> Seq<Option<u8>> {
    s.map_values(|b: u8| Some(b))
}

/// The pixels of CL2 RLE data from byte `d` on, appended to `acc`. The commands are
/// those of CLX (see `clx_line`), read one after the other with no regard to lines.
pub open spec fn cl2_stream(data: Seq<u8>, d: int, acc: Seq<Option<u8>>) -> Result<Seq<Option<u8>>, ClxError>
    decreases data.len() - d,
{
    if d >= data.len() {
        Ok(acc)
    } else {
        let c = data[d];
        if c < 0x80 {
            cl2_stream(data, d + 1, acc + none_run(c as int))
        } else if c <= 0xBF {
            if d + 1 >= data.len() {
                Err(ClxError::FillMissingColor)
            } else {
                cl2_stream(data, d + 2, acc + some_run(fill_width(c), data[d + 1]))
            }
        } else {
            let n = raw_width(c);
            if d + 1 + n > data.len() {
                Err(ClxError::PixelDataOverflow)
            } else {
                cl2_stream(data, d + 1 + n, acc + some_bytes(data.subrange(d + 1, d + 1 + n)))
            }
        }
    }
}

/// Lines needed for `count` pixels at `width` per line: the last may be partial.
pub open spec fn cl2_height(count: int, width: int) -> int {
    count / width + if count % width != 0 { 1int } else { 0int }
}

/// The pixels of a CL2 frame of the given width, and its height, or why it is refused.
pub open spec fn spec_cl2_decode(data: Seq<u8>, width: u16) -> Result<(Seq<Option<u8>>, u16), ClxError> {
    match cl2_stream(data, 0, Seq::empty()) {
        Err(e) => Err(e),
        Ok(p) => if cl2_height(p.len() as int, width as int) > 0xffff {
            Err(ClxError::HeightOverflow)
        } else {
            Ok((p, cl2_height(p.len() as int, width as int) as u16))
        },
    }
}

/// Frame `i` of a CL2 frame list: offsets at `4 + 4i` and `8 + 4i`, a 16-bit offset
/// to the pixels at the start of the frame.
pub open spec fn spec_cl2_frame(data: Seq<u8>, width: u16, i: int) -> Result<(u16, u16, Seq<Option<u8>>), ClxError> {
    let next_pos = 8 + 4 * i;
    if next_pos + 3 >= data.len() {
        Err(ClxError::FrameTableOutOfBounds(i as usize))
    } else {
        let start = spec_le_u32(data, 4 + 4 * i) as int;
        let end = spec_le_u32(data, next_pos) as int;
        if start >= data.len() || end > data.len() || start >= end {
            Err(ClxError::InvalidFrameOffsets(i as usize))
        } else if start + 1 >= data.len() {
            Err(ClxError::Cl2FrameHeaderOutOfBounds(i as usize))
        } else {
            let pixels_start = start + spec_le_u16(data, start);
            if pixels_start >= end {
                Err(ClxError::PixelDataOffsetInvalid(i as u32, start as usize, spec_le_u16(data, start), end as usize))
            } else {
                match spec_cl2_decode(data.subrange(pixels_start, end), width) {
                    Err(e) => Err(e),
                    Ok((px, h)) => Ok((width, h, px)),
                }
            }
        }
    }
}

/// Frames `i .. n` of a CL2 frame list appended to `acc`, or the first refused.
pub open spec fn cl2_frames(
    data: Seq<u8>,
    width: u16,
    i: int,
    n: int,
    acc: Seq<(u16, u16, Seq<Option<u8>>)>,
) -> Result<Seq<(u16, u16, Seq<Option<u8>>)>, ClxError>
    decreases n - i,
{
    if i >= n {
        Ok(acc)
    } else {
        match spec_cl2_frame(data, width, i) {
            Err(e) => Err(e),
            Ok(f) => cl2_frames(data, width, i + 1, n, acc.push(f)),
        }
    }
}

/// A CL2 frame list: a frame count, offsets, frames.
pub open spec fn spec_cl2_frame_list(data: Seq<u8>, width: u16) -> Result<Seq<(u16, u16, Seq<Option<u8>>)>, ClxError> {
    if data.len() < 8 {
        Err(ClxError::HeaderTooSmall(data.len() as usize))
    } else if spec_le_u32(data, 0) == 0 {
        Err(ClxError::ZeroFrames)
    } else {
        cl2_frames(data, width, 0, spec_le_u32(data, 0) as int, Seq::empty())
    }
}

/// Whether CL2 data is one frame list: the offset after the last frame is the file
/// size (compared modulo 2^32).
pub open spec fn spec_is_single_list(data: Seq<u8>) -> Result<bool, ClxError> {
    if data.len() < 8 {
        Err(ClxError::HeaderTooSmall(data.len() as usize))
    } else {
        let last_pos = 4 * spec_le_u32(data, 0) + 4;
        if last_pos + 4 > data.len() {
            Ok(false)
        } else {
            Ok(spec_le_u32(data, last_pos) == data.len() as u32)
        }
    }
}

/// Entries `i .. count` of a sheet's group table appended to `acc`.
pub open spec fn sheet_entries(data: Seq<u8>, i: int, count: int, acc: Seq<usize>) -> Result<Seq<usize>, ClxError>
    decreases count - i,
{
    if i >= count {
        Ok(acc)
    } else if 4 * i + 4 > data.len() {
        Err(ClxError::SheetOffsetOutOfBounds(i as usize))
    } else if spec_le_u32(data, 4 * i) >= data.len() {
        Err(ClxError::GroupOffsetOutOfBounds(i as usize, spec_le_u32(data, 4 * i) as usize))
    } else {
        sheet_entries(data, i + 1, count, acc.push(spec_le_u32(data, 4 * i) as usize))
    }
}

/// The group offsets of a directional CL2 sheet: the first entry is the offset of
/// the first group, so the table has `first / 4` entries.
pub open spec fn spec_sheet_offsets(data: Seq<u8>) -> Result<Seq<usize>, ClxError> {
    if data.len() < 8 {
        Err(ClxError::HeaderTooSmall(data.len() as usize))
    } else {
        let first = spec_le_u32(data, 0) as int;
        if first < 8 || first % 4 != 0 {
            Err(ClxError::InvalidSheetHeader(first as usize))
        } else {
            sheet_entries(data, 0, first / 4, Seq::empty())
        }
    }
}

/// Whether frame `i` of a CL2 frame list is refused by its table and header
/// checks, before any of its pixels are decoded (see `spec_cl2_frame`).
pub open spec fn frame_refused_before_decoding(data: Seq<u8>, i: int) -> bool {
    let next_pos = 8 + 4 * i;
    let start = spec_le_u32(data, 4 + 4 * i) as int;
    let end = spec_le_u32(data, next_pos) as int;
    ||| next_pos + 3 >= data.len()
    ||| start >= data.len() || end > data.len() || start >= end
    ||| start + 1 >= data.len()
    ||| start + spec_le_u16(data, start) >= end
}

/// Whether a CL2 frame list is refused before any pixels are decoded: too short,
/// no frames, or a first frame refused by its checks.
pub open spec fn list_refused_before_decoding(data: Seq<u8>) -> bool {
    data.len() < 8 || spec_le_u32(data, 0) == 0 || frame_refused_before_decoding(data, 0)
}

/// The frame widths a frame list can be parsed with: decoding pixels at width 0
/// never ends, so width 0 only for a list refused before any decoding.
pub open spec fn list_width_ok(data: Seq<u8>, width: u16) -> bool {
    width > 0 || list_refused_before_decoding(data)
}

/// The frame widths a CL2 sprite or sheet can be parsed with: width 0 only when the
/// file, or the first frame list it would decode, is refused before any decoding.
pub open spec fn sprite_width_ok(data: Seq<u8>, width: u16) -> bool {
    width > 0 || match spec_is_single_list(data) {
        Err(_) => true,
        Ok(true) => list_refused_before_decoding(data),
        Ok(false) => match spec_sheet_offsets(data) {
            Err(_) => true,
            Ok(offsets) => list_refused_before_decoding(data.subrange(offsets[0] as int, data.len() as int)),
        },
    }
}

/// A CL2 sprite: the frame list itself, or the first group of a sheet.
pub open spec fn spec_cl2_sprite(data: Seq<u8>, width: u16) -> Result<Seq<(u16, u16, Seq<Option<u8>>)>, ClxError> {
    match spec_is_single_list(data) {
        Err(e) => Err(e),
        Ok(true) => spec_cl2_frame_list(data, width),
        Ok(false) => match spec_sheet_offsets(data) {
            Err(e) => Err(e),
            Ok(offsets) => spec_cl2_frame_list(data.subrange(offsets[0] as int, data.len() as int), width),
        },
    }
}

/// A CL2 sprite: its frames in order.
#[derive(Debug, Clone)]
pub struct Cl2Sprite {
    pub frames: Vec<ClxFrame>,
}

impl View for Cl2Sprite {
    type V = Seq<(u16, u16, Seq<Option<u8>>)>;

    open spec fn view(&self) -> Seq<(u16, u16, Seq<Option<u8>>)> {
        self.frames@.map_values(|f: ClxFrame| f@)
    }
}

impl Cl2Sprite {
    /// Decode CL2 RLE pixels of a frame `width` wide; the height is the number of
    /// lines the pixels fill, the last one possibly partial.
    pub fn decode_cl2_rle_with_height(data: &[u8], width: u16) -> (r: Result<(Vec<Option<u8>>, u16), ClxError>)
        requires
            width > 0,
        ensures
            match spec_cl2_decode(data@, width) {
                Err(e) => r == Err::<(Vec<Option<u8>>, u16), ClxError>(e),
                Ok((p, h)) => (r matches Ok((v, hh)) && v@ == p && hh == h),
            },
            r matches Ok((v, h)) ==> v@.len() <= h * width && (h == 0 || (h - 1) * width < v@.len()),
    {
        let w = width as usize;
        let len = data.len();
        let mut pixels: Vec<Option<u8>> = Vec::new();
        let mut data_idx: usize = 0;
        let mut x: usize = 0;
        let mut height: usize = 0;
        while data_idx < len
            invariant
                w == width,
                w > 0,
                len == data@.len(),
                data_idx <= len,
                x < w,
                height * w + x == pixels@.len(),
                cl2_stream(data@, 0, Seq::empty()) == cl2_stream(data@, data_idx as int, pixels@),
            decreases len - data_idx,
        {
            let ghost d_start = data_idx;
            while x < w && data_idx < len
                invariant
                    w == width,
                    w > 0,
                    len == data@.len(),
                    d_start < len,
                    d_start <= data_idx <= len,
                    data_idx == d_start ==> x < w,
                    x < w + 256,
                    height * w + x == pixels@.len(),
                    cl2_stream(data@, 0, Seq::empty()) == cl2_stream(data@, data_idx as int, pixels@),
                decreases len - data_idx,
            {
                let control = data[data_idx];
                let ghost dc = data_idx as int;
                let ghost before = pixels@;
                data_idx += 1;
                if control < 0x80 {
                    let count = control as usize;
                    let mut k: usize = 0;
                    while k < count
                        invariant
                            k <= count,
                            pixels@ == before + none_run(k as int),
                        decreases count - k,
                    {
                        pixels.push(None);
                        k += 1;
                        assert(pixels@ =~= before + none_run(k as int));
                    }
                    x += count;
                } else if control <= 0xBF {
                    let count = (0xBF - control) as usize;
                    if data_idx >= len {
                        return Err(ClxError::FillMissingColor);
                    }
                    let color = data[data_idx];
                    data_idx += 1;
                    let mut k: usize = 0;
                    while k < count
                        invariant
                            k <= count,
                            pixels@ == before + some_run(k as int, color),
                        decreases count - k,
                    {
                        pixels.push(Some(color));
                        k += 1;
                        assert(pixels@ =~= before + some_run(k as int, color));
                    }
                    x += count;
                } else {
                    let count = (control - 0xBF) as usize;
                    if data_idx > len || len - data_idx < count {
                        return Err(ClxError::PixelDataOverflow);
                    }
                    let ghost from = data_idx as int;
                    let mut k: usize = 0;
                    while k < count
                        invariant
                            k <= count,
                            len == data@.len(),
                            0 <= from,
                            from + count <= len,
                            data_idx == from + k,
                            pixels@ == before + some_bytes(data@.subrange(from, from + k)),
                        decreases count - k,
                    {
                        let ghost prev = pixels@;
                        pixels.push(Some(data[data_idx]));
                        data_idx += 1;
                        k += 1;
                        assert(data@.subrange(from, from + k) =~= data@.subrange(from, from + k - 1).push(data@[from + k - 1]));
                        assert(some_bytes(data@.subrange(from, from + k)) =~= some_bytes(data@.subrange(from, from + k - 1)).push(Some(data@[from + k - 1])));
                        assert(pixels@ =~= before + some_bytes(data@.subrange(from, from + k)));
                    }
                    x += count;
                }
            }
            let plen = pixels.len();
            if x >= w {
                let overrun = x - w;
                if overrun > 0 {
                    let lines = overrun / w + 1;
                    proof {
                        lemma_fundamental_div_mod(overrun as int, w as int);
                        assert((height + lines) * w + overrun % w == height * w + x) by (nonlinear_arith)
                            requires
                                overrun == w * (overrun / w) + overrun % w,
                                lines == overrun / w + 1,
                                overrun == x - w;
                        assert(height + lines <= plen) by (nonlinear_arith)
                            requires
                                (height + lines) * w <= plen,
                                w > 0;
                    }
                    height += lines;
                    x = overrun % w;
                } else {
                    assert(height + 1 <= plen && (height + 1) * w == plen) by (nonlinear_arith)
                        requires
                            height * w + w == plen,
                            w > 0;
                    height += 1;
                    x = 0;
                }
            }
        }
        let plen = pixels.len();
        if x > 0 {
            assert(height + 1 <= plen) by (nonlinear_arith)
                requires
                    height * w + x == plen,
                    x > 0,
                    w > 0;
            height += 1;
        }
        proof {
            let h0: int = if x > 0 { height - 1 } else { height as int };
            lemma_fundamental_div_mod_converse(pixels@.len() as int, w as int, h0, x as int);
            assert(pixels@.len() <= height * w && (height == 0 || (height - 1) * w < pixels@.len())) by (nonlinear_arith)
                requires
                    h0 * w + x == pixels@.len(),
                    0 <= x < w,
                    height == h0 + (if x > 0 { 1int } else { 0int }),
                    h0 >= 0;
        }
        if height > 0xffff {
            return Err(ClxError::HeightOverflow);
        }
        Ok((pixels, height as u16))
    }
}

impl Cl2Sprite {
    /// Parse a CL2 sprite: a frame list, or the first group of a directional sheet.
    /// CL2 frames do not record their width, so the caller gives it.
    pub fn from_bytes(data: &[u8], frame_width: u16) -> (r: Result<Cl2Sprite, ClxError>)
        requires
            sprite_width_ok(data@, frame_width),
        ensures
            match spec_cl2_sprite(data@, frame_width) {
                Err(e) => r == Err::<Cl2Sprite, ClxError>(e),
                Ok(frames) => (r matches Ok(s) && s@ == frames),
            },
    {
        let single = match Self::is_single_list(data) {
            Ok(b) => b,
            Err(e) => return Err(e),
        };
        if single {
            match Self::parse_frame_list(data, frame_width) {
                Ok(frames) => Ok(Cl2Sprite { frames }),
                Err(e) => Err(e),
            }
        } else {
            let offsets = match Self::read_sheet_offsets(data) {
                Ok(o) => o,
                Err(e) => return Err(e),
            };
            let start = offsets[0];
            let group = vstd::slice::slice_subrange(data, start, data.len());
            match Self::parse_frame_list(group, frame_width) {
                Ok(frames) => Ok(Cl2Sprite { frames }),
                Err(e) => Err(e),
            }
        }
    }

    /// Parse one frame list: a frame count, `count + 1` offsets, then the frames.
    pub fn parse_frame_list(data: &[u8], frame_width: u16) -> (r: Result<Vec<ClxFrame>, ClxError>)
        requires
            list_width_ok(data@, frame_width),
        ensures
            match spec_cl2_frame_list(data@, frame_width) {
                Err(e) => r == Err::<Vec<ClxFrame>, ClxError>(e),
                Ok(frames) => (r matches Ok(v) && v@.map_values(|f: ClxFrame| f@) == frames),
            },
    {
        let len = data.len();
        if len < 8 {
            return Err(ClxError::HeaderTooSmall(len));
        }
        let num_frames = read_le_u32(data, 0) as usize;
        if num_frames == 0 {
            return Err(ClxError::ZeroFrames);
        }
        let mut frames: Vec<ClxFrame> = Vec::new();
        let mut frame_idx: usize = 0;
        assert(frames@.map_values(|f: ClxFrame| f@) =~= Seq::empty());
        while frame_idx < num_frames
            invariant
                frame_width > 0 || (frame_idx == 0 && list_refused_before_decoding(data@)),
                len == data@.len(),
                len >= 8,
                num_frames == spec_le_u32(data@, 0),
                frame_idx <= num_frames,
                frame_idx == 0 || 4 * frame_idx + 7 < len,
                spec_cl2_frame_list(data@, frame_width) == cl2_frames(
                    data@,
                    frame_width,
                    frame_idx as int,
                    num_frames as int,
                    frames@.map_values(|f: ClxFrame| f@),
                ),
            decreases num_frames - frame_idx,
        {
            let next_pos = 8 + frame_idx * 4;
            if next_pos >= len || len - next_pos <= 3 {
                return Err(ClxError::FrameTableOutOfBounds(frame_idx));
            }
            let start = read_le_u32(data, 4 + frame_idx * 4) as usize;
            let end = read_le_u32(data, next_pos) as usize;
            if start >= len || end > len || start >= end {
                return Err(ClxError::InvalidFrameOffsets(frame_idx));
            }
            if start + 1 >= len {
                return Err(ClxError::Cl2FrameHeaderOutOfBounds(frame_idx));
            }
            let header = read_le_u16(data, start);
            if header as usize >= end - start {
                return Err(ClxError::PixelDataOffsetInvalid(frame_idx as u32, start, header, end));
            }
            let pixels_start = start + header as usize;
            let pixel_data = vstd::slice::slice_subrange(data, pixels_start, end);
            let (pixels, height) = match Self::decode_cl2_rle_with_height(pixel_data, frame_width) {
                Ok(d) => d,
                Err(e) => return Err(e),
            };
            let ghost before = frames@;
            let frame = ClxFrame { width: frame_width, height, pixels };
            frames.push(frame);
            assert(frames@.map_values(|f: ClxFrame| f@) =~= before.map_values(|f: ClxFrame| f@).push(frame@));
            frame_idx += 1;
        }
        Ok(frames)
    }

    /// The group offsets of a directional sheet.
    pub fn read_sheet_offsets(data: &[u8]) -> (r: Result<Vec<usize>, ClxError>)
        ensures
            match spec_sheet_offsets(data@) {
                Err(e) => r == Err::<Vec<usize>, ClxError>(e),
                Ok(offsets) => (r matches Ok(v) && v@ == offsets),
            },
            r matches Ok(v) ==> v@.len() >= 2 && forall|i: int| 0 <= i < v@.len() ==> #[trigger] v@[i] < data@.len(),
    {
        let len = data.len();
        if len < 8 {
            return Err(ClxError::HeaderTooSmall(len));
        }
        let first = read_le_u32(data, 0) as usize;
        if first < 8 || first % 4 != 0 {
            return Err(ClxError::InvalidSheetHeader(first));
        }
        let group_count = first / 4;
        let mut offsets: Vec<usize> = Vec::new();
        let mut index: usize = 0;
        while index < group_count
            invariant
                len == data@.len(),
                len >= 8,
                first == spec_le_u32(data@, 0),
                group_count == first / 4,
                group_count >= 2,
                index <= group_count,
                offsets@.len() == index,
                forall|i: int| 0 <= i < offsets@.len() ==> #[trigger] offsets@[i] < len,
                spec_sheet_offsets(data@) == sheet_entries(data@, index as int, group_count as int, offsets@),
            decreases group_count - index,
        {
            let pos = index * 4;
            if pos > len || len - pos < 4 {
                return Err(ClxError::SheetOffsetOutOfBounds(index));
            }
            let group_offset = read_le_u32(data, pos) as usize;
            if group_offset >= len {
                return Err(ClxError::GroupOffsetOutOfBounds(index, group_offset));
            }
            offsets.push(group_offset);
            index += 1;
        }
        Ok(offsets)
    }

    /// Whether the data is a single frame list rather than a directional sheet: the
    /// offset after its last frame equals the data length (modulo 2^32).
    pub fn is_single_list(data: &[u8]) -> (r: Result<bool, ClxError>)
        ensures
            r == spec_is_single_list(data@),
    {
        let len = data.len();
        if len < 8 {
            return Err(ClxError::HeaderTooSmall(len));
        }
        let count = read_le_u32(data, 0) as u64;
        let last_pos = count * 4 + 4;
        if last_pos + 4 > len as u64 {
            return Ok(false);
        }
        let last_offset = read_le_u32(data, last_pos as usize);
        Ok(last_offset == len as u32)
    }

    /// The same frames as a `ClxSprite`.
    pub fn to_clx_sprite(self) -> (s: ClxSprite)
        ensures
            s@ == self@,
    {
        ClxSprite { frames: self.frames }
    }
}

/// A directional CL2 sheet: one frame list per direction.
#[derive(Debug, Clone)]
pub struct Cl2DirectionalSpriteSheet {
    pub directions: Vec<Cl2Sprite>,
}

impl View for Cl2DirectionalSpriteSheet {
    type V = Seq<Seq<(u16, u16, Seq<Option<u8>>)>>;

    open spec fn view(&self) -> Seq<Seq<(u16, u16, Seq<Option<u8>>)>> {
        self.directions@.map_values(|d: Cl2Sprite| d@)
    }
}

/// Groups `i ..` of a sheet with group offsets `offsets`, appended to `acc`.
pub open spec fn sheet_groups(
    data: Seq<u8>,
    width: u16,
    offsets: Seq<usize>,
    i: int,
    acc: Seq<Seq<(u16, u16, Seq<Option<u8>>)>>,
) -> Result<Seq<Seq<(u16, u16, Seq<Option<u8>>)>>, ClxError>
    decreases offsets.len() - i,
{
    if i >= offsets.len() {
        Ok(acc)
    } else {
        match spec_cl2_frame_list(data.subrange(offsets[i] as int, data.len() as int), width) {
            Err(e) => Err(e),
            Ok(frames) => sheet_groups(data, width, offsets, i + 1, acc.push(frames)),
        }
    }
}

/// The directions of a CL2 sheet; a single frame list is one direction.
pub open spec fn spec_cl2_sheet(data: Seq<u8>, width: u16) -> Result<Seq<Seq<(u16, u16, Seq<Option<u8>>)>>, ClxError> {
    match spec_is_single_list(data) {
        Err(e) => Err(e),
        Ok(true) => match spec_cl2_frame_list(data, width) {
            Err(e) => Err(e),
            Ok(frames) => Ok(seq![frames]),
        },
        Ok(false) => match spec_sheet_offsets(data) {
            Err(e) => Err(e),
            Ok(offsets) => sheet_groups(data, width, offsets, 0, Seq::empty()),
        },
    }
}

/// Frames `i .. n` that `cl2_frames` accepts follow `acc`, one per offset-table
/// entry, each as `spec_cl2_frame` reads it.
proof fn lemma_cl2_frames_ok(data: Seq<u8>, width: u16, i: int, n: int, acc: Seq<(u16, u16, Seq<Option<u8>>)>)
    requires
        0 <= i <= n,
        cl2_frames(data, width, i, n, acc) is Ok,
    ensures
        ({
            let fs = cl2_frames(data, width, i, n, acc)->Ok_0;
            &&& fs.len() == acc.len() + n - i
            &&& fs.subrange(0, acc.len() as int) == acc
            &&& forall|k: int| i <= k < n ==> spec_cl2_frame(data, width, k) == Ok::<
                (u16, u16, Seq<Option<u8>>),
                ClxError,
            >(#[trigger] fs[acc.len() + k - i])
        }),
    decreases n - i,
{
    if i < n {
        let f = spec_cl2_frame(data, width, i)->Ok_0;
        let acc2 = acc.push(f);
        lemma_cl2_frames_ok(data, width, i + 1, n, acc2);
        let fs = cl2_frames(data, width, i, n, acc)->Ok_0;
        assert(fs == cl2_frames(data, width, i + 1, n, acc2)->Ok_0);
        assert(fs.subrange(0, acc2.len() as int) == acc2);
        assert(fs[acc.len() as int] == fs.subrange(0, acc2.len() as int)[acc.len() as int]);
        assert(fs.subrange(0, acc.len() as int) =~= acc) by {
            assert forall|j: int| 0 <= j < acc.len() implies fs.subrange(0, acc.len() as int)[j] == acc[j] by {
                assert(fs.subrange(0, acc2.len() as int)[j] == acc2[j]);
            }
        }
        assert forall|k: int| i <= k < n implies spec_cl2_frame(data, width, k) == Ok::<
            (u16, u16, Seq<Option<u8>>),
            ClxError,
        >(#[trigger] fs[acc.len() + k - i]) by {
            if k > i {
                assert(acc2.len() + k - (i + 1) == acc.len() + k - i);
            }
        }
    } else {
        assert(acc.subrange(0, acc.len() as int) =~= acc);
    }
}

/// Frame `k` of a CL2 frame list is `f`: it lies between the offsets `o(k)` and
/// `o(k + 1)` of the table (words `1 + k` and `2 + k`), its pixels start `s(k)`
/// bytes in, as the 16-bit word at `o(k)` says, with `o(k) <= s(k) < o(k + 1) <=
/// data.len()`; it is `width` wide, and its pixels and height are the decoding of
/// the bytes `s(k) .. o(k + 1)` (`spec_cl2_decode`).
pub open spec fn cl2_frame_entry(data: Seq<u8>, width: u16, k: int, f: (u16, u16, Seq<Option<u8>>)) -> bool {
    let o = spec_le_u32(data, 4 + 4 * k) as int;
    let next = spec_le_u32(data, 8 + 4 * k) as int;
    let s = o + spec_le_u16(data, o);
    &&& o <= s < next <= data.len()
    &&& f.0 == width
    &&& spec_cl2_decode(data.subrange(s, next), width) == Ok::<(Seq<Option<u8>>, u16), ClxError>((f.2, f.1))
}

/// A CL2 frame list is parsed frame by frame: it is refused when shorter than 8
/// bytes or when its frame count `n` (the first word) is 0; when accepted it has
/// `n` frames, frame `k` as `cl2_frame_entry` says.
pub proof fn lemma_cl2_frame_list(data: Seq<u8>, width: u16)
    ensures
        data.len() < 8 || spec_le_u32(data, 0) == 0 ==> spec_cl2_frame_list(data, width) is Err,
        spec_cl2_frame_list(data, width) matches Ok(fs) ==> {
            &&& fs.len() == spec_le_u32(data, 0)
            &&& forall|k: int| 0 <= k < fs.len() ==> cl2_frame_entry(data, width, k, #[trigger] fs[k])
        },
{
    if data.len() >= 8 && spec_le_u32(data, 0) != 0 {
        let n = spec_le_u32(data, 0) as int;
        if cl2_frames(data, width, 0, n, Seq::empty()) is Ok {
            lemma_cl2_frames_ok(data, width, 0, n, Seq::empty());
            let fs = cl2_frames(data, width, 0, n, Seq::empty())->Ok_0;
            assert forall|k: int| 0 <= k < fs.len() implies cl2_frame_entry(data, width, k, #[trigger] fs[k]) by {
                assert(fs[0 + k - 0] == fs[k]);
                lemma_cl2_frame_ok(data, width, k, fs[k]);
            }
        }
    }
}

/// A frame that `spec_cl2_frame` accepts is the entry `cl2_frame_entry` describes.
proof fn lemma_cl2_frame_ok(data: Seq<u8>, width: u16, k: int, f: (u16, u16, Seq<Option<u8>>))
    requires
        spec_cl2_frame(data, width, k) == Ok::<(u16, u16, Seq<Option<u8>>), ClxError>(f),
    ensures
        cl2_frame_entry(data, width, k, f),
{
}

/// Entries `i .. count` that `sheet_entries` accepts follow `acc`.
proof fn lemma_sheet_entries_len(data: Seq<u8>, i: int, count: int, acc: Seq<usize>)
    requires
        0 <= i <= count,
        sheet_entries(data, i, count, acc) is Ok,
    ensures
        sheet_entries(data, i, count, acc)->Ok_0.len() == acc.len() + count - i,
    decreases count - i,
{
    if i < count {
        lemma_sheet_entries_len(data, i + 1, count, acc.push(spec_le_u32(data, 4 * i) as usize));
    }
}

/// Groups `i ..` that `sheet_groups` accepts follow `acc`, one per offset.
proof fn lemma_sheet_groups_len(
    data: Seq<u8>,
    width: u16,
    offsets: Seq<usize>,
    i: int,
    acc: Seq<Seq<(u16, u16, Seq<Option<u8>>)>>,
)
    requires
        0 <= i <= offsets.len(),
        sheet_groups(data, width, offsets, i, acc) is Ok,
    ensures
        sheet_groups(data, width, offsets, i, acc)->Ok_0.len() == acc.len() + offsets.len() - i,
    decreases offsets.len() - i,
{
    if i < offsets.len() {
        let frames = spec_cl2_frame_list(data.subrange(offsets[i] as int, data.len() as int), width)->Ok_0;
        lemma_sheet_groups_len(data, width, offsets, i + 1, acc.push(frames));
    }
}

/// Entry `k` of a sheet's group table is `e`: the word at `4 k`, an offset inside
/// the data.
pub open spec fn sheet_entry(data: Seq<u8>, k: int, e: usize) -> bool {
    e == spec_le_u32(data, 4 * k) as usize && spec_le_u32(data, 4 * k) < data.len()
}

/// Direction `k` of a directional sheet is `d`: the frame list parsed from the
/// bytes that start at the `k`-th group offset, the word at `4 k`.
pub open spec fn sheet_direction(data: Seq<u8>, width: u16, k: int, d: Seq<(u16, u16, Seq<Option<u8>>)>) -> bool {
    let start = spec_le_u32(data, 4 * k) as int;
    &&& start < data.len()
    &&& spec_cl2_frame_list(data.subrange(start, data.len() as int), width) == Ok::<
        Seq<(u16, u16, Seq<Option<u8>>)>,
        ClxError,
    >(d)
}

/// Entries `i .. count` that `sheet_entries` accepts follow `acc`, entry `k` as
/// `sheet_entry` says.
proof fn lemma_sheet_entries_ok(data: Seq<u8>, i: int, count: int, acc: Seq<usize>)
    requires
        0 <= i <= count,
        sheet_entries(data, i, count, acc) is Ok,
    ensures
        ({
            let es = sheet_entries(data, i, count, acc)->Ok_0;
            &&& es.len() == acc.len() + count - i
            &&& es.subrange(0, acc.len() as int) == acc
            &&& forall|k: int| i <= k < count ==> sheet_entry(data, k, #[trigger] es[acc.len() + k - i])
        }),
    decreases count - i,
{
    if i < count {
        let acc2 = acc.push(spec_le_u32(data, 4 * i) as usize);
        lemma_sheet_entries_ok(data, i + 1, count, acc2);
        let es = sheet_entries(data, i, count, acc)->Ok_0;
        assert(es == sheet_entries(data, i + 1, count, acc2)->Ok_0);
        assert(es.subrange(0, acc2.len() as int) == acc2);
        assert(es[acc.len() as int] == es.subrange(0, acc2.len() as int)[acc.len() as int]);
        assert(sheet_entry(data, i, acc2[acc.len() as int]));
        assert(es.subrange(0, acc.len() as int) =~= acc) by {
            assert forall|j: int| 0 <= j < acc.len() implies es.subrange(0, acc.len() as int)[j] == acc[j] by {
                assert(es.subrange(0, acc2.len() as int)[j] == acc2[j]);
            }
        }
        assert forall|k: int| i <= k < count implies sheet_entry(data, k, #[trigger] es[acc.len() + k - i]) by {
            if k > i {
                assert(es[acc2.len() + k - (i + 1)] == es[acc.len() + k - i]);
            }
        }
    } else {
        assert(acc.subrange(0, acc.len() as int) =~= acc);
    }
}

/// Groups `i ..` that `sheet_groups` accepts follow `acc`: group `k` is the frame
/// list that starts at offset `k`.
proof fn lemma_sheet_groups_ok(
    data: Seq<u8>,
    width: u16,
    offsets: Seq<usize>,
    i: int,
    acc: Seq<Seq<(u16, u16, Seq<Option<u8>>)>>,
)
    requires
        0 <= i <= offsets.len(),
        sheet_groups(data, width, offsets, i, acc) is Ok,
    ensures
        ({
            let gs = sheet_groups(data, width, offsets, i, acc)->Ok_0;
            &&& gs.len() == acc.len() + offsets.len() - i
            &&& gs.subrange(0, acc.len() as int) == acc
            &&& forall|k: int|
                i <= k < offsets.len() ==> spec_cl2_frame_list(data.subrange(offsets[k] as int, data.len() as int), width)
                    == Ok::<Seq<(u16, u16, Seq<Option<u8>>)>, ClxError>(#[trigger] gs[acc.len() + k - i])
        }),
    decreases offsets.len() - i,
{
    if i < offsets.len() {
        let frames = spec_cl2_frame_list(data.subrange(offsets[i] as int, data.len() as int), width)->Ok_0;
        let acc2 = acc.push(frames);
        lemma_sheet_groups_ok(data, width, offsets, i + 1, acc2);
        let gs = sheet_groups(data, width, offsets, i, acc)->Ok_0;
        assert(gs == sheet_groups(data, width, offsets, i + 1, acc2)->Ok_0);
        assert(gs.subrange(0, acc2.len() as int) == acc2);
        assert(gs[acc.len() as int] == gs.subrange(0, acc2.len() as int)[acc.len() as int]);
        assert(gs.subrange(0, acc.len() as int) =~= acc) by {
            assert forall|j: int| 0 <= j < acc.len() implies gs.subrange(0, acc.len() as int)[j] == acc[j] by {
                assert(gs.subrange(0, acc2.len() as int)[j] == acc2[j]);
            }
        }
        assert forall|k: int| i <= k < offsets.len() implies spec_cl2_frame_list(
            data.subrange(offsets[k] as int, data.len() as int),
            width,
        ) == Ok::<Seq<(u16, u16, Seq<Option<u8>>)>, ClxError>(#[trigger] gs[acc.len() + k - i]) by {
            if k > i {
                assert(gs[acc2.len() + k - (i + 1)] == gs[acc.len() + k - i]);
            }
        }
    } else {
        assert(acc.subrange(0, acc.len() as int) =~= acc);
    }
}

/// A directional sheet that is not a single frame list has one direction per entry
/// of its group table (the first word, divided by 4), and direction `k` is the
/// frame list parsed from the bytes that start at the `k`-th group offset, the
/// word at `4 k` (`sheet_direction`).
pub proof fn lemma_cl2_sheet_groups(data: Seq<u8>, width: u16)
    ensures
        spec_cl2_sheet(data, width) matches Ok(dirs) ==> spec_is_single_list(data) != Ok::<bool, ClxError>(true) ==> {
            &&& dirs.len() == spec_le_u32(data, 0) / 4
            &&& forall|k: int| 0 <= k < dirs.len() ==> sheet_direction(data, width, k, #[trigger] dirs[k])
        },
{
    if spec_is_single_list(data) is Ok && spec_is_single_list(data) != Ok::<bool, ClxError>(true)
        && spec_sheet_offsets(data) is Ok {
        let offsets = spec_sheet_offsets(data)->Ok_0;
        let count = spec_le_u32(data, 0) as int / 4;
        assert(offsets == sheet_entries(data, 0, count, Seq::empty())->Ok_0);
        lemma_sheet_entries_ok(data, 0, count, Seq::empty());
        if sheet_groups(data, width, offsets, 0, Seq::empty()) is Ok {
            lemma_sheet_groups_ok(data, width, offsets, 0, Seq::empty());
            let dirs = sheet_groups(data, width, offsets, 0, Seq::empty())->Ok_0;
            assert forall|k: int| 0 <= k < dirs.len() implies sheet_direction(data, width, k, #[trigger] dirs[k]) by {
                assert(sheet_entry(data, k, offsets[0 + k - 0]));
                assert(dirs[0 + k - 0] == dirs[k]);
            }
        }
    }
}

/// A directional CL2 sheet is refused when shorter than 8 bytes. When accepted, a
/// single frame list is one direction, the frame list itself; otherwise the first
/// word is the size of the group table, at least 8 and a multiple of 4, and there
/// is one direction per 4 bytes of it.
pub proof fn lemma_cl2_sheet_directions(data: Seq<u8>, width: u16)
    ensures
        data.len() < 8 ==> spec_cl2_sheet(data, width) is Err,
        spec_cl2_sheet(data, width) matches Ok(dirs) ==> if spec_is_single_list(data) == Ok::<bool, ClxError>(true) {
            &&& dirs.len() == 1
            &&& spec_cl2_frame_list(data, width) == Ok::<Seq<(u16, u16, Seq<Option<u8>>)>, ClxError>(dirs[0])
        } else {
            let first = spec_le_u32(data, 0) as int;
            &&& first >= 8
            &&& first % 4 == 0
            &&& dirs.len() == first / 4
        },
{
    if spec_cl2_sheet(data, width) is Ok && spec_is_single_list(data) != Ok::<bool, ClxError>(true) {
        let offsets = spec_sheet_offsets(data)->Ok_0;
        let first = spec_le_u32(data, 0) as int;
        lemma_sheet_entries_len(data, 0, first / 4, Seq::empty());
        lemma_sheet_groups_len(data, width, offsets, 0, Seq::empty());
    }
}

impl Cl2DirectionalSpriteSheet {
    /// Parse a directional sheet; a plain frame list gives one direction.
    pub fn from_bytes(data: &[u8], frame_width: u16) -> (r: Result<Cl2DirectionalSpriteSheet, ClxError>)
        requires
            sprite_width_ok(data@, frame_width),
        ensures
            match spec_cl2_sheet(data@, frame_width) {
                Err(e) => r == Err::<Cl2DirectionalSpriteSheet, ClxError>(e),
                Ok(dirs) => (r matches Ok(s) && s@ == dirs),
            },
    {
        let single = match Cl2Sprite::is_single_list(data) {
            Ok(b) => b,
            Err(e) => return Err(e),
        };
        if single {
            let frames = match Cl2Sprite::parse_frame_list(data, frame_width) {
                Ok(f) => f,
                Err(e) => return Err(e),
            };
            let sprite = Cl2Sprite { frames };
            let directions = vec![sprite];
            assert(directions@.map_values(|d: Cl2Sprite| d@) =~= seq![sprite@]);
            return Ok(Cl2DirectionalSpriteSheet { directions });
        }
        let offsets = match Cl2Sprite::read_sheet_offsets(data) {
            Ok(o) => o,
            Err(e) => return Err(e),
        };
        let mut directions: Vec<Cl2Sprite> = Vec::new();
        let mut index: usize = 0;
        assert(directions@.map_values(|d: Cl2Sprite| d@) =~= Seq::empty());
        while index < offsets.len()
            invariant
                frame_width > 0 || (index == 0 && list_refused_before_decoding(
                    data@.subrange(offsets@[0] as int, data@.len() as int),
                )),
                offsets@.len() >= 2,
                spec_sheet_offsets(data@) == Ok::<Seq<usize>, ClxError>(offsets@),
                index <= offsets@.len(),
                forall|i: int| 0 <= i < offsets@.len() ==> #[trigger] offsets@[i] < data@.len(),
                spec_cl2_sheet(data@, frame_width) == sheet_groups(
                    data@,
                    frame_width,
                    offsets@,
                    index as int,
                    directions@.map_values(|d: Cl2Sprite| d@),
                ),
            decreases offsets@.len() - index,
        {
            let start = offsets[index];
            let group = vstd::slice::slice_subrange(data, start, data.len());
            let frames = match Cl2Sprite::parse_frame_list(group, frame_width) {
                Ok(f) => f,
                Err(e) => return Err(e),
            };
            let ghost before = directions@;
            let sprite = Cl2Sprite { frames };
            directions.push(sprite);
            assert(directions@.map_values(|d: Cl2Sprite| d@) =~= before.map_values(|d: Cl2Sprite| d@).push(sprite@));
            index += 1;
        }
        Ok(Cl2DirectionalSpriteSheet { directions })
    }

    /// The number of directions.
    pub fn direction_count(&self) -> (n: usize)
        ensures
            n == self.directions@.len(),
    {
        self.directions.len()
    }

    /// The direction at `index`, if there is one.
    pub fn direction(&self, index: usize) -> (r: Option<&Cl2Sprite>)
        ensures
            index < self.directions@.len() ==> r == Some(&self.directions@[index as int]),
            index >= self.directions@.len() ==> r is None,
    {
        if index < self.directions.len() {
            Some(&self.directions[index])
        } else {
            None
        }
    }
}

} // verus!
