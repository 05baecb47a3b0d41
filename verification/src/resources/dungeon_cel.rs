use vstd::prelude::*;
use crate::resources::bytes::{read_le_u16, read_le_u32, spec_le_u16, spec_le_u32};
use crate::resources::clx::{ClxError, ClxSprite, spec_clx_sprite};

verus! {

/// Width of a dungeon tile frame in pixels.
pub const DUN_FRAME_WIDTH: u16 = 32;

/// Height of a dungeon tile frame in pixels.
pub const DUN_FRAME_HEIGHT: u16 = 32;

/// Why a dungeon CEL file was refused.
#[derive(Debug, Clone, Copy, PartialEq, Eq, Structural)]
pub enum DungeonCelError {
    /// Fewer than 8 bytes.
    TooSmall(usize),
    /// The frame count is 0 or above the limit.
    InvalidFrameCount(usize),
    /// The offset table needs `.0` bytes; the file has `.1`.
    OffsetTableBeyondFile(usize, usize),
    /// Frame `.0` would span `.1 .. .2`, which is empty or past the end of the file.
    InvalidFrameOffset(usize, usize, usize),
    /// The file is not a single frame list (first word `.0`, size `.1`).
    MultiGroupUnsupported(usize, usize),
    /// A run of `.0` opaque pixels at byte `.1` goes past the end of the frame data.
    TruncatedRle(usize, usize),
    /// A special CEL file is not valid CLX.
    Clx(ClxError),
}

/// One tile frame: raw encoded bytes, or decoded indexed pixels (0 = transparent).
#[derive(Debug, Clone)]
pub struct DungeonCelFrame {
    pub raw_data: Vec<u8>,
    pub is_decoded: bool,
}

impl View for DungeonCelFrame {
    type V = (Seq<u8>, bool);

    open spec fn view(&self) -> (Seq<u8>, bool) {
        (self.raw_data@, self.is_decoded)
    }
}

impl DungeonCelFrame {
    /// The number of bytes the frame holds.
    pub fn size(&self) -> (n: usize)
        ensures
            n == self.raw_data@.len(),
    {
        self.raw_data.len()
    }
}

/// The frames of a dungeon tile set.
#[derive(Debug)]
pub struct DungeonCelSprite {
    pub frames: Vec<DungeonCelFrame>,
}

impl View for DungeonCelSprite {
    type V = Seq<(Seq<u8>, bool)>;

    open spec fn view(&self) -> Seq<(Seq<u8>, bool)> {
        self.frames@.map_values(|f: DungeonCelFrame| f@)
    }
}

/// Where frame `i` of a tile set with `n` frames ends: at the next frame's offset, or
/// at the end of the file for the last frame.
pub open spec fn tile_frame_end(data: Seq<u8>, n: int, i: int) -> int {
    if i + 1 < n {
        spec_le_u32(data, 4 * (i + 1)) as int
    } else {
        data.len() as int
    }
}

/// Frames `i .. n` of a tile set appended to `acc`, or the first that is refused.
pub open spec fn tile_frames(data: Seq<u8>, i: int, n: int, acc: Seq<(Seq<u8>, bool)>) -> Result<Seq<(Seq<u8>, bool)>, DungeonCelError>
    decreases n - i,
{
    if i >= n {
        Ok(acc)
    } else {
        let start = spec_le_u32(data, 4 * i) as int;
        let end = tile_frame_end(data, n, i);
        if start >= end || end > data.len() {
            Err(DungeonCelError::InvalidFrameOffset(i as usize, start as usize, end as usize))
        } else {
            tile_frames(data, i + 1, n, acc.push((data.subrange(start, end), false)))
        }
    }
}

/// A dungeon tile set: a table of frame offsets whose first entry, the offset of the
/// first frame, also gives the table's length; each frame runs to the next offset,
/// the last to the end of the file. Frames are kept encoded.
pub open spec fn spec_tile_set(data: Seq<u8>) -> Result<Seq<(Seq<u8>, bool)>, DungeonCelError> {
    if data.len() < 8 {
        Err(DungeonCelError::TooSmall(data.len() as usize))
    } else {
        let n = spec_le_u32(data, 0) / 4;
        if n == 0 || n > 100000 {
            Err(DungeonCelError::InvalidFrameCount(n as usize))
        } else if 4 * n > data.len() {
            Err(DungeonCelError::OffsetTableBeyondFile((4 * n) as usize, data.len() as usize))
        } else {
            tile_frames(data, 0, n as int, Seq::empty())
        }
    }
}

/// The bytes of all frames, one after the other.
pub open spec fn joined(frames: Seq<(Seq<u8>, bool)>) -> Seq<u8>
    decreases frames.len(),
{
    if frames.len() == 0 {
        Seq::empty()
    } else {
        joined(frames.drop_last()) + frames.last().0
    }
}

/// Frames `i .. n` continue `acc` with the file's bytes from frame `i` to the end.
proof fn lemma_tile_frames_join(data: Seq<u8>, i: int, n: int, acc: Seq<(Seq<u8>, bool)>)
    requires
        0 <= i < n,
        tile_frames(data, i, n, acc) is Ok,
    ensures
        joined(tile_frames(data, i, n, acc)->Ok_0) == joined(acc) + data.subrange(
            spec_le_u32(data, 4 * i) as int,
            data.len() as int,
        ),
    decreases n - i,
{
    let start = spec_le_u32(data, 4 * i) as int;
    let end = tile_frame_end(data, n, i);
    let next = acc.push((data.subrange(start, end), false));
    assert(next.drop_last() =~= acc);
    if i + 1 < n {
        lemma_tile_frames_join(data, i + 1, n, next);
        assert(data.subrange(start, end) + data.subrange(end, data.len() as int) =~= data.subrange(
            start,
            data.len() as int,
        ));
        assert(joined(acc) + data.subrange(start, end) + data.subrange(end, data.len() as int) =~= joined(acc)
            + data.subrange(start, data.len() as int));
    }
}

/// A tile set's frames cover the file from the first frame to its end, in order,
/// with no byte left out or repeated.
pub proof fn lemma_tile_frames_cover_file(data: Seq<u8>)
    requires
        spec_tile_set(data) is Ok,
    ensures
        joined(spec_tile_set(data)->Ok_0) == data.subrange(spec_le_u32(data, 0) as int, data.len() as int),
{
    let n = (spec_le_u32(data, 0) / 4) as int;
    lemma_tile_frames_join(data, 0, n, Seq::empty());
    assert(joined(Seq::<(Seq<u8>, bool)>::empty()) + data.subrange(spec_le_u32(data, 0) as int, data.len() as int)
        =~= data.subrange(spec_le_u32(data, 0) as int, data.len() as int));
}

/// `n` transparent (zero) pixels.
pub open spec fn zeros(n: int) -> Seq<u8> {
    Seq::new(n as nat, |i: int| 0u8)
}

/// Decode CEL RLE from byte `pos`, appending to `acc`: a control byte of 0x80 or more
/// is `256 - control` transparent pixels; a smaller one is followed by that many
/// opaque pixels.
pub open spec fn cel_stream(data: Seq<u8>, pos: int, acc: Seq<u8>) -> Result<Seq<u8>, DungeonCelError>
    decreases data.len() - pos,
{
    if pos >= data.len() {
        Ok(acc)
    } else {
        let c = data[pos];
        if c >= 0x80 {
            cel_stream(data, pos + 1, acc + zeros(256 - c))
        } else if pos + 1 + c > data.len() {
            Err(DungeonCelError::TruncatedRle(c as usize, (pos + 1) as usize))
        } else {
            cel_stream(data, pos + 1 + c, acc + data.subrange(pos + 1, pos + 1 + c))
        }
    }
}

/// Where CEL RLE starts: after a 10-byte frame header when the first word says 10.
pub open spec fn cel_data_start(data: Seq<u8>) -> int {
    if data.len() >= 10 && spec_le_u16(data, 0) == 10 {
        10
    } else {
        0
    }
}

/// The pixels of a CEL RLE frame.
pub open spec fn spec_decode_cel(data: Seq<u8>) -> Result<Seq<u8>, DungeonCelError> {
    cel_stream(data, cel_data_start(data), Seq::empty())
}

/// The offset after the last frame of a CEL file whose first word is `n`, when the
/// table has room for it.
pub open spec fn cel_is_single_list(data: Seq<u8>) -> bool {
    let last_pos = 4 * (spec_le_u32(data, 0) + 1);
    last_pos + 4 <= data.len() && spec_le_u32(data, last_pos) == data.len()
}

/// Frames `i .. n` of a CEL frame list, decoded, appended to `acc`.
pub open spec fn cel_frames(data: Seq<u8>, i: int, n: int, acc: Seq<(Seq<u8>, bool)>) -> Result<Seq<(Seq<u8>, bool)>, DungeonCelError>
    decreases n - i,
{
    if i >= n {
        Ok(acc)
    } else {
        let start = spec_le_u32(data, 4 * (i + 1)) as int;
        let end = spec_le_u32(data, 4 * (i + 2)) as int;
        if start >= end || end > data.len() {
            Err(DungeonCelError::InvalidFrameOffset(i as usize, start as usize, end as usize))
        } else {
            match spec_decode_cel(data.subrange(start, end)) {
                Err(e) => Err(e),
                Ok(px) => cel_frames(data, i + 1, n, acc.push((px, true))),
            }
        }
    }
}

/// A CEL file of one frame list (count, then `count + 1` offsets, the last being the
/// file size), every frame decoded.
pub open spec fn spec_cel_file(data: Seq<u8>) -> Result<Seq<(Seq<u8>, bool)>, DungeonCelError> {
    if data.len() < 8 {
        Err(DungeonCelError::TooSmall(data.len() as usize))
    } else if !cel_is_single_list(data) {
        Err(DungeonCelError::MultiGroupUnsupported(spec_le_u32(data, 0) as usize, data.len() as usize))
    } else {
        let n = spec_le_u32(data, 0);
        if n == 0 || n > 10000 {
            Err(DungeonCelError::InvalidFrameCount(n as usize))
        } else {
            cel_frames(data, 0, n as int, Seq::empty())
        }
    }
}

/// CLX pixels as indexed pixels: transparent becomes 0.
pub open spec fn indexed_pixels(px: Seq<Option<u8>>) -> Seq<u8> {
    px.map_values(|p: Option<u8>| match p {
        Some(v) => v,
        None => 0u8,
    })
}

/// A special tile set stored as CLX, frames converted to indexed pixels.
pub open spec fn spec_special_tiles(data: Seq<u8>) -> Result<Seq<(Seq<u8>, bool)>, DungeonCelError> {
    match spec_clx_sprite(data) {
        Err(e) => Err(DungeonCelError::Clx(e)),
        Ok(frames) => Ok(frames.map_values(|f: (u16, u16, Seq<Option<u8>>)| (indexed_pixels(f.2), true))),
    }
}

/// Frame `k` of a CEL file is `f`: the CEL decoding of exactly the bytes between
/// offset-table entries `k` and `k + 1` (the words at `4 (k + 1)` and
/// `4 (k + 2)`), a non-empty range inside the file.
pub open spec fn cel_frame_entry(data: Seq<u8>, k: int, f: (Seq<u8>, bool)) -> bool {
    let start = spec_le_u32(data, 4 * (k + 1)) as int;
    let end = spec_le_u32(data, 4 * (k + 2)) as int;
    &&& start < end <= data.len()
    &&& f.1
    &&& spec_decode_cel(data.subrange(start, end)) == Ok::<Seq<u8>, DungeonCelError>(f.0)
}

/// Frames `i .. n` that `cel_frames` accepts follow `acc`, frame `k` as
/// `cel_frame_entry` says.
proof fn lemma_cel_frames_ok(data: Seq<u8>, i: int, n: int, acc: Seq<(Seq<u8>, bool)>)
    requires
        0 <= i <= n,
        cel_frames(data, i, n, acc) is Ok,
    ensures
        ({
            let fs = cel_frames(data, i, n, acc)->Ok_0;
            &&& fs.len() == acc.len() + n - i
            &&& fs.subrange(0, acc.len() as int) == acc
            &&& forall|k: int| i <= k < n ==> cel_frame_entry(data, k, #[trigger] fs[acc.len() + k - i])
        }),
    decreases n - i,
{
    if i < n {
        let start = spec_le_u32(data, 4 * (i + 1)) as int;
        let end = spec_le_u32(data, 4 * (i + 2)) as int;
        let px = spec_decode_cel(data.subrange(start, end))->Ok_0;
        let acc2 = acc.push((px, true));
        lemma_cel_frames_ok(data, i + 1, n, acc2);
        let fs = cel_frames(data, i, n, acc)->Ok_0;
        assert(fs == cel_frames(data, i + 1, n, acc2)->Ok_0);
        assert(fs.subrange(0, acc2.len() as int) == acc2);
        assert(fs[acc.len() as int] == fs.subrange(0, acc2.len() as int)[acc.len() as int]);
        assert(cel_frame_entry(data, i, (px, true)));
        assert(fs.subrange(0, acc.len() as int) =~= acc) by {
            assert forall|j: int| 0 <= j < acc.len() implies fs.subrange(0, acc.len() as int)[j] == acc[j] by {
                assert(fs.subrange(0, acc2.len() as int)[j] == acc2[j]);
            }
        }
        assert forall|k: int| i <= k < n implies cel_frame_entry(data, k, #[trigger] fs[acc.len() + k - i]) by {
            if k > i {
                assert(fs[acc2.len() + k - (i + 1)] == fs[acc.len() + k - i]);
            }
        }
    } else {
        assert(acc.subrange(0, acc.len() as int) =~= acc);
    }
}

/// An accepted CEL file of `n` frames (the first word) has `n` frames, and frame
/// `k` is the CEL decoding of exactly the bytes between offset-table entries `k`
/// and `k + 1` (`cel_frame_entry`). Consecutive frames share their boundary, so
/// the frames' encoded bytes are disjoint and run without a gap from the first
/// offset to the last, which is the file size.
pub proof fn lemma_cel_file_frames(data: Seq<u8>)
    ensures
        spec_cel_file(data) matches Ok(fs) ==> {
            let n = spec_le_u32(data, 0) as int;
            &&& fs.len() == n
            &&& spec_le_u32(data, 4 * (n + 1)) == data.len()
            &&& forall|k: int| 0 <= k < n ==> cel_frame_entry(data, k, #[trigger] fs[k])
        },
{
    if data.len() >= 8 && cel_is_single_list(data) {
        let n = spec_le_u32(data, 0) as int;
        if 0 < n <= 10000 && cel_frames(data, 0, n, Seq::empty()) is Ok {
            lemma_cel_frames_ok(data, 0, n, Seq::empty());
            let fs = cel_frames(data, 0, n, Seq::empty())->Ok_0;
            assert forall|k: int| 0 <= k < n implies cel_frame_entry(data, k, #[trigger] fs[k]) by {
                assert(fs[0 + k - 0] == fs[k]);
            }
        }
    }
}

impl DungeonCelSprite {
    /// Parse a dungeon tile set (see `spec_tile_set`); frames are kept encoded.
    pub fn from_bytes(data: &[u8]) -> (r: Result<DungeonCelSprite, DungeonCelError>)
        ensures
            match spec_tile_set(data@) {
                Err(e) => r == Err::<DungeonCelSprite, DungeonCelError>(e),
                Ok(frames) => (r matches Ok(s) && s@ == frames),
            },
    {
        let len = data.len();
        if len < 8 {
            return Err(DungeonCelError::TooSmall(len));
        }
        let num_frames = (read_le_u32(data, 0) / 4) as usize;
        if num_frames == 0 || num_frames > 100000 {
            return Err(DungeonCelError::InvalidFrameCount(num_frames));
        }
        if num_frames * 4 > len {
            return Err(DungeonCelError::OffsetTableBeyondFile(num_frames * 4, len));
        }
        let mut frames: Vec<DungeonCelFrame> = Vec::new();
        let mut i: usize = 0;
        assert(frames@.map_values(|f: DungeonCelFrame| f@) =~= Seq::empty());
        while i < num_frames
            invariant
                len == data@.len(),
                len >= 8,
                num_frames == spec_le_u32(data@, 0) / 4,
                0 < num_frames <= 100000,
                4 * num_frames <= len,
                i <= num_frames,
                spec_tile_set(data@) == tile_frames(data@, i as int, num_frames as int, frames@.map_values(|f: DungeonCelFrame| f@)),
            decreases num_frames - i,
        {
            let start = read_le_u32(data, 4 * i) as usize;
            let end = if i + 1 < num_frames {
                read_le_u32(data, 4 * (i + 1)) as usize
            } else {
                len
            };
            if start >= end || end > len {
                return Err(DungeonCelError::InvalidFrameOffset(i, start, end));
            }
            let frame = Self::parse_frame(vstd::slice::slice_subrange(data, start, end));
            let ghost before = frames@;
            frames.push(frame);
            assert(frames@.map_values(|f: DungeonCelFrame| f@) =~= before.map_values(|f: DungeonCelFrame| f@).push(frame@));
            i += 1;
        }
        Ok(DungeonCelSprite { frames })
    }

    /// Parse a CEL file of one frame list and decode every frame (see
    /// `spec_cel_file`). `width` is the frame width, which the file does not record.
    pub fn from_cel_bytes_with_width(data: &[u8], width: usize) -> (r: Result<DungeonCelSprite, DungeonCelError>)
        requires
            width > 0,
        ensures
            match spec_cel_file(data@) {
                Err(e) => r == Err::<DungeonCelSprite, DungeonCelError>(e),
                Ok(frames) => (r matches Ok(s) && s@ == frames),
            },
    {
        let len = data.len();
        if len < 8 {
            return Err(DungeonCelError::TooSmall(len));
        }
        let first = read_le_u32(data, 0);
        let last_pos: u64 = (first as u64 + 1) * 4;
        let single = if last_pos + 4 <= len as u64 {
            read_le_u32(data, last_pos as usize) as usize == len
        } else {
            false
        };
        if !single {
            return Err(DungeonCelError::MultiGroupUnsupported(first as usize, len));
        }
        let num_frames = first as usize;
        if num_frames == 0 || num_frames > 10000 {
            return Err(DungeonCelError::InvalidFrameCount(num_frames));
        }
        let mut frames: Vec<DungeonCelFrame> = Vec::new();
        let mut i: usize = 0;
        assert(frames@.map_values(|f: DungeonCelFrame| f@) =~= Seq::empty());
        while i < num_frames
            invariant
                width > 0,
                len == data@.len(),
                num_frames == spec_le_u32(data@, 0),
                0 < num_frames <= 10000,
                4 * (num_frames + 1) + 4 <= len,
                i <= num_frames,
                spec_cel_file(data@) == cel_frames(data@, i as int, num_frames as int, frames@.map_values(|f: DungeonCelFrame| f@)),
            decreases num_frames - i,
        {
            let start = read_le_u32(data, 4 * (i + 1)) as usize;
            let end = read_le_u32(data, 4 * (i + 2)) as usize;
            if start >= end || end > len {
                return Err(DungeonCelError::InvalidFrameOffset(i, start, end));
            }
            let pixels = match Self::decode_cel_rle(vstd::slice::slice_subrange(data, start, end), width) {
                Ok(p) => p,
                Err(e) => return Err(e),
            };
            let frame = DungeonCelFrame { raw_data: pixels, is_decoded: true };
            let ghost before = frames@;
            frames.push(frame);
            assert(frames@.map_values(|f: DungeonCelFrame| f@) =~= before.map_values(|f: DungeonCelFrame| f@).push(frame@));
            i += 1;
        }
        Ok(DungeonCelSprite { frames })
    }

    /// Decode CEL RLE into indexed pixels, 0 being transparent (see `cel_stream`).
    /// Lines of `width` pixels are read one after the other; the pixels do not
    /// depend on where lines end.
    pub fn decode_cel_rle(data: &[u8], width: usize) -> (r: Result<Vec<u8>, DungeonCelError>)
        requires
            width > 0,
        ensures
            match spec_decode_cel(data@) {
                Err(e) => r == Err::<Vec<u8>, DungeonCelError>(e),
                Ok(px) => (r matches Ok(v) && v@ == px),
            },
    {
        let len = data.len();
        let mut pixels: Vec<u8> = Vec::new();
        let mut pos: usize = 0;
        if len >= 2 {
            let header = read_le_u16(data, 0);
            if header == 10 && len >= 10 {
                pos = 10;
            }
        }
        while pos < len
            invariant
                width > 0,
                len == data@.len(),
                pos <= len,
                spec_decode_cel(data@) == cel_stream(data@, pos as int, pixels@),
            decreases len - pos,
        {
            let ghost p_start = pos;
            let mut row_width: usize = 0;
            while row_width < width && pos < len
                invariant
                    width > 0,
                    len == data@.len(),
                    p_start < len,
                    p_start <= pos <= len,
                    pos == p_start ==> row_width < width,
                    spec_decode_cel(data@) == cel_stream(data@, pos as int, pixels@),
                decreases len - pos,
            {
                let control = data[pos];
                let ghost before = pixels@;
                pos += 1;
                if control >= 0x80 {
                    let count = 256 - control as usize;
                    let mut k: usize = 0;
                    while k < count
                        invariant
                            k <= count,
                            pixels@ == before + zeros(k as int),
                        decreases count - k,
                    {
                        pixels.push(0);
                        k += 1;
                        assert(pixels@ =~= before + zeros(k as int));
                    }
                    row_width = row_width.saturating_add(count);
                } else {
                    let count = control as usize;
                    if count > len - pos {
                        return Err(DungeonCelError::TruncatedRle(count, pos));
                    }
                    let ghost from = pos as int;
                    let mut k: usize = 0;
                    while k < count
                        invariant
                            len == data@.len(),
                            k <= count,
                            0 <= from,
                            from + count <= len,
                            pos == from + k,
                            pixels@ == before + data@.subrange(from, from + k),
                        decreases count - k,
                    {
                        pixels.push(data[pos]);
                        pos += 1;
                        k += 1;
                        assert(pixels@ =~= before + data@.subrange(from, from + k));
                    }
                    row_width = row_width.saturating_add(count);
                }
            }
        }
        Ok(pixels)
    }

    /// Parse a special tile set stored as CLX; each frame's pixels become indexed
    /// pixels with 0 for transparent.
    pub fn from_clx_bytes(data: &[u8]) -> (r: Result<DungeonCelSprite, DungeonCelError>)
        ensures
            match spec_special_tiles(data@) {
                Err(e) => r == Err::<DungeonCelSprite, DungeonCelError>(e),
                Ok(frames) => (r matches Ok(s) && s@ == frames),
            },
    {
        let clx = match ClxSprite::from_bytes(data) {
            Ok(s) => s,
            Err(e) => return Err(DungeonCelError::Clx(e)),
        };
        let mut frames: Vec<DungeonCelFrame> = Vec::new();
        let mut i: usize = 0;
        while i < clx.frames.len()
            invariant
                i <= clx.frames@.len(),
                frames@.len() == i,
                forall|k: int| 0 <= k < i ==> (#[trigger] frames@[k])@ == (indexed_pixels(clx.frames@[k].pixels@), true),
            decreases clx.frames@.len() - i,
        {
            let source = &clx.frames[i];
            let mut raw_data: Vec<u8> = Vec::new();
            let mut j: usize = 0;
            while j < source.pixels.len()
                invariant
                    j <= source.pixels@.len(),
                    raw_data@ == indexed_pixels(source.pixels@.subrange(0, j as int)),
                decreases source.pixels@.len() - j,
            {
                let v: u8 = match source.pixels[j] {
                    Some(idx) => idx,
                    None => 0,
                };
                raw_data.push(v);
                j += 1;
                assert(raw_data@ =~= indexed_pixels(source.pixels@.subrange(0, j as int)));
            }
            assert(source.pixels@.subrange(0, j as int) =~= source.pixels@);
            frames.push(DungeonCelFrame { raw_data, is_decoded: true });
            i += 1;
        }
        let sprite = DungeonCelSprite { frames };
        assert(sprite@ =~= clx@.map_values(|f: (u16, u16, Seq<Option<u8>>)| (indexed_pixels(f.2), true)));
        Ok(sprite)
    }

    /// A frame of the main tile set: its bytes, still encoded.
    fn parse_frame(data: &[u8]) -> (f: DungeonCelFrame)
        ensures
            f@ == (data@, false),
    {
        DungeonCelFrame { raw_data: vstd::slice::slice_to_vec(data), is_decoded: false }
    }
}

} // verus!
