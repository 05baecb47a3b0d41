use vstd::prelude::*;
use vstd::arithmetic::div_mod::lemma_fundamental_div_mod_converse;
use crate::resources::bytes::{read_le_u16, read_le_u32, spec_le_u16, spec_le_u32};
use crate::resources::palette::{Color, Palette};

verus! {

/// Why a CLX or CL2 sprite was refused.
#[derive(Debug, Clone, Copy, PartialEq, Eq, Structural)]
pub enum ClxError {
    /// Fewer than 8 bytes: no room for the frame count and one offset.
    HeaderTooSmall(usize),
    /// The frame count is 0.
    ZeroFrames,
    /// The offset table needs this many bytes; the file has fewer.
    HeaderIncomplete(u64, usize),
    /// The last offset (the file size) is past the end of the data.
    FileSizeMismatch(u32, usize),
    /// Frame `.0` starts at `.1`, at or past the end of the data.
    FrameOffsetOutOfBounds(u32, u32),
    /// Frame `.0` ends at `.1`, past the end of the data.
    NextOffsetOutOfBounds(u32, u32),
    /// A 6-byte frame header at `.0` does not fit in `.1` bytes.
    FrameHeaderOutOfBounds(usize, usize),
    /// Frame `.0` starts at `.1` with a header of `.2` bytes, which leaves no pixel
    /// data before its end `.3`.
    PixelDataOffsetInvalid(u32, usize, u16, usize),
    /// The pixel data ended inside a line.
    RleOverflow,
    /// A transparent run goes past the end of the frame.
    TransparentRunOverflow,
    /// An opaque fill is the last byte: its color is missing.
    FillMissingColor,
    /// An opaque fill goes past the end of the frame.
    FillOverflow,
    /// An opaque fill goes past the end of its line.
    FillExceedsLine,
    /// A run of raw pixels goes past the end of the data.
    PixelDataOverflow,
    /// A run of raw pixels goes past the end of the frame.
    PixelsOverflow,
    /// A run of raw pixels goes past the end of its line.
    PixelsExceedLine,
    /// The frame has `.0` pixels; the data covered `.1` of them.
    SizeMismatch(usize, usize),
    /// There is no frame with this index.
    FrameIndexOutOfBounds(usize),
    /// CL2 frame `.0` has an offset table entry past the end of the data.
    FrameTableOutOfBounds(usize),
    /// CL2 frame `.0` has offsets that are out of order or out of bounds.
    InvalidFrameOffsets(usize),
    /// CL2 frame `.0`'s header does not fit before the end of the data.
    Cl2FrameHeaderOutOfBounds(usize),
    /// A CL2 sheet's first group offset is below 8 or not a multiple of 4.
    InvalidSheetHeader(usize),
    /// CL2 sheet entry `.0` does not fit in the data.
    SheetOffsetOutOfBounds(usize),
    /// CL2 sheet group `.0` starts at `.1`, at or past the end of the data.
    GroupOffsetOutOfBounds(usize, usize),
    /// A CL2 frame is more than 65535 lines tall.
    HeightOverflow,
}

/// The CLX file header: frame count, `count + 1` offsets, and the file size
/// (the last offset).
#[derive(Debug, Clone)]
pub struct ClxHeader {
    pub num_frames: u32,
    pub frame_offsets: Vec<u32>,
    pub file_size: u32,
}

/// The `n + 1` offsets that follow the frame count.
pub open spec fn clx_offsets(data: Seq<u8>, n: int) -> Seq<u32> {
    Seq::new((n + 1) as nat, |i: int| spec_le_u32(data, 4 + 4 * i))
}

/// The bytes an offset table for `n` frames needs: the count and `n + 1` offsets.
pub open spec fn clx_header_size(n: int) -> int {
    4 + 4 * (n + 1)
}

/// The header of CLX data: frame count and offsets, or why it is refused.
pub open spec fn spec_clx_header(data: Seq<u8>) -> Result<(u32, Seq<u32>), ClxError> {
    if data.len() < 8 {
        Err(ClxError::HeaderTooSmall(data.len() as usize))
    } else {
        let n = spec_le_u32(data, 0);
        if n == 0 {
            Err(ClxError::ZeroFrames)
        } else if data.len() < clx_header_size(n as int) {
            Err(ClxError::HeaderIncomplete(clx_header_size(n as int) as u64, data.len() as usize))
        } else {
            Ok((n, clx_offsets(data, n as int)))
        }
    }
}

impl ClxHeader {
    /// Parse the frame count and offset table.
    pub fn from_bytes(data: &[u8]) -> (r: Result<ClxHeader, ClxError>)
        ensures
            match spec_clx_header(data@) {
                Err(e) => r == Err::<ClxHeader, ClxError>(e),
                Ok((n, offs)) => (r matches Ok(h) && h.num_frames == n && h.frame_offsets@ == offs
                    && h.file_size == offs[n as int]),
            },
    {
        if data.len() < 8 {
            return Err(ClxError::HeaderTooSmall(data.len()));
        }
        let num_frames = read_le_u32(data, 0);
        if num_frames == 0 {
            return Err(ClxError::ZeroFrames);
        }
        let header_size: u64 = 4 + (num_frames as u64 + 1) * 4;
        if (data.len() as u64) < header_size {
            return Err(ClxError::HeaderIncomplete(header_size, data.len()));
        }
        let num_offsets = num_frames as usize + 1;
        let len = data.len();
        let mut frame_offsets: Vec<u32> = Vec::new();
        let mut i: usize = 0;
        while i < num_offsets
            invariant
                num_offsets == num_frames + 1,
                len == data@.len(),
                4 + 4 * num_offsets <= len,
                i <= num_offsets,
                frame_offsets@ == clx_offsets(data@, num_frames as int).subrange(0, i as int),
            decreases num_offsets - i,
        {
            let v = read_le_u32(data, 4 + i * 4);
            frame_offsets.push(v);
            i += 1;
            assert(frame_offsets@ =~= clx_offsets(data@, num_frames as int).subrange(0, i as int));
        }
        assert(frame_offsets@ =~= clx_offsets(data@, num_frames as int));
        let file_size = frame_offsets[num_frames as usize];
        Ok(ClxHeader { num_frames, frame_offsets, file_size })
    }
}

/// A CLX frame header: its own size, then width and height.
#[derive(Debug, Clone, Copy, PartialEq, Eq, Structural)]
pub struct ClxFrameHeader {
    pub header_size: u16,
    pub width: u16,
    pub height: u16,
}

impl ClxFrameHeader {
    /// Read the 6-byte frame header at `offset`.
    pub fn from_bytes(data: &[u8], offset: usize) -> (r: Result<ClxFrameHeader, ClxError>)
        ensures
            offset + 6 > data@.len() ==> r == Err::<ClxFrameHeader, ClxError>(
                ClxError::FrameHeaderOutOfBounds(offset, data@.len() as usize),
            ),
            offset + 6 <= data@.len() ==> r == Ok::<ClxFrameHeader, ClxError>(
                ClxFrameHeader {
                    header_size: spec_le_u16(data@, offset as int),
                    width: spec_le_u16(data@, offset + 2),
                    height: spec_le_u16(data@, offset + 4),
                },
            ),
    {
        if offset > data.len() || data.len() - offset < 6 {
            return Err(ClxError::FrameHeaderOutOfBounds(offset, data.len()));
        }
        Ok(ClxFrameHeader {
            header_size: read_le_u16(data, offset),
            width: read_le_u16(data, offset + 2),
            height: read_le_u16(data, offset + 4),
        })
    }
}

/// A decoded frame: `pixels[y * width + x]` is the pixel at column `x` of line `y`,
/// counted from the bottom; `None` is transparent.
#[derive(Debug, Clone)]
pub struct ClxFrame {
    pub width: u16,
    pub height: u16,
    pub pixels: Vec<Option<u8>>,
}

impl View for ClxFrame {
    type V = (u16, u16, Seq<Option<u8>>);

    open spec fn view(&self) -> (u16, u16, Seq<Option<u8>>) {
        (self.width, self.height, self.pixels@)
    }
}

/// The pixel for RGBA texel `k` of `rgba`: transparent when its alpha is below 128,
/// else its red channel as the pixel value.
pub open spec fn alpha_masked(rgba: Seq<u8>, k: int) -> Option<u8> {
    if rgba[4 * k + 3] < 128 {
        None
    } else {
        Some(rgba[4 * k])
    }
}

/// The source pixel of output pixel `k` of a `w` by `h` image flipped upside down.
pub open spec fn flipped_source(w: int, h: int, k: int) -> int {
    (h - 1 - k / w) * w + k % w
}

/// Channel `c` (r, g, b, alpha) of the RGBA texel for source pixel `src`: the palette
/// color with alpha 255 for an opaque pixel; all zero for a transparent or missing one.
pub open spec fn clx_channel(pixels: Seq<Option<u8>>, colors: Seq<Color>, src: int, c: int) -> u8 {
    if 0 <= src < pixels.len() && pixels[src] is Some {
        let col = colors[pixels[src]->0 as int];
        if c == 0 {
            col.r
        } else if c == 1 {
            col.g
        } else if c == 2 {
            col.b
        } else {
            255
        }
    } else {
        0
    }
}

impl ClxFrame {
    /// A frame from RGBA texels (4 bytes each; a partial texel at the end is
    /// ignored): transparent below alpha 128, else the red channel.
    pub fn from_rgba_alpha_mask(width: u16, height: u16, rgba: &[u8]) -> (f: ClxFrame)
        ensures
            f.width == width,
            f.height == height,
            f.pixels@.len() == rgba@.len() / 4,
            forall|k: int| 0 <= k < rgba@.len() / 4 ==> #[trigger] f.pixels@[k] == alpha_masked(rgba@, k),
    {
        let len = rgba.len();
        let n = len / 4;
        let mut pixels: Vec<Option<u8>> = Vec::new();
        let mut k: usize = 0;
        while k < n
            invariant
                len == rgba@.len(),
                n == len / 4,
                k <= n,
                pixels@.len() == k,
                forall|j: int| 0 <= j < k ==> #[trigger] pixels@[j] == alpha_masked(rgba@, j),
            decreases n - k,
        {
            let alpha = rgba[4 * k + 3];
            if alpha < 128 {
                pixels.push(None);
            } else {
                pixels.push(Some(rgba[4 * k]));
            }
            k += 1;
        }
        ClxFrame { width, height, pixels }
    }

    /// The frame as RGBA, `width * height * 4` bytes, top line first: frames are
    /// stored bottom line first, so lines are flipped here.
    pub fn to_rgba(&self, palette: &Palette) -> (rgba: Vec<u8>)
        ensures
            rgba@.len() == self.width * self.height * 4,
            forall|k: int, c: int|
                0 <= k < self.width * self.height && 0 <= c < 4 ==> #[trigger] rgba@[4 * k + c]
                    == clx_channel(
                    self.pixels@,
                    palette.colors@,
                    flipped_source(self.width as int, self.height as int, k),
                    c,
                ),
    {
        let w = self.width as usize;
        let h = self.height as usize;
        assert(w * h <= 0xffff_ffff) by (nonlinear_arith)
            requires
                w <= 0xffff,
                h <= 0xffff;
        let n = w * h;
        let mut rgba: Vec<u8> = Vec::new();
        let mut k: usize = 0;
        let mut dy: usize = 0;
        let mut x: usize = 0;
        assert(n > 0 ==> w > 0) by (nonlinear_arith)
            requires n == w * h;
        while k < n
            invariant
                w == self.width,
                h == self.height,
                n == w * h,
                k <= n,
                k == dy * w + x,
                n > 0 ==> x < w,
                rgba@.len() == 4 * k,
                forall|j: int, c: int|
                    0 <= j < k && 0 <= c < 4 ==> #[trigger] rgba@[4 * j + c] == clx_channel(
                        self.pixels@,
                        palette.colors@,
                        flipped_source(w as int, h as int, j),
                        c,
                    ),
            decreases n - k,
        {
            assert(dy < h) by (nonlinear_arith)
                requires k == dy * w + x, k < n, n == w * h, x >= 0;
            assert((k as int) / (w as int) == dy && (k as int) % (w as int) == x) by {
                lemma_fundamental_div_mod_converse(k as int, w as int, dy as int, x as int);
            }
            assert((h - 1 - dy) * w + x < n) by (nonlinear_arith)
                requires dy < h, x < w, n == w * h;
            let src = (h - 1 - dy) * w + x;
            assert(src == flipped_source(w as int, h as int, k as int));
            let mut texel: [u8; 4] = [0, 0, 0, 0];
            if src < self.pixels.len() {
                if let Some(index) = self.pixels[src] {
                    let color = palette.to_rgb(index);
                    texel = [color.r, color.g, color.b, 255];
                }
            }
            let ghost before = rgba@;
            rgba.push(texel[0]);
            rgba.push(texel[1]);
            rgba.push(texel[2]);
            rgba.push(texel[3]);
            assert forall|j: int, c: int| 0 <= j < k + 1 && 0 <= c < 4 implies #[trigger] rgba@[4 * j + c]
                == clx_channel(self.pixels@, palette.colors@, flipped_source(w as int, h as int, j), c) by {
                if j < k {
                    assert(rgba@[4 * j + c] == before[4 * j + c]);
                } else {
                    assert(j == k);
                }
            }
            k += 1;
            x += 1;
            if x == w {
                assert((dy + 1) * w == dy * w + w) by (nonlinear_arith);
                x = 0;
                dy += 1;
            }
        }
        rgba
    }
}

/// `out` with positions `start .. start + n` set to `Some(v)`.
pub open spec fn fill_range(out: Seq<Option<u8>>, start: int, n: int, v: u8) -> Seq<Option<u8>> {
    Seq::new(out.len(), |i: int| if start <= i < start + n { Some(v) } else { out[i] })
}

/// `out` with positions `start .. start + n` set to the bytes of `data` from `from`.
pub open spec fn copy_range(
    out: Seq<Option<u8>>,
    start: int,
    n: int,
    data: Seq<u8>,
    from: int,
) -> Seq<Option<u8>> {
    Seq::new(out.len(), |i: int| if start <= i < start + n { Some(data[from + i - start]) } else { out[i] })
}

/// Pixels of an opaque fill: control bytes `0x80..=0xBF` repeat the next byte
/// `0xBF - control` times.
pub open spec fn fill_width(control: u8) -> int {
    0xBF - control
}

/// Pixels of a raw run: control bytes `0xC0..=0xFF` are followed by
/// `control - 0xBF` pixel bytes.
pub open spec fn raw_width(control: u8) -> int {
    control - 0xBF
}

/// Decode the rest of one line of a frame of `out.len()` pixels: from data byte `d`,
/// frame pixel `p` and column `x`. Control bytes below 0x80 skip that many
/// (transparent) pixels; see `fill_width` and `raw_width` for the others. Gives the
/// next data byte and frame pixel and the pixels so far.
pub open spec fn clx_line(
    data: Seq<u8>,
    d: int,
    p: int,
    x: int,
    width: int,
    out: Seq<Option<u8>>,
) -> Result<(int, int, Seq<Option<u8>>), ClxError>
    decreases data.len() - d,
{
    if x >= width {
        Ok((d, p, out))
    } else if d < 0 || d >= data.len() {
        Err(ClxError::RleOverflow)
    } else {
        let c = data[d];
        if c < 0x80 {
            if p + c > out.len() {
                Err(ClxError::TransparentRunOverflow)
            } else {
                clx_line(data, d + 1, p + c, x + c, width, out)
            }
        } else if c <= 0xBF {
            let n = fill_width(c);
            if d + 1 >= data.len() {
                Err(ClxError::FillMissingColor)
            } else if p + n > out.len() {
                Err(ClxError::FillOverflow)
            } else if x + n > width {
                Err(ClxError::FillExceedsLine)
            } else {
                clx_line(data, d + 2, p + n, x + n, width, fill_range(out, p, n, data[d + 1]))
            }
        } else {
            let n = raw_width(c);
            if d + 1 + n > data.len() {
                Err(ClxError::PixelDataOverflow)
            } else if p + n > out.len() {
                Err(ClxError::PixelsOverflow)
            } else if x + n > width {
                Err(ClxError::PixelsExceedLine)
            } else {
                clx_line(data, d + 1 + n, p + n, x + n, width, copy_range(out, p, n, data, d + 1))
            }
        }
    }
}

/// Decode lines `row .. height`, each from column 0.
pub open spec fn clx_lines(
    data: Seq<u8>,
    d: int,
    p: int,
    row: int,
    height: int,
    width: int,
    out: Seq<Option<u8>>,
) -> Result<(int, Seq<Option<u8>>), ClxError>
    decreases height - row,
{
    if row >= height {
        Ok((p, out))
    } else {
        match clx_line(data, d, p, 0, width, out) {
            Err(e) => Err(e),
            Ok((d2, p2, out2)) => clx_lines(data, d2, p2, row + 1, height, width, out2),
        }
    }
}

/// `n` transparent pixels.
pub open spec fn blank_frame(n: int) -> Seq<Option<u8>> {
    Seq::new(n as nat, |i: int| None)
}

/// The pixels of a `width` by `height` frame of CL2 RLE data, or why it is refused.
pub open spec fn spec_decode_clx(data: Seq<u8>, width: u16, height: u16) -> Result<Seq<Option<u8>>, ClxError> {
    let n = width * height;
    match clx_lines(data, 0, 0, 0, height as int, width as int, blank_frame(n)) {
        Err(e) => Err(e),
        Ok((p, out)) => if p == n {
            Ok(out)
        } else {
            Err(ClxError::SizeMismatch(n as usize, p as usize))
        },
    }
}

/// Decoding the rest of a line only writes pixels from `p` on: pixels before `p`
/// keep their value, and the line ends at or after `p`.
proof fn lemma_clx_line_keeps(data: Seq<u8>, d: int, p: int, x: int, width: int, out: Seq<Option<u8>>)
    requires
        clx_line(data, d, p, x, width, out) is Ok,
    ensures
        ({
            let (d2, p2, out2) = clx_line(data, d, p, x, width, out)->Ok_0;
            &&& p2 >= p
            &&& out2.len() == out.len()
            &&& forall|q: int| 0 <= q < p && q < out.len() ==> #[trigger] out2[q] == out[q]
        }),
    decreases data.len() - d,
{
    if x < width && 0 <= d < data.len() {
        let c = data[d];
        if c < 0x80 {
            lemma_clx_line_keeps(data, d + 1, p + c, x + c, width, out);
        } else if c <= 0xBF {
            let n = fill_width(c);
            let out1 = fill_range(out, p, n, data[d + 1]);
            lemma_clx_line_keeps(data, d + 2, p + n, x + n, width, out1);
        } else {
            let n = raw_width(c);
            let out1 = copy_range(out, p, n, data, d + 1);
            lemma_clx_line_keeps(data, d + 1 + n, p + n, x + n, width, out1);
        }
    }
}

/// Decoding lines `row ..` only writes pixels from `p` on.
proof fn lemma_clx_lines_keeps(data: Seq<u8>, d: int, p: int, row: int, height: int, width: int, out: Seq<Option<u8>>)
    requires
        clx_lines(data, d, p, row, height, width, out) is Ok,
    ensures
        ({
            let (p2, out2) = clx_lines(data, d, p, row, height, width, out)->Ok_0;
            &&& p2 >= p
            &&& out2.len() == out.len()
            &&& forall|q: int| 0 <= q < p && q < out.len() ==> #[trigger] out2[q] == out[q]
        }),
    decreases height - row,
{
    if row < height {
        lemma_clx_line_keeps(data, d, p, 0, width, out);
        let (d2, p2, out2) = clx_line(data, d, p, 0, width, out)->Ok_0;
        lemma_clx_lines_keeps(data, d2, p2, row + 1, height, width, out2);
    }
}

/// A frame whose data starts with an opaque fill (a control byte `c` in
/// `0x80..=0xBF` followed by a color `v`) decodes, when it is accepted, with its
/// first `0xBF - c` pixels all `Some(v)`: the fill covers the start of the first
/// line, and nothing decoded after it changes those pixels.
pub proof fn lemma_clx_leading_fill(data: Seq<u8>, width: u16, height: u16)
    requires
        data.len() >= 2,
        0x80 <= data[0] <= 0xBF,
        width >= 1,
        height >= 1,
    ensures
        spec_decode_clx(data, width, height) matches Ok(px) ==> forall|k: int|
            0 <= k < 0xBF - data[0] ==> #[trigger] px[k] == Some(data[1]),
{
    let n = width * height;
    let blank = blank_frame(n);
    if clx_lines(data, 0, 0, 0, height as int, width as int, blank) is Ok {
        let c = data[0];
        let m = fill_width(c);
        let out1 = fill_range(blank, 0, m, data[1]);
        assert(clx_line(data, 0, 0, 0, width as int, blank) is Ok);
        lemma_clx_line_keeps(data, 2, m, m, width as int, out1);
        let (d2, p2, out2) = clx_line(data, 0, 0, 0, width as int, blank)->Ok_0;
        assert(clx_line(data, 0, 0, 0, width as int, blank) == clx_line(data, 2, m, m, width as int, out1));
        lemma_clx_lines_keeps(data, d2, p2, 1, height as int, width as int, out2);
        let (p3, out3) = clx_lines(data, 0, 0, 0, height as int, width as int, blank)->Ok_0;
        assert(clx_lines(data, 0, 0, 0, height as int, width as int, blank) == clx_lines(
            data,
            d2,
            p2,
            1,
            height as int,
            width as int,
            out2,
        ));
        assert forall|k: int| 0 <= k < 0xBF - data[0] implies #[trigger] out3[k] == Some(data[1]) by {
            assert(m <= n);
            assert(out2[k] == out1[k]);
        }
    }
}

/// A line that fails makes the whole frame fail the same way.
proof fn lemma_line_error(data: Seq<u8>, d: int, p: int, row: int, height: int, width: int, out: Seq<Option<u8>>)
    requires
        row < height,
        clx_line(data, d, p, 0, width, out) is Err,
    ensures
        clx_lines(data, d, p, row, height, width, out) == Err::<(int, Seq<Option<u8>>), ClxError>(
            clx_line(data, d, p, 0, width, out)->Err_0,
        ),
{
}

/// A CLX sprite: its frames in order.
#[derive(Debug, Clone)]
pub struct ClxSprite {
    pub frames: Vec<ClxFrame>,
}

impl View for ClxSprite {
    type V = Seq<(u16, u16, Seq<Option<u8>>)>;

    open spec fn view(&self) -> Seq<(u16, u16, Seq<Option<u8>>)> {
        self.frames@.map_values(|f: ClxFrame| f@)
    }
}

/// Frame `i` of CLX data with offset table `offsets`: its 6-byte header at `offsets[i]`,
/// then RLE pixels up to `offsets[i + 1]`.
pub open spec fn spec_clx_frame(data: Seq<u8>, offsets: Seq<u32>, i: int) -> Result<(u16, u16, Seq<Option<u8>>), ClxError> {
    let start = offsets[i] as int;
    let end = offsets[i + 1] as int;
    if start >= data.len() {
        Err(ClxError::FrameOffsetOutOfBounds(i as u32, start as u32))
    } else if end > data.len() {
        Err(ClxError::NextOffsetOutOfBounds(i as u32, end as u32))
    } else if start + 6 > data.len() {
        Err(ClxError::FrameHeaderOutOfBounds(start as usize, data.len() as usize))
    } else {
        let w = spec_le_u16(data, start + 2);
        let h = spec_le_u16(data, start + 4);
        let pixels_start = start + spec_le_u16(data, start);
        if pixels_start >= end {
            Err(ClxError::PixelDataOffsetInvalid(i as u32, start as usize, spec_le_u16(data, start), end as usize))
        } else {
            match spec_decode_clx(data.subrange(pixels_start, end), w, h) {
                Err(e) => Err(e),
                Ok(px) => Ok((w, h, px)),
            }
        }
    }
}

/// Frames `i .. n` appended to `acc`, or the first of them that is refused.
pub open spec fn clx_frames(
    data: Seq<u8>,
    offsets: Seq<u32>,
    i: int,
    n: int,
    acc: Seq<(u16, u16, Seq<Option<u8>>)>,
) -> Result<Seq<(u16, u16, Seq<Option<u8>>)>, ClxError>
    decreases n - i,
{
    if i >= n {
        Ok(acc)
    } else {
        match spec_clx_frame(data, offsets, i) {
            Err(e) => Err(e),
            Ok(f) => clx_frames(data, offsets, i + 1, n, acc.push(f)),
        }
    }
}

/// The frames of a CLX file, or why it is refused.
pub open spec fn spec_clx_sprite(data: Seq<u8>) -> Result<Seq<(u16, u16, Seq<Option<u8>>)>, ClxError> {
    match spec_clx_header(data) {
        Err(e) => Err(e),
        Ok((n, offsets)) => if data.len() < offsets[n as int] {
            Err(ClxError::FileSizeMismatch(offsets[n as int], data.len() as usize))
        } else {
            clx_frames(data, offsets, 0, n as int, Seq::empty())
        },
    }
}

/// Frames `i .. n` that `clx_frames` accepts follow `acc`, one per offset-table
/// entry, each as `spec_clx_frame` reads it.
proof fn lemma_clx_frames_ok(
    data: Seq<u8>,
    offsets: Seq<u32>,
    i: int,
    n: int,
    acc: Seq<(u16, u16, Seq<Option<u8>>)>,
)
    requires
        0 <= i <= n,
        clx_frames(data, offsets, i, n, acc) is Ok,
    ensures
        ({
            let fs = clx_frames(data, offsets, i, n, acc)->Ok_0;
            &&& fs.len() == acc.len() + n - i
            &&& fs.subrange(0, acc.len() as int) == acc
            &&& forall|k: int| i <= k < n ==> spec_clx_frame(data, offsets, k) == Ok::<
                (u16, u16, Seq<Option<u8>>),
                ClxError,
            >(#[trigger] fs[acc.len() + k - i])
        }),
    decreases n - i,
{
    if i < n {
        let f = spec_clx_frame(data, offsets, i)->Ok_0;
        let acc2 = acc.push(f);
        lemma_clx_frames_ok(data, offsets, i + 1, n, acc2);
        let fs = clx_frames(data, offsets, i, n, acc)->Ok_0;
        assert(fs == clx_frames(data, offsets, i + 1, n, acc2)->Ok_0);
        assert(fs.subrange(0, acc2.len() as int) == acc2);
        assert(fs[acc.len() as int] == fs.subrange(0, acc2.len() as int)[acc.len() as int]);
        assert(fs.subrange(0, acc.len() as int) =~= acc) by {
            assert forall|j: int| 0 <= j < acc.len() implies fs.subrange(0, acc.len() as int)[j] == acc[j] by {
                assert(fs.subrange(0, acc2.len() as int)[j] == acc2[j]);
            }
        }
        assert forall|k: int| i <= k < n implies spec_clx_frame(data, offsets, k) == Ok::<
            (u16, u16, Seq<Option<u8>>),
            ClxError,
        >(#[trigger] fs[acc.len() + k - i]) by {
            if k > i {
                assert(acc2.len() + k - (i + 1) == acc.len() + k - i);
            }
        }
    } else {
        assert(acc.subrange(0, acc.len() as int) =~= acc);
    }
}

/// A CLX file is parsed frame by frame: it is refused when it is shorter than the
/// last offset of its table; when it is accepted, it has one frame per table
/// entry, frame `k` is the one at offset `k` (`spec_clx_frame`), and its width and
/// height are the 16-bit words 2 and 4 bytes into that frame.
pub proof fn lemma_clx_sprite_frames(data: Seq<u8>)
    ensures
        spec_clx_header(data) is Err ==> spec_clx_sprite(data) is Err,
        spec_clx_header(data) matches Ok((n, offsets)) ==> {
            &&& data.len() < offsets[n as int] ==> spec_clx_sprite(data) is Err
            &&& spec_clx_sprite(data) matches Ok(fs) ==> {
                &&& fs.len() == n
                &&& forall|k: int|
                    0 <= k < n ==> {
                        &&& spec_clx_frame(data, offsets, k) == Ok::<(u16, u16, Seq<Option<u8>>), ClxError>(
                            #[trigger] fs[k],
                        )
                        &&& fs[k].0 == spec_le_u16(data, offsets[k] + 2)
                        &&& fs[k].1 == spec_le_u16(data, offsets[k] + 4)
                    }
            }
        },
{
    if let Ok((n, offsets)) = spec_clx_header(data) {
        if data.len() >= offsets[n as int] && spec_clx_sprite(data) is Ok {
            lemma_clx_frames_ok(data, offsets, 0, n as int, Seq::empty());
            let fs = spec_clx_sprite(data)->Ok_0;
            assert forall|k: int| 0 <= k < n implies {
                &&& spec_clx_frame(data, offsets, k) == Ok::<(u16, u16, Seq<Option<u8>>), ClxError>(
                    #[trigger] fs[k],
                )
                &&& fs[k].0 == spec_le_u16(data, offsets[k] + 2)
                &&& fs[k].1 == spec_le_u16(data, offsets[k] + 4)
            } by {
                assert(fs[0 + k - 0] == fs[k]);
            }
        }
    }
}

impl ClxSprite {
    /// Parse a CLX file: header, then each frame's header and RLE pixels.
    pub fn from_bytes(data: &[u8]) -> (r: Result<ClxSprite, ClxError>)
        ensures
            match spec_clx_sprite(data@) {
                Err(e) => r == Err::<ClxSprite, ClxError>(e),
                Ok(frames) => (r matches Ok(s) && s@ == frames),
            },
            r matches Ok(s) ==> forall|k: int|
                0 <= k < s.frames@.len() ==> #[trigger] s.frames@[k].pixels@.len() == s.frames@[k].width
                    * s.frames@[k].height,
    {
        let header = match ClxHeader::from_bytes(data) {
            Ok(h) => h,
            Err(e) => return Err(e),
        };
        let ghost offsets = header.frame_offsets@;
        if data.len() < header.file_size as usize {
            return Err(ClxError::FileSizeMismatch(header.file_size, data.len()));
        }
        let len = data.len();
        let mut frames: Vec<ClxFrame> = Vec::new();
        let mut frame_idx: u32 = 0;
        assert(frames@.map_values(|f: ClxFrame| f@) =~= Seq::empty());
        while frame_idx < header.num_frames
            invariant
                len == data@.len(),
                header.frame_offsets@ == offsets,
                offsets.len() == header.num_frames + 1,
                frame_idx <= header.num_frames,
                spec_clx_sprite(data@) == clx_frames(
                    data@,
                    offsets,
                    frame_idx as int,
                    header.num_frames as int,
                    frames@.map_values(|f: ClxFrame| f@),
                ),
                forall|k: int|
                    0 <= k < frames@.len() ==> #[trigger] frames@[k].pixels@.len() == frames@[k].width
                        * frames@[k].height,
            decreases header.num_frames - frame_idx,
        {
            let start = header.frame_offsets[frame_idx as usize] as usize;
            let end = header.frame_offsets[frame_idx as usize + 1] as usize;
            if start >= len {
                return Err(ClxError::FrameOffsetOutOfBounds(frame_idx, start as u32));
            }
            if end > len {
                return Err(ClxError::NextOffsetOutOfBounds(frame_idx, end as u32));
            }
            let frame_header = match ClxFrameHeader::from_bytes(data, start) {
                Ok(h) => h,
                Err(e) => return Err(e),
            };
            let header_size = frame_header.header_size as usize;
            if end <= start || header_size >= end - start {
                return Err(ClxError::PixelDataOffsetInvalid(frame_idx, start, frame_header.header_size, end));
            }
            let pixels_start = start + header_size;
            let pixel_data = vstd::slice::slice_subrange(data, pixels_start, end);
            let pixels = match Self::decode_cl2_rle(pixel_data, frame_header.width, frame_header.height) {
                Ok(p) => p,
                Err(e) => return Err(e),
            };
            let ghost before = frames@;
            let frame = ClxFrame { width: frame_header.width, height: frame_header.height, pixels };
            frames.push(frame);
            assert(frames@.map_values(|f: ClxFrame| f@) =~= before.map_values(|f: ClxFrame| f@).push(frame@));
            frame_idx += 1;
        }
        Ok(ClxSprite { frames })
    }

    /// The number of frames.
    pub fn num_frames(&self) -> (n: usize)
        ensures
            n == self.frames@.len(),
    {
        self.frames.len()
    }

    /// The frame at `index`, if there is one.
    pub fn get_frame(&self, index: usize) -> (r: Option<&ClxFrame>)
        ensures
            index < self.frames@.len() ==> r == Some(&self.frames@[index as int]),
            index >= self.frames@.len() ==> r is None,
    {
        if index < self.frames.len() {
            Some(&self.frames[index])
        } else {
            None
        }
    }

    /// The frame at `index` as RGBA (see `ClxFrame::to_rgba`).
    pub fn frame_to_rgba(&self, frame_index: usize, palette: &Palette) -> (r: Result<Vec<u8>, ClxError>)
        ensures
            frame_index >= self.frames@.len() ==> r == Err::<Vec<u8>, ClxError>(
                ClxError::FrameIndexOutOfBounds(frame_index),
            ),
            frame_index < self.frames@.len() ==> (r matches Ok(rgba) && {
                let f = self.frames@[frame_index as int];
                &&& rgba@.len() == f.width * f.height * 4
                &&& forall|k: int, c: int|
                    0 <= k < f.width * f.height && 0 <= c < 4 ==> #[trigger] rgba@[4 * k + c]
                        == clx_channel(
                        f.pixels@,
                        palette.colors@,
                        flipped_source(f.width as int, f.height as int, k),
                        c,
                    )
            }),
    {
        match self.get_frame(frame_index) {
            Some(frame) => Ok(frame.to_rgba(palette)),
            None => Err(ClxError::FrameIndexOutOfBounds(frame_index)),
        }
    }

    /// Decode CL2 RLE data into the `width * height` pixels of a frame, line by line.
    pub fn decode_cl2_rle(data: &[u8], width: u16, height: u16) -> (r: Result<Vec<Option<u8>>, ClxError>)
        ensures
            match spec_decode_clx(data@, width, height) {
                Ok(p) => (r matches Ok(v) && v@ == p),
                Err(e) => r == Err::<Vec<Option<u8>>, ClxError>(e),
            },
            r matches Ok(v) ==> v@.len() == width * height,
    {
        assert(width as int * height as int <= 0xffff * 0xffff) by (nonlinear_arith)
            requires width <= 0xffff, height <= 0xffff;
        let n = width as usize * height as usize;
        let mut pixels: Vec<Option<u8>> = Vec::new();
        while pixels.len() < n
            invariant
                pixels@.len() <= n,
                forall|i: int| 0 <= i < pixels@.len() ==> #[trigger] pixels@[i] == None::<u8>,
            decreases n - pixels@.len(),
        {
            pixels.push(None);
        }
        assert(pixels@ =~= blank_frame(width * height));
        let ghost start = pixels@;
        let w = width as usize;
        let mut pixel_idx: usize = 0;
        let mut data_idx: usize = 0;
        let mut row: u16 = 0;
        while row < height
            invariant
                n == width * height,
                w == width,
                start == blank_frame(width * height),
                pixels@.len() == n,
                pixel_idx <= n,
                n <= 0xffff * 0xffff,
                data_idx <= data@.len(),
                row <= height,
                clx_lines(data@, 0, 0, 0, height as int, width as int, start) == clx_lines(
                    data@,
                    data_idx as int,
                    pixel_idx as int,
                    row as int,
                    height as int,
                    width as int,
                    pixels@,
                ),
            decreases height - row,
        {
            let ghost d0 = data_idx as int;
            let ghost p0 = pixel_idx as int;
            let ghost out0 = pixels@;
            let mut x: usize = 0;
            while x < w
                invariant
                    n == width * height,
                    w == width,
                    start == blank_frame(width * height),
                    pixels@.len() == n,
                    pixel_idx <= n,
                    n <= 0xffff * 0xffff,
                    data_idx <= data@.len(),
                    row < height,
                    clx_lines(data@, 0, 0, 0, height as int, width as int, start) == clx_lines(
                        data@,
                        d0,
                        p0,
                        row as int,
                        height as int,
                        width as int,
                        out0,
                    ),
                    clx_line(data@, d0, p0, 0, width as int, out0) == clx_line(
                        data@,
                        data_idx as int,
                        pixel_idx as int,
                        x as int,
                        width as int,
                        pixels@,
                    ),
                decreases data@.len() - data_idx,
            {
                if data_idx >= data.len() {
                    proof {
                        lemma_line_error(data@, d0, p0, row as int, height as int, width as int, out0);
                    }
                    return Err(ClxError::RleOverflow);
                }
                let control = data[data_idx];
                let ghost dc = data_idx as int;
                assert(clx_line(data@, d0, p0, 0, width as int, out0) == clx_line(
                    data@, dc, pixel_idx as int, x as int, width as int, pixels@));
                data_idx += 1;
                if control < 0x80 {
                    let count = control as usize;
                    if pixel_idx + count > n {
                        proof {
                            lemma_line_error(data@, d0, p0, row as int, height as int, width as int, out0);
                        }
                        return Err(ClxError::TransparentRunOverflow);
                    }
                    pixel_idx += count;
                    x += count;
                } else if control <= 0xBF {
                    let count = (0xBF - control) as usize;
                    if data_idx >= data.len() {
                        proof {
                            lemma_line_error(data@, d0, p0, row as int, height as int, width as int, out0);
                        }
                        return Err(ClxError::FillMissingColor);
                    }
                    let color = data[data_idx];
                    data_idx += 1;
                    if pixel_idx + count > n {
                        proof {
                            lemma_line_error(data@, d0, p0, row as int, height as int, width as int, out0);
                        }
                        return Err(ClxError::FillOverflow);
                    }
                    if x + count > w {
                        proof {
                            lemma_line_error(data@, d0, p0, row as int, height as int, width as int, out0);
                        }
                        return Err(ClxError::FillExceedsLine);
                    }
                    let ghost before = pixels@;
                    let ghost p1 = pixel_idx as int;
                    let mut k: usize = 0;
                    while k < count
                        invariant
                            k <= count,
                            p1 + count <= n,
                            pixel_idx == p1 + k,
                            pixels@ == fill_range(before, p1, k as int, color),
                            before.len() == n,
                        decreases count - k,
                    {
                        pixels.set(pixel_idx, Some(color));
                        pixel_idx += 1;
                        k += 1;
                        assert(pixels@ =~= fill_range(before, p1, k as int, color));
                    }
                    x += count;
                } else {
                    let count = (control - 0xBF) as usize;
                    if data_idx > data.len() || data.len() - data_idx < count {
                        proof {
                            lemma_line_error(data@, d0, p0, row as int, height as int, width as int, out0);
                        }
                        return Err(ClxError::PixelDataOverflow);
                    }
                    if pixel_idx + count > n {
                        proof {
                            lemma_line_error(data@, d0, p0, row as int, height as int, width as int, out0);
                        }
                        return Err(ClxError::PixelsOverflow);
                    }
                    if x + count > w {
                        proof {
                            lemma_line_error(data@, d0, p0, row as int, height as int, width as int, out0);
                        }
                        return Err(ClxError::PixelsExceedLine);
                    }
                    let ghost before = pixels@;
                    let ghost p1 = pixel_idx as int;
                    let ghost from = data_idx as int;
                    let mut k: usize = 0;
                    while k < count
                        invariant
                            k <= count,
                            p1 + count <= n,
                            from + count <= data@.len(),
                            pixel_idx == p1 + k,
                            data_idx == from + k,
                            pixels@ == copy_range(before, p1, k as int, data@, from),
                            before.len() == n,
                        decreases count - k,
                    {
                        pixels.set(pixel_idx, Some(data[data_idx]));
                        pixel_idx += 1;
                        data_idx += 1;
                        k += 1;
                        assert(pixels@ =~= copy_range(before, p1, k as int, data@, from));
                    }
                    x += count;
                }
            }
            row += 1;
        }
        if pixel_idx != n {
            return Err(ClxError::SizeMismatch(n, pixel_idx));
        }
        Ok(pixels)
    }
}

} // verus!
