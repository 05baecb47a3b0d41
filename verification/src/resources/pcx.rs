use vstd::prelude::*;
use crate::resources::bytes::{read_le_u16, spec_le_u16};
use crate::resources::palette::{Palette, spec_palette_colors};

verus! {

/// Why a PCX image was refused.
#[derive(Debug, Clone, Copy, PartialEq, Eq, Structural)]
pub enum PcxError {
    /// Fewer than 128 bytes: no room for the header.
    TooSmall(usize),
    /// The first byte is not 0x0A.
    InvalidManufacturer(u8),
    /// Only 8 bits per pixel are supported.
    UnsupportedBitsPerPixel(u8),
    /// Width or height is 0.
    InvalidDimensions(u16, u16),
    /// Nothing between the header and the palette.
    NoPixelData,
    /// The pixel data ended inside a row.
    RleOverflow,
    /// A run marker is the last byte.
    MissingRunValue,
    /// A run goes past the end of its row.
    RunExceedsWidth,
    /// The decoded pixel count is not width times height.
    SizeMismatch,
}

/// The 128-byte PCX header.
#[derive(Debug, Clone)]
pub struct PcxHeader {
    pub manufacturer: u8,
    pub version: u8,
    pub encoding: u8,
    pub bits_per_pixel: u8,
    pub xmin: u16,
    pub ymin: u16,
    pub xmax: u16,
    pub ymax: u16,
    pub hdpi: u16,
    pub vdpi: u16,
    pub colormap: [u8; 48],
    pub reserved: u8,
    pub n_planes: u8,
    pub bytes_per_line: u16,
    pub palette_info: u16,
    pub hscreen_size: u16,
    pub vscreen_size: u16,
    pub filler: [u8; 54],
}

/// The header fields read from the first 128 bytes.
pub open spec fn header_matches(h: PcxHeader, data: Seq<u8>) -> bool {
    &&& h.manufacturer == data[0]
    &&& h.version == data[1]
    &&& h.encoding == data[2]
    &&& h.bits_per_pixel == data[3]
    &&& h.xmin == spec_le_u16(data, 4)
    &&& h.ymin == spec_le_u16(data, 6)
    &&& h.xmax == spec_le_u16(data, 8)
    &&& h.ymax == spec_le_u16(data, 10)
    &&& h.hdpi == spec_le_u16(data, 12)
    &&& h.vdpi == spec_le_u16(data, 14)
    &&& h.colormap@ == data.subrange(16, 64)
    &&& h.reserved == data[64]
    &&& h.n_planes == data[65]
    &&& h.bytes_per_line == spec_le_u16(data, 66)
    &&& h.palette_info == spec_le_u16(data, 68)
    &&& h.hscreen_size == spec_le_u16(data, 70)
    &&& h.vscreen_size == spec_le_u16(data, 72)
    &&& h.filler@ == data.subrange(74, 128)
}

/// `max - min + 1` modulo 2^16, as the header computes image sizes.
pub open spec fn spec_extent(min: u16, max: u16) -> u16 {
    ((max - min + 1 + 65536) % 65536) as u16
}

impl PcxHeader {
    /// Read the header from the first 128 bytes.
    pub fn from_bytes(data: &[u8]) -> (r: Result<PcxHeader, PcxError>)
        ensures
            data@.len() < 128 <==> r is Err,
            r matches Err(e) ==> e == PcxError::TooSmall(data@.len() as usize),
            r matches Ok(h) ==> header_matches(h, data@),
    {
        if data.len() < 128 {
            return Err(PcxError::TooSmall(data.len()));
        }
        let mut colormap = [0u8; 48];
        let mut i: usize = 0;
        while i < 48
            invariant
                data@.len() >= 128,
                i <= 48,
                forall|k: int| 0 <= k < i ==> #[trigger] colormap@[k] == data@[16 + k],
            decreases 48 - i,
        {
            colormap[i] = data[16 + i];
            i += 1;
        }
        assert(colormap@ =~= data@.subrange(16, 64));
        let mut filler = [0u8; 54];
        let mut j: usize = 0;
        while j < 54
            invariant
                data@.len() >= 128,
                j <= 54,
                forall|k: int| 0 <= k < j ==> #[trigger] filler@[k] == data@[74 + k],
            decreases 54 - j,
        {
            filler[j] = data[74 + j];
            j += 1;
        }
        assert(filler@ =~= data@.subrange(74, 128));
        Ok(PcxHeader {
            manufacturer: data[0],
            version: data[1],
            encoding: data[2],
            bits_per_pixel: data[3],
            xmin: read_le_u16(data, 4),
            ymin: read_le_u16(data, 6),
            xmax: read_le_u16(data, 8),
            ymax: read_le_u16(data, 10),
            hdpi: read_le_u16(data, 12),
            vdpi: read_le_u16(data, 14),
            colormap,
            reserved: data[64],
            n_planes: data[65],
            bytes_per_line: read_le_u16(data, 66),
            palette_info: read_le_u16(data, 68),
            hscreen_size: read_le_u16(data, 70),
            vscreen_size: read_le_u16(data, 72),
            filler,
        })
    }

    /// Image width: `xmax - xmin + 1`, wrapping at 2^16.
    pub fn width(&self) -> (w: u16)
        ensures
            w == spec_extent(self.xmin, self.xmax),
    {
        self.xmax.wrapping_sub(self.xmin).wrapping_add(1)
    }

    /// Image height: `ymax - ymin + 1`, wrapping at 2^16.
    pub fn height(&self) -> (h: u16)
        ensures
            h == spec_extent(self.ymin, self.ymax),
    {
        self.ymax.wrapping_sub(self.ymin).wrapping_add(1)
    }
}

/// A decoded 8-bit PCX image and its palette, when the file carries one.
#[derive(Debug, Clone)]
pub struct PcxImage {
    pub width: u16,
    pub height: u16,
    pub pixels: Vec<u8>,
    pub palette: Option<Palette>,
}

/// Decode the rest of a row from `idx`, at column `x`, appending to `acc`: a byte up
/// to 0xBF is one pixel; a byte from 0xC0 repeats the next byte `byte - 0xC0` times.
/// Gives the index after the row and the pixels so far.
pub open spec fn pcx_row(data: Seq<u8>, idx: int, x: int, width: int, acc: Seq<u8>) -> Result<(int, Seq<u8>), PcxError>
    decreases data.len() - idx,
{
    if x >= width {
        Ok((idx, acc))
    } else if idx < 0 || idx >= data.len() {
        Err(PcxError::RleOverflow)
    } else {
        let b = data[idx];
        if b <= 0xBF {
            pcx_row(data, idx + 1, x + 1, width, acc.push(b))
        } else {
            let run = b - 0xC0;
            if idx + 1 >= data.len() {
                Err(PcxError::MissingRunValue)
            } else if x + run > width {
                Err(PcxError::RunExceedsWidth)
            } else {
                pcx_row(data, idx + 2, x + run, width, acc + Seq::new(run as nat, |k: int| data[idx + 1]))
            }
        }
    }
}

/// Decode rows `row` to `height - 1`; each row of odd width is followed by a pad byte
/// (skipped when there is one).
pub open spec fn pcx_rows(data: Seq<u8>, idx: int, row: int, height: int, width: int, acc: Seq<u8>) -> Result<Seq<u8>, PcxError>
    decreases height - row,
{
    if row >= height {
        Ok(acc)
    } else {
        match pcx_row(data, idx, 0, width, acc) {
            Err(e) => Err(e),
            Ok((next, pixels)) => {
                let after = if width % 2 != 0 && next < data.len() { next + 1 } else { next };
                pcx_rows(data, after, row + 1, height, width, pixels)
            },
        }
    }
}

/// The pixels of PCX RLE data for an image of the given size.
pub open spec fn spec_decode_pcx(data: Seq<u8>, width: u16, height: u16) -> Result<Seq<u8>, PcxError> {
    match pcx_rows(data, 0, 0, height as int, width as int, Seq::empty()) {
        Err(e) => Err(e),
        Ok(p) => if p.len() == width * height {
            Ok(p)
        } else {
            Err(PcxError::SizeMismatch)
        },
    }
}

/// Whether a file ends in a palette: at least 769 bytes, and 0x0C 769 bytes from the end.
pub open spec fn has_palette(data: Seq<u8>) -> bool {
    data.len() >= 769 && data[data.len() - 769] == 0x0C
}

/// Where the pixel data of a file ends.
pub open spec fn pixel_data_end(data: Seq<u8>) -> int {
    if has_palette(data) { data.len() - 769 } else { data.len() as int }
}

/// The PCX file in `data` parsed, or why it is refused, in the order the checks run.
pub open spec fn spec_pcx(data: Seq<u8>, header: PcxHeader) -> Result<(u16, u16, Seq<u8>), PcxError> {
    let w = spec_extent(header.xmin, header.xmax);
    let h = spec_extent(header.ymin, header.ymax);
    if header.manufacturer != 0x0A {
        Err(PcxError::InvalidManufacturer(header.manufacturer))
    } else if header.bits_per_pixel != 8 {
        Err(PcxError::UnsupportedBitsPerPixel(header.bits_per_pixel))
    } else if w == 0 || h == 0 {
        Err(PcxError::InvalidDimensions(w, h))
    } else if pixel_data_end(data) <= 128 {
        Err(PcxError::NoPixelData)
    } else {
        match spec_decode_pcx(data.subrange(128, pixel_data_end(data)), w, h) {
            Err(e) => Err(e),
            Ok(p) => Ok((w, h, p)),
        }
    }
}

/// A PCX file with header `h` is refused when the manufacturer byte is not 0x0A,
/// the pixels are not 8 bits, the image is empty or no pixel data follows the
/// header; when accepted, the image has the header's size and its pixels are the
/// RLE decoding of the bytes from 128 to the trailing palette (or the end).
pub proof fn lemma_pcx_parts(data: Seq<u8>, h: PcxHeader)
    requires
        data.len() >= 128,
        header_matches(h, data),
    ensures
        h.manufacturer != 0x0A || h.bits_per_pixel != 8 || spec_extent(h.xmin, h.xmax) == 0
            || spec_extent(h.ymin, h.ymax) == 0 || pixel_data_end(data) <= 128 ==> spec_pcx(data, h) is Err,
        spec_pcx(data, h) matches Ok((w, hh, p)) ==> {
            &&& w == spec_extent(h.xmin, h.xmax)
            &&& hh == spec_extent(h.ymin, h.ymax)
            &&& spec_decode_pcx(data.subrange(128, pixel_data_end(data)), w, hh) == Ok::<Seq<u8>, PcxError>(p)
        },
{
}

impl PcxImage {
    /// Parse a PCX file: header, RLE pixels and the optional trailing palette.
    pub fn from_bytes(data: &[u8]) -> (r: Result<PcxImage, PcxError>)
        ensures
            data@.len() < 128 ==> r == Err::<PcxImage, PcxError>(PcxError::TooSmall(data@.len() as usize)),
            data@.len() >= 128 ==> (forall|h: PcxHeader| #[trigger] header_matches(h, data@) ==> match spec_pcx(data@, h) {
                Err(e) => r == Err::<PcxImage, PcxError>(e),
                Ok((w, hh, p)) => (r matches Ok(img) && img.width == w && img.height == hh && img.pixels@ == p
                    && (has_palette(data@) ==> (img.palette matches Some(pal) && pal.colors@
                        == spec_palette_colors(data@.subrange(data@.len() - 768, data@.len() as int))))
                    && (!has_palette(data@) ==> img.palette is None)),
            }),
    {
        if data.len() < 128 {
            return Err(PcxError::TooSmall(data.len()));
        }
        let header = match PcxHeader::from_bytes(vstd::slice::slice_subrange(data, 0, 128)) {
            Ok(h) => h,
            Err(e) => return Err(e),
        };
        proof {
            assert forall|h: PcxHeader| #[trigger] header_matches(h, data@) implies spec_pcx(data@, h) == spec_pcx(data@, header) by {
                assert(header_matches(header, data@.subrange(0, 128)));
                assert(h.colormap@ == header.colormap@);
                assert(h.filler@ == header.filler@);
            }
        }
        if header.manufacturer != 0x0A {
            return Err(PcxError::InvalidManufacturer(header.manufacturer));
        }
        if header.bits_per_pixel != 8 {
            return Err(PcxError::UnsupportedBitsPerPixel(header.bits_per_pixel));
        }
        let width = header.width();
        let height = header.height();
        if width == 0 || height == 0 {
            return Err(PcxError::InvalidDimensions(width, height));
        }
        let pixel_data_start: usize = 128;
        let pixel_data_end: usize = if data.len() >= 769 {
            let palette_start = data.len() - 769;
            if data[palette_start] == 0x0C {
                palette_start
            } else {
                data.len()
            }
        } else {
            data.len()
        };
        if pixel_data_end <= pixel_data_start {
            return Err(PcxError::NoPixelData);
        }
        let pixel_data = vstd::slice::slice_subrange(data, pixel_data_start, pixel_data_end);
        let pixels = match Self::decode_rle(pixel_data, width, height) {
            Ok(p) => p,
            Err(e) => return Err(e),
        };
        let palette = if data.len() >= 769 && data[data.len() - 769] == 0x0C {
            let palette_data = vstd::slice::slice_subrange(data, data.len() - 768, data.len());
            match Palette::from_bytes(palette_data) {
                Ok(p) => Some(p),
                Err(_) => None,
            }
        } else {
            None
        };
        Ok(PcxImage { width, height, pixels, palette })
    }

    /// Decode PCX RLE data into `width * height` pixels.
    pub fn decode_rle(data: &[u8], width: u16, height: u16) -> (r: Result<Vec<u8>, PcxError>)
        ensures
            match spec_decode_pcx(data@, width, height) {
                Ok(p) => r matches Ok(v) && v@ == p,
                Err(e) => r == Err::<Vec<u8>, PcxError>(e),
            },
            r matches Ok(v) ==> v@.len() == width * height,
    {
        let mut pixels: Vec<u8> = Vec::new();
        let mut data_idx: usize = 0;
        let mut row: u16 = 0;
        while row < height
            invariant
                row <= height,
                data_idx <= data@.len(),
                pcx_rows(data@, 0, 0, height as int, width as int, Seq::empty()) == pcx_rows(
                    data@,
                    data_idx as int,
                    row as int,
                    height as int,
                    width as int,
                    pixels@,
                ),
            decreases height - row,
        {
            let ghost row_start = data_idx as int;
            let ghost acc0 = pixels@;
            let mut x: u16 = 0;
            while x < width
                invariant
                    x <= width,
                    row < height,
                    data_idx <= data@.len(),
                    row_start <= data@.len(),
                    pcx_rows(data@, 0, 0, height as int, width as int, Seq::empty()) == pcx_rows(
                        data@,
                        row_start,
                        row as int,
                        height as int,
                        width as int,
                        acc0,
                    ),
                    pcx_row(data@, row_start, 0, width as int, acc0) == pcx_row(
                        data@,
                        data_idx as int,
                        x as int,
                        width as int,
                        pixels@,
                    ),
                decreases data@.len() - data_idx,
            {
                if data_idx >= data.len() {
                    return Err(PcxError::RleOverflow);
                }
                let byte = data[data_idx];
                data_idx += 1;
                if byte <= 0xBF {
                    pixels.push(byte);
                    x += 1;
                } else {
                    let run_length = (byte - 0xC0) as usize;
                    if data_idx >= data.len() {
                        return Err(PcxError::MissingRunValue);
                    }
                    let value = data[data_idx];
                    data_idx += 1;
                    if x as usize + run_length > width as usize {
                        return Err(PcxError::RunExceedsWidth);
                    }
                    let ghost before = pixels@;
                    let mut k: usize = 0;
                    while k < run_length
                        invariant
                            k <= run_length,
                            x as int + run_length <= width,
                            pixels@ == before + Seq::new(k as nat, |j: int| value),
                        decreases run_length - k,
                    {
                        pixels.push(value);
                        k += 1;
                        assert(pixels@ =~= before + Seq::new(k as nat, |j: int| value));
                    }
                    x = x + run_length as u16;
                    assert(Seq::new(run_length as nat, |j: int| value) =~= Seq::new(
                        run_length as nat,
                        |j: int| data@[data_idx - 1],
                    ));
                }
            }
            if width % 2 != 0 && data_idx < data.len() {
                data_idx += 1;
            }
            row += 1;
        }
        assert(width as int * height as int <= 0xffff * 0xffff) by (nonlinear_arith)
            requires width <= 0xffff, height <= 0xffff;
        if pixels.len() != width as usize * height as usize {
            return Err(PcxError::SizeMismatch);
        }
        Ok(pixels)
    }

    /// The image as RGBA through a palette; pixels equal to `transparent` get alpha 0.
    pub fn to_rgba(&self, palette: &Palette, transparent: Option<u8>) -> (rgba: Vec<u8>)
        ensures
            rgba@.len() == self.pixels@.len() * 4,
            forall|i: int|
                0 <= i < self.pixels@.len() ==> {
                    let c = palette.colors@[self.pixels@[i] as int];
                    &&& #[trigger] rgba@[4 * i] == c.r
                    &&& rgba@[4 * i + 1] == c.g
                    &&& rgba@[4 * i + 2] == c.b
                    &&& rgba@[4 * i + 3] == (if transparent == Some(self.pixels@[i]) { 0u8 } else { 255u8 })
                },
    {
        let n = self.pixels.len();
        let mut rgba: Vec<u8> = Vec::new();
        let mut i: usize = 0;
        while i < n
            invariant
                n == self.pixels@.len(),
                i <= n,
                rgba@.len() == 4 * i,
                forall|k: int|
                    0 <= k < i ==> {
                        let c = palette.colors@[self.pixels@[k] as int];
                        &&& #[trigger] rgba@[4 * k] == c.r
                        &&& rgba@[4 * k + 1] == c.g
                        &&& rgba@[4 * k + 2] == c.b
                        &&& rgba@[4 * k + 3] == (if transparent == Some(self.pixels@[k]) { 0u8 } else { 255u8 })
                    },
            decreases n - i,
        {
            let pixel_idx = self.pixels[i];
            let color = palette.to_rgb(pixel_idx);
            let alpha: u8 = match transparent {
                Some(t) => if pixel_idx == t { 0 } else { 255 },
                None => 255,
            };
            let ghost before = rgba@;
            rgba.push(color.r);
            rgba.push(color.g);
            rgba.push(color.b);
            rgba.push(alpha);
            assert forall|k: int| 0 <= k < i + 1 implies {
                let c = palette.colors@[self.pixels@[k] as int];
                &&& #[trigger] rgba@[4 * k] == c.r
                &&& rgba@[4 * k + 1] == c.g
                &&& rgba@[4 * k + 2] == c.b
                &&& rgba@[4 * k + 3] == (if transparent == Some(self.pixels@[k]) { 0u8 } else { 255u8 })
            } by {
                if k < i {
                    assert(rgba@[4 * k] == before[4 * k]);
                }
            }
            i += 1;
        }
        rgba
    }
}

} // verus!
