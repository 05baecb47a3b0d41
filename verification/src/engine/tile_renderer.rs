use vstd::prelude::*;
use crate::resources::palette::{Color, Palette};
use vstd::arithmetic::div_mod::lemma_fundamental_div_mod_converse;

verus! {

/// Width of a dungeon tile in pixels.
pub const WIDTH: usize = 32;

/// Rows in the lower half of a triangle.
pub const LOWER_HEIGHT: usize = 16;

/// Rows in the upper half of a triangle.
pub const TRIANGLE_UPPER_HEIGHT: usize = 15;

/// Rows of a triangle tile.
pub const TRIANGLE_HEIGHT: usize = 31;

/// Horizontal step per row of a triangle, in pixels.
pub const X_STEP: usize = 2;

/// Why a triangle could not be drawn.
#[derive(Debug, Clone, Copy, PartialEq, Eq, Structural)]
pub enum TileRenderError {
    /// The buffer needs `.0` bytes for 31 rows at its pitch; it has `.1`.
    BufferTooSmall(usize, usize),
    /// A decoded triangle has `.0` pixels; `.1` were given.
    SizeMismatch(usize, usize),
    /// A row needs `.0` bytes from its start; the buffer has `.1` left there.
    DestinationTooSmall(usize, usize),
}

/// Row `n` of a triangle in drawing order as `(first byte in the buffer, first
/// pixel in the decoded tile, width in pixels)`. The lower half is drawn first,
/// from row 15 (32 wide) up to row 0 (2 wide), then the upper half from row 16 (30
/// wide) to row 30 (2 wide). Both triangles are right-aligned in the buffer; a left
/// triangle's rows start at the left of the decoded tile, a right triangle's are
/// right-aligned there too.
pub open spec fn triangle_span(left: bool, pitch: int, n: int) -> (int, int, int) {
    let row = if n < 16 { 15 - n } else { n };
    let width = if n < 16 { 2 * (row + 1) } else { 30 - 2 * (n - 16) };
    let src = if left { row * 32 } else { row * 32 + 32 - width };
    (row * pitch + (32 - width) * 4, src, width)
}

/// Channel `c` of the RGBA texel for palette index `idx`: all zero for index 0 when
/// drawing with transparency, else the palette color with alpha 255.
pub open spec fn texel(colors: Seq<Color>, idx: u8, transparent: bool, c: int) -> u8 {
    if transparent && idx == 0 {
        0
    } else {
        let col = colors[idx as int];
        if c == 0 {
            col.r
        } else if c == 1 {
            col.g
        } else if c == 2 {
            col.b
        } else {
            255
        }
    }
}

/// `buf` with the `width` pixels of `px` from `src` drawn as RGBA from byte `dst`.
pub open spec fn line_written(
    buf: Seq<u8>,
    dst: int,
    px: Seq<u8>,
    src: int,
    width: int,
    colors: Seq<Color>,
    transparent: bool,
) -> Seq<u8> {
    Seq::new(
        buf.len(),
        |i: int|
            if dst <= i < dst + 4 * width {
                texel(colors, px[src + (i - dst) / 4], transparent, (i - dst) % 4)
            } else {
                buf[i]
            },
    )
}

/// The buffer after drawing rows `n ..` of a triangle, and the error of the first
/// row that does not fit, if one does not.
pub open spec fn draw_rows(
    buf: Seq<u8>,
    left: bool,
    pitch: int,
    n: int,
    px: Seq<u8>,
    colors: Seq<Color>,
    transparent: bool,
) -> (Seq<u8>, Option<TileRenderError>)
    decreases 31 - n,
{
    if n >= 31 {
        (buf, None)
    } else {
        let sp = triangle_span(left, pitch, n);
        if buf.len() - sp.0 < 4 * sp.2 {
            (buf, Some(TileRenderError::DestinationTooSmall((4 * sp.2) as usize, (buf.len() - sp.0) as usize)))
        } else {
            draw_rows(line_written(buf, sp.0, px, sp.1, sp.2, colors, transparent), left, pitch, n + 1, px, colors, transparent)
        }
    }
}

/// Rows `n ..` of a triangle start inside a buffer of `len` bytes, up to the first
/// row that does not fit.
pub open spec fn rows_start_inside(len: int, left: bool, pitch: int, n: int) -> bool
    decreases 31 - n,
{
    if n >= 31 {
        true
    } else {
        let sp = triangle_span(left, pitch, n);
        sp.0 <= len && (len - sp.0 < 4 * sp.2 || rows_start_inside(len, left, pitch, n + 1))
    }
}

/// The buffer after drawing a decoded 32x31 triangle, and the error if it was refused.
pub open spec fn spec_draw_triangle(
    buf: Seq<u8>,
    left: bool,
    pitch: int,
    px: Seq<u8>,
    colors: Seq<Color>,
    transparent: bool,
) -> (Seq<u8>, Option<TileRenderError>) {
    if buf.len() < 31 * pitch {
        (buf, Some(TileRenderError::BufferTooSmall((31 * pitch) as usize, buf.len() as usize)))
    } else if px.len() != 32 * 31 {
        (buf, Some(TileRenderError::SizeMismatch(992usize, px.len() as usize)))
    } else {
        draw_rows(buf, left, pitch, 0, px, colors, transparent)
    }
}

/// Byte `k` of row `r` of a buffer whose rows lie `pitch` bytes apart.
pub open spec fn row_byte(buf: Seq<u8>, pitch: int, r: int, k: int) -> u8 {
    buf[r * pitch + k]
}

/// The pixels that row `r` of a 32x31 triangle covers: 2 more a row up to row 15
/// (32 wide), then 2 fewer a row down to row 30 (2 wide).
pub open spec fn row_pixels(r: int) -> int {
    if r < 16 { 2 * r + 2 } else { 62 - 2 * r }
}

/// The step at which row `r` is drawn.
spec fn draw_step(r: int) -> int {
    if r < 16 { 15 - r } else { r }
}

/// Drawing rows `n ..` of a triangle into a buffer with room for 31 rows of at
/// least 128 bytes never fails; rows drawn before step `n` and the bytes outside
/// each row's span keep their value, and each row drawn from `n` on holds its
/// texels.
proof fn lemma_draw_rows_cells(
    buf: Seq<u8>,
    left: bool,
    pitch: int,
    n: int,
    px: Seq<u8>,
    colors: Seq<Color>,
    transparent: bool,
)
    requires
        0 <= n <= 31,
        pitch >= 128,
        buf.len() >= 31 * pitch,
        px.len() == 992,
    ensures
        ({
            let res = draw_rows(buf, left, pitch, n, px, colors, transparent);
            &&& res.1 is None
            &&& res.0.len() == buf.len()
            &&& forall|r: int, k: int|
                0 <= r < 31 && 0 <= k < 128 && draw_step(r) < n ==> #[trigger] row_byte(res.0, pitch, r, k)
                    == row_byte(buf, pitch, r, k)
            &&& forall|r: int, k: int|
                0 <= r < 31 && ((0 <= k < 4 * (32 - row_pixels(r))) || (128 <= k < pitch)) ==> #[trigger] row_byte(
                    res.0,
                    pitch,
                    r,
                    k,
                ) == row_byte(buf, pitch, r, k)
            &&& forall|i: int| 31 * pitch <= i < buf.len() ==> #[trigger] res.0[i] == buf[i]
            &&& forall|r: int, c: int, ch: int|
                0 <= r < 31 && draw_step(r) >= n && 32 - row_pixels(r) <= c < 32 && 0 <= ch < 4
                    ==> #[trigger] row_byte(res.0, pitch, r, 4 * c + ch) == texel(
                    colors,
                    px[if left { r * 32 + c - (32 - row_pixels(r)) } else { r * 32 + c }],
                    transparent,
                    ch,
                )
        }),
    decreases 31 - n,
{
    if n < 31 {
        let row = if n < 16 { 15 - n } else { n };
        let w = row_pixels(row);
        let sp = triangle_span(left, pitch, n);
        assert(sp.2 == w);
        assert(sp.0 == row * pitch + (32 - w) * 4);
        assert(row * pitch <= 30 * pitch) by (nonlinear_arith)
            requires 0 <= row <= 30, pitch >= 0;
        let lw = line_written(buf, sp.0, px, sp.1, sp.2, colors, transparent);
        lemma_draw_rows_cells(lw, left, pitch, n + 1, px, colors, transparent);
        let res = draw_rows(buf, left, pitch, n, px, colors, transparent);
        assert(res == draw_rows(lw, left, pitch, n + 1, px, colors, transparent));
        // Bytes of other rows are not in this row's span.
        assert forall|r: int, k: int| 0 <= r < 31 && 0 <= k < pitch && r != row implies
            #[trigger] row_byte(lw, pitch, r, k) == row_byte(buf, pitch, r, k) by {
            assert(r * pitch + k < 31 * pitch) by (nonlinear_arith)
                requires 0 <= r < 31, 0 <= k < pitch;
            assert(sp.0 + 4 * sp.2 == row * pitch + 128);
            if r < row {
                assert(r * pitch + k < row * pitch) by (nonlinear_arith)
                    requires r < row, 0 <= k < pitch, pitch >= 0;
            } else {
                assert(r * pitch >= row * pitch + pitch) by (nonlinear_arith)
                    requires r > row, pitch >= 0;
            }
            assert(r * pitch + k < sp.0 || r * pitch + k >= sp.0 + 4 * sp.2);
            assert(lw[r * pitch + k] == buf[r * pitch + k]);
        }
        assert forall|r: int, k: int|
            0 <= r < 31 && 0 <= k < 128 && draw_step(r) < n implies #[trigger] row_byte(res.0, pitch, r, k)
                == row_byte(buf, pitch, r, k) by {
            assert(row_byte(res.0, pitch, r, k) == row_byte(lw, pitch, r, k));
            assert(row_byte(lw, pitch, r, k) == row_byte(buf, pitch, r, k));
        }
        assert forall|r: int, k: int|
            0 <= r < 31 && ((0 <= k < 4 * (32 - row_pixels(r))) || (128 <= k < pitch)) implies #[trigger] row_byte(
                res.0,
                pitch,
                r,
                k,
            ) == row_byte(buf, pitch, r, k) by {
            assert(row_byte(res.0, pitch, r, k) == row_byte(lw, pitch, r, k));
            if r != row {
                assert(row_byte(lw, pitch, r, k) == row_byte(buf, pitch, r, k));
            }
        }
        assert forall|i: int| 31 * pitch <= i < buf.len() implies #[trigger] res.0[i] == buf[i] by {
            assert(res.0[i] == lw[i]);
        }
        assert forall|r: int, c: int, ch: int|
            0 <= r < 31 && draw_step(r) >= n && 32 - row_pixels(r) <= c < 32 && 0 <= ch < 4
                implies #[trigger] row_byte(res.0, pitch, r, 4 * c + ch) == texel(
                colors,
                px[if left { r * 32 + c - (32 - row_pixels(r)) } else { r * 32 + c }],
                transparent,
                ch,
            ) by {
            if draw_step(r) == n {
                assert(r == row);
                assert(row_byte(res.0, pitch, r, 4 * c + ch) == row_byte(lw, pitch, r, 4 * c + ch));
                let i = r * pitch + 4 * c + ch;
                let q = c - (32 - w);
                lemma_fundamental_div_mod_converse(i - sp.0, 4, q, ch);
            }
        }
    }
}

/// Drawing a decoded 32x31 triangle into a buffer with room for 31 rows of at least
/// 128 bytes succeeds. Row `r` then covers its last `row_pixels(r)` columns: the
/// texel at column `c` of it is decoded pixel `r * 32 + c` for a right triangle,
/// whose pixels are right-aligned in the decoded tile too, and pixel
/// `r * 32 + c - (32 - row_pixels(r))` for a left triangle, whose rows start at the
/// left of the decoded tile. The columns before the span, the bytes past 128 in
/// each row and the bytes after the 31 rows keep their value.
pub proof fn lemma_triangle_pixels(
    buf: Seq<u8>,
    left: bool,
    pitch: int,
    px: Seq<u8>,
    colors: Seq<Color>,
    transparent: bool,
)
    requires
        pitch >= 128,
        buf.len() >= 31 * pitch,
        px.len() == 992,
    ensures
        ({
            let res = spec_draw_triangle(buf, left, pitch, px, colors, transparent);
            &&& res.1 is None
            &&& res.0.len() == buf.len()
            &&& forall|r: int, c: int, ch: int|
                0 <= r < 31 && 32 - row_pixels(r) <= c < 32 && 0 <= ch < 4 ==> #[trigger] row_byte(
                    res.0,
                    pitch,
                    r,
                    4 * c + ch,
                ) == texel(
                    colors,
                    px[if left { r * 32 + c - (32 - row_pixels(r)) } else { r * 32 + c }],
                    transparent,
                    ch,
                )
            &&& forall|r: int, k: int|
                0 <= r < 31 && ((0 <= k < 4 * (32 - row_pixels(r))) || (128 <= k < pitch)) ==> #[trigger] row_byte(
                    res.0,
                    pitch,
                    r,
                    k,
                ) == row_byte(buf, pitch, r, k)
            &&& forall|i: int| 31 * pitch <= i < buf.len() ==> #[trigger] res.0[i] == buf[i]
        }),
{
    lemma_draw_rows_cells(buf, left, pitch, 0, px, colors, transparent);
}

/// Draw `width` pixels of `src` from `src_start` as RGBA into `dst` from `dst_start`.
fn render_line_to_rgba(
    dst: &mut [u8],
    dst_start: usize,
    src: &[u8],
    src_start: usize,
    width: usize,
    palette: &Palette,
    transparent: bool,
) -> (r: Result<(), TileRenderError>)
    requires
        dst_start <= old(dst)@.len(),
        src_start + width <= src@.len(),
        width <= 32,
    ensures
        old(dst)@.len() - dst_start < 4 * width ==> r == Err::<(), TileRenderError>(
            TileRenderError::DestinationTooSmall((4 * width) as usize, (old(dst)@.len() - dst_start) as usize),
        ) && final(dst)@ == old(dst)@,
        old(dst)@.len() - dst_start >= 4 * width ==> r is Ok && final(dst)@ == line_written(
            old(dst)@,
            dst_start as int,
            src@,
            src_start as int,
            width as int,
            palette.colors@,
            transparent,
        ),
{
    let len = dst.len();
    if len - dst_start < width * 4 {
        return Err(TileRenderError::DestinationTooSmall(width * 4, len - dst_start));
    }
    let ghost before = dst@;
    let src_len = src.len();
    let mut t: usize = 0;
    while t < width
        invariant
            t <= width,
            width <= 32,
            len == dst@.len(),
            len == before.len(),
            dst_start + 4 * width <= len,
            src_start + width <= src_len,
            src_len == src@.len(),
            forall|i: int|
                0 <= i < len ==> #[trigger] dst@[i] == (if dst_start <= i < dst_start + 4 * t {
                    texel(palette.colors@, src@[src_start + (i - dst_start) / 4], transparent, (i - dst_start) % 4)
                } else {
                    before[i]
                }),
        decreases width - t,
    {
        let idx = src[src_start + t];
        let (r, g, b, a): (u8, u8, u8, u8) = if transparent && idx == 0 {
            (0, 0, 0, 0)
        } else {
            let color = palette.to_rgb(idx);
            (color.r, color.g, color.b, 255)
        };
        let at = dst_start + 4 * t;
        dst[at] = r;
        dst[at + 1] = g;
        dst[at + 2] = b;
        dst[at + 3] = a;
        t += 1;
    }
    assert(dst@ =~= line_written(before, dst_start as int, src@, src_start as int, width as int, palette.colors@, transparent));
    Ok(())
}

/// Draw the rows of a decoded triangle in order (see `draw_rows`).
fn draw_triangle_rows(
    dst: &mut [u8],
    pitch: usize,
    px: &[u8],
    palette: &Palette,
    transparent: bool,
    left: bool,
) -> (r: Result<(), TileRenderError>)
    requires
        31 * pitch + 128 <= usize::MAX,
        px@.len() == 32 * 31,
        rows_start_inside(old(dst)@.len() as int, left, pitch as int, 0),
    ensures
        final(dst)@ == draw_rows(old(dst)@, left, pitch as int, 0, px@, palette.colors@, transparent).0,
        r == match draw_rows(old(dst)@, left, pitch as int, 0, px@, palette.colors@, transparent).1 {
            None => Ok::<(), TileRenderError>(()),
            Some(e) => Err::<(), TileRenderError>(e),
        },
{
    let ghost result = draw_rows(dst@, left, pitch as int, 0, px@, palette.colors@, transparent);
    let len = dst.len();
    let mut n: usize = 0;
    while n < TRIANGLE_HEIGHT
        invariant
            31 * pitch + 128 <= usize::MAX,
            px@.len() == 32 * 31,
            n <= 31,
            len == dst@.len(),
            rows_start_inside(len as int, left, pitch as int, n as int),
            result == draw_rows(dst@, left, pitch as int, n as int, px@, palette.colors@, transparent),
            result == draw_rows(old(dst)@, left, pitch as int, 0, px@, palette.colors@, transparent),
        decreases 31 - n,
    {
        let (row, width): (usize, usize) = if n < LOWER_HEIGHT {
            (15 - n, 2 * (16 - n))
        } else {
            (n, 30 - 2 * (n - 16))
        };
        assert(row * pitch <= 30 * pitch) by (nonlinear_arith)
            requires row <= 30;
        let dst_start = row * pitch + (32 - width) * 4;
        let src_start = if left { row * WIDTH } else { row * WIDTH + 32 - width };
        assert(triangle_span(left, pitch as int, n as int) == (dst_start as int, src_start as int, width as int));
        match render_line_to_rgba(dst, dst_start, px, src_start, width, palette, transparent) {
            Ok(()) => {},
            Err(e) => return Err(e),
        }
        n += 1;
    }
    Ok(())
}

/// Draw a decoded 32x31 left triangle tile into an RGBA buffer of rows `dst_pitch`
/// bytes apart (see `spec_draw_triangle`): each row right-aligned in the buffer,
/// the lower half from its widest row up, then the upper half.
pub fn render_left_triangle_full(
    dst_buffer: &mut [u8],
    dst_pitch: usize,
    indexed_pixels: &[u8],
    palette: &Palette,
    transparent: bool,
) -> (r: Result<(), TileRenderError>)
    requires
        31 * dst_pitch + 128 <= usize::MAX,
        old(dst_buffer)@.len() >= 31 * dst_pitch ==> rows_start_inside(
            old(dst_buffer)@.len() as int,
            true,
            dst_pitch as int,
            0,
        ),
    ensures
        final(dst_buffer)@ == spec_draw_triangle(
            old(dst_buffer)@,
            true,
            dst_pitch as int,
            indexed_pixels@,
            palette.colors@,
            transparent,
        ).0,
        r == match spec_draw_triangle(
            old(dst_buffer)@,
            true,
            dst_pitch as int,
            indexed_pixels@,
            palette.colors@,
            transparent,
        ).1 {
            None => Ok::<(), TileRenderError>(()),
            Some(e) => Err::<(), TileRenderError>(e),
        },
{
    let required_size = TRIANGLE_HEIGHT * dst_pitch;
    if dst_buffer.len() < required_size {
        return Err(TileRenderError::BufferTooSmall(required_size, dst_buffer.len()));
    }
    if indexed_pixels.len() != WIDTH * TRIANGLE_HEIGHT {
        return Err(TileRenderError::SizeMismatch(WIDTH * TRIANGLE_HEIGHT, indexed_pixels.len()));
    }
    draw_triangle_rows(dst_buffer, dst_pitch, indexed_pixels, palette, transparent, true)
}

/// Draw a decoded 32x31 right triangle tile into an RGBA buffer of rows `dst_pitch`
/// bytes apart (see `spec_draw_triangle`): right-aligned, the lower half from its
/// widest row up, then the upper half.
pub fn render_right_triangle_full(
    dst_buffer: &mut [u8],
    dst_pitch: usize,
    indexed_pixels: &[u8],
    palette: &Palette,
    transparent: bool,
) -> (r: Result<(), TileRenderError>)
    requires
        31 * dst_pitch + 128 <= usize::MAX,
        old(dst_buffer)@.len() >= 31 * dst_pitch ==> rows_start_inside(
            old(dst_buffer)@.len() as int,
            false,
            dst_pitch as int,
            0,
        ),
    ensures
        final(dst_buffer)@ == spec_draw_triangle(
            old(dst_buffer)@,
            false,
            dst_pitch as int,
            indexed_pixels@,
            palette.colors@,
            transparent,
        ).0,
        r == match spec_draw_triangle(
            old(dst_buffer)@,
            false,
            dst_pitch as int,
            indexed_pixels@,
            palette.colors@,
            transparent,
        ).1 {
            None => Ok::<(), TileRenderError>(()),
            Some(e) => Err::<(), TileRenderError>(e),
        },
{
    let required_size = TRIANGLE_HEIGHT * dst_pitch;
    if dst_buffer.len() < required_size {
        return Err(TileRenderError::BufferTooSmall(required_size, dst_buffer.len()));
    }
    if indexed_pixels.len() != WIDTH * TRIANGLE_HEIGHT {
        return Err(TileRenderError::SizeMismatch(WIDTH * TRIANGLE_HEIGHT, indexed_pixels.len()));
    }
    draw_triangle_rows(dst_buffer, dst_pitch, indexed_pixels, palette, transparent, false)
}

} // verus!
