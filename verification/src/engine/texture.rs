use vstd::prelude::*;
use crate::resources::clx::{ClxFrame, clx_channel};
use crate::resources::palette::Palette;
use vstd::arithmetic::div_mod::{lemma_fundamental_div_mod, lemma_fundamental_div_mod_converse};

verus! {

/// The RGBA texels (4 bytes each, `width * height` of them) that a frame is
/// uploaded to a texture with: lines in the order the frame stores them, an
/// opaque palette color where a pixel is set, and all four bytes 0 where it is
/// transparent or the frame holds fewer pixels than its size.
pub fn clx_frame_rgba(frame: &ClxFrame, palette: &Palette) -> (rgba: Vec<u8>)
    ensures
        rgba@.len() == frame.width * frame.height * 4,
        forall|k: int, c: int|
            0 <= k < frame.width * frame.height && 0 <= c < 4 ==> #[trigger] rgba@[4 * k + c]
                == clx_channel(frame.pixels@, palette.colors@, k, c),
{
    assert(frame.width * frame.height <= 0xffff_ffff) by (nonlinear_arith)
        requires
            frame.width <= 0xffff,
            frame.height <= 0xffff;
    let n = frame.width as usize * frame.height as usize;
    let mut rgba: Vec<u8> = Vec::new();
    let mut k: usize = 0;
    while k < n
        invariant
            n == frame.width * frame.height,
            k <= n,
            rgba@.len() == 4 * k,
            forall|j: int, c: int|
                0 <= j < k && 0 <= c < 4 ==> #[trigger] rgba@[4 * j + c] == clx_channel(
                    frame.pixels@,
                    palette.colors@,
                    j,
                    c,
                ),
        decreases n - k,
    {
        let mut texel: [u8; 4] = [0, 0, 0, 0];
        if k < frame.pixels.len() {
            if let Some(index) = frame.pixels[k] {
                let color = palette.to_rgb(index);
                texel = [color.r, color.g, color.b, 255];
            }
        }
        let ghost before = rgba@;
        rgba.push(texel[0]);
        rgba.push(texel[1]);
        rgba.push(texel[2]);
        rgba.push(texel[3]);
        assert forall|j: int, c: int| 0 <= j < k + 1 && 0 <= c < 4 implies #[trigger] rgba@[4 * j + c]
            == clx_channel(frame.pixels@, palette.colors@, j, c) by {
            if j < k {
                assert(rgba@[4 * j + c] == before[4 * j + c]);
            }
        }
        k += 1;
    }
    rgba
}

/// Byte `i` of a texture buffer whose rows lie `pitch` bytes apart, once the
/// rows before `rows` of `width` RGBA texels packed in `rgba`, and the first
/// `bytes` bytes of row `rows`, were copied in; other bytes stay as in `before`.
pub open spec fn rows_copied(
    before: Seq<u8>,
    pitch: int,
    rgba: Seq<u8>,
    width: int,
    rows: int,
    bytes: int,
    i: int,
) -> u8 {
    let row = i / pitch;
    let offset = i % pitch;
    if pitch > 0 && offset < 4 * width && (row < rows || (row == rows && offset < bytes)) {
        rgba[row * (4 * width) + offset]
    } else {
        before[i]
    }
}

/// Copy `height` rows of `width` RGBA texels, packed in `rgba`, into a locked
/// texture buffer whose rows lie `pitch` bytes apart; the padding after each
/// row is left as it was.
pub fn copy_rgba_rows(buffer: &mut [u8], pitch: usize, rgba: &[u8], width: usize, height: usize)
    requires
        4 * width <= pitch,
        4 * width * height <= rgba@.len(),
        height == 0 || (height - 1) * pitch + 4 * width <= old(buffer)@.len(),
    ensures
        final(buffer)@.len() == old(buffer)@.len(),
        forall|i: int|
            0 <= i < old(buffer)@.len() ==> #[trigger] final(buffer)@[i] == rows_copied(
                old(buffer)@,
                pitch as int,
                rgba@,
                width as int,
                height as int,
                0,
                i,
            ),
{
    let ghost before = buffer@;
    let len = buffer.len();
    let rgba_len = rgba.len();
    let row_size = 4 * width;
    let mut y: usize = 0;
    while y < height
        invariant
            row_size == 4 * width,
            row_size <= pitch,
            4 * width * height <= rgba@.len(),
            rgba_len == rgba@.len(),
            height == 0 || (height - 1) * pitch + 4 * width <= len,
            y <= height,
            len == buffer@.len(),
            len == before.len(),
            forall|i: int|
                0 <= i < len ==> #[trigger] buffer@[i] == rows_copied(
                    before,
                    pitch as int,
                    rgba@,
                    width as int,
                    y as int,
                    0,
                    i,
                ),
        decreases height - y,
    {
        assert(y * pitch + row_size <= len && (y + 1) * row_size <= rgba@.len()) by (nonlinear_arith)
            requires
                y < height,
                (height - 1) * pitch + 4 * width <= len,
                4 * width * height <= rgba@.len(),
                row_size == 4 * width;
        assert(y * row_size + row_size <= rgba@.len()) by (nonlinear_arith)
            requires
                (y + 1) * row_size <= rgba@.len();
        let dst = y * pitch;
        let src = y * row_size;
        let mut t: usize = 0;
        while t < row_size
            invariant
                row_size == 4 * width,
                row_size <= pitch,
                dst == y * pitch,
                src == y * row_size,
                dst + row_size <= len,
                src + row_size <= rgba@.len(),
                rgba_len == rgba@.len(),
                t <= row_size,
                len == buffer@.len(),
                forall|i: int|
                    0 <= i < len ==> #[trigger] buffer@[i] == rows_copied(
                        before,
                        pitch as int,
                        rgba@,
                        width as int,
                        y as int,
                        t as int,
                        i,
                    ),
            decreases row_size - t,
        {
            let k = dst + t;
            proof {
                lemma_fundamental_div_mod_converse(k as int, pitch as int, y as int, t as int);
            }
            let ghost prev = buffer@;
            buffer[k] = rgba[src + t];
            assert forall|i: int| 0 <= i < len implies #[trigger] buffer@[i] == rows_copied(
                before,
                pitch as int,
                rgba@,
                width as int,
                y as int,
                t + 1,
                i,
            ) by {
                if i != k {
                    lemma_fundamental_div_mod(i, pitch as int);
                    assert(prev[i] == buffer@[i]);
                    if i / (pitch as int) == y as int && i % (pitch as int) == t as int {
                        assert(i == (pitch as int) * (y as int) + t);
                        assert((pitch as int) * (y as int) == y * pitch) by (nonlinear_arith);
                    }
                }
            }
            t += 1;
        }
        y += 1;
    }
}

/// Byte `i` of a texture buffer whose rows lie `pitch` bytes apart, once the
/// texels of the rows before `rows`, and the first `texels` texels of row `rows`,
/// were written as ABGR from the RGBA texels of a `width` wide image packed in
/// `rgba`; a texel is written only when it lies wholly inside both `rgba` and the
/// buffer, and other bytes stay as in `before`.
pub open spec fn abgr_written(
    before: Seq<u8>,
    pitch: int,
    rgba: Seq<u8>,
    width: int,
    rows: int,
    texels: int,
    i: int,
) -> u8 {
    let row = i / pitch;
    let offset = i % pitch;
    let x = offset / 4;
    let channel = offset % 4;
    let src = (row * width + x) * 4;
    if pitch > 0 && offset < 4 * width && (row < rows || (row == rows && x < texels)) && src + 3
        < rgba.len() && row * pitch + 4 * x + 3 < before.len() {
        rgba[src + 3 - channel]
    } else {
        before[i]
    }
}

/// Write `height` rows of `width` RGBA texels, packed in `rgba`, into a locked
/// ABGR texture buffer whose rows lie `pitch` bytes apart, reversing the byte
/// order of each texel; texels that do not lie wholly inside `rgba` and the
/// buffer are skipped.
pub fn write_rgba_as_abgr(buffer: &mut [u8], pitch: usize, rgba: &[u8], width: usize, height: usize)
    requires
        4 * width <= pitch,
        height * pitch <= usize::MAX,
        4 * width * height <= usize::MAX,
    ensures
        final(buffer)@.len() == old(buffer)@.len(),
        forall|i: int|
            0 <= i < old(buffer)@.len() ==> #[trigger] final(buffer)@[i] == abgr_written(
                old(buffer)@,
                pitch as int,
                rgba@,
                width as int,
                height as int,
                0,
                i,
            ),
{
    let ghost before = buffer@;
    let len = buffer.len();
    let rgba_len = rgba.len();
    let mut y: usize = 0;
    while y < height
        invariant
            4 * width <= pitch,
            height * pitch <= usize::MAX,
            4 * width * height <= usize::MAX,
            y <= height,
            len == buffer@.len(),
            len == before.len(),
            rgba_len == rgba@.len(),
            forall|i: int|
                0 <= i < len ==> #[trigger] buffer@[i] == abgr_written(
                    before,
                    pitch as int,
                    rgba@,
                    width as int,
                    y as int,
                    0,
                    i,
                ),
        decreases height - y,
    {
        let mut x: usize = 0;
        while x < width
            invariant
                4 * width <= pitch,
                height * pitch <= usize::MAX,
                4 * width * height <= usize::MAX,
                y < height,
                x <= width,
                len == buffer@.len(),
                len == before.len(),
                rgba_len == rgba@.len(),
                forall|i: int|
                    0 <= i < len ==> #[trigger] buffer@[i] == abgr_written(
                        before,
                        pitch as int,
                        rgba@,
                        width as int,
                        y as int,
                        x as int,
                        i,
                    ),
            decreases width - x,
        {
            assert((y * width + x) * 4 + 4 <= 4 * width * height && y * pitch + 4 * x + 4 <= height * pitch)
                by (nonlinear_arith)
                requires
                    y < height,
                    x < width,
                    4 * width <= pitch;
            let src_idx = (y * width + x) * 4;
            let dst_idx = y * pitch + x * 4;
            let ghost prev = buffer@;
            if src_idx + 3 < rgba_len && dst_idx + 3 < len {
                buffer[dst_idx] = rgba[src_idx + 3];
                buffer[dst_idx + 1] = rgba[src_idx + 2];
                buffer[dst_idx + 2] = rgba[src_idx + 1];
                buffer[dst_idx + 3] = rgba[src_idx];
            }
            assert forall|i: int| 0 <= i < len implies #[trigger] buffer@[i] == abgr_written(
                before,
                pitch as int,
                rgba@,
                width as int,
                y as int,
                x + 1,
                i,
            ) by {
                let p = pitch as int;
                lemma_fundamental_div_mod(i, p);
                let off = i % p;
                lemma_fundamental_div_mod(off, 4);
                if dst_idx <= i < dst_idx + 4 {
                    let c = i - dst_idx;
                    lemma_fundamental_div_mod_converse(i, p, y as int, 4 * x + c);
                    lemma_fundamental_div_mod_converse(4 * x + c, 4, x as int, c);
                    assert((y as int) * (pitch as int) == y * pitch) by (nonlinear_arith);
                } else {
                    assert(prev[i] == buffer@[i]);
                    if i / p == y as int && off / 4 == x as int {
                        assert((pitch as int) * (y as int) == y * pitch) by (nonlinear_arith);
                    }
                }
            }
            x += 1;
        }
        y += 1;
    }
}

} // verus!
