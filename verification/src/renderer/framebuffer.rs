use vstd::prelude::*;
use crate::renderer::color::Color;

verus! {

/// An 8-bit palette-indexed framebuffer. Index 0 is transparent: writing it
/// never changes a pixel, so layers can be drawn over each other without clearing.
pub struct Framebuffer {
    pixels: Vec<u8>,
    width: usize,
    height: usize,
}

impl Framebuffer {
    /// The buffer holds exactly `width * height` pixels.
    pub closed spec fn wf(&self) -> bool {
        self.pixels@.len() == self.width * self.height
    }

    /// The pixels, row by row.
    pub closed spec fn spec_pixels(&self) -> Seq<u8> {
        self.pixels@
    }

    /// The width in pixels.
    pub closed spec fn spec_width(&self) -> usize {
        self.width
    }

    /// The height in pixels.
    pub closed spec fn spec_height(&self) -> usize {
        self.height
    }

    /// Create a framebuffer with every pixel transparent (index 0).
    pub fn new(width: usize, height: usize) -> (fb: Framebuffer)
        requires
            width * height <= usize::MAX,
        ensures
            fb.wf(),
            fb.spec_width() == width,
            fb.spec_height() == height,
            fb.spec_pixels() == Seq::new((width * height) as nat, |i: int| 0u8),
    {
        let n = width * height;
        let mut pixels: Vec<u8> = Vec::with_capacity(n);
        let mut i: usize = 0;
        while i < n
            invariant
                i <= n,
                pixels@ == Seq::new(i as nat, |k: int| 0u8),
            decreases n - i,
        {
            pixels.push(0);
            i += 1;
        }
        Framebuffer { pixels, width, height }
    }

    /// Write a palette index at `(x, y)`. Index 0 is transparent and writes nothing;
    /// a position past the end of the buffer writes nothing either.
    pub fn set_pixel(&mut self, x: usize, y: usize, palette_index: u8)
        requires
            old(self).wf(),
            y * old(self).spec_width() + x <= usize::MAX,
        ensures
            final(self).wf(),
            final(self).spec_width() == old(self).spec_width(),
            final(self).spec_height() == old(self).spec_height(),
            final(self).spec_pixels() == (if palette_index != 0 && y * old(self).spec_width() + x
                < old(self).spec_pixels().len() {
                old(self).spec_pixels().update(y * old(self).spec_width() + x, palette_index)
            } else {
                old(self).spec_pixels()
            }),
    {
        if palette_index != 0 {
            let offset = y * self.width + x;
            if offset < self.pixels.len() {
                self.pixels.set(offset, palette_index);
            }
        }
    }

    /// The palette index at `(x, y)`, or 0 past the end of the buffer.
    pub fn get_pixel(&self, x: usize, y: usize) -> (v: u8)
        requires
            y * self.spec_width() + x <= usize::MAX,
        ensures
            v == (if y * self.spec_width() + x < self.spec_pixels().len() {
                self.spec_pixels()[y * self.spec_width() + x]
            } else {
                0u8
            }),
    {
        let offset = y * self.width + x;
        if offset < self.pixels.len() {
            self.pixels[offset]
        } else {
            0
        }
    }

    /// Convert to RGBA (4 bytes per pixel, always opaque) through a 256-color palette.
    pub fn to_rgba(&self, palette: &[Color; 256]) -> (rgba: Vec<u8>)
        ensures
            rgba@.len() == self.spec_pixels().len() * 4,
            forall|i: int|
                0 <= i < self.spec_pixels().len() ==> {
                    let c = palette@[self.spec_pixels()[i] as int];
                    &&& #[trigger] rgba@[4 * i] == c.r
                    &&& rgba@[4 * i + 1] == c.g
                    &&& rgba@[4 * i + 2] == c.b
                    &&& rgba@[4 * i + 3] == 255
                },
    {
        let n = self.pixels.len();
        let mut rgba: Vec<u8> = Vec::new();
        let mut i: usize = 0;
        while i < n
            invariant
                n == self.spec_pixels().len(),
                i <= n,
                rgba@.len() == 4 * i,
                forall|k: int|
                    0 <= k < i ==> {
                        let c = palette@[self.spec_pixels()[k] as int];
                        &&& #[trigger] rgba@[4 * k] == c.r
                        &&& rgba@[4 * k + 1] == c.g
                        &&& rgba@[4 * k + 2] == c.b
                        &&& rgba@[4 * k + 3] == 255
                    },
            decreases n - i,
        {
            let color = palette[self.pixels[i] as usize];
            let ghost before = rgba@;
            rgba.push(color.r);
            rgba.push(color.g);
            rgba.push(color.b);
            rgba.push(255);
            assert forall|k: int| 0 <= k < i + 1 implies {
                let c = palette@[self.spec_pixels()[k] as int];
                &&& #[trigger] rgba@[4 * k] == c.r
                &&& rgba@[4 * k + 1] == c.g
                &&& rgba@[4 * k + 2] == c.b
                &&& rgba@[4 * k + 3] == 255
            } by {
                if k < i {
                    assert(rgba@[4 * k] == before[4 * k]);
                }
            }
            i += 1;
        }
        rgba
    }

    /// The width in pixels.
    pub fn width(&self) -> (w: usize)
        ensures
            w == self.spec_width(),
    {
        self.width
    }

    /// The height in pixels.
    pub fn height(&self) -> (h: usize)
        ensures
            h == self.spec_height(),
    {
        self.height
    }

    /// Reset every pixel to transparent (index 0).
    pub fn clear(&mut self)
        requires
            old(self).wf(),
        ensures
            final(self).wf(),
            final(self).spec_width() == old(self).spec_width(),
            final(self).spec_height() == old(self).spec_height(),
            final(self).spec_pixels() == Seq::new(old(self).spec_pixels().len(), |i: int| 0u8),
    {
        let n = self.pixels.len();
        let mut i: usize = 0;
        while i < n
            invariant
                n == self.pixels@.len(),
                n == self.width * self.height,
                self.width == old(self).width,
                self.height == old(self).height,
                i <= n,
                forall|k: int| 0 <= k < i ==> self.pixels@[k] == 0u8,
            decreases n - i,
        {
            self.pixels.set(i, 0);
            i += 1;
        }
        assert(self.pixels@ =~= Seq::new(n as nat, |i: int| 0u8));
    }

    /// The raw pixel indices.
    pub fn pixels(&self) -> (p: &[u8])
        ensures
            p@ == self.spec_pixels(),
    {
        self.pixels.as_slice()
    }
}

/// Writing the transparent index never changes the framebuffer.
pub proof fn lemma_transparent_write_keeps_pixels(pixels: Seq<u8>, offset: int)
    ensures
        (if 0u8 != 0 && offset < pixels.len() { pixels.update(offset, 0u8) } else { pixels })
            == pixels,
{
}

/// After a non-transparent write at an in-bounds position, reading that position
/// gives back the written index.
pub proof fn lemma_set_then_get(pixels: Seq<u8>, offset: int, v: u8)
    requires
        0 <= offset < pixels.len(),
        v != 0,
    ensures
        pixels.update(offset, v)[offset] == v,
{
}

} // verus!
