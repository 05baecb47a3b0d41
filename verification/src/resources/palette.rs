use vstd::prelude::*;

verus! {

/// An RGB palette entry.
#[derive(Debug, Clone, Copy, PartialEq, Eq, Structural)]
pub struct Color {
    pub r: u8,
    pub g: u8,
    pub b: u8,
}

impl Color {
    /// Create a color.
    pub fn new(r: u8, g: u8, b: u8) -> (c: Color)
        ensures
            c.r == r,
            c.g == g,
            c.b == b,
    {
        Color { r, g, b }
    }

    /// The color as `[r, g, b, alpha]`.
    pub fn to_rgba(self, alpha: u8) -> (rgba: [u8; 4])
        ensures
            rgba@ == seq![self.r, self.g, self.b, alpha],
    {
        let rgba = [self.r, self.g, self.b, alpha];
        assert(rgba@ =~= seq![self.r, self.g, self.b, alpha]);
        rgba
    }
}

/// Why a palette was refused.
#[derive(Debug, Clone, Copy, PartialEq, Eq, Structural)]
pub enum PaletteError {
    /// A palette file is exactly 768 bytes; this many were given.
    InvalidSize(usize),
}

/// A 256-color palette.
#[derive(Debug, Clone)]
pub struct Palette {
    pub colors: [Color; 256],
}

/// The colors of a 768-byte palette file: entry `i` is bytes `3i`, `3i+1`, `3i+2`.
pub open spec fn spec_palette_colors(data: Seq<u8>) -> Seq<Color> {
    Seq::new(256, |i: int| Color { r: data[3 * i], g: data[3 * i + 1], b: data[3 * i + 2] })
}

/// The alpha that `to_rgba` gives an index: 0 for index 0 when transparency is on,
/// 255 otherwise.
pub open spec fn spec_alpha(index: u8, transparent: bool) -> u8 {
    if transparent && index == 0 { 0 } else { 255 }
}

/// Squared distance between two colors in RGB space.
pub open spec fn color_distance(c: Color, rgb: (u8, u8, u8)) -> int {
    let dr = c.r - rgb.0;
    let dg = c.g - rgb.1;
    let db = c.b - rgb.2;
    dr * dr + dg * dg + db * db
}

/// `index` is the first entry of `colors` nearest to `rgb`.
pub open spec fn is_nearest(colors: Seq<Color>, rgb: (u8, u8, u8), index: int) -> bool {
    &&& 0 <= index < colors.len()
    &&& forall|j: int|
        0 <= j < colors.len() ==> color_distance(colors[index], rgb) <= color_distance(
            #[trigger] colors[j],
            rgb,
        )
    &&& forall|j: int|
        0 <= j < index ==> color_distance(colors[index], rgb) < color_distance(
            #[trigger] colors[j],
            rgb,
        )
}

impl Palette {
    /// A palette with every entry black.
    pub fn new() -> (p: Palette)
        ensures
            forall|i: int| 0 <= i < 256 ==> #[trigger] p.colors@[i] == (Color { r: 0, g: 0, b: 0 }),
    {
        Palette { colors: [Color { r: 0, g: 0, b: 0 }; 256] }
    }

    /// Read a 768-byte palette (256 RGB triples).
    pub fn from_bytes(data: &[u8]) -> (r: Result<Palette, PaletteError>)
        ensures
            data@.len() != 768 <==> r is Err,
            r matches Err(e) ==> e == PaletteError::InvalidSize(data@.len() as usize),
            r matches Ok(p) ==> p.colors@ == spec_palette_colors(data@),
    {
        if data.len() != 768 {
            return Err(PaletteError::InvalidSize(data.len()));
        }
        let mut colors = [Color { r: 0, g: 0, b: 0 }; 256];
        let mut i: usize = 0;
        while i < 256
            invariant
                data@.len() == 768,
                i <= 256,
                forall|k: int|
                    0 <= k < i ==> #[trigger] colors@[k] == spec_palette_colors(data@)[k],
            decreases 256 - i,
        {
            let offset = i * 3;
            colors[i] = Color { r: data[offset], g: data[offset + 1], b: data[offset + 2] };
            i += 1;
        }
        assert(colors@ =~= spec_palette_colors(data@));
        Ok(Palette { colors })
    }

    /// The color at an index.
    pub fn to_rgb(&self, index: u8) -> (c: Color)
        ensures
            c == self.colors@[index as int],
    {
        self.colors[index as usize]
    }

    /// The color at an index as RGBA; index 0 is transparent when `transparent` is set.
    pub fn to_rgba(&self, index: u8, transparent: bool) -> (rgba: [u8; 4])
        ensures
            rgba@ == seq![
                self.colors@[index as int].r,
                self.colors@[index as int].g,
                self.colors@[index as int].b,
                spec_alpha(index, transparent),
            ],
    {
        let color = self.colors[index as usize];
        let alpha = if transparent && index == 0 { 0 } else { 255 };
        color.to_rgba(alpha)
    }

    /// An indexed image as RGBA, 4 bytes per pixel.
    pub fn indices_to_rgba(&self, indices: &[u8], transparent: bool) -> (rgba: Vec<u8>)
        ensures
            rgba@.len() == indices@.len() * 4,
            forall|i: int|
                0 <= i < indices@.len() ==> {
                    let c = self.colors@[indices@[i] as int];
                    &&& #[trigger] rgba@[4 * i] == c.r
                    &&& rgba@[4 * i + 1] == c.g
                    &&& rgba@[4 * i + 2] == c.b
                    &&& rgba@[4 * i + 3] == spec_alpha(indices@[i], transparent)
                },
    {
        let n = indices.len();
        let mut rgba: Vec<u8> = Vec::new();
        let mut i: usize = 0;
        while i < n
            invariant
                n == indices@.len(),
                i <= n,
                rgba@.len() == 4 * i,
                forall|k: int|
                    0 <= k < i ==> {
                        let c = self.colors@[indices@[k] as int];
                        &&& #[trigger] rgba@[4 * k] == c.r
                        &&& rgba@[4 * k + 1] == c.g
                        &&& rgba@[4 * k + 2] == c.b
                        &&& rgba@[4 * k + 3] == spec_alpha(indices@[k], transparent)
                    },
            decreases n - i,
        {
            let color = self.to_rgba(indices[i], transparent);
            let ghost before = rgba@;
            rgba.push(color[0]);
            rgba.push(color[1]);
            rgba.push(color[2]);
            rgba.push(color[3]);
            assert forall|k: int| 0 <= k < i + 1 implies {
                let c = self.colors@[indices@[k] as int];
                &&& #[trigger] rgba@[4 * k] == c.r
                &&& rgba@[4 * k + 1] == c.g
                &&& rgba@[4 * k + 2] == c.b
                &&& rgba@[4 * k + 3] == spec_alpha(indices@[k], transparent)
            } by {
                if k < i {
                    assert(rgba@[4 * k] == before[4 * k]);
                }
            }
            i += 1;
        }
        rgba
    }

    /// The number of colors: always 256.
    pub fn len(&self) -> (n: usize)
        ensures
            n == 256,
    {
        256
    }

    /// The index of the first palette entry nearest to `rgb` (squared RGB distance).
    pub fn find_nearest_color(&self, rgb: (u8, u8, u8)) -> (index: u8)
        ensures
            is_nearest(self.colors@, rgb, index as int),
    {
        let mut best: usize = 0;
        let mut best_dist: u32 = Self::distance(self.colors[0], rgb);
        let mut i: usize = 1;
        while i < 256
            invariant
                1 <= i <= 256,
                best < i,
                best_dist == color_distance(self.colors@[best as int], rgb),
                forall|j: int|
                    0 <= j < i ==> best_dist <= color_distance(#[trigger] self.colors@[j], rgb),
                forall|j: int|
                    0 <= j < best ==> best_dist < color_distance(#[trigger] self.colors@[j], rgb),
            decreases 256 - i,
        {
            let d = Self::distance(self.colors[i], rgb);
            if d < best_dist {
                best = i;
                best_dist = d;
            }
            i += 1;
        }
        best as u8
    }

    /// Squared RGB distance between a palette entry and a color.
    fn distance(c: Color, rgb: (u8, u8, u8)) -> (d: u32)
        ensures
            d == color_distance(c, rgb),
    {
        let dr: i32 = c.r as i32 - rgb.0 as i32;
        let dg: i32 = c.g as i32 - rgb.1 as i32;
        let db: i32 = c.b as i32 - rgb.2 as i32;
        assert(0 <= dr * dr <= 65025) by (nonlinear_arith)
            requires -255 <= dr <= 255;
        assert(0 <= dg * dg <= 65025) by (nonlinear_arith)
            requires -255 <= dg <= 255;
        assert(0 <= db * db <= 65025) by (nonlinear_arith)
            requires -255 <= db <= 255;
        ((dr * dr) + (dg * dg) + (db * db)) as u32
    }
}

/// An entry that is exactly the requested color is always the nearest one.
pub proof fn lemma_exact_color_is_nearest(colors: Seq<Color>, rgb: (u8, u8, u8), i: int)
    requires
        0 <= i < colors.len(),
        colors[i] == (Color { r: rgb.0, g: rgb.1, b: rgb.2 }),
    ensures
        color_distance(colors[i], rgb) == 0,
        forall|j: int| 0 <= j < colors.len() ==> color_distance(colors[i], rgb) <= color_distance(#[trigger] colors[j], rgb),
{
    assert(color_distance(colors[i], rgb) == 0) by {
        let z: int = 0;
        assert(z * z == 0);
    }
    assert forall|j: int| 0 <= j < colors.len() implies 0 <= color_distance(
        #[trigger] colors[j],
        rgb,
    ) by {
        let c = colors[j];
        lemma_distance_nonneg(c.r - rgb.0, c.g - rgb.1, c.b - rgb.2);
    }
}

/// A sum of three squares is not negative.
proof fn lemma_distance_nonneg(a: int, b: int, c: int)
    ensures
        a * a + b * b + c * c >= 0,
{
    assert(a * a >= 0) by (nonlinear_arith);
    assert(b * b >= 0) by (nonlinear_arith);
    assert(c * c >= 0) by (nonlinear_arith);
}

} // verus!
