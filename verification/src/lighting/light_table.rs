use vstd::prelude::*;
use crate::resources::palette::{Color, Palette, is_nearest};

verus! {

/// For each light level 0 (dark) to 15 (full light) and each palette index, the
/// palette index that shows that color at that light level.
pub struct LightTables {
    tables: [[u8; 256]; 16],
}

/// A color dimmed to a light level: each channel scaled by `level / 15`, rounded down.
pub open spec fn spec_darken(c: Color, level: int) -> (u8, u8, u8) {
    ((c.r * level / 15) as u8, (c.g * level / 15) as u8, (c.b * level / 15) as u8)
}

impl LightTables {
    /// The entry for a light level and a palette index.
    pub closed spec fn spec_entry(&self, level: int, index: int) -> u8 {
        self.tables@[level]@[index]
    }

    /// The tables of a palette: the entry for level `l` and index `c` is the first
    /// palette color nearest to color `c` dimmed to level `l`.
    pub open spec fn made_from(&self, palette: Palette) -> bool {
        forall|l: int, c: int|
            0 <= l < 16 && 0 <= c < 256 ==> is_nearest(
                palette.colors@,
                spec_darken(palette.colors@[c], l),
                #[trigger] self.spec_entry(l, c) as int,
            )
    }

    /// Build the light tables of a palette.
    pub fn from_palette(palette: &Palette) -> (t: LightTables)
        ensures
            t.made_from(*palette),
    {
        let mut tables = [[0u8; 256]; 16];
        let mut level: usize = 0;
        while level < 16
            invariant
                level <= 16,
                forall|l: int, c: int|
                    0 <= l < level && 0 <= c < 256 ==> is_nearest(
                        palette.colors@,
                        spec_darken(palette.colors@[c], l),
                        #[trigger] tables@[l]@[c] as int,
                    ),
            decreases 16 - level,
        {
            let mut color_idx: usize = 0;
            while color_idx < 256
                invariant
                    level < 16,
                    color_idx <= 256,
                    forall|l: int, c: int|
                        0 <= l < level && 0 <= c < 256 ==> is_nearest(
                            palette.colors@,
                            spec_darken(palette.colors@[c], l),
                            #[trigger] tables@[l]@[c] as int,
                        ),
                    forall|c: int|
                        0 <= c < color_idx ==> is_nearest(
                            palette.colors@,
                            spec_darken(palette.colors@[c], level as int),
                            #[trigger] tables@[level as int]@[c] as int,
                        ),
                decreases 256 - color_idx,
            {
                let color = palette.colors[color_idx];
                let darkened = Self::darken_color(color, level as u8);
                let nearest_idx = palette.find_nearest_color(darkened);
                tables[level][color_idx] = nearest_idx;
                color_idx += 1;
            }
            level += 1;
        }
        LightTables { tables }
    }

    /// The palette index that shows `color_index` at a light level (levels above 15
    /// count as 15).
    pub fn get(&self, light_level: u8, color_index: u8) -> (v: u8)
        ensures
            v == self.spec_entry(if light_level > 15 { 15 } else { light_level as int }, color_index as int),
    {
        let level = if light_level > 15 { 15 } else { light_level as usize };
        self.tables[level][color_index as usize]
    }

    /// A color dimmed to a light level from 0 to 15.
    fn darken_color(color: Color, level: u8) -> (d: (u8, u8, u8))
        requires
            level <= 15,
        ensures
            d == spec_darken(color, level as int),
    {
        let l = level as u32;
        assert(color.r * l <= 255 * 15 && color.g * l <= 255 * 15 && color.b * l <= 255 * 15) by (nonlinear_arith)
            requires l <= 15;
        assert((color.r * l) / 15 <= 255 && (color.g * l) / 15 <= 255 && (color.b * l) / 15 <= 255) by (nonlinear_arith)
            requires color.r * l <= 255 * 15, color.g * l <= 255 * 15, color.b * l <= 255 * 15;
        (
            ((color.r as u32 * l) / 15) as u8,
            ((color.g as u32 * l) / 15) as u8,
            ((color.b as u32 * l) / 15) as u8,
        )
    }
}

/// At full light a channel keeps its value, and in darkness every channel is 0.
pub proof fn lemma_darken_ends(c: Color)
    ensures
        spec_darken(c, 15) == (c.r, c.g, c.b),
        spec_darken(c, 0) == (0u8, 0u8, 0u8),
{
}

/// Less light never gives a brighter channel.
pub proof fn lemma_darken_monotonic(v: u8, l1: int, l2: int)
    requires
        0 <= l1 <= l2 <= 15,
    ensures
        v * l1 / 15 <= v * l2 / 15,
{
    assert(v * l1 <= v * l2) by (nonlinear_arith)
        requires 0 <= l1 <= l2, v >= 0;
    vstd::arithmetic::div_mod::lemma_div_is_ordered(v * l1, v * l2, 15);
}

} // verus!
