use vstd::prelude::*;
use crate::engine::isometric::{TILE_HEIGHT, TILE_WIDTH};
use crate::math::point::{Point, fits_i32};

verus! {

/// The number of horizontal lines that fill a tile diamond: one per pixel line
/// from the top corner to the bottom corner.
pub const DIAMOND_SPAN_COUNT: usize = 33;

/// Line `i` of the filled diamond around `(cx, cy)`, as `(y, x_start, x_end)`:
/// the upper half widens by 2 pixels on each side per line from the top corner
/// down to the middle line, the lower half narrows by as much down to the bottom
/// corner.
pub open spec fn spec_diamond_span(cx: int, cy: int, i: int) -> (int, int, int) {
    let half_height = TILE_HEIGHT / 2;
    let half_width = TILE_WIDTH / 2;
    if i <= half_height {
        (cy - half_height + i, cx - 2 * i, cx + 2 * i)
    } else {
        let j = i - half_height;
        (cy + j, cx - (half_width - 2 * j), cx + (half_width - 2 * j))
    }
}

/// A diamond around `center` fits in `i32`.
pub open spec fn diamond_fits(center: Point) -> bool {
    &&& fits_i32(center.x - TILE_WIDTH / 2)
    &&& fits_i32(center.x + TILE_WIDTH / 2)
    &&& fits_i32(center.y - TILE_HEIGHT / 2)
    &&& fits_i32(center.y + TILE_HEIGHT / 2)
}

/// The horizontal lines, top to bottom, that fill the tile diamond around
/// `center`.
pub fn diamond_spans(center: Point) -> (spans: Vec<(i32, i32, i32)>)
    requires
        diamond_fits(center),
    ensures
        spans@.len() == DIAMOND_SPAN_COUNT,
        forall|i: int|
            0 <= i < DIAMOND_SPAN_COUNT ==> {
                let s = #[trigger] spans@[i];
                (s.0 as int, s.1 as int, s.2 as int) == spec_diamond_span(center.x as int, center.y as int, i)
            },
{
    let half_width: i32 = TILE_WIDTH / 2;
    let half_height: i32 = TILE_HEIGHT / 2;
    let mut spans: Vec<(i32, i32, i32)> = Vec::new();
    let mut i: i32 = 0;
    while i <= half_height
        invariant
            diamond_fits(center),
            half_height == TILE_HEIGHT / 2,
            0 <= i <= half_height + 1,
            spans@.len() == i,
            forall|k: int|
                0 <= k < i ==> {
                    let s = #[trigger] spans@[k];
                    (s.0 as int, s.1 as int, s.2 as int) == spec_diamond_span(
                        center.x as int,
                        center.y as int,
                        k,
                    )
                },
        decreases half_height + 1 - i,
    {
        let width = i * 2;
        spans.push((center.y - half_height + i, center.x - width, center.x + width));
        i += 1;
    }
    let mut j: i32 = 1;
    while j <= half_height
        invariant
            diamond_fits(center),
            half_height == TILE_HEIGHT / 2,
            half_width == TILE_WIDTH / 2,
            1 <= j <= half_height + 1,
            spans@.len() == half_height + j,
            forall|k: int|
                0 <= k < half_height + j ==> {
                    let s = #[trigger] spans@[k];
                    (s.0 as int, s.1 as int, s.2 as int) == spec_diamond_span(
                        center.x as int,
                        center.y as int,
                        k,
                    )
                },
        decreases half_height + 1 - j,
    {
        let width = half_width - j * 2;
        spans.push((center.y + j, center.x - width, center.x + width));
        j += 1;
    }
    spans
}

/// The filled diamond is the set of pixels `(x, y)` with
/// `|x - cx| + 2 * |y - cy| <= TILE_WIDTH / 2`: line `i` lies `i - 16` lines from
/// the middle and reaches from one edge of that set to the other, and the lines
/// cover each pixel line of the diamond once, top to bottom.
pub proof fn lemma_diamond_spans_fill_diamond(cx: int, cy: int, i: int)
    requires
        0 <= i < DIAMOND_SPAN_COUNT,
    ensures
        ({
            let (y, x_start, x_end) = spec_diamond_span(cx, cy, i);
            let dy = if y >= cy { y - cy } else { cy - y };
            &&& y == cy - TILE_HEIGHT / 2 + i
            &&& x_start <= cx <= x_end
            &&& cx - x_start == x_end - cx
            &&& (x_end - cx) + 2 * dy == TILE_WIDTH / 2
        }),
{
}

/// The four edges of the tile diamond around `center`, as pairs of corners:
/// left to top, left to bottom, top to right and bottom to right.
pub fn diamond_outline(center: Point) -> (edges: [(Point, Point); 4])
    requires
        diamond_fits(center),
    ensures
        ({
            let top = Point { x: center.x, y: (center.y - TILE_HEIGHT / 2) as i32 };
            let bottom = Point { x: center.x, y: (center.y + TILE_HEIGHT / 2) as i32 };
            let left = Point { x: (center.x - TILE_WIDTH / 2) as i32, y: center.y };
            let right = Point { x: (center.x + TILE_WIDTH / 2) as i32, y: center.y };
            edges@ == seq![(left, top), (left, bottom), (top, right), (bottom, right)]
        }),
{
    let half_width: i32 = TILE_WIDTH / 2;
    let half_height: i32 = TILE_HEIGHT / 2;
    let top = Point::new(center.x, center.y - half_height);
    let bottom = Point::new(center.x, center.y + half_height);
    let left = Point::new(center.x - half_width, center.y);
    let right = Point::new(center.x + half_width, center.y);
    let edges = [(left, top), (left, bottom), (top, right), (bottom, right)];
    assert(edges@ =~= seq![(left, top), (left, bottom), (top, right), (bottom, right)]);
    edges
}

} // verus!
