use vstd::prelude::*;
use crate::lighting::light_source::LightSource;

verus! {

/// The cells that Bresenham's walk visits from `(x, y)` toward `(x1, y1)`, with
/// `dx`, `dy` the absolute extents, `sx`, `sy` the step signs and `err` the running
/// error term; it stops at the target or when `fuel` runs out.
#[verifier::opaque]
pub open spec fn walk_cells(
    x: int,
    y: int,
    x1: int,
    y1: int,
    dx: int,
    dy: int,
    sx: int,
    sy: int,
    err: int,
    fuel: nat,
) -> Seq<(int, int)>
    decreases fuel,
{
    if fuel == 0 {
        Seq::empty()
    } else if x == x1 && y == y1 {
        seq![(x, y)]
    } else {
        let e2 = 2 * err;
        let xs = e2 > -dy;
        let ys = e2 < dx;
        seq![(x, y)] + walk_cells(
            if xs { x + sx } else { x },
            if ys { y + sy } else { y },
            x1,
            y1,
            dx,
            dy,
            sx,
            sy,
            err - (if xs { dy } else { 0 }) + (if ys { dx } else { 0 }),
            (fuel - 1) as nat,
        )
    }
}

/// The first cell of a walk with fuel left is where it stands; at the target the
/// walk is that cell alone, elsewhere the rest of the walk follows one step on.
proof fn lemma_walk_unfold(x: int, y: int, x1: int, y1: int, dx: int, dy: int, sx: int, sy: int, err: int, fuel: nat)
    requires
        fuel > 0,
    ensures
        walk_cells(x, y, x1, y1, dx, dy, sx, sy, err, fuel).len() >= 1,
        walk_cells(x, y, x1, y1, dx, dy, sx, sy, err, fuel)[0] == (x, y),
        (x == x1 && y == y1) ==> walk_cells(x, y, x1, y1, dx, dy, sx, sy, err, fuel) == seq![(x, y)],
        !(x == x1 && y == y1) ==> walk_cells(x, y, x1, y1, dx, dy, sx, sy, err, fuel) == seq![(x, y)] + walk_cells(
            if 2 * err > -dy { x + sx } else { x },
            if 2 * err < dx { y + sy } else { y },
            x1, y1, dx, dy, sx, sy,
            err - (if 2 * err > -dy { dy } else { 0 }) + (if 2 * err < dx { dx } else { 0 }),
            (fuel - 1) as nat,
        ),
{
    reveal(walk_cells);
}

/// `|v|`.
pub open spec fn abs(v: int) -> int {
    if v < 0 { -v } else { v }
}

/// The Bresenham line from `(x0, y0)` to `(x1, y1)`, both ends included.
pub open spec fn line_cells(x0: int, y0: int, x1: int, y1: int) -> Seq<(int, int)> {
    let dx = abs(x1 - x0);
    let dy = abs(y1 - y0);
    walk_cells(
        x0,
        y0,
        x1,
        y1,
        dx,
        dy,
        if x0 < x1 { 1 } else { -1 },
        if y0 < y1 { 1 } else { -1 },
        dx - dy,
        (dx + dy + 1) as nat,
    )
}

/// `v` kept on the micro tile map.
pub open spec fn clamp_coord(v: usize) -> int {
    if v > 111 { 111 } else { v as int }
}

/// Whether no wall stands on the line between two cells (coordinates past the
/// map edge are moved onto it first).
pub open spec fn spec_line_clear(block: [[bool; 112]; 112], x0: usize, y0: usize, x1: usize, y1: usize) -> bool {
    all_clear(block, line_cells(clamp_coord(x0), clamp_coord(y0), clamp_coord(x1), clamp_coord(y1)))
}

/// When the walk has taken all its x steps but not all its y steps, the next step
/// is a y step only.
proof fn lemma_x_done(dx: int, dy: int, m: int, err: int)
    requires
        0 <= dx,
        0 <= m < dy,
        err == dx - dy - dx * dy + m * dx,
    ensures
        2 * err <= -dy,
        2 * err < dx,
{
    assert(dx * (m + 1) <= dx * dy) by (nonlinear_arith)
        requires 0 <= dx, m + 1 <= dy;
    assert(dx * (m + 1) == m * dx + dx) by (nonlinear_arith);
}

/// When the walk has taken all its y steps but not all its x steps, the next step
/// is an x step only.
proof fn lemma_y_done(dx: int, dy: int, n: int, err: int)
    requires
        0 <= dy,
        0 <= n < dx,
        err == dx - dy - n * dy + dy * dx,
    ensures
        2 * err >= dx,
        2 * err > -dy,
{
    assert(dy * (n + 1) <= dy * dx) by (nonlinear_arith)
        requires 0 <= dy, n + 1 <= dx;
    assert(dy * (n + 1) == n * dy + dy) by (nonlinear_arith);
}

/// Bounds on the error term of the walk.
proof fn lemma_err_bounds(dx: int, dy: int, n: int, m: int)
    requires
        0 <= n <= dx <= 111,
        0 <= m <= dy <= 111,
    ensures
        -30000 <= dx - dy - n * dy + m * dx <= 30000,
{
    assert(0 <= n * dy <= 111 * 111) by (nonlinear_arith)
        requires 0 <= n <= 111, 0 <= dy <= 111;
    assert(0 <= m * dx <= 111 * 111) by (nonlinear_arith)
        requires 0 <= m <= 111, 0 <= dx <= 111;
}

/// A step toward the target from inside the segment stays on the segment.
proof fn lemma_step_in_range(a: int, b: int, s: int, n: int)
    requires
        0 <= a <= 111,
        0 <= b <= 111,
        s == (if a < b { 1int } else { -1int }),
        0 <= n < abs(b - a),
    ensures
        0 <= a + s * n < 112,
        0 <= a + s * (n + 1) < 112,
        a + s * n + s == a + s * (n + 1),
{
    if a < b {
        assert(s * n == n);
        assert(s * (n + 1) == n + 1);
    } else {
        assert(s * n == -n) by (nonlinear_arith)
            requires s == -1int;
        assert(s * (n + 1) == -(n + 1)) by (nonlinear_arith)
            requires s == -1int;
    }
}

/// No cell of `cells` is a wall, and all of them are on the map.
pub open spec fn all_clear(block: [[bool; 112]; 112], cells: Seq<(int, int)>) -> bool {
    forall|i: int|
        0 <= i < cells.len() ==> 0 <= (#[trigger] cells[i]).0 < 112 && 0 <= cells[i].1 < 112
            && !block@[cells[i].0]@[cells[i].1]
}

/// The state of the walk after `n` x steps and `m` y steps.
pub open spec fn walk_state_ok(
    x0: int, y0: int, x1: int, y1: int, n: int, m: int, x: int, y: int, err: int,
) -> bool {
    let dx = abs(x1 - x0);
    let dy = abs(y1 - y0);
    let sx = if x0 < x1 { 1int } else { -1int };
    let sy = if y0 < y1 { 1int } else { -1int };
    &&& 0 <= x0 <= 111 && 0 <= y0 <= 111 && 0 <= x1 <= 111 && 0 <= y1 <= 111
    &&& 0 <= n <= dx
    &&& 0 <= m <= dy
    &&& x == x0 + sx * n
    &&& y == y0 + sy * m
    &&& err == dx - dy - n * dy + m * dx
}

/// One step of the walk from a valid state that is not at the target: the step is
/// taken on at least one axis, stays on the segment, and the state stays valid.
proof fn lemma_walk_step(x0: int, y0: int, x1: int, y1: int, n: int, m: int, x: int, y: int, err: int)
    requires
        walk_state_ok(x0, y0, x1, y1, n, m, x, y, err),
        !(x == x1 && y == y1),
    ensures
        ({
            let dx = abs(x1 - x0);
            let dy = abs(y1 - y0);
            let sx = if x0 < x1 { 1int } else { -1int };
            let sy = if y0 < y1 { 1int } else { -1int };
            let xs = 2 * err > -dy;
            let ys = 2 * err < dx;
            &&& xs || ys
            &&& xs ==> n < dx && 0 <= x + sx < 112
            &&& ys ==> m < dy && 0 <= y + sy < 112
            &&& walk_state_ok(x0, y0, x1, y1,
                if xs { n + 1 } else { n },
                if ys { m + 1 } else { m },
                if xs { x + sx } else { x },
                if ys { y + sy } else { y },
                err - (if xs { dy } else { 0 }) + (if ys { dx } else { 0 }))
            &&& -30000 <= err <= 30000
        }),
{
    let dx = abs(x1 - x0);
    let dy = abs(y1 - y0);
    let sx = if x0 < x1 { 1int } else { -1int };
    let sy = if y0 < y1 { 1int } else { -1int };
    lemma_err_bounds(dx, dy, n, m);
    if n == dx {
        lemma_at_end(x0, x1, sx, n, x);
        assert(m < dy) by {
            if m == dy {
                lemma_at_end(y0, y1, sy, m, y);
            }
        }
        lemma_x_done(dx, dy, m, err);
    }
    if m == dy {
        lemma_at_end(y0, y1, sy, m, y);
        assert(n < dx) by {
            if n == dx {
                lemma_at_end(x0, x1, sx, n, x);
            }
        }
        assert(dx - dy - n * dy + m * dx == dx - dy - n * dy + dy * dx) by (nonlinear_arith)
            requires m == dy;
        lemma_y_done(dx, dy, n, err);
    }
    let xs = 2 * err > -dy;
    let ys = 2 * err < dx;
    if xs {
        lemma_step_in_range(x0, x1, sx, n);
    }
    if ys {
        lemma_step_in_range(y0, y1, sy, m);
    }
    assert((if xs { n + 1 } else { n }) * dy == n * dy + (if xs { dy } else { 0 })) by (nonlinear_arith);
    assert((if ys { m + 1 } else { m }) * dx == m * dx + (if ys { dx } else { 0 })) by (nonlinear_arith);
}

/// After all the steps of an axis, the walk is at the target on that axis.
proof fn lemma_at_end(a: int, b: int, s: int, n: int, v: int)
    requires
        0 <= a <= 111,
        0 <= b <= 111,
        s == (if a < b { 1int } else { -1int }),
        n == abs(b - a),
        v == a + s * n,
    ensures
        v == b,
{
    if a < b {
        assert(s * n == n);
    } else {
        assert(s * n == -n) by (nonlinear_arith)
            requires s == -1int;
    }
}

/// Walk the Bresenham line between two cells on the map and report whether it
/// crosses no wall.
#[verifier::rlimit(50)]
fn walk_line(x0: usize, y0: usize, x1: usize, y1: usize, block_map: &[[bool; 112]; 112]) -> (b: bool)
    requires
        x0 <= 111,
        y0 <= 111,
        x1 <= 111,
        y1 <= 111,
    ensures
        b == all_clear(*block_map, line_cells(x0 as int, y0 as int, x1 as int, y1 as int)),
{
    let mut x = x0 as i32;
    let mut y = y0 as i32;
    let dx: i32 = if x1 >= x0 { (x1 - x0) as i32 } else { (x0 - x1) as i32 };
    let dy: i32 = if y1 >= y0 { (y1 - y0) as i32 } else { (y0 - y1) as i32 };
    let sx: i32 = if x0 < x1 { 1 } else { -1 };
    let sy: i32 = if y0 < y1 { 1 } else { -1 };
    let mut err: i32 = dx - dy;

    let ghost cells = line_cells(x0 as int, y0 as int, x1 as int, y1 as int);
    let ghost total: nat = (dx + dy + 1) as nat;
    let ghost mut n: int = 0;
    let ghost mut m: int = 0;
    let ghost mut k: int = 0;

    assert(cells.subrange(0, 0) + walk_cells(x as int, y as int, x1 as int, y1 as int, dx as int,
        dy as int, sx as int, sy as int, err as int, total) =~= cells);
    proof {
        lemma_walk_unfold(x as int, y as int, x1 as int, y1 as int, dx as int,
            dy as int, sx as int, sy as int, err as int, total);
    }

    loop
        invariant
            dx == abs(x1 - x0),
            dy == abs(y1 - y0),
            sx == (if x0 < x1 { 1int } else { -1int }),
            sy == (if y0 < y1 { 1int } else { -1int }),
            total == dx + dy + 1,
            cells == line_cells(x0 as int, y0 as int, x1 as int, y1 as int),
            walk_state_ok(x0 as int, y0 as int, x1 as int, y1 as int, n, m, x as int, y as int, err as int),
            0 <= k <= n + m,
            k < total,
            k < cells.len(),
            cells.subrange(0, k) + walk_cells(x as int, y as int, x1 as int, y1 as int, dx as int,
                dy as int, sx as int, sy as int, err as int, (total - k) as nat) == cells,
            all_clear(*block_map, cells.subrange(0, k)),
        decreases (dx - n) + (dy - m),
    {
        proof {
            lemma_on_segment(x0 as int, x1 as int, sx as int, n);
            lemma_on_segment(y0 as int, y1 as int, sy as int, m);
        }
        let ghost rest = walk_cells(x as int, y as int, x1 as int, y1 as int, dx as int, dy as int,
            sx as int, sy as int, err as int, (total - k) as nat);
        proof {
            lemma_walk_unfold(x as int, y as int, x1 as int, y1 as int, dx as int, dy as int,
                sx as int, sy as int, err as int, (total - k) as nat);
        }
        assert(rest.len() >= 1);
        assert(rest[0] == (x as int, y as int));
        assert(cells.subrange(0, k).len() == k);
        assert(cells[k] == (cells.subrange(0, k) + rest)[k]);
        assert(cells[k] == rest[0]);
        if block_map[x as usize][y as usize] {
            assert(!all_clear(*block_map, cells)) by {
                assert(!(0 <= cells[k].0 < 112 && 0 <= cells[k].1 < 112 && !block_map@[cells[k].0]@[cells[k].1]));
            }
            return false;
        }
        if x == x1 as i32 && y == y1 as i32 {
            assert(rest.len() == 1);
            assert(cells =~= cells.subrange(0, k).push(rest[0]));
            assert(all_clear(*block_map, cells)) by {
                assert forall|i: int| 0 <= i < cells.len() implies 0 <= (#[trigger] cells[i]).0 < 112
                    && 0 <= cells[i].1 < 112 && !block_map@[cells[i].0]@[cells[i].1] by {
                    if i < k {
                        assert(cells[i] == cells.subrange(0, k)[i]);
                    }
                }
            }
            return true;
        }
        proof {
            lemma_walk_step(x0 as int, y0 as int, x1 as int, y1 as int, n, m, x as int, y as int, err as int);
        }
        let ghost old_err = err as int;
        let ghost old_x = x as int;
        let ghost old_y = y as int;
        let e2 = 2 * err;
        let ghost xs = e2 > -dy;
        let ghost ys = e2 < dx;
        if e2 > -dy {
            err -= dy;
            let new_x = x.checked_add(sx);
            if let Some(nx) = new_x {
                if nx >= 0 && nx < 112 {
                    x = nx;
                } else {
                    return true;
                }
            } else {
                return true;
            }
            proof {
                n = n + 1;
            }
        }
        if e2 < dx {
            err += dx;
            let new_y = y.checked_add(sy);
            if let Some(ny) = new_y {
                if ny >= 0 && ny < 112 {
                    y = ny;
                } else {
                    return true;
                }
            } else {
                return true;
            }
            proof {
                m = m + 1;
            }
        }
        proof {
            assert(rest == seq![(rest[0])] + walk_cells(x as int, y as int, x1 as int, y1 as int,
                dx as int, dy as int, sx as int, sy as int, err as int, (total - k - 1) as nat));
            assert(cells.subrange(0, k + 1) =~= cells.subrange(0, k).push(rest[0]));
            let rest2 = walk_cells(x as int, y as int, x1 as int, y1 as int,
                dx as int, dy as int, sx as int, sy as int, err as int, (total - k - 1) as nat);
            lemma_walk_unfold(x as int, y as int, x1 as int, y1 as int,
                dx as int, dy as int, sx as int, sy as int, err as int, (total - k - 1) as nat);
            assert(rest2.len() >= 1);
            assert(cells =~= cells.subrange(0, k + 1) + rest2);
            assert(all_clear(*block_map, cells.subrange(0, k + 1))) by {
                assert forall|i: int| 0 <= i < k + 1 implies 0 <= (#[trigger] cells.subrange(0, k + 1)[i]).0 < 112
                    && 0 <= cells.subrange(0, k + 1)[i].1 < 112
                    && !block_map@[cells.subrange(0, k + 1)[i].0]@[cells.subrange(0, k + 1)[i].1] by {
                    if i < k {
                        assert(cells.subrange(0, k + 1)[i] == cells.subrange(0, k)[i]);
                    }
                }
            }
            k = k + 1;
        }
    }
}

/// A position reached on the segment is on the map.
proof fn lemma_on_segment(a: int, b: int, s: int, n: int)
    requires
        0 <= a <= 111,
        0 <= b <= 111,
        s == (if a < b { 1int } else { -1int }),
        0 <= n <= abs(b - a),
    ensures
        0 <= a + s * n < 112,
{
    if a < b {
        assert(s * n == n);
    } else {
        assert(s * n == -n) by (nonlinear_arith)
            requires s == -1int;
    }
}

/// Whether the Bresenham line between two cells crosses no wall.
pub fn is_line_clear(x0: usize, y0: usize, x1: usize, y1: usize, block_map: &[[bool; 112]; 112]) -> (b: bool)
    ensures
        b == spec_line_clear(*block_map, x0, y0, x1, y1),
{
    let cx0 = if x0 > 111 { 111 } else { x0 };
    let cy0 = if y0 > 111 { 111 } else { y0 };
    let cx1 = if x1 > 111 { 111 } else { x1 };
    let cy1 = if y1 > 111 { 111 } else { y1 };
    walk_line(cx0, cy0, cx1, cy1, block_map)
}

/// A cell of the grid after `crawl_light`: inside the square of the radius it is lit
/// when it is within the radius and the line from the light to it is clear, with
/// the level `falloff` gives its squared distance, dark otherwise; outside the
/// square it keeps its level.
pub open spec fn spec_crawl_cell(
    old_level: u8,
    i: int,
    j: int,
    source: LightSource,
    block: [[bool; 112]; 112],
    falloff: Seq<u8>,
) -> u8 {
    let (cx, cy) = source.position;
    let r = source.radius as int;
    let dx = i - cx;
    let dy = j - cy;
    if -r <= dx <= r && -r <= dy <= r {
        if dx * dx + dy * dy <= r * r && spec_line_clear(block, cx, cy, i as usize, j as usize) {
            falloff[dx * dx + dy * dy]
        } else {
            0
        }
    } else {
        old_level
    }
}

/// The light position is small enough for the signed arithmetic of `crawl_light`.
pub open spec fn crawl_fits(source: LightSource) -> bool {
    source.position.0 + source.radius <= i32::MAX && source.position.1 + source.radius <= i32::MAX
}

/// Whether `falloff` gives a level for every squared distance within the radius
/// of `source`.
pub open spec fn falloff_covers(source: LightSource, falloff: Seq<u8>) -> bool {
    falloff.len() > source.radius * source.radius
}

/// Light the cells around a light source: cells within its radius that the light
/// reaches get the level `falloff[d2]` for their squared distance `d2`, the rest
/// of the square around it goes dark.
pub fn crawl_light(
    grid: &mut [[u8; 112]; 112],
    source: &LightSource,
    block_map: &[[bool; 112]; 112],
    falloff: &[u8],
)
    requires
        crawl_fits(*source),
        falloff_covers(*source, falloff@),
    ensures
        forall|i: int, j: int|
            0 <= i < 112 && 0 <= j < 112 ==> (#[trigger] final(grid)@[i]@[j]) == spec_crawl_cell(
                old(grid)@[i]@[j],
                i,
                j,
                *source,
                *block_map,
                falloff@,
            ),
{
    let (cx, cy) = source.position;
    let radius = source.radius as i32;
    let cxi = cx as i32;
    let cyi = cy as i32;

    // Clear previous lighting in the radius.
    let mut dy: i32 = -radius;
    while dy <= radius
        invariant
            crawl_fits(*source),
            cx == source.position.0,
            cy == source.position.1,
            radius == source.radius,
            cxi == cx,
            cyi == cy,
            -radius <= dy <= radius + 1,
            forall|i: int, j: int|
                0 <= i < 112 && 0 <= j < 112 ==> (#[trigger] grid@[i]@[j]) == (if -radius <= i - cx
                    <= radius && -radius <= j - cy < dy {
                    0u8
                } else {
                    old(grid)@[i]@[j]
                }),
        decreases radius + 1 - dy,
    {
        let mut dx: i32 = -radius;
        while dx <= radius
            invariant
                crawl_fits(*source),
                cx == source.position.0,
                cy == source.position.1,
                radius == source.radius,
                cxi == cx,
                cyi == cy,
                -radius <= dy <= radius,
                -radius <= dx <= radius + 1,
                forall|i: int, j: int|
                    0 <= i < 112 && 0 <= j < 112 ==> (#[trigger] grid@[i]@[j]) == (if (-radius <= i
                        - cx <= radius && -radius <= j - cy < dy) || (-radius <= i - cx < dx && j
                        - cy == dy) {
                        0u8
                    } else {
                        old(grid)@[i]@[j]
                    }),
            decreases radius + 1 - dx,
        {
            let x = cxi + dx;
            let y = cyi + dy;
            if x >= 0 && x < 112 && y >= 0 && y < 112 {
                grid[x as usize][y as usize] = 0;
            }
            dx += 1;
        }
        dy += 1;
    }

    // Cast light from the center outward.
    let mut dy: i32 = -radius;
    while dy <= radius
        invariant
            crawl_fits(*source),
            falloff_covers(*source, falloff@),
            cx == source.position.0,
            cy == source.position.1,
            radius == source.radius,
            cxi == cx,
            cyi == cy,
            -radius <= dy <= radius + 1,
            forall|i: int, j: int|
                0 <= i < 112 && 0 <= j < 112 ==> (#[trigger] grid@[i]@[j]) == (if -radius <= i - cx
                    <= radius && -radius <= j - cy < dy {
                    spec_crawl_cell(old(grid)@[i]@[j], i, j, *source, *block_map, falloff@)
                } else if -radius <= i - cx <= radius && -radius <= j - cy <= radius {
                    0u8
                } else {
                    old(grid)@[i]@[j]
                }),
        decreases radius + 1 - dy,
    {
        let mut dx: i32 = -radius;
        while dx <= radius
            invariant
                crawl_fits(*source),
                falloff_covers(*source, falloff@),
                cx == source.position.0,
                cy == source.position.1,
                radius == source.radius,
                cxi == cx,
                cyi == cy,
                -radius <= dy <= radius,
                -radius <= dx <= radius + 1,
                forall|i: int, j: int|
                    0 <= i < 112 && 0 <= j < 112 ==> (#[trigger] grid@[i]@[j]) == (if (-radius <= i
                        - cx <= radius && -radius <= j - cy < dy) || (-radius <= i - cx < dx && j
                        - cy == dy) {
                        spec_crawl_cell(old(grid)@[i]@[j], i, j, *source, *block_map, falloff@)
                    } else if -radius <= i - cx <= radius && -radius <= j - cy <= radius {
                        0u8
                    } else {
                        old(grid)@[i]@[j]
                    }),
            decreases radius + 1 - dx,
        {
            assert(0 <= dx * dx <= 255 * 255) by (nonlinear_arith)
                requires -255 <= dx <= 255;
            assert(0 <= dy * dy <= 255 * 255) by (nonlinear_arith)
                requires -255 <= dy <= 255;
            assert(0 <= radius * radius <= 255 * 255) by (nonlinear_arith)
                requires 0 <= radius <= 255;
            let d2 = dx * dx + dy * dy;
            if d2 <= radius * radius {
                let x = cxi + dx;
                let y = cyi + dy;
                if x >= 0 && x < 112 && y >= 0 && y < 112 {
                    if is_line_clear(cx, cy, x as usize, y as usize, block_map) {
                        grid[x as usize][y as usize] = falloff[d2 as usize];
                    }
                }
            }
            dx += 1;
        }
        dy += 1;
    }
}

} // verus!
