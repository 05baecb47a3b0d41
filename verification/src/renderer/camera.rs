use vstd::prelude::*;
use crate::math::arith::{tdiv, u32_as_i32, u32_to_i32};
use crate::math::point::{Point, fits_i32};
use crate::math::rect::{Rect, spec_intersects};

verus! {

/// A viewport onto the world: the world position of its top-left corner,
/// its size in pixels, and the map bounds that limit where it may go.
#[derive(Debug, Clone)]
pub struct Camera {
    pub position: Point,
    pub viewport_width: u32,
    pub viewport_height: u32,
    pub bounds: Rect,
}

/// `v` clamped into `[lo, hi]` (requires `lo <= hi`).
pub open spec fn spec_clamp(v: int, lo: int, hi: int) -> int {
    if v < lo { lo } else if v > hi { hi } else { v }
}

/// Where `Camera::follow` puts the camera along one axis, for a target
/// coordinate `t`, a viewport extent `view` and the bounds `[bmin, bmin + bsize)`.
pub open spec fn follow_axis(t: int, view: int, bounded: bool, bmin: int, bsize: int) -> int {
    let centered = t - tdiv(view, 2);
    if !bounded {
        centered
    } else {
        let max = bmin + bsize - view;
        if max >= bmin {
            spec_clamp(centered, bmin, max)
        } else {
            bmin - tdiv(view - bsize, 2)
        }
    }
}

/// Every intermediate value of `follow_axis` fits in an `i32`.
pub open spec fn follow_axis_fits(t: int, view: int, bounded: bool, bmin: int, bsize: int) -> bool {
    &&& fits_i32(t - tdiv(view, 2))
    &&& bounded ==> {
        &&& fits_i32(bmin + bsize)
        &&& fits_i32(bmin + bsize - view)
        &&& fits_i32(view - bsize)
        &&& fits_i32(bmin - tdiv(view - bsize, 2))
    }
}

impl Camera {
    /// Whether the camera has usable bounds (both sides non-zero).
    pub open spec fn bounded(&self) -> bool {
        self.bounds.width > 0 && self.bounds.height > 0
    }

    /// The position `follow(target)` moves the camera to.
    pub open spec fn follow_target(&self, target: Point) -> (int, int) {
        (
            follow_axis(target.x as int, u32_as_i32(self.viewport_width), self.bounded(),
                self.bounds.x as int, u32_as_i32(self.bounds.width)),
            follow_axis(target.y as int, u32_as_i32(self.viewport_height), self.bounded(),
                self.bounds.y as int, u32_as_i32(self.bounds.height)),
        )
    }

    /// Create a camera at the origin, without bounds.
    pub fn new(viewport_width: u32, viewport_height: u32) -> (c: Camera)
        ensures
            c.position == (Point { x: 0, y: 0 }),
            c.viewport_width == viewport_width,
            c.viewport_height == viewport_height,
            c.bounds == (Rect { x: 0, y: 0, width: 0, height: 0 }),
    {
        Camera {
            position: Point::zero(),
            viewport_width,
            viewport_height,
            bounds: Rect::new(0, 0, 0, 0),
        }
    }

    /// Set the map bounds that limit camera movement.
    pub fn set_bounds(&mut self, bounds: Rect)
        ensures
            final(self).bounds == bounds,
            final(self).position == old(self).position,
            final(self).viewport_width == old(self).viewport_width,
            final(self).viewport_height == old(self).viewport_height,
    {
        self.bounds = bounds;
    }

    /// Center the viewport on `target`, kept inside the bounds when they are set;
    /// a map smaller than the viewport is centered in it.
    pub fn follow(&mut self, target: Point)
        requires
            follow_axis_fits(target.x as int, u32_as_i32(old(self).viewport_width),
                old(self).bounded(), old(self).bounds.x as int, u32_as_i32(old(self).bounds.width)),
            follow_axis_fits(target.y as int, u32_as_i32(old(self).viewport_height),
                old(self).bounded(), old(self).bounds.y as int, u32_as_i32(old(self).bounds.height)),
        ensures
            final(self).position.x == old(self).follow_target(target).0,
            final(self).position.y == old(self).follow_target(target).1,
            final(self).viewport_width == old(self).viewport_width,
            final(self).viewport_height == old(self).viewport_height,
            final(self).bounds == old(self).bounds,
    {
        let vw = u32_to_i32(self.viewport_width);
        let vh = u32_to_i32(self.viewport_height);
        let mut x = target.x - vw / 2;
        let mut y = target.y - vh / 2;

        if self.bounds.width > 0 && self.bounds.height > 0 {
            let bw = u32_to_i32(self.bounds.width);
            let bh = u32_to_i32(self.bounds.height);
            let min_x = self.bounds.x;
            let min_y = self.bounds.y;
            let max_x = self.bounds.x + bw - vw;
            let max_y = self.bounds.y + bh - vh;

            if max_x >= min_x {
                x = if x < min_x { min_x } else if x > max_x { max_x } else { x };
            } else {
                x = min_x - (vw - bw) / 2;
            }

            if max_y >= min_y {
                y = if y < min_y { min_y } else if y > max_y { max_y } else { y };
            } else {
                y = min_y - (vh - bh) / 2;
            }
        }

        self.position = Point::new(x, y);
    }

    /// World coordinates to screen coordinates.
    pub fn world_to_screen(&self, world_pos: Point) -> (p: Point)
        requires
            fits_i32(world_pos.x - self.position.x),
            fits_i32(world_pos.y - self.position.y),
        ensures
            p.x == world_pos.x - self.position.x,
            p.y == world_pos.y - self.position.y,
    {
        Point { x: world_pos.x - self.position.x, y: world_pos.y - self.position.y }
    }

    /// Screen coordinates to world coordinates.
    pub fn screen_to_world(&self, screen_pos: Point) -> (p: Point)
        requires
            fits_i32(screen_pos.x + self.position.x),
            fits_i32(screen_pos.y + self.position.y),
        ensures
            p.x == screen_pos.x + self.position.x,
            p.y == screen_pos.y + self.position.y,
    {
        Point { x: screen_pos.x + self.position.x, y: screen_pos.y + self.position.y }
    }

    /// Whether a world point falls inside the viewport.
    pub fn is_visible(&self, world_pos: Point) -> (b: bool)
        requires
            fits_i32(world_pos.x - self.position.x),
            fits_i32(world_pos.y - self.position.y),
        ensures
            b == (0 <= world_pos.x - self.position.x < u32_as_i32(self.viewport_width)
                && 0 <= world_pos.y - self.position.y < u32_as_i32(self.viewport_height)),
    {
        let screen_pos = self.world_to_screen(world_pos);
        let vw = u32_to_i32(self.viewport_width);
        let vh = u32_to_i32(self.viewport_height);
        screen_pos.x >= 0 && screen_pos.x < vw && screen_pos.y >= 0 && screen_pos.y < vh
    }

    /// The viewport as a world rectangle.
    pub open spec fn viewport_rect(&self) -> Rect {
        Rect {
            x: self.position.x,
            y: self.position.y,
            width: self.viewport_width,
            height: self.viewport_height,
        }
    }

    /// Whether a world rectangle overlaps the viewport.
    pub fn is_rect_visible(&self, world_rect: Rect) -> (b: bool)
        requires
            fits_i32(self.position.x + u32_as_i32(self.viewport_width)),
            fits_i32(self.position.y + u32_as_i32(self.viewport_height)),
            fits_i32(world_rect.x + u32_as_i32(world_rect.width)),
            fits_i32(world_rect.y + u32_as_i32(world_rect.height)),
        ensures
            b == spec_intersects(self.viewport_rect(), world_rect),
    {
        let viewport_rect = Rect::new(
            self.position.x,
            self.position.y,
            self.viewport_width,
            self.viewport_height,
        );
        viewport_rect.intersects(&world_rect)
    }
}

/// Converting a world point to the screen and back gives the same point.
pub proof fn lemma_camera_round_trip(cam: Camera, world_pos: Point)
    requires
        fits_i32(world_pos.x - cam.position.x),
        fits_i32(world_pos.y - cam.position.y),
    ensures
        fits_i32((world_pos.x - cam.position.x) + cam.position.x),
        fits_i32((world_pos.y - cam.position.y) + cam.position.y),
        (world_pos.x - cam.position.x) + cam.position.x == world_pos.x,
        (world_pos.y - cam.position.y) + cam.position.y == world_pos.y,
{
}

/// With bounds set and a map at least as large as the viewport, `follow`
/// keeps the whole viewport inside the map.
pub proof fn lemma_follow_stays_in_bounds(t: int, view: int, bmin: int, bsize: int)
    requires
        bmin + bsize - view >= bmin,
    ensures
        bmin <= follow_axis(t, view, true, bmin, bsize),
        follow_axis(t, view, true, bmin, bsize) + view <= bmin + bsize,
{
}

} // verus!
