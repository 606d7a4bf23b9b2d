use vstd::prelude::*;
use crate::bird::{Bird, RADIUS, X};

verus! {

/// Horizontal extent of a pipe.
pub const WIDTH: i64 = 200;

/// Horizontal distance from one pipe to the next.
pub const SPACING: i64 = 1000;

/// A scrolling obstacle: solid above and below a gap. Its lower part starts
/// at `y`; its upper part ends `hole_size` above that.
#[derive(Clone, Copy, Debug, PartialEq, Eq, Structural)]
pub struct Pipe {
    pub x: i64,
    pub y: i64,
    /// Vertical centre of the gap.
    pub hole: i64,
    pub hole_size: i64,
}

impl Pipe {
    pub open spec fn spec_new(x: i64, y: i64, hole_size: i64) -> Pipe {
        Pipe { x, y, hole_size, hole: (y - hole_size / 2) as i64 }
    }

    /// A pipe at `x` whose gap spans `hole_size` above `y`.
    pub fn new(x: i64, y: i64, hole_size: i64) -> (r: Pipe)
        requires
            0 <= hole_size,
            i64::MIN <= y - hole_size / 2,
        ensures
            r == Pipe::spec_new(x, y, hole_size),
    {
        Pipe { x, y, hole_size, hole: y - hole_size / 2 }
    }

    pub open spec fn moved(self, speed: i64) -> Pipe {
        Pipe { x: (self.x - speed) as i64, ..self }
    }

    /// Scrolls the pipe `speed` units to the left.
    pub fn move_left(&mut self, speed: i64)
        requires
            i64::MIN <= old(self).x - speed <= i64::MAX,
        ensures
            *final(self) == old(self).moved(speed),
    {
        self.x = self.x - speed;
    }

    /// Whether the trailing edge of the pipe has gone past the birds' left
    /// edge, so that no bird can meet it again.
    pub open spec fn passed(self) -> bool {
        self.x + WIDTH < X - RADIUS
    }

    /// Whether the horizontal span of the pipe meets that of the birds.
    pub open spec fn overlaps_birds(self) -> bool {
        self.x <= X + RADIUS && self.x + WIDTH >= X - RADIUS
    }

    /// Whether the bird's vertical span lies strictly inside the gap.
    pub open spec fn in_gap(self, b: Bird) -> bool {
        b.y + RADIUS < self.y && b.y - RADIUS > self.y - self.hole_size
    }

    /// Whether the pipe leaves the bird alive: it does unless the spans meet
    /// and the bird touches a solid part.
    pub open spec fn spares(self, b: Bird) -> bool {
        !self.overlaps_birds() || self.in_gap(b)
    }
}

} // verus!
