//! Boxes in 64ths of a logical pixel.

use vstd::prelude::*;

verus! {

/// Units to a logical pixel.
pub const UNITS: i128 = 64;

/// The parts of a scale in which an output's is given.
pub const SCALES: i128 = 120;

/// The largest scale of an output.
pub const MAX_SCALE: u16 = 0x2000;

/// A length in the device pixels of an output, to the nearest; of two, the one farther from
/// zero.
pub open spec fn device_px(len: int, scale: u16) -> int {
    let parts = UNITS * SCALES;
    if len >= 0 {
        (len * scale + parts / 2) / parts
    } else {
        -((-len * scale + parts / 2) / parts)
    }
}

/// A length in the device pixels of an output.
pub fn to_device(len: i128, scale: u16) -> (px: i128)
    requires
        -FAR <= len <= FAR,
        scale <= MAX_SCALE,
    ensures
        px == device_px(len as int, scale),
{
    let by: i128 = scale as i128;
    assert(-0x2000 * FAR <= len * by <= 0x2000 * FAR && (len >= 0 ==> 0 <= len * by) && (len
        < 0 ==> -len * by == -(len * by) && len * by <= 0)) by (nonlinear_arith)
        requires
            -FAR <= len <= FAR,
            0 <= by <= 0x2000,
    ;
    if len >= 0 {
        (len * by + 3840) / 7680
    } else {
        -((-(len * by) + 3840) / 7680)
    }
}

/// A box by its top-left corner and its size.
#[derive(Clone, Copy, Debug, PartialEq, Eq, Structural)]
pub struct Area {
    pub x: i128,
    pub y: i128,
    pub w: i128,
    pub h: i128,
}

/// The longest length a box is measured in.
pub const FAR: i128 = 0x1_0000_0000_0000_0000_0000_0000_0000;

impl Area {
    /// The point is on or past the near edges, and before the far ones.
    pub open spec fn has(self, x: int, y: int) -> bool {
        self.x <= x < self.x + self.w && self.y <= y < self.y + self.h
    }

    /// Nothing about the box is beyond measure.
    pub open spec fn near(self) -> bool {
        &&& -FAR <= self.x <= FAR
        &&& -FAR <= self.y <= FAR
        &&& -FAR <= self.w <= FAR
        &&& -FAR <= self.h <= FAR
    }

    /// Whether a point is in the box.
    pub fn contains(&self, x: i128, y: i128) -> (inside: bool)
        requires
            self.near(),
        ensures
            inside == self.has(x as int, y as int),
    {
        self.x <= x && x < self.x + self.w && self.y <= y && y < self.y + self.h
    }
}

} // verus!
