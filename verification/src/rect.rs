//! Rectangles of whole pixels.

use vstd::prelude::*;

verus! {

/// A rectangle by its top-left corner and its size.
#[derive(Clone, Copy, Debug, PartialEq, Eq, Structural)]
pub struct Rect {
    pub x: i32,
    pub y: i32,
    pub w: i32,
    pub h: i32,
}

/// A sum cut off at the largest number.
pub open spec fn far_edge(start: int, len: int) -> int {
    if start + len > i32::MAX {
        i32::MAX as int
    } else {
        start + len
    }
}

pub open spec fn max_of(a: int, b: int) -> int {
    if a >= b {
        a
    } else {
        b
    }
}

pub open spec fn min_of(a: int, b: int) -> int {
    if a <= b {
        a
    } else {
        b
    }
}

impl Rect {
    /// A size is never negative.
    pub open spec fn wf(self) -> bool {
        self.w >= 0 && self.h >= 0
    }

    /// The pixel is inside: on or past the near edges, before the far ones.
    pub open spec fn has(self, x: int, y: int) -> bool {
        &&& self.x <= x < far_edge(self.x as int, self.w as int)
        &&& self.y <= y < far_edge(self.y as int, self.h as int)
    }

    /// Whether a pixel is inside.
    pub fn contains(&self, x: i32, y: i32) -> (inside: bool)
        requires
            self.wf(),
        ensures
            inside == self.has(x as int, y as int),
    {
        x >= self.x && x < add_up_to_max(self.x, self.w) && y >= self.y && y < add_up_to_max(
            self.y,
            self.h,
        )
    }

    /// Each rectangle starts before the other ends, in both directions. Touching is not
    /// overlapping.
    pub open spec fn overlaps(self, other: Rect) -> bool {
        &&& self.x < far_edge(other.x as int, other.w as int)
        &&& other.x < far_edge(self.x as int, self.w as int)
        &&& self.y < far_edge(other.y as int, other.h as int)
        &&& other.y < far_edge(self.y as int, self.h as int)
    }

    /// The part two rectangles share, if they overlap: the pixels that are in both.
    pub fn intersection(&self, other: &Rect) -> (shared: Option<Rect>)
        requires
            self.wf(),
            other.wf(),
        ensures
            shared is Some <==> self.overlaps(*other),
            shared matches Some(r) ==> {
                &&& r.wf()
                &&& r.x == max_of(self.x as int, other.x as int)
                &&& r.y == max_of(self.y as int, other.y as int)
                &&& r.x + r.w == min_of(
                    far_edge(self.x as int, self.w as int),
                    far_edge(other.x as int, other.w as int),
                )
                &&& r.y + r.h == min_of(
                    far_edge(self.y as int, self.h as int),
                    far_edge(other.y as int, other.h as int),
                )
                &&& forall|x: int, y: int|
                    #![trigger r.has(x, y)]
                    r.has(x, y) <==> self.has(x, y) && other.has(x, y)
            },
            shared is None ==> forall|x: int, y: int|
                !(#[trigger] self.has(x, y) && other.has(x, y)),
    {
        let left: i32 = if self.x >= other.x {
            self.x
        } else {
            other.x
        };
        let top: i32 = if self.y >= other.y {
            self.y
        } else {
            other.y
        };
        let right_a: i32 = add_up_to_max(self.x, self.w);
        let right_b: i32 = add_up_to_max(other.x, other.w);
        let bottom_a: i32 = add_up_to_max(self.y, self.h);
        let bottom_b: i32 = add_up_to_max(other.y, other.h);
        if !(self.x < right_b && other.x < right_a && self.y < bottom_b && other.y < bottom_a) {
            return None;
        }
        let right: i32 = if right_a <= right_b {
            right_a
        } else {
            right_b
        };
        let bottom: i32 = if bottom_a <= bottom_b {
            bottom_a
        } else {
            bottom_b
        };
        Some(Rect { x: left, y: top, w: right - left, h: bottom - top })
    }
}

fn add_up_to_max(start: i32, len: i32) -> (end: i32)
    requires
        len >= 0,
    ensures
        end == far_edge(start as int, len as int),
{
    if start > i32::MAX - len {
        i32::MAX
    } else {
        start + len
    }
}

} // verus!
