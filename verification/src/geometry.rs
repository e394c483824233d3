//! Axis-aligned bounding box primitive: rectangle intersection and gap math.

use vstd::prelude::*;

verus! {

/// A closed axis-aligned rectangle in millimetres, given by its minimum and
/// maximum corners.
#[derive(Debug, Clone, Copy)]
pub struct Aabb {
    pub min_x: i32,
    pub min_y: i32,
    pub max_x: i32,
    pub max_y: i32,
}

/// Mathematical model of a rectangle: the same four corner coordinates as
/// unbounded integers.
pub ghost struct RectModel {
    pub min_x: int,
    pub min_y: int,
    pub max_x: int,
    pub max_y: int,
}

impl View for Aabb {
    type V = RectModel;

    open spec fn view(&self) -> RectModel {
        RectModel {
            min_x: self.min_x as int,
            min_y: self.min_y as int,
            max_x: self.max_x as int,
            max_y: self.max_y as int,
        }
    }
}

/// Open-interval overlap on the X axis: touching edges do not overlap.
pub open spec fn rect_overlaps_x(a: RectModel, b: RectModel) -> bool {
    a.min_x < b.max_x && a.max_x > b.min_x
}

/// Open-interval overlap on the Y axis: touching edges do not overlap.
pub open spec fn rect_overlaps_y(a: RectModel, b: RectModel) -> bool {
    a.min_y < b.max_y && a.max_y > b.min_y
}

/// Two rectangles intersect iff they overlap on both axes.
pub open spec fn rect_intersects(a: RectModel, b: RectModel) -> bool {
    rect_overlaps_x(a, b) && rect_overlaps_y(a, b)
}

/// Signed separation along the X axis; zero when the X ranges overlap or touch.
pub open spec fn rect_gap_x(a: RectModel, b: RectModel) -> int {
    if a.max_x <= b.min_x {
        b.min_x - a.max_x
    } else if b.max_x <= a.min_x {
        a.min_x - b.max_x
    } else {
        0
    }
}

/// Signed separation along the Y axis; zero when the Y ranges overlap or touch.
pub open spec fn rect_gap_y(a: RectModel, b: RectModel) -> int {
    if a.max_y <= b.min_y {
        b.min_y - a.max_y
    } else if b.max_y <= a.min_y {
        a.min_y - b.max_y
    } else {
        0
    }
}

/// Area of a rectangle, with degenerate (inverted) extents clamped to zero.
pub open spec fn rect_area(r: RectModel) -> int {
    let w = if r.max_x - r.min_x > 0 { r.max_x - r.min_x } else { 0 };
    let h = if r.max_y - r.min_y > 0 { r.max_y - r.min_y } else { 0 };
    w * h
}

impl Aabb {
    pub fn from_min_max(min_x: i32, min_y: i32, max_x: i32, max_y: i32) -> (r: Self)
        ensures
            r.min_x == min_x,
            r.min_y == min_y,
            r.max_x == max_x,
            r.max_y == max_y,
    {
        Self { min_x, min_y, max_x, max_y }
    }

    /// True iff the two rectangles overlap on both axes, with open-interval
    /// semantics: rectangles whose edges exactly meet do not intersect.
    pub fn intersects(&self, other: &Aabb) -> (r: bool)
        ensures
            r == rect_intersects(self@, other@),
    {
        self.min_x < other.max_x
            && self.max_x > other.min_x
            && self.min_y < other.max_y
            && self.max_y > other.min_y
    }

    pub fn overlaps_x(&self, other: &Aabb) -> (r: bool)
        ensures
            r == rect_overlaps_x(self@, other@),
    {
        self.min_x < other.max_x && self.max_x > other.min_x
    }

    pub fn overlaps_y(&self, other: &Aabb) -> (r: bool)
        ensures
            r == rect_overlaps_y(self@, other@),
    {
        self.min_y < other.max_y && self.max_y > other.min_y
    }

    /// Separation along the X axis when the X ranges are disjoint, else zero.
    /// Callers that need a trustworthy gap must first establish overlap on the
    /// other axis.
    pub fn gap_x(&self, other: &Aabb) -> (r: i32)
        requires
            rect_gap_x(self@, other@) <= i32::MAX,
        ensures
            r == rect_gap_x(self@, other@),
    {
        if self.max_x <= other.min_x {
            other.min_x - self.max_x
        } else if other.max_x <= self.min_x {
            self.min_x - other.max_x
        } else {
            0
        }
    }

    /// Separation along the Y axis when the Y ranges are disjoint, else zero.
    pub fn gap_y(&self, other: &Aabb) -> (r: i32)
        requires
            rect_gap_y(self@, other@) <= i32::MAX,
        ensures
            r == rect_gap_y(self@, other@),
    {
        if self.max_y <= other.min_y {
            other.min_y - self.max_y
        } else if other.max_y <= self.min_y {
            self.min_y - other.max_y
        } else {
            0
        }
    }

    /// Area in square millimetres as a 64-bit quantity; negative extents are
    /// clamped to zero.
    pub fn area_mm2(&self) -> (r: i64)
        requires
            i32::MIN <= self@.max_x - self@.min_x <= i32::MAX,
            i32::MIN <= self@.max_y - self@.min_y <= i32::MAX,
        ensures
            r == rect_area(self@),
    {
        let w0: i32 = self.max_x - self.min_x;
        let h0: i32 = self.max_y - self.min_y;
        let w: i64 = if w0 > 0 { w0 as i64 } else { 0 };
        let h: i64 = if h0 > 0 { h0 as i64 } else { 0 };
        proof {
            assert(w * h == rect_area(self@)) by (nonlinear_arith)
                requires
                    w == (if self@.max_x - self@.min_x > 0 { self@.max_x - self@.min_x } else { 0 }),
                    h == (if self@.max_y - self@.min_y > 0 { self@.max_y - self@.min_y } else { 0 }),
                    rect_area(self@) == (if self@.max_x - self@.min_x > 0 { self@.max_x - self@.min_x } else { 0 }) * (if self@.max_y - self@.min_y > 0 { self@.max_y - self@.min_y } else { 0 }),
            {}
            assert(0 <= w <= 0x8000_0000i64);
            assert(0 <= h <= 0x8000_0000i64);
            assert(w * h <= 0x8000_0000i64 * 0x8000_0000i64) by (nonlinear_arith)
                requires
                    0 <= w <= 0x8000_0000i64,
                    0 <= h <= 0x8000_0000i64,
            {}
        }
        w * h
    }
}

/// A rectangle is well formed when its minimum corner does not exceed its
/// maximum corner on either axis.
pub open spec fn rect_wf(r: RectModel) -> bool {
    r.min_x <= r.max_x && r.min_y <= r.max_y
}

/// Intersection is symmetric in its two arguments.
pub proof fn lemma_intersects_symmetric(a: RectModel, b: RectModel)
    ensures
        rect_intersects(a, b) == rect_intersects(b, a),
{
}

/// Axis gaps between well-formed rectangles are symmetric in the two
/// arguments.
pub proof fn lemma_gap_symmetric(a: RectModel, b: RectModel)
    requires
        rect_wf(a),
        rect_wf(b),
    ensures
        rect_gap_x(a, b) == rect_gap_x(b, a),
        rect_gap_y(a, b) == rect_gap_y(b, a),
{
}

/// Rectangles whose edges exactly meet do not intersect.
pub proof fn lemma_touching_is_not_intersecting(a: RectModel, b: RectModel)
    requires
        a.max_x == b.min_x || b.max_x == a.min_x || a.max_y == b.min_y || b.max_y == a.min_y,
    ensures
        !rect_intersects(a, b),
{
}

} // verus!
