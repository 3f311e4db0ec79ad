use vstd::prelude::*;

verus! {

/// A location or displacement in the plane, with 64-bit signed coordinates.
///
/// Addition and subtraction wrap around on overflow (two's complement), so
/// both are total and each undoes the other.
#[derive(Debug, Default, Clone, Copy, PartialEq, Eq, Structural)]
pub struct Point {
    pub x: i64,
    pub y: i64,
}

/// Builds the point `(x, y)`.
pub fn point(x: i64, y: i64) -> (r: Point)
    ensures
        r == (Point { x, y }),
{
    Point { x, y }
}

/// Component-wise wrapping sum.
pub open spec fn point_sum(a: Point, b: Point) -> Point {
    Point { x: a.x.wrapping_add(b.x), y: a.y.wrapping_add(b.y) }
}

/// Component-wise wrapping difference.
pub open spec fn point_difference(a: Point, b: Point) -> Point {
    Point { x: a.x.wrapping_sub(b.x), y: a.y.wrapping_sub(b.y) }
}

impl vstd::std_specs::ops::AddSpecImpl for Point {
    open spec fn obeys_add_spec() -> bool {
        true
    }

    open spec fn add_req(self, rhs: Point) -> bool {
        true
    }

    open spec fn add_spec(self, rhs: Point) -> Point {
        point_sum(self, rhs)
    }
}

impl core::ops::Add for Point {
    type Output = Point;

    fn add(self, other: Point) -> (r: Point)
        ensures
            r == point_sum(self, other),
    {
        Point { x: self.x.wrapping_add(other.x), y: self.y.wrapping_add(other.y) }
    }
}

impl vstd::std_specs::ops::SubSpecImpl for Point {
    open spec fn obeys_sub_spec() -> bool {
        true
    }

    open spec fn sub_req(self, rhs: Point) -> bool {
        true
    }

    open spec fn sub_spec(self, rhs: Point) -> Point {
        point_difference(self, rhs)
    }
}

impl core::ops::Sub for Point {
    type Output = Point;

    fn sub(self, other: Point) -> (r: Point)
        ensures
            r == point_difference(self, other),
    {
        Point { x: self.x.wrapping_sub(other.x), y: self.y.wrapping_sub(other.y) }
    }
}

/// Subtracting `b` undoes adding `b`: `(a + b) - b == a` for all points.
pub proof fn lemma_add_then_sub(a: Point, b: Point)
    ensures
        point_difference(point_sum(a, b), b) == a,
{
}

} // verus!
