use vstd::prelude::*;

use crate::point::Point;

verus! {

/// An ordered sequence of vertices read as a closed polygon: an implicit edge
/// joins the last vertex back to the first. Any number of vertices is allowed.
#[derive(Debug)]
pub struct Path {
    path: Vec<Point>,
}

impl View for Path {
    type V = Seq<Point>;

    closed spec fn view(&self) -> Seq<Point> {
        self.path@
    }
}

impl Path {
    /// An empty path.
    pub fn new() -> (r: Path)
        ensures
            r@ == Seq::<Point>::empty(),
    {
        Path { path: Vec::new() }
    }

    /// Appends `p` as the new last vertex.
    pub fn push(&mut self, p: Point)
        ensures
            final(self)@ == old(self)@.push(p),
    {
        self.path.push(p);
    }

    /// The number of vertices.
    pub fn len(&self) -> (r: usize)
        ensures
            r == self@.len(),
    {
        self.path.len()
    }

    /// The vertex at position `i`.
    pub fn vertex(&self, i: usize) -> (r: Point)
        requires
            i < self@.len(),
        ensures
            r == self@[i as int],
    {
        self.path[i]
    }
}

impl Default for Path {
    fn default() -> (r: Path)
        ensures
            r@ == Seq::<Point>::empty(),
    {
        Path::new()
    }
}

impl core::ops::AddAssign<Point> for Path {
    fn add_assign(&mut self, p: Point)
        ensures
            final(self)@ == old(self)@.push(p),
    {
        self.push(p);
    }
}

/// Appends `p` to `handle` as its new last vertex.
pub fn add_point_to_path(p: Point, handle: &mut Path)
    ensures
        final(handle)@ == old(handle)@.push(p),
{
    core::ops::AddAssign::add_assign(handle, p);
}

} // verus!
