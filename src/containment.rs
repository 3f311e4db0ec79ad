use vstd::prelude::*;

use vstd::arithmetic::div_mod::{lemma_div_is_ordered, lemma_div_multiples_vanish};
use vstd::arithmetic::mul::lemma_mul_inequality;

use crate::path::Path;
use crate::point::Point;

verus! {

/// The absolute value of `v`.
pub open spec fn magnitude(v: int) -> int {
    if v < 0 {
        -v
    } else {
        v
    }
}

/// `n / d` rounded toward zero, as integer division of `i64` does.
pub open spec fn trunc_div(n: int, d: int) -> int {
    let m = magnitude(n) / magnitude(d);
    if (n < 0) == (d < 0) {
        m
    } else {
        -m
    }
}

/// Whether the horizontal line through `q` separates the endpoints `a` and
/// `b`: exactly one of them lies strictly above it.
pub open spec fn straddles(a: Point, b: Point, q: Point) -> bool {
    (a.y > q.y) != (b.y > q.y)
}

/// Where the edge from `a` to `b` meets the horizontal line through `q`, by
/// linear interpolation from `a` with the quotient truncated toward zero.
/// Meaningful only when the edge straddles that line.
pub open spec fn crossing_x(a: Point, b: Point, q: Point) -> int {
    trunc_div((b.x - a.x) * (q.y - a.y), b.y - a.y) + a.x
}

/// Whether the edge from `a` to `b` is crossed by the ray that leaves `q`
/// toward increasing x.
pub open spec fn edge_crosses(a: Point, b: Point, q: Point) -> bool {
    straddles(a, b, q) && q.x < crossing_x(a, b, q)
}

/// The vertex that precedes vertex `i` around the closed polygon.
pub open spec fn prev_index(n: int, i: int) -> int {
    if i == 0 {
        n - 1
    } else {
        i - 1
    }
}

/// The parity of the number of crossed edges among the edges that end at
/// vertices `0..k`, each edge joining a vertex to its predecessor.
pub open spec fn ray_parity(s: Seq<Point>, q: Point, k: int) -> bool
    decreases k,
{
    if k <= 0 {
        false
    } else {
        ray_parity(s, q, k - 1) != edge_crosses(s[k - 1], s[prev_index(s.len() as int, k - 1)], q)
    }
}

/// Whether `q` lies in the axis-aligned bounding box of the vertices `s`
/// (edges of the box included).
pub open spec fn within_bounds(s: Seq<Point>, q: Point) -> bool {
    &&& exists|i: int| 0 <= i < s.len() && #[trigger] s[i].x <= q.x
    &&& exists|i: int| 0 <= i < s.len() && #[trigger] s[i].x >= q.x
    &&& exists|i: int| 0 <= i < s.len() && #[trigger] s[i].y <= q.y
    &&& exists|i: int| 0 <= i < s.len() && #[trigger] s[i].y >= q.y
}

/// Whether the polygon with vertices `s` contains `q`: it has at least three
/// vertices, `q` lies in its bounding box, and the ray from `q` crosses an odd
/// number of its edges.
pub open spec fn contains_point(s: Seq<Point>, q: Point) -> bool {
    s.len() >= 3 && within_bounds(s, q) && ray_parity(s, q, s.len() as int)
}

/// The x at which the edge from `a` to `b` meets the horizontal line through
/// `q`. Computed exactly: the quotient is taken on magnitudes in `u128`, where
/// the product of two differences of `i64` values always fits.
fn crossing_at(a: Point, b: Point, q: Point) -> (r: i128)
    requires
        straddles(a, b, q),
    ensures
        r == crossing_x(a, b, q),
{
    let dx: i128 = b.x as i128 - a.x as i128;
    let dy: i128 = q.y as i128 - a.y as i128;
    let den: i128 = b.y as i128 - a.y as i128;
    let mdx: u128 = if dx < 0 { (-dx) as u128 } else { dx as u128 };
    let mdy: u128 = if dy < 0 { (-dy) as u128 } else { dy as u128 };
    let mden: u128 = if den < 0 { (-den) as u128 } else { den as u128 };
    assert(mdx < 0x1_0000_0000_0000_0000 && mdy <= mden && 0 < mden < 0x1_0000_0000_0000_0000);
    assert(mdx * mdy < 0x1_0000_0000_0000_0000 * 0x1_0000_0000_0000_0000) by (nonlinear_arith)
        requires
            mdx < 0x1_0000_0000_0000_0000,
            mdy < 0x1_0000_0000_0000_0000,
    ;
    let prod: u128 = mdx * mdy;
    let m: u128 = prod / mden;
    proof {
        lemma_mul_inequality(mdy as int, mden as int, mdx as int);
        lemma_div_is_ordered(mdy * mdx, mden * mdx, mden as int);
        lemma_div_multiples_vanish(mdx as int, mden as int);
        assert(mdx * mdy == mdy * mdx) by (nonlinear_arith);
        assert(mden * mdx == mdx * mden) by (nonlinear_arith);
        assert(magnitude(dx * dy) == mdx * mdy) by (nonlinear_arith)
            requires
                mdx == magnitude(dx as int),
                mdy == magnitude(dy as int),
        ;
        assert(dx * dy != 0 ==> ((dx * dy < 0) == ((dx < 0) != (dy < 0)))) by (nonlinear_arith);
    }
    let neg = ((dx < 0) != (dy < 0)) != (den < 0);
    let t: i128 = if neg { -(m as i128) } else { m as i128 };
    t + a.x as i128
}

/// Whether the polygon `p` contains `q`: false for fewer than three vertices
/// or outside the bounding box; otherwise the parity of the edges crossed by a
/// ray from `q` toward increasing x. Points on an edge get whatever that
/// parity gives.
pub fn is_point_in_polygon(q: Point, p: &Path) -> (r: bool)
    ensures
        r == contains_point(p@, q),
        p@.len() < 3 ==> !r,
{
    let n = p.len();
    if n < 3 {
        return false;
    }
    let first = p.vertex(0);
    let mut min_x = first.x;
    let mut max_x = first.x;
    let mut min_y = first.y;
    let mut max_y = first.y;
    let ghost mut at_min_x: int = 0;
    let ghost mut at_max_x: int = 0;
    let ghost mut at_min_y: int = 0;
    let ghost mut at_max_y: int = 0;
    let mut i: usize = 1;
    while i < n
        invariant
            n == p@.len(),
            1 <= i <= n,
            0 <= at_min_x < i && p@[at_min_x].x == min_x,
            0 <= at_max_x < i && p@[at_max_x].x == max_x,
            0 <= at_min_y < i && p@[at_min_y].y == min_y,
            0 <= at_max_y < i && p@[at_max_y].y == max_y,
            forall|k: int| 0 <= k < i ==> min_x <= #[trigger] p@[k].x <= max_x,
            forall|k: int| 0 <= k < i ==> min_y <= #[trigger] p@[k].y <= max_y,
        decreases n - i,
    {
        let c = p.vertex(i);
        if c.x < min_x {
            min_x = c.x;
            proof { at_min_x = i as int; }
        }
        if c.x > max_x {
            max_x = c.x;
            proof { at_max_x = i as int; }
        }
        if c.y < min_y {
            min_y = c.y;
            proof { at_min_y = i as int; }
        }
        if c.y > max_y {
            max_y = c.y;
            proof { at_max_y = i as int; }
        }
        i = i + 1;
    }
    if q.x < min_x || q.x > max_x || q.y < min_y || q.y > max_y {
        return false;
    }
    assert(within_bounds(p@, q)) by {
        assert(p@[at_min_x].x <= q.x);
        assert(p@[at_max_x].x >= q.x);
        assert(p@[at_min_y].y <= q.y);
        assert(p@[at_max_y].y >= q.y);
    }

    let mut inside = false;
    let mut i: usize = 0;
    let mut j: usize = n - 1;
    while i < n
        invariant
            n == p@.len(),
            n >= 3,
            i <= n,
            j == prev_index(n as int, i as int),
            inside == ray_parity(p@, q, i as int),
        decreases n - i,
    {
        let a = p.vertex(i);
        let b = p.vertex(j);
        if (a.y > q.y) != (b.y > q.y) && (q.x as i128) < crossing_at(a, b, q) {
            inside = !inside;
        }
        j = i;
        i = i + 1;
    }
    inside
}

} // verus!
