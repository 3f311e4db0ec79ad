use vstd::prelude::*;

use crate::containment::contains_point;
use crate::path::Path;
use crate::point::Point;

verus! {

/// The shoelace contribution of the edge from `a` to `b`: twice the signed
/// area of the trapezoid between that edge and the x axis.
pub open spec fn edge_term(a: Point, b: Point) -> int {
    (b.y + a.y) * (a.x - b.x)
}

/// The vertex that follows vertex `i` around the closed polygon.
pub open spec fn next_index(n: int, i: int) -> int {
    if i + 1 < n {
        i + 1
    } else {
        0
    }
}

/// The contribution of the edge that leaves vertex `i` of `s`.
pub open spec fn area_term(s: Seq<Point>, i: int) -> int {
    edge_term(s[i], s[next_index(s.len() as int, i)])
}

/// The sum of the contributions of the edges that leave vertices `lo..hi`.
pub open spec fn term_sum(s: Seq<Point>, lo: int, hi: int) -> int
    decreases hi - lo,
{
    if hi <= lo {
        0
    } else {
        term_sum(s, lo, hi - 1) + area_term(s, hi - 1)
    }
}

/// Twice the signed area of the closed polygon with vertices `s`; zero for
/// fewer than three vertices.
pub open spec fn twice_area(s: Seq<Point>) -> int {
    if s.len() < 3 {
        0
    } else {
        term_sum(s, 0, s.len() as int)
    }
}

/// Whether `v` is a value of `i128`.
pub open spec fn fits_i128(v: int) -> bool {
    i128::MIN <= v <= i128::MAX
}

/// Whether summing the edge contributions in vertex order leaves the range of
/// `i128`, at one contribution or at one running total.
pub open spec fn area_overflows(s: Seq<Point>) -> bool {
    exists|k: int|
        0 <= k < s.len() && !(fits_i128(#[trigger] area_term(s, k)) && fits_i128(
            term_sum(s, 0, k + 1),
        ))
}

/// Twice the signed area of the polygon `p` by the shoelace formula, with the
/// last vertex joined back to the first; `Some(0)` for fewer than three
/// vertices. The sum is kept exact in `i128`: `None` when one contribution or
/// one running total leaves that range. The area itself is half the result.
pub fn double_signed_area(p: &Path) -> (r: Option<i128>)
    ensures
        r == (if p@.len() < 3 {
            Some(0i128)
        } else if area_overflows(p@) {
            None
        } else {
            Some(twice_area(p@) as i128)
        }),
{
    let n = p.len();
    if n < 3 {
        return Some(0);
    }
    let mut sum: i128 = 0;
    let mut i: usize = 0;
    while i < n
        invariant
            n == p@.len(),
            n >= 3,
            i <= n,
            sum == term_sum(p@, 0, i as int),
            forall|k: int|
                0 <= k < i ==> fits_i128(#[trigger] area_term(p@, k)) && fits_i128(
                    term_sum(p@, 0, k + 1),
                ),
        decreases n - i,
    {
        let a = p.vertex(i);
        let b = if i + 1 < n {
            p.vertex(i + 1)
        } else {
            p.vertex(0)
        };
        let height: i128 = b.y as i128 + a.y as i128;
        let width: i128 = a.x as i128 - b.x as i128;
        let term = match height.checked_mul(width) {
            Some(t) => t,
            None => {
                assert(!fits_i128(area_term(p@, i as int)));
                return None;
            },
        };
        sum = match sum.checked_add(term) {
            Some(t) => t,
            None => {
                assert(!fits_i128(term_sum(p@, 0, i + 1)));
                assert(!fits_i128(area_term(p@, i as int)) || !fits_i128(term_sum(p@, 0, i + 1)));
                return None;
            },
        };
        i = i + 1;
    }
    Some(sum)
}

/// A sum over `lo..hi` splits at any `mid` between the two.
proof fn lemma_sum_split(s: Seq<Point>, lo: int, mid: int, hi: int)
    requires
        lo <= mid <= hi,
    ensures
        term_sum(s, lo, hi) == term_sum(s, lo, mid) + term_sum(s, mid, hi),
    decreases hi - mid,
{
    if mid < hi {
        lemma_sum_split(s, lo, mid, hi - 1);
    }
}

/// Sums whose terms agree after shifting every index by `d` are equal.
proof fn lemma_sum_shift(s: Seq<Point>, t: Seq<Point>, lo: int, hi: int, d: int)
    requires
        forall|i: int| lo <= i < hi ==> #[trigger] area_term(s, i) == area_term(t, i + d),
    ensures
        term_sum(s, lo, hi) == term_sum(t, lo + d, hi + d),
    decreases hi - lo,
{
    if lo < hi {
        lemma_sum_shift(s, t, lo, hi - 1, d);
        assert(area_term(s, hi - 1) == area_term(t, hi - 1 + d));
    }
}

/// Sums whose terms are opposite after reflecting every index about `c / 2`
/// are opposite.
proof fn lemma_sum_reflect(s: Seq<Point>, t: Seq<Point>, lo: int, hi: int, c: int)
    requires
        forall|i: int| lo <= i < hi ==> #[trigger] area_term(t, i) == -area_term(s, c - i),
    ensures
        term_sum(t, lo, hi) == -term_sum(s, c - hi + 1, c - lo + 1),
    decreases hi - lo,
{
    if lo < hi {
        lemma_sum_reflect(s, t, lo, hi - 1, c);
        assert(area_term(t, hi - 1) == -area_term(s, c - (hi - 1)));
        lemma_sum_split(s, c - hi + 1, c - hi + 2, c - lo + 1);
        let x = c - hi + 1;
        assert(term_sum(s, x, x) == 0);
        assert(term_sum(s, x, x + 1) == area_term(s, x));
    }
}

/// Walking an edge the other way negates its contribution.
proof fn lemma_edge_term_reversed(a: Point, b: Point)
    ensures
        edge_term(b, a) == -edge_term(a, b),
{
    assert((a.y + b.y) * (b.x - a.x) == -((b.y + a.y) * (a.x - b.x))) by (nonlinear_arith);
}

/// Reversing the order of the vertices negates the signed area.
pub proof fn lemma_area_reversed(s: Seq<Point>)
    ensures
        twice_area(s.reverse()) == -twice_area(s),
{
    let n = s.len() as int;
    let t = s.reverse();
    if n >= 3 {
        assert(t.len() == n);
        assert forall|i: int| 0 <= i < n - 1 implies #[trigger] area_term(t, i) == -area_term(
            s,
            n - 2 - i,
        ) by {
            lemma_edge_term_reversed(s[n - 2 - i], s[n - 1 - i]);
        }
        lemma_sum_reflect(s, t, 0, n - 1, n - 2);
        lemma_edge_term_reversed(s[n - 1], s[0]);
        assert(area_term(t, n - 1) == -area_term(s, n - 1));
    }
}

/// Starting the vertex sequence at vertex `k`, with the same cyclic order,
/// leaves the signed area unchanged.
pub proof fn lemma_area_rotated(s: Seq<Point>, k: int)
    requires
        0 <= k <= s.len(),
    ensures
        twice_area(s.subrange(k, s.len() as int) + s.subrange(0, k)) == twice_area(s),
{
    let n = s.len() as int;
    let t = s.subrange(k, n) + s.subrange(0, k);
    if k == 0 || k == n {
        assert(t =~= s);
    } else if n >= 3 {
        assert(t.len() == n);
        assert forall|i: int| k <= i < n implies #[trigger] area_term(s, i) == area_term(
            t,
            i + -k,
        ) by {
            assert(t[i - k] == s[i]);
            assert(t[next_index(n, i - k)] == s[next_index(n, i)]);
        }
        lemma_sum_shift(s, t, k, n, -k);
        assert forall|i: int| 0 <= i < k implies #[trigger] area_term(s, i) == area_term(
            t,
            i + (n - k),
        ) by {
            assert(t[i + (n - k)] == s[i]);
            assert(t[next_index(n, i + (n - k))] == s[next_index(n, i)]);
        }
        lemma_sum_shift(s, t, 0, k, n - k);
        lemma_sum_split(s, 0, k, n);
        lemma_sum_split(t, 0, n - k, n);
    }
}

/// A path of fewer than three vertices encloses no area and contains no
/// point.
pub proof fn lemma_degenerate_path(s: Seq<Point>, q: Point)
    requires
        s.len() < 3,
    ensures
        twice_area(s) == 0,
        !contains_point(s, q),
{
}

} // verus!
