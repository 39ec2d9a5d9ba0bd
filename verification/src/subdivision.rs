use crate::point::{lerp_pt, Point};
use vstd::prelude::*;

verus! {

/// The point at position `i` of one corner-cutting pass over `s`
/// (meaningful for `s.len() >= 2` and `0 <= i < 2 * (s.len() - 1) + 2`):
/// the first and last points of `s` are kept, and each consecutive pair
/// contributes its quarter point and its three-quarter point, in that order.
pub open spec fn subdivided_at(s: Seq<Point>, i: int) -> Point {
    if i == 0 {
        s[0]
    } else if i == 2 * (s.len() - 1) + 1 {
        s[s.len() - 1]
    } else if (i - 1) % 2 == 0 {
        lerp_pt(s[(i - 1) / 2], s[(i - 1) / 2 + 1], 1, 4)
    } else {
        lerp_pt(s[(i - 1) / 2], s[(i - 1) / 2 + 1], 3, 4)
    }
}

/// One pass of Chaikin corner cutting: sequences of fewer than two points
/// are left unchanged; otherwise the result keeps both endpoints and
/// replaces every edge by the two points at ratios 1/4 and 3/4 along it.
pub open spec fn subdivided(s: Seq<Point>) -> Seq<Point> {
    if s.len() < 2 {
        s
    } else {
        Seq::new((2 * (s.len() - 1) + 2) as nat, |i: int| subdivided_at(s, i))
    }
}

/// `k` passes of corner cutting applied to `s`.
pub open spec fn subdivided_iter(k: nat, s: Seq<Point>) -> Seq<Point>
    decreases k,
{
    if k == 0 {
        s
    } else {
        subdivided(subdivided_iter((k - 1) as nat, s))
    }
}

/// One pass of Chaikin's corner-cutting algorithm. A sequence of fewer
/// than two points comes back unchanged; otherwise the result starts with
/// the first point, ends with the last, and holds for every consecutive
/// pair its quarter point followed by its three-quarter point.
pub fn chaikin(points: &[Point]) -> (out: Vec<Point>)
    ensures
        out@ == subdivided(points@),
        points@.len() < 2 ==> out@ == points@,
        points@.len() >= 2 ==> out@.len() == 2 * (points@.len() - 1) + 2,
{
    let m: usize = points.len();
    let mut out: Vec<Point> = Vec::new();
    if m < 2 {
        if m == 1 {
            out.push(points[0]);
        }
        proof {
            assert(out@ =~= points@);
        }
        return out;
    }
    out.push(points[0]);
    let mut i: usize = 0;
    while i < m - 1
        invariant
            2 <= m == points@.len(),
            i <= m - 1,
            out@.len() == 1 + 2 * i,
            forall|k: int| 0 <= k < out@.len() ==> out@[k] == subdivided(points@)[k],
        decreases m - 1 - i,
    {
        let p0 = points[i];
        let p1 = points[i + 1];
        let q = p0.lerp(&p1, 1, 4);
        let r = p0.lerp(&p1, 3, 4);
        out.push(q);
        out.push(r);
        proof {
            let s = points@;
            assert((2 * i as int + 1 - 1) % 2 == 0 && (2 * i as int + 1 - 1) / 2 == i as int);
            assert((2 * i as int + 2 - 1) % 2 == 1 && (2 * i as int + 2 - 1) / 2 == i as int);
            assert(subdivided(s)[2 * i as int + 1] == lerp_pt(s[i as int], s[i as int + 1], 1, 4));
            assert(subdivided(s)[2 * i as int + 2] == lerp_pt(s[i as int], s[i as int + 1], 3, 4));
        }
        i = i + 1;
    }
    out.push(points[m - 1]);
    proof {
        assert(out@ =~= subdivided(points@));
    }
    out
}

/// Law: a corner-cutting pass over at least two points keeps both
/// endpoints exactly and maps `m` points to `2 * (m - 1) + 2` points.
pub proof fn lemma_subdivided_endpoints(s: Seq<Point>)
    requires
        s.len() >= 2,
    ensures
        subdivided(s).len() == 2 * (s.len() - 1) + 2,
        subdivided(s).first() == s.first(),
        subdivided(s).last() == s.last(),
{
}

/// Law: at every iteration depth, repeated corner cutting keeps the first
/// and last points of the original sequence exactly, and never shortens it.
pub proof fn lemma_iter_endpoints(s: Seq<Point>, k: nat)
    requires
        s.len() >= 2,
    ensures
        subdivided_iter(k, s).len() >= s.len(),
        subdivided_iter(k, s).first() == s.first(),
        subdivided_iter(k, s).last() == s.last(),
    decreases k,
{
    if k > 0 {
        lemma_iter_endpoints(s, (k - 1) as nat);
        lemma_subdivided_endpoints(subdivided_iter((k - 1) as nat, s));
    }
}

/// Law: on at least two points, each further pass strictly lengthens the
/// sequence.
pub proof fn lemma_iter_grows(s: Seq<Point>, k: nat)
    requires
        s.len() >= 2,
    ensures
        subdivided_iter(k + 1, s).len() > subdivided_iter(k, s).len(),
{
    lemma_iter_endpoints(s, k);
    lemma_subdivided_endpoints(subdivided_iter(k, s));
    assert(subdivided_iter(k + 1, s) == subdivided(subdivided_iter(k, s)));
}

} // verus!
