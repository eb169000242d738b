//! Lemmas on which the laws of the clip rest: arithmetic of affine functions
//! of a real parameter, and how the points of a segment lie to the bounds of
//! the window.

use crate::geometry::{Point, Rectangle, Segment};
use crate::outcode::Boundary;
use vstd::prelude::*;

verus! {

/// A quotient times its divisor gives the dividend back, and a factor may be
/// moved out of the dividend.
pub(crate) proof fn lemma_quotient(a: real, m: real, d: real)
    requires
        d != 0real,
    ensures
        (a / d) * d == a,
        (m * a) / d == (a / d) * m,
{
    assert((a / d) * d == a) by (nonlinear_arith)
        requires
            d != 0real,
    ;
    assert((m * a) / d == (a / d) * m) by (nonlinear_arith)
        requires
            d != 0real,
    ;
}

/// The value of `c + t * d` at `t` between `a` and `b` is positive where it
/// is positive at both `a` and `b`, and not positive where it is positive at
/// neither.
pub(crate) proof fn lemma_affine_between(c: real, d: real, a: real, b: real, t: real)
    requires
        a <= t <= b,
    ensures
        c + a * d > 0real && c + b * d > 0real ==> c + t * d > 0real,
        c + a * d <= 0real && c + b * d <= 0real ==> c + t * d <= 0real,
{
    assert(c + a * d > 0real && c + b * d > 0real ==> c + t * d > 0real) by (nonlinear_arith)
        requires
            a <= t <= b,
    ;
    assert(c + a * d <= 0real && c + b * d <= 0real ==> c + t * d <= 0real) by (nonlinear_arith)
        requires
            a <= t <= b,
    ;
}

/// Where `c + t * d` is positive at `a` and zero at `z`, it is positive at
/// every `t` on the same side of `z` as `a`.
pub(crate) proof fn lemma_affine_side(c: real, d: real, a: real, z: real, t: real)
    requires
        c + a * d > 0real,
        c + z * d == 0real,
        a <= t < z || z < t <= a,
    ensures
        c + t * d > 0real,
{
    assert(c + t * d > 0real) by (nonlinear_arith)
        requires
            c + a * d > 0real,
            c + z * d == 0real,
            a <= t < z || z < t <= a,
    ;
}

/// The zero of an affine function that is positive at one of 0 and 1 and not
/// positive at the other lies between the two, and not at the one where the
/// function is positive.
pub(crate) proof fn lemma_zero_between(e1: real, e2: real, z: real)
    requires
        z * (e1 - e2) == e1,
        e1 > 0real && e2 <= 0real || e2 > 0real && e1 <= 0real,
    ensures
        0real <= z <= 1real,
        e1 > 0real ==> z > 0real,
        e2 > 0real ==> z < 1real,
{
    assert(0real <= z <= 1real && (e1 > 0real ==> z > 0real) && (e2 > 0real ==> z < 1real))
        by (nonlinear_arith)
        requires
            z * (e1 - e2) == e1,
            e1 > 0real && e2 <= 0real || e2 > 0real && e1 <= 0real,
    ;
}

/// Along a segment the excess beyond a bound is an affine function of the
/// parameter.
pub(crate) proof fn lemma_excess_affine(s: Segment, w: Rectangle, bound: Boundary, t: real)
    ensures
        w.excess(bound, s.at(t)) == w.excess(bound, s.first) + t * (w.excess(bound, s.second)
            - w.excess(bound, s.first)),
{
    let dx = s.second.x - s.first.x;
    let dy = s.second.y - s.first.y;
    assert(t * (-dx) == -(t * dx)) by (nonlinear_arith);
    assert(t * (-dy) == -(t * dy)) by (nonlinear_arith);
    match bound {
        Boundary::Left => {
            assert(w.excess(bound, s.second) - w.excess(bound, s.first) == -dx);
        },
        Boundary::Right => {
            assert(w.excess(bound, s.second) - w.excess(bound, s.first) == dx);
        },
        Boundary::Bottom => {
            assert(w.excess(bound, s.second) - w.excess(bound, s.first) == -dy);
        },
        Boundary::Top => {
            assert(w.excess(bound, s.second) - w.excess(bound, s.first) == dy);
        },
    }
}

/// The crossing of a segment with a bound that it is not parallel to is the
/// point of its line whose excess beyond that bound is zero. The result is
/// the parameter of that point.
pub(crate) proof fn lemma_crossing(s: Segment, w: Rectangle, bound: Boundary) -> (t: real)
    requires
        w.excess(bound, s.first) != w.excess(bound, s.second),
    ensures
        s.crossing(w, bound) == s.at(t),
        w.excess(bound, s.at(t)) == 0real,
        t * (w.excess(bound, s.first) - w.excess(bound, s.second)) == w.excess(bound, s.first),
{
    let dx = s.second.x - s.first.x;
    let dy = s.second.y - s.first.y;
    let t = match bound {
        Boundary::Left => (w.x_min - s.first.x) / dx,
        Boundary::Right => (w.x_max - s.first.x) / dx,
        Boundary::Bottom => (w.y_min - s.first.y) / dy,
        Boundary::Top => (w.y_max - s.first.y) / dy,
    };
    match bound {
        Boundary::Left => {
            lemma_quotient(w.x_min - s.first.x, dy, dx);
        },
        Boundary::Right => {
            lemma_quotient(w.x_max - s.first.x, dy, dx);
        },
        Boundary::Bottom => {
            lemma_quotient(w.y_min - s.first.y, dx, dy);
        },
        Boundary::Top => {
            lemma_quotient(w.y_max - s.first.y, dx, dy);
        },
    }
    lemma_excess_affine(s, w, bound, t);
    let e1 = w.excess(bound, s.first);
    let e2 = w.excess(bound, s.second);
    assert(t * (e1 - e2) == -(t * (e2 - e1))) by (nonlinear_arith);
    t
}

/// The part of a segment between two of its parameters, taken as a segment
/// of its own, runs through the same points.
pub(crate) proof fn lemma_reparam(s: Segment, a: real, b: real, u: real)
    ensures
        s.span(a, b).at(u) == s.at(a + u * (b - a)),
{
    let dx = s.second.x - s.first.x;
    let dy = s.second.y - s.first.y;
    assert((a * dx) + u * ((b * dx) - (a * dx)) == (a + u * (b - a)) * dx) by (nonlinear_arith);
    assert((a * dy) + u * ((b * dy) - (a * dy)) == (a + u * (b - a)) * dy) by (nonlinear_arith);
}

/// The parameters 0 and 1 give the endpoints.
pub(crate) proof fn lemma_whole(s: Segment)
    ensures
        s.span(0real, 1real) == s,
{
    let dx = s.second.x - s.first.x;
    let dy = s.second.y - s.first.y;
    assert(0real * dx == 0real && 1real * dx == dx) by (nonlinear_arith);
    assert(0real * dy == 0real && 1real * dy == dy) by (nonlinear_arith);
}

/// The segment with its endpoints exchanged runs through the same points in
/// the other direction.
pub(crate) proof fn lemma_mirror(s: Segment, t: real)
    ensures
        s.swapped().at(t) == s.at(1real - t),
{
    lemma_whole(s);
    lemma_reparam(s, 1real, 0real, t);
    assert(1real + t * (0real - 1real) == 1real - t) by (nonlinear_arith);
}

/// Between two parameters of a segment, a bound that neither point lies
/// beyond has no point beyond it, and a bound that both lie beyond has every
/// point beyond it.
pub(crate) proof fn lemma_convex(
    s: Segment,
    w: Rectangle,
    bound: Boundary,
    a: real,
    b: real,
    t: real,
)
    requires
        a <= t <= b,
    ensures
        w.beyond(bound, s.at(a)) && w.beyond(bound, s.at(b)) ==> w.beyond(bound, s.at(t)),
        !w.beyond(bound, s.at(a)) && !w.beyond(bound, s.at(b)) ==> !w.beyond(bound, s.at(t)),
{
    lemma_excess_affine(s, w, bound, a);
    lemma_excess_affine(s, w, bound, b);
    lemma_excess_affine(s, w, bound, t);
    lemma_affine_between(
        w.excess(bound, s.first),
        w.excess(bound, s.second) - w.excess(bound, s.first),
        a,
        b,
        t,
    );
}

/// A point is in the window exactly when it lies beyond none of the bounds.
pub(crate) proof fn lemma_contains(w: Rectangle, p: Point)
    ensures
        w.contains(p) <==> forall|bound: Boundary| !w.beyond(bound, p),
{
    if forall|bound: Boundary| !w.beyond(bound, p) {
        assert(!w.beyond(Boundary::Left, p));
        assert(!w.beyond(Boundary::Right, p));
        assert(!w.beyond(Boundary::Bottom, p));
        assert(!w.beyond(Boundary::Top, p));
    }
}

} // verus!
