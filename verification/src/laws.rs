//! Laws of the clip.
//!
//! Some hold whatever point the caller puts in the place of a clipped
//! endpoint, and so of a caller that rounds: what a clip gives lies in the
//! window and is its own clip, and a segment of zero length is settled at
//! once. They are stated of [`Segment::clip_by`], for every interpolation.
//!
//! The others are stated of [`Segment::clip`], in which every crossing is the
//! exact point of the plane: four steps suffice, the clip is the part of the
//! segment in the window, it is never nothing where the segment has a point
//! inside, and it does not depend on the order of the endpoints.

use crate::engine::{Action, Endpoint};
use crate::geometry::{Point, Rectangle, Segment};
use crate::lemmas::{
    lemma_affine_side, lemma_contains, lemma_convex, lemma_crossing, lemma_excess_affine,
    lemma_mirror, lemma_reparam, lemma_whole, lemma_zero_between,
};
use crate::outcode::Boundary;
use vstd::prelude::*;

verus! {

/// What a code says of a point: it has no flag exactly when the point is in
/// the window, and in a well-formed window it has the flag of a bound exactly
/// when the point lies beyond that bound.
pub proof fn lemma_code_meaning(w: Rectangle, p: Point)
    ensures
        w.code(p).inside() <==> w.contains(p),
        w.code(p).exclusive(),
        w.wf() ==> forall|bound: Boundary| w.code(p).has(bound) == #[trigger] w.beyond(bound, p),
{
}

/// The engine's state follows the segment: after a clip step, reporting the
/// code of the point that took the place of the endpoint gives the state of
/// the segment as it now stands.
pub proof fn lemma_engine_follows_segment(s: Segment, w: Rectangle, p: Point)
    ensures
        w.codes(s).action() matches Action::Clip { endpoint, .. } ==> w.codes(s).advance(w.code(p))
            == w.codes(s.with(endpoint, p)),
{
}

/// A clip step is never asked against a bound that the segment is parallel
/// to: the endpoint to be moved lies beyond the bound and the other one does
/// not, so they differ in the coordinate that the crossing divides by.
pub proof fn lemma_clip_is_not_parallel(s: Segment, w: Rectangle)
    requires
        w.wf(),
    ensures
        w.codes(s).action() matches Action::Clip { endpoint, boundary } ==> {
            &&& w.beyond(boundary, s.end(endpoint))
            &&& !w.beyond(boundary, s.end(endpoint.other()))
            &&& boundary == Boundary::Top || boundary == Boundary::Bottom ==> s.first.y
                != s.second.y
            &&& boundary == Boundary::Left || boundary == Boundary::Right ==> s.first.x
                != s.second.x
        },
{
    w.codes(s).lemma_clip_target();
    lemma_code_meaning(w, s.first);
    lemma_code_meaning(w, s.second);
}

/// The crossing that a clip step asks for is a point of the segment, and its
/// code is one that the engine's state admits: every clip step removes a
/// violation and brings no new one.
pub proof fn lemma_crossing_is_admitted(s: Segment, w: Rectangle) -> (t: real)
    requires
        w.wf(),
        w.codes(s).action() is Clip,
    ensures
        0real <= t <= 1real,
        s.crossing(w, w.codes(s).action()->boundary) == s.at(t),
        w.codes(s).admits(w.code(s.at(t))),
{
    let bound = w.codes(s).action()->boundary;
    lemma_clip_is_not_parallel(s, w);
    let t = lemma_crossing(s, w, bound);
    lemma_zero_between(w.excess(bound, s.first), w.excess(bound, s.second), t);
    let q = s.at(t);
    lemma_code_meaning(w, s.first);
    lemma_code_meaning(w, s.second);
    lemma_code_meaning(w, q);
    lemma_whole(s);
    assert forall|other: Boundary| w.beyond(other, q) implies w.beyond(other, s.first) || w.beyond(
        other,
        s.second,
    ) by {
        lemma_convex(s, w, other, 0real, 1real, t);
    }
    // each flag of the crossing is one of an endpoint
    assert(w.code(q).has(Boundary::Left) ==> w.beyond(Boundary::Left, q));
    assert(w.code(q).has(Boundary::Right) ==> w.beyond(Boundary::Right, q));
    assert(w.code(q).has(Boundary::Bottom) ==> w.beyond(Boundary::Bottom, q));
    assert(w.code(q).has(Boundary::Top) ==> w.beyond(Boundary::Top, q));
    t
}

/// Exact crossings are admitted: in a well-formed window every clip step to
/// the exact crossing removes a violation and brings no new one.
pub proof fn lemma_exact_crossings_are_admitted(w: Rectangle)
    requires
        w.wf(),
    ensures
        w.admits_steps_of(w.crossings()),
{
    assert forall|s: Segment| (#[trigger] w.codes(s)).action() is Clip implies w.codes(s).admits(
        w.code(s.crossing(w, w.codes(s).action()->boundary)),
    ) by {
        lemma_crossing_is_admitted(s, w);
    }
}

/// With an interpolation whose steps are admitted, as many clip steps as the
/// segment has violations, four at most, lead to a state that the engine
/// accepts or rejects, and further steps change nothing.
pub proof fn lemma_admitted_steps_settle(
    s: Segment,
    w: Rectangle,
    interpolate: spec_fn(Segment, Boundary) -> Point,
    steps: nat,
    more: nat,
)
    requires
        w.admits_steps_of(interpolate),
        w.codes(s).violations() <= steps <= more,
    ensures
        w.codes(s).violations() <= 4,
        !(w.codes(s.refine_by(w, interpolate, steps)).action() is Clip),
        s.refine_by(w, interpolate, more) == s.refine_by(w, interpolate, steps),
    decreases steps,
{
    w.codes(s).lemma_accept_iff_no_violation();
    if let Action::Clip { endpoint, boundary } = w.codes(s).action() {
        let p = interpolate(s, boundary);
        w.codes(s).lemma_progress(w.code(p));
        lemma_engine_follows_segment(s, w, p);
        lemma_admitted_steps_settle(
            s.with(endpoint, p),
            w,
            interpolate,
            (steps - 1) as nat,
            (more - 1) as nat,
        );
    }
}

/// In a well-formed window four clip steps to exact crossings always lead to
/// a state that the engine accepts or rejects, and further steps would change
/// nothing.
pub proof fn lemma_four_steps_suffice(s: Segment, w: Rectangle, steps: nat)
    requires
        w.wf(),
        steps >= 4,
    ensures
        !(w.codes(s.refine(w, 4)).action() is Clip),
        s.refine(w, steps) == s.refine(w, 4),
{
    lemma_exact_crossings_are_admitted(w);
    lemma_admitted_steps_settle(s, w, w.crossings(), 4, 4);
    lemma_admitted_steps_settle(s, w, w.crossings(), 4, steps);
}

/// The part of `s` from `a` to `b` holds every point of `s` that lies in `w`.
spec fn cut(s: Segment, w: Rectangle, a: real, b: real) -> bool {
    &&& 0real <= a <= b <= 1real
    &&& forall|t: real|
        0real <= t <= 1real && (t < a || b < t) ==> !w.contains(#[trigger] s.at(t))
}

/// One clip step to the exact crossing, on a part of `s` that holds all of
/// `s` in `w`, gives a shorter part that still does.
proof fn lemma_step(s: Segment, w: Rectangle, a: real, b: real) -> (r: (real, real))
    requires
        w.wf(),
        cut(s, w, a, b),
        w.codes(s.span(a, b)).action() is Clip,
    ensures
        ({
            let part = s.span(a, b);
            let action = w.codes(part).action();
            part.with(action->endpoint, part.crossing(w, action->boundary)) == s.span(r.0, r.1)
        }),
        cut(s, w, r.0, r.1),
{
    let part = s.span(a, b);
    let endpoint = w.codes(part).action()->endpoint;
    let bound = w.codes(part).action()->boundary;
    lemma_clip_is_not_parallel(part, w);
    let u = lemma_crossing_is_admitted(part, w);
    let m = a + u * (b - a);
    lemma_reparam(s, a, b, u);
    assert(a <= m <= b) by (nonlinear_arith)
        requires
            0real <= u <= 1real,
            a <= b,
            m == a + u * (b - a),
    ;
    let r = match endpoint {
        Endpoint::First => (m, b),
        Endpoint::Second => (a, m),
    };
    // what the step removed lies beyond the bound
    lemma_crossing(part, w, bound);
    assert forall|t: real| 0real <= t <= 1real && (t < r.0 || r.1 < t) implies !w.contains(
        #[trigger] s.at(t),
    ) by {
        if a <= t <= b {
            lemma_excess_affine(s, w, bound, a);
            lemma_excess_affine(s, w, bound, b);
            lemma_excess_affine(s, w, bound, m);
            lemma_excess_affine(s, w, bound, t);
            let from = match endpoint {
                Endpoint::First => a,
                Endpoint::Second => b,
            };
            lemma_affine_side(
                w.excess(bound, s.first),
                w.excess(bound, s.second) - w.excess(bound, s.first),
                from,
                m,
                t,
            );
        }
    }
    r
}

/// Clip steps to exact crossings, on a part of `s` that holds all of `s` in
/// `w`, lead to a part that still does.
proof fn lemma_refine(s: Segment, w: Rectangle, a: real, b: real, steps: nat) -> (r: (real, real))
    requires
        w.wf(),
        cut(s, w, a, b),
    ensures
        s.span(a, b).refine(w, steps) == s.span(r.0, r.1),
        cut(s, w, r.0, r.1),
    decreases steps,
{
    if steps > 0 && w.codes(s.span(a, b)).action() is Clip {
        let next = lemma_step(s, w, a, b);
        lemma_refine(s, w, next.0, next.1, (steps - 1) as nat)
    } else {
        (a, b)
    }
}

/// The clip is exact: in a well-formed window it gives the part of the
/// segment that lies in the window, in the direction of the segment, and
/// gives nothing exactly when no point of the segment lies in the window.
pub proof fn lemma_clip_is_exact(s: Segment, w: Rectangle)
    requires
        w.wf(),
    ensures
        match s.clip(w) {
            Some(part) => s.visible_as(w, part),
            None => s.misses(w),
        },
{
    lemma_whole(s);
    lemma_four_steps_suffice(s, w, 4);
    let (a, b) = lemma_refine(s, w, 0real, 1real, 4);
    let part = s.span(a, b);
    let codes = w.codes(part);
    lemma_code_meaning(w, part.first);
    lemma_code_meaning(w, part.second);
    if codes.action() == Action::Accept {
        assert forall|t: real| 0real <= t <= 1real implies (w.contains(#[trigger] s.at(t)) <==> a
            <= t <= b) by {
            if a <= t <= b {
                lemma_contains(w, s.at(t));
                assert forall|bound: Boundary| !w.beyond(bound, s.at(t)) by {
                    lemma_convex(s, w, bound, a, b, t);
                }
            }
        }
    } else {
        codes.lemma_reject_shares_a_bound();
        let bound = choose|bound: Boundary| codes.first.has(bound) && codes.second.has(bound);
        assert forall|t: real| 0real <= t <= 1real implies !w.contains(#[trigger] s.at(t)) by {
            if a <= t <= b {
                lemma_convex(s, w, bound, a, b, t);
            }
        }
    }
}

/// Idempotence: a segment that a clip gave is its own clip against the same
/// window, whatever the interpolation and the number of steps.
pub proof fn lemma_clip_is_idempotent(
    s: Segment,
    w: Rectangle,
    interpolate: spec_fn(Segment, Boundary) -> Point,
    steps: nat,
    again: nat,
)
    ensures
        s.clip_by(w, interpolate, steps) matches Some(part) ==> part.clip_by(w, interpolate, again)
            == Some(part),
        s.clip(w) matches Some(part) ==> part.clip(w) == Some(part),
{
    if let Some(part) = s.clip_by(w, interpolate, steps) {
        assert(part.refine_by(w, interpolate, again) == part);
    }
    if let Some(part) = s.clip(w) {
        assert(part.refine(w, 4) == part);
    }
}

/// Containment: both endpoints of a segment that a clip gave lie in the
/// window, its boundary included, whatever the interpolation and the number
/// of steps.
pub proof fn lemma_clip_is_contained(
    s: Segment,
    w: Rectangle,
    interpolate: spec_fn(Segment, Boundary) -> Point,
    steps: nat,
)
    ensures
        s.clip_by(w, interpolate, steps) matches Some(part) ==> w.contains(part.first)
            && w.contains(part.second),
        s.clip(w) matches Some(part) ==> w.contains(part.first) && w.contains(part.second),
{
}

/// Conservativeness: a segment with a point strictly inside a well-formed
/// window is never clipped to nothing.
pub proof fn lemma_clip_is_conservative(s: Segment, w: Rectangle, t: real)
    requires
        w.wf(),
        0real <= t <= 1real,
        w.contains_strictly(s.at(t)),
    ensures
        s.clip(w) is Some,
{
    lemma_clip_is_exact(s, w);
}

/// Symmetry: exchanging the endpoints of a segment exchanges the endpoints
/// of its clip against a well-formed window, and changes nothing else.
pub proof fn lemma_clip_is_symmetric(s: Segment, w: Rectangle)
    requires
        w.wf(),
    ensures
        s.swapped().clip(w) == match s.clip(w) {
            Some(part) => Some(part.swapped()),
            None => None,
        },
{
    let r = s.swapped();
    lemma_clip_is_exact(s, w);
    lemma_clip_is_exact(r, w);
    assert forall|t: real| r.at(t) == s.at(1real - t) by {
        lemma_mirror(s, t);
    }
    if let Some(part) = s.clip(w) {
        let (a, b) = choose|a: real, b: real|
            {
                &&& 0real <= a <= b <= 1real
                &&& part == #[trigger] s.span(a, b)
                &&& forall|t: real|
                    0real <= t <= 1real ==> (w.contains(#[trigger] s.at(t)) <==> a <= t <= b)
            };
        assert(w.contains(s.at(a)) && w.contains(s.at(b)));
        assert(r.at(1real - a) == s.at(1real - (1real - a)));
        assert(r.at(1real - b) == s.at(1real - (1real - b)));
        assert(w.contains(r.at(1real - a)) && w.contains(r.at(1real - b)));
        if let Some(mirror) = r.clip(w) {
            let (c, d) = choose|c: real, d: real|
                {
                    &&& 0real <= c <= d <= 1real
                    &&& mirror == #[trigger] r.span(c, d)
                    &&& forall|t: real|
                        0real <= t <= 1real ==> (w.contains(#[trigger] r.at(t)) <==> c <= t <= d)
                };
            assert(w.contains(r.at(c)) && w.contains(r.at(d)));
            assert(w.contains(s.at(1real - c)) && w.contains(s.at(1real - d)));
            assert(c == 1real - b && d == 1real - a);
        }
    } else if let Some(mirror) = r.clip(w) {
        let (c, d) = choose|c: real, d: real|
            {
                &&& 0real <= c <= d <= 1real
                &&& mirror == #[trigger] r.span(c, d)
                &&& forall|t: real|
                    0real <= t <= 1real ==> (w.contains(#[trigger] r.at(t)) <==> c <= t <= d)
            };
        assert(w.contains(r.at(c)));
        assert(!w.contains(s.at(1real - c)));
    }
}

/// A segment of zero length is its own clip where its point lies in the
/// window, boundary included, and is clipped to nothing elsewhere, whatever
/// the interpolation and the number of steps.
pub proof fn lemma_clip_of_point(
    s: Segment,
    w: Rectangle,
    interpolate: spec_fn(Segment, Boundary) -> Point,
    steps: nat,
)
    requires
        s.first == s.second,
    ensures
        s.clip_by(w, interpolate, steps) == (if w.contains(s.first) {
            Some(s)
        } else {
            None
        }),
        s.clip(w) == (if w.contains(s.first) {
            Some(s)
        } else {
            None
        }),
{
    w.codes(s).lemma_equal_codes();
    assert(s.refine_by(w, interpolate, steps) == s);
    assert(s.refine(w, 4) == s);
}

} // verus!
