//! The plane in exact arithmetic: points, the window, segments, and the clip
//! that results when every clip step moves an endpoint to the exact point
//! where the segment's line meets a bound.
//!
//! Everything here is mathematics. It says what the codes and actions of the
//! engine mean for coordinates, and it is what the laws of this crate are
//! stated about.

use crate::engine::{Action, Codes, Endpoint};
use crate::outcode::{classify, Boundary, Comparisons, Flags};
use vstd::prelude::*;

verus! {

/// A point of the plane.
pub ghost struct Point {
    pub x: real,
    pub y: real,
}

/// The clip window: an axis-aligned rectangle, its boundary included.
pub ghost struct Rectangle {
    pub x_min: real,
    pub y_min: real,
    pub x_max: real,
    pub y_max: real,
}

/// A line segment, given by its two endpoints in order.
pub ghost struct Segment {
    pub first: Point,
    pub second: Point,
}

impl Rectangle {
    /// The lower bounds do not exceed the upper bounds. A window of zero
    /// width or height is well formed.
    pub open spec fn wf(self) -> bool {
        self.x_min <= self.x_max && self.y_min <= self.y_max
    }

    /// `p` lies within the window or on its boundary.
    pub open spec fn contains(self, p: Point) -> bool {
        self.x_min <= p.x <= self.x_max && self.y_min <= p.y <= self.y_max
    }

    /// `p` lies within the window and not on its boundary.
    pub open spec fn contains_strictly(self, p: Point) -> bool {
        self.x_min < p.x < self.x_max && self.y_min < p.y < self.y_max
    }

    /// The four comparisons of `p` with the bounds of the window.
    pub open spec fn compare(self, p: Point) -> Comparisons {
        Comparisons {
            x_below_min: p.x < self.x_min,
            x_above_max: p.x > self.x_max,
            y_below_min: p.y < self.y_min,
            y_above_max: p.y > self.y_max,
        }
    }

    /// The region code of `p`.
    pub open spec fn code(self, p: Point) -> Flags {
        classify(self.compare(p))
    }

    /// The codes of the two endpoints of `segment`.
    pub open spec fn codes(self, segment: Segment) -> Codes {
        Codes { first: self.code(segment.first), second: self.code(segment.second) }
    }

    /// How far `p` lies beyond `boundary`: positive beyond it, zero on its
    /// line, negative on the side of the window.
    pub open spec fn excess(self, boundary: Boundary, p: Point) -> real {
        match boundary {
            Boundary::Left => self.x_min - p.x,
            Boundary::Right => p.x - self.x_max,
            Boundary::Bottom => self.y_min - p.y,
            Boundary::Top => p.y - self.y_max,
        }
    }

    /// `p` lies strictly beyond `boundary`.
    pub open spec fn beyond(self, boundary: Boundary, p: Point) -> bool {
        self.excess(boundary, p) > 0real
    }

    /// The interpolation that gives the exact crossing of a segment with a
    /// bound of this window.
    pub open spec fn crossings(self) -> spec_fn(Segment, Boundary) -> Point {
        |segment: Segment, boundary: Boundary| segment.crossing(self, boundary)
    }

    /// Every point that `interpolate` gives for a clip step has a code that
    /// the engine's state admits: it does not lie beyond the bound of the
    /// step, nor beyond a bound that neither endpoint lies beyond.
    pub open spec fn admits_steps_of(self, interpolate: spec_fn(Segment, Boundary) -> Point) -> bool {
        forall|segment: Segment|
            (#[trigger] self.codes(segment)).action() matches Action::Clip { boundary, .. }
                ==> self.codes(segment).admits(self.code(interpolate(segment, boundary)))
    }
}

impl Segment {
    /// The endpoint named by `endpoint`.
    pub open spec fn end(self, endpoint: Endpoint) -> Point {
        match endpoint {
            Endpoint::First => self.first,
            Endpoint::Second => self.second,
        }
    }

    /// The same segment with `p` in the place of `endpoint`.
    pub open spec fn with(self, endpoint: Endpoint, p: Point) -> Segment {
        match endpoint {
            Endpoint::First => Segment { first: p, second: self.second },
            Endpoint::Second => Segment { first: self.first, second: p },
        }
    }

    /// The same segment with its endpoints exchanged.
    pub open spec fn swapped(self) -> Segment {
        Segment { first: self.second, second: self.first }
    }

    /// The point at parameter `t` on the line through the endpoints: `first` at
    /// 0, `second` at 1.
    pub open spec fn at(self, t: real) -> Point {
        Point {
            x: self.first.x + t * (self.second.x - self.first.x),
            y: self.first.y + t * (self.second.y - self.first.y),
        }
    }

    /// The part of the segment from parameter `a` to parameter `b`.
    pub open spec fn span(self, a: real, b: real) -> Segment {
        Segment { first: self.at(a), second: self.at(b) }
    }

    /// No point of the segment lies in `window`.
    pub open spec fn misses(self, window: Rectangle) -> bool {
        forall|t: real| 0real <= t <= 1real ==> !window.contains(#[trigger] self.at(t))
    }

    /// `part` is what of the segment lies in `window`: it runs from one point
    /// of the segment to a later one, in the direction of the segment, and
    /// the points of the segment in `window` are those from the one to the
    /// other.
    pub open spec fn visible_as(self, window: Rectangle, part: Segment) -> bool {
        exists|a: real, b: real|
            {
                &&& 0real <= a <= b <= 1real
                &&& part == #[trigger] self.span(a, b)
                &&& forall|t: real|
                    0real <= t <= 1real ==> (window.contains(#[trigger] self.at(t)) <==> a <= t
                        <= b)
            }
    }

    /// The point where the line through the endpoints meets the line of
    /// `boundary` of `window`, by the parametric form of the line from `first`.
    /// It is defined when the segment is not parallel to that bound.
    pub open spec fn crossing(self, window: Rectangle, boundary: Boundary) -> Point {
        let dx = self.second.x - self.first.x;
        let dy = self.second.y - self.first.y;
        match boundary {
            Boundary::Top => Point {
                x: self.first.x + dx * (window.y_max - self.first.y) / dy,
                y: window.y_max,
            },
            Boundary::Bottom => Point {
                x: self.first.x + dx * (window.y_min - self.first.y) / dy,
                y: window.y_min,
            },
            Boundary::Right => Point {
                x: window.x_max,
                y: self.first.y + dy * (window.x_max - self.first.x) / dx,
            },
            Boundary::Left => Point {
                x: window.x_min,
                y: self.first.y + dy * (window.x_min - self.first.x) / dx,
            },
        }
    }

    /// The segment after at most `steps` clip steps against `window`, each
    /// putting in the place of the endpoint that the engine names the point
    /// that `interpolate` gives for the segment as it stands and the bound
    /// that the engine names. Refinement stops at the first state that the
    /// engine accepts or rejects.
    pub open spec fn refine_by(
        self,
        window: Rectangle,
        interpolate: spec_fn(Segment, Boundary) -> Point,
        steps: nat,
    ) -> Segment
        decreases steps,
    {
        if steps == 0 {
            self
        } else {
            match window.codes(self).action() {
                Action::Clip { endpoint, boundary } => self.with(
                    endpoint,
                    interpolate(self, boundary),
                ).refine_by(window, interpolate, (steps - 1) as nat),
                _ => self,
            }
        }
    }

    /// What clipping against `window` gives with `interpolate` in at most
    /// `steps` clip steps: the refined segment, if the engine accepts it.
    pub open spec fn clip_by(
        self,
        window: Rectangle,
        interpolate: spec_fn(Segment, Boundary) -> Point,
        steps: nat,
    ) -> Option<Segment> {
        let refined = self.refine_by(window, interpolate, steps);
        if window.codes(refined).action() == Action::Accept {
            Some(refined)
        } else {
            None
        }
    }

    /// The segment after at most `steps` clip steps against `window`, each
    /// moving an endpoint to the exact crossing.
    pub open spec fn refine(self, window: Rectangle, steps: nat) -> Segment {
        self.refine_by(window, window.crossings(), steps)
    }

    /// The clip of the segment against `window` in exact arithmetic: what is
    /// left of it after four clip steps to exact crossings, if the engine
    /// accepts that.
    pub open spec fn clip(self, window: Rectangle) -> Option<Segment> {
        self.clip_by(window, window.crossings(), 4)
    }
}

} // verus!
