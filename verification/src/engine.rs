//! The clipping engine, as far as it is decided on region codes.
//!
//! A clip is a short dialogue. The engine looks at the codes of the two
//! endpoints and answers with an [`Action`]: accept the segment, reject it, or
//! move one endpoint to where the segment's line meets one bound of the
//! window. After a move the caller reports the code of the new endpoint, and
//! the engine decides again.

use crate::outcode::{Boundary, Flags, Outcode};
use vstd::pervasive::unreached;
use vstd::prelude::*;

verus! {

/// One of the two endpoints of a segment.
#[derive(Clone, Copy, Debug, PartialEq, Eq, Hash, Structural)]
pub enum Endpoint {
    First,
    Second,
}

impl Endpoint {
    /// The other endpoint.
    pub open spec fn other(self) -> Endpoint {
        match self {
            Endpoint::First => Endpoint::Second,
            Endpoint::Second => Endpoint::First,
        }
    }
}

/// What the engine does next.
#[derive(Clone, Copy, Debug, PartialEq, Eq, Hash, Structural)]
pub enum Action {
    /// Both endpoints are within the window: the segment is the result.
    Accept,
    /// Both endpoints lie beyond one and the same bound: nothing is visible.
    Reject,
    /// `endpoint` lies beyond `boundary` and the other endpoint does not:
    /// `endpoint` is to be moved to where the line meets `boundary`.
    Clip { endpoint: Endpoint, boundary: Boundary },
}

/// Mathematical model of the engine's state: the codes of the two endpoints.
pub ghost struct Codes {
    pub first: Flags,
    pub second: Flags,
}

impl Codes {
    /// The code of `endpoint`.
    pub open spec fn of(self, endpoint: Endpoint) -> Flags {
        match endpoint {
            Endpoint::First => self.first,
            Endpoint::Second => self.second,
        }
    }

    /// The same state with `code` in the place of the code of `endpoint`.
    pub open spec fn with(self, endpoint: Endpoint, code: Flags) -> Codes {
        match endpoint {
            Endpoint::First => Codes { first: code, second: self.second },
            Endpoint::Second => Codes { first: self.first, second: code },
        }
    }

    /// The state of the same segment with its endpoints exchanged.
    pub open spec fn swapped(self) -> Codes {
        Codes { first: self.second, second: self.first }
    }

    /// The action that the engine takes in this state.
    ///
    /// The segment is accepted when neither code has a flag, and rejected when
    /// the codes share one. Otherwise an endpoint is clipped: the first one if
    /// it has a flag, else the second, against the bound that its code puts
    /// first.
    pub open spec fn action(self) -> Action {
        if self.first.inside() && self.second.inside() {
            Action::Accept
        } else if !self.first.intersection(self.second).inside() {
            Action::Reject
        } else if !self.first.inside() {
            Action::Clip { endpoint: Endpoint::First, boundary: self.first.priority() }
        } else {
            Action::Clip { endpoint: Endpoint::Second, boundary: self.second.priority() }
        }
    }

    /// The state after the caller reported `code` for the endpoint that
    /// `action` asked to move. A state that asks for no move stays as it is.
    pub open spec fn advance(self, code: Flags) -> Codes {
        match self.action() {
            Action::Clip { endpoint, .. } => self.with(endpoint, code),
            _ => self,
        }
    }

    /// Number of bounds that at least one endpoint lies beyond.
    pub open spec fn violations(self) -> nat {
        self.first.union(self.second).count()
    }

    /// `code` may be reported in this state: it has not the flag of the bound
    /// that the action names, and no flag that neither endpoint has. The code
    /// of a point of the segment that lies on that bound is of this kind.
    pub open spec fn admits(self, code: Flags) -> bool {
        self.action() matches Action::Clip { boundary, .. } ==> !code.has(boundary)
            && code.subset_of(self.first.union(self.second))
    }

    /// The state after the caller reported `reports` one after the other.
    pub open spec fn run(self, reports: Seq<Flags>) -> Codes
        decreases reports.len(),
    {
        if reports.len() == 0 {
            self
        } else {
            self.advance(reports.first()).run(reports.drop_first())
        }
    }

    /// Each of `reports` is admitted by the state in which it is reported.
    pub open spec fn admits_all(self, reports: Seq<Flags>) -> bool
        decreases reports.len(),
    {
        reports.len() == 0 || (self.admits(reports.first()) && self.advance(
            reports.first(),
        ).admits_all(reports.drop_first()))
    }

    /// A clip step names an endpoint that lies beyond the bound it names,
    /// while the other endpoint does not.
    pub proof fn lemma_clip_target(self)
        ensures
            self.action() matches Action::Clip { endpoint, boundary } ==> self.of(endpoint).has(
                boundary,
            ) && !self.of(endpoint.other()).has(boundary),
    {
    }

    /// The engine accepts exactly the states in which neither endpoint has a
    /// flag. These are the states without a violation, and no state has more
    /// than four.
    pub proof fn lemma_accept_iff_no_violation(self)
        ensures
            self.action() == Action::Accept <==> self.first.inside() && self.second.inside(),
            self.action() == Action::Accept <==> self.violations() == 0,
            self.violations() <= 4,
    {
    }

    /// The engine rejects only states in which both endpoints lie beyond one
    /// and the same bound.
    pub proof fn lemma_reject_shares_a_bound(self)
        ensures
            self.action() == Action::Reject <==> !(self.first.inside() && self.second.inside())
                && exists|bound: Boundary| self.first.has(bound) && self.second.has(bound),
    {
        let shared = self.first.intersection(self.second);
        if !shared.inside() {
            assert(self.first.has(shared.priority()) && self.second.has(shared.priority()));
        }
    }

    /// Every clip step whose report the state admits leaves fewer
    /// violations than there were.
    pub proof fn lemma_progress(self, code: Flags)
        requires
            self.action() is Clip,
            self.admits(code),
        ensures
            self.advance(code).violations() < self.violations(),
    {
        self.lemma_clip_target();
    }

    /// After as many admitted reports as the state has violations, four at
    /// most, the engine accepts or rejects.
    pub proof fn lemma_settles(self, reports: Seq<Flags>)
        requires
            self.admits_all(reports),
            reports.len() >= self.violations(),
        ensures
            !(self.run(reports).action() is Clip),
        decreases reports.len(),
    {
        self.lemma_accept_iff_no_violation();
        if self.action() is Clip {
            self.lemma_progress(reports.first());
            self.advance(reports.first()).lemma_settles(reports.drop_first());
        } else {
            self.lemma_settled_stays(reports);
        }
    }

    /// A state that the engine accepts or rejects stays as it is, whatever is
    /// reported.
    pub proof fn lemma_settled_stays(self, reports: Seq<Flags>)
        requires
            !(self.action() is Clip),
        ensures
            self.run(reports) == self,
        decreases reports.len(),
    {
        if reports.len() > 0 {
            self.lemma_settled_stays(reports.drop_first());
        }
    }

    /// Exchanging the endpoints turns acceptance into acceptance and
    /// rejection into rejection. Where one endpoint alone has a flag, it is
    /// the one to be clipped either way, against the same bound.
    pub proof fn lemma_swapped(self)
        ensures
            self.swapped().action() == Action::Accept <==> self.action() == Action::Accept,
            self.swapped().action() == Action::Reject <==> self.action() == Action::Reject,
            self.first.inside() || self.second.inside() ==> (self.action() matches Action::Clip {
                endpoint,
                boundary,
            } ==> self.swapped().action() == (Action::Clip {
                endpoint: endpoint.other(),
                boundary,
            })),
    {
    }

    /// A segment whose endpoints have one and the same code is accepted or
    /// rejected at once.
    pub proof fn lemma_equal_codes(self)
        requires
            self.first == self.second,
        ensures
            self.action() == (if self.first.inside() {
                Action::Accept
            } else {
                Action::Reject
            }),
    {
    }
}

/// The engine's state: the codes of the two endpoints of the segment as it
/// stands.
#[derive(Clone, Copy, Debug, PartialEq, Eq, Hash)]
pub struct ClipState {
    pub first: Outcode,
    pub second: Outcode,
}

impl View for ClipState {
    type V = Codes;

    open spec fn view(&self) -> Codes {
        Codes { first: self.first@, second: self.second@ }
    }
}

impl ClipState {
    /// Decides what to do with the segment.
    pub fn action(&self) -> (action: Action)
        ensures
            action == self@.action(),
    {
        if self.first.union(self.second).is_inside() {
            Action::Accept
        } else if !self.first.intersection(self.second).is_inside() {
            Action::Reject
        } else {
            let (endpoint, code) = if !self.first.is_inside() {
                (Endpoint::First, self.first)
            } else {
                (Endpoint::Second, self.second)
            };
            match code.priority_boundary() {
                Some(boundary) => Action::Clip { endpoint, boundary },
                None => unreached(),
            }
        }
    }

    /// Number of bounds that at least one endpoint lies beyond. No run of
    /// clip steps with admitted reports is longer than this.
    pub fn violations(&self) -> (n: u8)
        ensures
            n == self@.violations(),
    {
        self.first.union(self.second).count()
    }

    /// Whether `code` is a report that this state admits. The code of a point
    /// of the segment on the bound that the action names always is; a code
    /// that is not shows that a coordinate or the window was not as it
    /// should be, or that rounding moved the point across a bound.
    pub fn admits(&self, code: Outcode) -> (r: bool)
        ensures
            r == self@.admits(code@),
    {
        match self.action() {
            Action::Clip { boundary, .. } => !code.has(boundary) && code.is_subset_of(
                self.first.union(self.second),
            ),
            _ => true,
        }
    }

    /// Takes in the code of the endpoint that the last action moved.
    pub fn advance(self, code: Outcode) -> (next: ClipState)
        ensures
            next@ == self@.advance(code@),
    {
        match self.action() {
            Action::Clip { endpoint: Endpoint::First, .. } => ClipState {
                first: code,
                second: self.second,
            },
            Action::Clip { endpoint: Endpoint::Second, .. } => ClipState {
                first: self.first,
                second: code,
            },
            _ => self,
        }
    }
}

} // verus!
