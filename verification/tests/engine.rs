use cohen_sutherland::engine::{Action, ClipState, Endpoint};
use cohen_sutherland::outcode::{Boundary, Outcode, BOTTOM, INSIDE, LEFT, RIGHT, TOP};

fn code(bits: u8) -> Outcode {
    Outcode::from_bits(bits).unwrap()
}

fn state(first: u8, second: u8) -> ClipState {
    ClipState { first: code(first), second: code(second) }
}

/// The decision written out on raw bit patterns.
fn decide(outcode1: u8, outcode2: u8) -> Action {
    if (outcode1 | outcode2) == INSIDE {
        Action::Accept
    } else if (outcode1 & outcode2) != INSIDE {
        Action::Reject
    } else {
        let (endpoint, outcode_to_clip) =
            if outcode1 != INSIDE { (Endpoint::First, outcode1) } else { (Endpoint::Second, outcode2) };
        let boundary = if (outcode_to_clip & TOP) != 0 {
            Boundary::Top
        } else if (outcode_to_clip & BOTTOM) != 0 {
            Boundary::Bottom
        } else if (outcode_to_clip & RIGHT) != 0 {
            Boundary::Right
        } else {
            Boundary::Left
        };
        Action::Clip { endpoint, boundary }
    }
}

#[test]
fn accepts_two_inside_endpoints() {
    assert_eq!(state(INSIDE, INSIDE).action(), Action::Accept);
}

#[test]
fn rejects_endpoints_that_share_a_flag() {
    assert_eq!(state(RIGHT, RIGHT).action(), Action::Reject);
    assert_eq!(state(LEFT | TOP, RIGHT | TOP).action(), Action::Reject);
    assert_eq!(state(LEFT | BOTTOM, LEFT).action(), Action::Reject);
}

#[test]
fn clips_the_first_endpoint_when_both_are_outside() {
    assert_eq!(
        state(LEFT | BOTTOM, RIGHT | TOP).action(),
        Action::Clip { endpoint: Endpoint::First, boundary: Boundary::Bottom }
    );
    assert_eq!(
        state(LEFT, RIGHT).action(),
        Action::Clip { endpoint: Endpoint::First, boundary: Boundary::Left }
    );
    assert_eq!(
        state(BOTTOM, TOP).action(),
        Action::Clip { endpoint: Endpoint::First, boundary: Boundary::Bottom }
    );
}

#[test]
fn clips_the_second_endpoint_when_the_first_is_inside() {
    assert_eq!(
        state(INSIDE, RIGHT | TOP).action(),
        Action::Clip { endpoint: Endpoint::Second, boundary: Boundary::Top }
    );
    assert_eq!(
        state(INSIDE, RIGHT).action(),
        Action::Clip { endpoint: Endpoint::Second, boundary: Boundary::Right }
    );
}

#[test]
fn action_of_every_pair_of_codes() {
    for a in 0u8..16 {
        for b in 0u8..16 {
            assert_eq!(state(a, b).action(), decide(a, b), "codes {a:#06b} and {b:#06b}");
        }
    }
}

#[test]
fn accepts_exactly_the_pairs_without_a_flag() {
    for a in 0u8..16 {
        for b in 0u8..16 {
            assert_eq!(state(a, b).action() == Action::Accept, a == INSIDE && b == INSIDE);
        }
    }
}

#[test]
fn equal_codes_are_settled_at_once() {
    assert_eq!(state(INSIDE, INSIDE).action(), Action::Accept);
    for a in 1u8..16 {
        assert_eq!(state(a, a).action(), Action::Reject);
    }
}

#[test]
fn clip_names_a_flag_of_the_endpoint_that_the_other_lacks() {
    for a in 0u8..16 {
        for b in 0u8..16 {
            if let Action::Clip { endpoint, boundary } = state(a, b).action() {
                let (own, other) = match endpoint {
                    Endpoint::First => (a, b),
                    Endpoint::Second => (b, a),
                };
                assert!(own & boundary.mask() != 0);
                assert!(other & boundary.mask() == 0);
            }
        }
    }
}

#[test]
fn exchanging_the_endpoints_keeps_the_kind_of_action() {
    for a in 0u8..16 {
        for b in 0u8..16 {
            let forth = state(a, b).action();
            let back = state(b, a).action();
            assert_eq!(forth == Action::Accept, back == Action::Accept);
            assert_eq!(forth == Action::Reject, back == Action::Reject);
            if a == INSIDE || b == INSIDE {
                if let Action::Clip { endpoint, boundary } = forth {
                    let mirrored = match endpoint {
                        Endpoint::First => Endpoint::Second,
                        Endpoint::Second => Endpoint::First,
                    };
                    assert_eq!(back, Action::Clip { endpoint: mirrored, boundary });
                }
            }
        }
    }
}

#[test]
fn advance_replaces_the_code_of_the_clipped_endpoint() {
    let s = state(LEFT | BOTTOM, RIGHT | TOP);
    assert_eq!(s.advance(code(LEFT)), state(LEFT, RIGHT | TOP));
    let s = state(INSIDE, RIGHT | TOP);
    assert_eq!(s.advance(code(RIGHT)), state(INSIDE, RIGHT));
    assert_eq!(s.advance(code(INSIDE)), state(INSIDE, INSIDE));
}

#[test]
fn advance_leaves_a_settled_state_alone() {
    assert_eq!(state(INSIDE, INSIDE).advance(code(TOP)), state(INSIDE, INSIDE));
    assert_eq!(state(RIGHT, RIGHT | TOP).advance(code(INSIDE)), state(RIGHT, RIGHT | TOP));
}

#[test]
fn advance_of_every_state() {
    for a in 0u8..16 {
        for b in 0u8..16 {
            for c in 0u8..16 {
                let expected = match decide(a, b) {
                    Action::Clip { endpoint: Endpoint::First, .. } => state(c, b),
                    Action::Clip { endpoint: Endpoint::Second, .. } => state(a, c),
                    _ => state(a, b),
                };
                assert_eq!(state(a, b).advance(code(c)), expected);
            }
        }
    }
}

#[test]
fn violations_count_the_bounds_that_an_endpoint_lies_beyond() {
    assert_eq!(state(INSIDE, INSIDE).violations(), 0);
    assert_eq!(state(LEFT, INSIDE).violations(), 1);
    assert_eq!(state(LEFT, LEFT).violations(), 1);
    assert_eq!(state(LEFT | BOTTOM, BOTTOM).violations(), 2);
    assert_eq!(state(LEFT | BOTTOM, RIGHT).violations(), 3);
    assert_eq!(state(LEFT | BOTTOM, RIGHT | TOP).violations(), 4);
    for a in 0u8..16 {
        for b in 0u8..16 {
            assert_eq!(u32::from(state(a, b).violations()), (a | b).count_ones());
        }
    }
}

#[test]
fn admits_codes_without_the_clipped_flag_and_without_new_flags() {
    // first endpoint to be clipped against the bottom bound
    let s = state(LEFT | BOTTOM, RIGHT);
    assert!(s.admits(code(INSIDE)));
    assert!(s.admits(code(LEFT)));
    assert!(s.admits(code(RIGHT)));
    assert!(!s.admits(code(BOTTOM)));
    assert!(!s.admits(code(LEFT | BOTTOM)));
    assert!(!s.admits(code(TOP)));
    assert!(!s.admits(code(LEFT | TOP)));
}

#[test]
fn settled_state_admits_every_code() {
    for c in 0u8..16 {
        assert!(state(INSIDE, INSIDE).admits(code(c)));
        assert!(state(TOP, RIGHT | TOP).admits(code(c)));
    }
}

#[test]
fn admits_of_every_state() {
    for a in 0u8..16 {
        for b in 0u8..16 {
            for c in 0u8..16 {
                let expected = match decide(a, b) {
                    Action::Clip { boundary, .. } => c & boundary.mask() == 0 && c & !(a | b) == 0,
                    _ => true,
                };
                assert_eq!(state(a, b).admits(code(c)), expected);
            }
        }
    }
}

#[test]
fn admitted_reports_leave_fewer_violations() {
    for a in 0u8..16 {
        for b in 0u8..16 {
            let s = state(a, b);
            if let Action::Clip { .. } = s.action() {
                for c in 0u8..16 {
                    if s.admits(code(c)) {
                        assert!(s.advance(code(c)).violations() < s.violations());
                    }
                }
            }
        }
    }
}

#[test]
fn admitted_reports_settle_within_four_steps() {
    // Whatever is reported, as long as it is admitted, no run is longer than
    // the state has violations: follow every such run.
    fn longest(s: ClipState) -> u8 {
        match s.action() {
            Action::Clip { .. } => {
                let mut worst = 0;
                for c in 0u8..16 {
                    let report = Outcode::from_bits(c).unwrap();
                    if s.admits(report) {
                        worst = worst.max(1 + longest(s.advance(report)));
                    }
                }
                worst
            }
            _ => 0,
        }
    }
    let mut worst = 0;
    for a in 0u8..16 {
        for b in 0u8..16 {
            let steps = longest(state(a, b));
            assert!(steps <= state(a, b).violations());
            worst = worst.max(steps);
        }
    }
    assert_eq!(worst, 4);
}
