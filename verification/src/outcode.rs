//! Region codes: which of the four bounds of the window a point lies beyond.

use vstd::prelude::*;

verus! {

/// Bit pattern of a point within the window or on its boundary.
pub const INSIDE: u8 = 0b0000;

/// Bit set for a point to the left of the window.
pub const LEFT: u8 = 0b0001;

/// Bit set for a point to the right of the window.
pub const RIGHT: u8 = 0b0010;

/// Bit set for a point below the window.
pub const BOTTOM: u8 = 0b0100;

/// Bit set for a point above the window.
pub const TOP: u8 = 0b1000;

/// One of the four bounds of the window.
#[derive(Clone, Copy, Debug, PartialEq, Eq, Hash, Structural)]
pub enum Boundary {
    Left,
    Right,
    Bottom,
    Top,
}

/// Mathematical model of a region code: one flag for each bound, set when the
/// point lies strictly beyond it.
pub ghost struct Flags {
    pub left: bool,
    pub right: bool,
    pub bottom: bool,
    pub top: bool,
}

impl Flags {
    /// No flag is set: the point is within the window or on its boundary.
    pub open spec fn inside(self) -> bool {
        !self.left && !self.right && !self.bottom && !self.top
    }

    /// The flag of `boundary` is set.
    pub open spec fn has(self, boundary: Boundary) -> bool {
        match boundary {
            Boundary::Left => self.left,
            Boundary::Right => self.right,
            Boundary::Bottom => self.bottom,
            Boundary::Top => self.top,
        }
    }

    /// The flags set in `self` or in `other`.
    pub open spec fn union(self, other: Flags) -> Flags {
        Flags {
            left: self.left || other.left,
            right: self.right || other.right,
            bottom: self.bottom || other.bottom,
            top: self.top || other.top,
        }
    }

    /// The flags set in both `self` and `other`.
    pub open spec fn intersection(self, other: Flags) -> Flags {
        Flags {
            left: self.left && other.left,
            right: self.right && other.right,
            bottom: self.bottom && other.bottom,
            top: self.top && other.top,
        }
    }

    /// Every flag of `self` is also set in `other`.
    pub open spec fn subset_of(self, other: Flags) -> bool {
        &&& self.left ==> other.left
        &&& self.right ==> other.right
        &&& self.bottom ==> other.bottom
        &&& self.top ==> other.top
    }

    /// Number of flags set.
    pub open spec fn count(self) -> nat {
        (if self.left { 1nat } else { 0nat }) + (if self.right { 1nat } else { 0nat })
            + (if self.bottom { 1nat } else { 0nat }) + (if self.top { 1nat } else { 0nat })
    }

    /// At most one flag is set on each axis.
    pub open spec fn exclusive(self) -> bool {
        !(self.left && self.right) && !(self.bottom && self.top)
    }

    /// The bit pattern that stands for these flags.
    pub open spec fn encode(self) -> int {
        (if self.left { LEFT as int } else { 0 }) + (if self.right { RIGHT as int } else { 0 }) + (
        if self.bottom { BOTTOM as int } else { 0 }) + (if self.top { TOP as int } else { 0 })
    }

    /// The bound that a clip step treats first among the flags set: top, then
    /// bottom, then right, then left.
    pub open spec fn priority(self) -> Boundary
        recommends
            !self.inside(),
    {
        if self.top {
            Boundary::Top
        } else if self.bottom {
            Boundary::Bottom
        } else if self.right {
            Boundary::Right
        } else {
            Boundary::Left
        }
    }
}

/// What comparing a point with the four bounds of the window gave.
#[derive(Clone, Copy, Debug, PartialEq, Eq)]
pub struct Comparisons {
    /// `x < x_min`
    pub x_below_min: bool,
    /// `x > x_max`
    pub x_above_max: bool,
    /// `y < y_min`
    pub y_below_min: bool,
    /// `y > y_max`
    pub y_above_max: bool,
}

/// The region code that follows from the four comparisons. On each axis the
/// lower bound is looked at first, so a point never gets both flags of an axis.
pub open spec fn classify(c: Comparisons) -> Flags {
    Flags {
        left: c.x_below_min,
        right: !c.x_below_min && c.x_above_max,
        bottom: c.y_below_min,
        top: !c.y_below_min && c.y_above_max,
    }
}

/// A code has no flag exactly when none of the four comparisons holds, and
/// it never has both flags of an axis.
pub proof fn lemma_classify(c: Comparisons)
    ensures
        classify(c).inside() <==> !c.x_below_min && !c.x_above_max && !c.y_below_min
            && !c.y_above_max,
        classify(c).exclusive(),
{
}

/// A region code, kept as a pattern of four bits.
#[derive(Clone, Copy, Debug, PartialEq, Eq, Hash)]
pub struct Outcode {
    bits: u8,
}

impl View for Outcode {
    type V = Flags;

    closed spec fn view(&self) -> Flags {
        Flags {
            left: self.bits & LEFT != 0,
            right: self.bits & RIGHT != 0,
            bottom: self.bits & BOTTOM != 0,
            top: self.bits & TOP != 0,
        }
    }
}

/// A pattern of the four flag bits is the sum of the bits set in it.
proof fn lemma_bits_of_flags(bits: u8)
    by (bit_vector)
    requires
        bits < 16,
    ensures
        bits == (if bits & 1 != 0 { 1u8 } else { 0u8 }) + (if bits & 2 != 0 { 2u8 } else { 0u8 })
            + (if bits & 4 != 0 { 4u8 } else { 0u8 }) + (if bits & 8 != 0 { 8u8 } else { 0u8 }),
{
}

/// Setting one flag bit sets that bit and leaves the other three as they
/// were.
proof fn lemma_set_flag(bits: u8, mask: u8)
    by (bit_vector)
    requires
        bits < 16,
        mask == 1 || mask == 2 || mask == 4 || mask == 8,
    ensures
        bits | mask < 16,
        (bits | mask) & mask != 0,
        mask != 1 ==> (bits | mask) & 1 == bits & 1,
        mask != 2 ==> (bits | mask) & 2 == bits & 2,
        mask != 4 ==> (bits | mask) & 4 == bits & 4,
        mask != 8 ==> (bits | mask) & 8 == bits & 8,
{
}

/// Bitwise or and and of two patterns work on each flag bit by itself.
proof fn lemma_or_and(a: u8, b: u8)
    by (bit_vector)
    requires
        a < 16,
        b < 16,
    ensures
        a | b < 16,
        a & b < 16,
        (a | b) & 1 != 0 <==> a & 1 != 0 || b & 1 != 0,
        (a | b) & 2 != 0 <==> a & 2 != 0 || b & 2 != 0,
        (a | b) & 4 != 0 <==> a & 4 != 0 || b & 4 != 0,
        (a | b) & 8 != 0 <==> a & 8 != 0 || b & 8 != 0,
        (a & b) & 1 != 0 <==> a & 1 != 0 && b & 1 != 0,
        (a & b) & 2 != 0 <==> a & 2 != 0 && b & 2 != 0,
        (a & b) & 4 != 0 <==> a & 4 != 0 && b & 4 != 0,
        (a & b) & 8 != 0 <==> a & 8 != 0 && b & 8 != 0,
{
}

impl Boundary {
    /// The bit that stands for this bound in a region code.
    pub open spec fn spec_mask(self) -> u8 {
        match self {
            Boundary::Left => LEFT,
            Boundary::Right => RIGHT,
            Boundary::Bottom => BOTTOM,
            Boundary::Top => TOP,
        }
    }

    /// The bit that stands for this bound in a region code.
    #[verifier::when_used_as_spec(spec_mask)]
    pub fn mask(self) -> (m: u8)
        ensures
            m == self.spec_mask(),
    {
        match self {
            Boundary::Left => LEFT,
            Boundary::Right => RIGHT,
            Boundary::Bottom => BOTTOM,
            Boundary::Top => TOP,
        }
    }
}

impl Outcode {
    /// No bit but the four flag bits is set.
    #[verifier::type_invariant]
    spec fn well_formed(self) -> bool {
        self.bits < 16
    }

    /// The code with exactly the flags of the bit pattern `bits`, if `bits`
    /// uses none but the four flag bits.
    pub fn from_bits(bits: u8) -> (r: Option<Outcode>)
        ensures
            r is Some <==> bits < 16,
            r matches Some(code) ==> code@.encode() == bits,
    {
        if bits < 16 {
            proof {
                lemma_bits_of_flags(bits);
            }
            Some(Outcode { bits })
        } else {
            None
        }
    }

    /// The bit pattern of this code.
    pub fn bits(self) -> (r: u8)
        ensures
            r == self@.encode(),
    {
        proof {
            use_type_invariant(&self);
            lemma_bits_of_flags(self.bits);
        }
        self.bits
    }

    /// Whether no flag is set.
    pub fn is_inside(self) -> (r: bool)
        ensures
            r == self@.inside(),
    {
        proof {
            use_type_invariant(&self);
            lemma_bits_of_flags(self.bits);
        }
        self.bits == INSIDE
    }

    /// Whether the flag of `boundary` is set.
    pub fn has(self, boundary: Boundary) -> (r: bool)
        ensures
            r == self@.has(boundary),
    {
        (self.bits & boundary.mask()) != 0
    }

    /// The flags set in `self` or in `other`.
    pub fn union(self, other: Outcode) -> (r: Outcode)
        ensures
            r@ == self@.union(other@),
    {
        proof {
            use_type_invariant(&self);
            use_type_invariant(&other);
            lemma_or_and(self.bits, other.bits);
        }
        Outcode { bits: self.bits | other.bits }
    }

    /// The flags set in both `self` and `other`.
    pub fn intersection(self, other: Outcode) -> (r: Outcode)
        ensures
            r@ == self@.intersection(other@),
    {
        proof {
            use_type_invariant(&self);
            use_type_invariant(&other);
            lemma_or_and(self.bits, other.bits);
        }
        Outcode { bits: self.bits & other.bits }
    }

    /// Whether every flag of `self` is also set in `other`.
    pub fn is_subset_of(self, other: Outcode) -> (r: bool)
        ensures
            r == self@.subset_of(other@),
    {
        proof {
            use_type_invariant(&self);
            use_type_invariant(&other);
            lemma_or_and(self.bits, other.bits);
            lemma_bits_of_flags(self.bits);
            lemma_bits_of_flags(self.bits & other.bits);
        }
        (self.bits & other.bits) == self.bits
    }

    /// Number of flags set.
    pub fn count(self) -> (n: u8)
        ensures
            n == self@.count(),
    {
        let mut n: u8 = 0;
        if (self.bits & LEFT) != 0 {
            n = n + 1;
        }
        if (self.bits & RIGHT) != 0 {
            n = n + 1;
        }
        if (self.bits & BOTTOM) != 0 {
            n = n + 1;
        }
        if (self.bits & TOP) != 0 {
            n = n + 1;
        }
        n
    }

    /// The bound that a clip step treats first among the flags set, if any
    /// flag is set.
    pub fn priority_boundary(self) -> (r: Option<Boundary>)
        ensures
            r == (if self@.inside() {
                None
            } else {
                Some(self@.priority())
            }),
    {
        if (self.bits & TOP) != 0 {
            Some(Boundary::Top)
        } else if (self.bits & BOTTOM) != 0 {
            Some(Boundary::Bottom)
        } else if (self.bits & RIGHT) != 0 {
            Some(Boundary::Right)
        } else if (self.bits & LEFT) != 0 {
            Some(Boundary::Left)
        } else {
            None
        }
    }
}

/// Classifies a point from its comparisons with the bounds of the window.
pub fn compute_outcode(c: Comparisons) -> (code: Outcode)
    ensures
        code@ == classify(c),
{
    let mut bits: u8 = INSIDE;
    proof {
        lemma_bits_of_flags(bits);
    }
    if c.x_below_min {
        proof {
            lemma_set_flag(bits, LEFT);
        }
        bits = bits | LEFT;
    } else if c.x_above_max {
        proof {
            lemma_set_flag(bits, RIGHT);
        }
        bits = bits | RIGHT;
    }
    if c.y_below_min {
        proof {
            lemma_set_flag(bits, BOTTOM);
        }
        bits = bits | BOTTOM;
    } else if c.y_above_max {
        proof {
            lemma_set_flag(bits, TOP);
        }
        bits = bits | TOP;
    }
    Outcode { bits }
}

} // verus!
