//! Lengths, points and rectangles as the renderer reports them.
//!
//! A length travels as the bit pattern of a single precision number, so that it passes through
//! unchanged; this module knows how such patterns are ordered, and nothing here computes with
//! them.
use vstd::prelude::*;

verus! {

/// A length in logical pixels, as the bits of a single precision number.
#[derive(Clone, Copy, Debug, PartialEq, Eq, Structural)]
pub struct Pixels {
    pub bits: u32,
}

/// The magnitude of a pattern with its sign, so that both zeros are zero.
pub open spec fn signed_magnitude(bits: u32) -> int {
    if bits < 0x8000_0000 {
        bits as int
    } else {
        0x8000_0000 - bits
    }
}

/// The place of a pattern in the total order of single precision numbers, in which negative zero
/// comes just before positive zero.
pub open spec fn total_rank(bits: u32) -> int {
    if bits < 0x8000_0000 {
        bits as int
    } else {
        0x7fff_ffff - bits
    }
}

/// Whether a pattern stands for no number.
pub open spec fn not_a_number(bits: u32) -> bool {
    signed_magnitude(bits) > 0x7f80_0000 || signed_magnitude(bits) < -0x7f80_0000
}

impl Pixels {
    /// Zero pixels.
    pub fn zero() -> (zero: Pixels)
        ensures
            zero.bits == 0,
    {
        Pixels { bits: 0 }
    }

    /// Whether this number is less than another: never so where either is no number.
    pub open spec fn below(self, other: Pixels) -> bool {
        &&& !not_a_number(self.bits)
        &&& !not_a_number(other.bits)
        &&& signed_magnitude(self.bits) < signed_magnitude(other.bits)
    }

    /// Tests whether this number is less than another.
    pub fn is_below(&self, other: &Pixels) -> (below: bool)
        ensures
            below == self.below(*other),
    {
        let a: i64 = magnitude_of(self.bits);
        let b: i64 = magnitude_of(other.bits);
        a <= 0x7f80_0000 && a >= -0x7f80_0000 && b <= 0x7f80_0000 && b >= -0x7f80_0000 && a < b
    }

    /// Whether this number equals another: both zeros are equal, and what is no number equals
    /// nothing.
    pub open spec fn equals(self, other: Pixels) -> bool {
        &&& !not_a_number(self.bits)
        &&& signed_magnitude(self.bits) == signed_magnitude(other.bits)
    }

    /// Tests whether this number equals another.
    pub fn is_equal(&self, other: &Pixels) -> (equal: bool)
        ensures
            equal == self.equals(*other),
    {
        let a: i64 = magnitude_of(self.bits);
        a <= 0x7f80_0000 && a >= -0x7f80_0000 && a == magnitude_of(other.bits)
    }

    /// Tests whether this number comes strictly before another in the total order.
    pub fn ranks_before(&self, other: &Pixels) -> (before: bool)
        ensures
            before == (total_rank(self.bits) < total_rank(other.bits)),
    {
        rank_of(self.bits) < rank_of(other.bits)
    }
}

fn magnitude_of(bits: u32) -> (magnitude: i64)
    ensures
        magnitude == signed_magnitude(bits),
{
    if bits < 0x8000_0000 {
        bits as i64
    } else {
        0x8000_0000i64 - bits as i64
    }
}

fn rank_of(bits: u32) -> (rank: i64)
    ensures
        rank == total_rank(bits),
{
    if bits < 0x8000_0000 {
        bits as i64
    } else {
        0x7fff_ffffi64 - bits as i64
    }
}

/// A point in logical pixels.
#[derive(Clone, Copy, Debug, PartialEq, Eq, Structural)]
pub struct Point {
    pub x: Pixels,
    pub y: Pixels,
}

/// A size in logical pixels.
#[derive(Clone, Copy, Debug, PartialEq, Eq, Structural)]
pub struct Size {
    pub width: Pixels,
    pub height: Pixels,
}

/// A rectangle in logical pixels.
#[derive(Clone, Copy, Debug, PartialEq, Eq, Structural)]
pub struct Bounds {
    pub origin: Point,
    pub size: Size,
}

impl Bounds {
    /// Whether two rectangles are made of equal numbers.
    pub open spec fn equals(self, other: Bounds) -> bool {
        &&& self.origin.x.equals(other.origin.x)
        &&& self.origin.y.equals(other.origin.y)
        &&& self.size.width.equals(other.size.width)
        &&& self.size.height.equals(other.size.height)
    }

    /// Tests whether two rectangles are made of equal numbers.
    pub fn is_equal(&self, other: &Bounds) -> (equal: bool)
        ensures
            equal == self.equals(*other),
    {
        self.origin.x.is_equal(&other.origin.x) && self.origin.y.is_equal(&other.origin.y)
            && self.size.width.is_equal(&other.size.width) && self.size.height.is_equal(
            &other.size.height,
        )
    }
}

/// Two numbers agree with the total order wherever they are comparable.
pub proof fn total_order_extends_less_than(a: Pixels, b: Pixels)
    requires
        a.below(b),
    ensures
        total_rank(a.bits) < total_rank(b.bits),
{
}

/// No two patterns share a place in the total order.
pub proof fn total_order_is_strict(a: Pixels, b: Pixels)
    requires
        total_rank(a.bits) == total_rank(b.bits),
    ensures
        a == b,
{
}

/// Numbers from zero up are ordered as their patterns are, those below zero the other way round and
/// before all others. The two zeros are one number, and a pattern past infinity on either side is
/// none: it equals nothing and is below nothing.
pub proof fn numbers_are_ordered_by_sign_and_size(a: Pixels, b: Pixels)
    ensures
        a.bits <= 0x7f80_0000 && b.bits <= 0x7f80_0000 ==> {
            &&& a.below(b) <==> a.bits < b.bits
            &&& a.equals(b) <==> a.bits == b.bits
        },
        0x8000_0000 < a.bits <= 0xff80_0000 && 0x8000_0000 < b.bits <= 0xff80_0000 ==> {
            &&& a.below(b) <==> a.bits > b.bits
            &&& a.equals(b) <==> a.bits == b.bits
        },
        0x8000_0000 < a.bits <= 0xff80_0000 && b.bits <= 0x7f80_0000 ==> {
            &&& a.below(b)
            &&& !b.below(a)
            &&& !a.equals(b)
            &&& !b.equals(a)
        },
        a.bits == 0x8000_0000 && b.bits == 0 ==> a.equals(b) && b.equals(a) && !a.below(b)
            && !b.below(a),
        0x7f80_0000 < a.bits < 0x8000_0000 || a.bits > 0xff80_0000 ==> {
            &&& !a.below(b)
            &&& !b.below(a)
            &&& !a.equals(b)
            &&& !b.equals(a)
        },
{
}

/// In the total order the patterns without a sign go up, those with one go down and come before all
/// others, negative zero last of them.
pub proof fn patterns_are_ranked_by_sign_and_size(a: Pixels, b: Pixels)
    ensures
        a.bits < b.bits < 0x8000_0000 ==> total_rank(a.bits) < total_rank(b.bits),
        a.bits < 0x8000_0000 <= b.bits ==> total_rank(b.bits) < total_rank(a.bits),
        0x8000_0000 <= a.bits < b.bits ==> total_rank(b.bits) < total_rank(a.bits),
{
}

/// Two rectangles are equal only where they begin at the same place and are as wide and as high, and
/// one whose four numbers are numbers equals itself.
pub proof fn equal_rectangles_agree_everywhere(a: Bounds, b: Bounds)
    ensures
        !a.origin.x.equals(b.origin.x) ==> !a.equals(b),
        !a.origin.y.equals(b.origin.y) ==> !a.equals(b),
        !a.size.width.equals(b.size.width) ==> !a.equals(b),
        !a.size.height.equals(b.size.height) ==> !a.equals(b),
        a == b && a.origin.x.bits <= 0x7f80_0000 && a.origin.y.bits <= 0x7f80_0000
            && a.size.width.bits <= 0x7f80_0000 && a.size.height.bits <= 0x7f80_0000 ==> a.equals(
            b,
        ),
{
}

} // verus!
