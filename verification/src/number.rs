//! Numbers: IEEE 754 doubles, held by their bit patterns.

use vstd::prelude::*;

verus! {

/// A double, as the 64 bits of its IEEE 754 encoding: one sign bit, eleven
/// exponent bits, fifty-two fraction bits.
#[derive(Clone, Copy, Debug, PartialEq, Eq)]
pub struct Number {
    pub bits: u64,
}

/// The encoding without its sign bit.
pub open spec fn magnitude(bits: u64) -> u64 {
    bits & 0x7fff_ffff_ffff_ffff
}

/// Whether the sign bit is set.
pub open spec fn is_negative(bits: u64) -> bool {
    bits & 0x8000_0000_0000_0000 != 0
}

/// Whether the encoding is a NaN: exponent all ones, fraction not zero.
pub open spec fn is_nan(bits: u64) -> bool {
    magnitude(bits) > 0x7ff0_0000_0000_0000
}

/// A number's place among the doubles that are no NaN; both zeros share
/// place 0.
pub open spec fn rank(bits: u64) -> int {
    if is_negative(bits) {
        -(magnitude(bits) as int)
    } else {
        magnitude(bits) as int
    }
}

/// Numeric equality: no NaN equals anything, and the two zeros are equal.
pub open spec fn num_eq(a: u64, b: u64) -> bool {
    !is_nan(a) && !is_nan(b) && rank(a) == rank(b)
}

/// Numeric order: a NaN is in no order with anything.
pub open spec fn num_lt(a: u64, b: u64) -> bool {
    !is_nan(a) && !is_nan(b) && rank(a) < rank(b)
}

impl Number {
    /// The number with this encoding.
    pub fn from_bits(bits: u64) -> (r: Number)
        ensures
            r.bits == bits,
    {
        Number { bits }
    }

    /// The encoding of the number.
    pub fn to_bits(&self) -> (r: u64)
        ensures
            r == self.bits,
    {
        self.bits
    }

    /// Whether the number is a NaN.
    pub fn is_nan(&self) -> (r: bool)
        ensures
            r == is_nan(self.bits),
    {
        (self.bits & 0x7fff_ffff_ffff_ffff) > 0x7ff0_0000_0000_0000
    }

    /// Numeric equality.
    pub fn equals(&self, other: &Number) -> (r: bool)
        ensures
            r == num_eq(self.bits, other.bits),
    {
        if self.is_nan() || other.is_nan() {
            return false;
        }
        let a = self.bits & 0x7fff_ffff_ffff_ffff;
        let b = other.bits & 0x7fff_ffff_ffff_ffff;
        let a_neg = self.bits & 0x8000_0000_0000_0000 != 0;
        let b_neg = other.bits & 0x8000_0000_0000_0000 != 0;
        if a_neg == b_neg {
            a == b
        } else {
            a == 0 && b == 0
        }
    }

    /// Numeric order: whether `self` is less than `other`.
    pub fn less_than(&self, other: &Number) -> (r: bool)
        ensures
            r == num_lt(self.bits, other.bits),
    {
        if self.is_nan() || other.is_nan() {
            return false;
        }
        let a = self.bits & 0x7fff_ffff_ffff_ffff;
        let b = other.bits & 0x7fff_ffff_ffff_ffff;
        let a_neg = self.bits & 0x8000_0000_0000_0000 != 0;
        let b_neg = other.bits & 0x8000_0000_0000_0000 != 0;
        if a_neg && b_neg {
            a > b
        } else if a_neg {
            a != 0 || b != 0
        } else if b_neg {
            false
        } else {
            a < b
        }
    }
}

/// Of two numbers that are no NaN exactly one holds: the first is less,
/// they are equal, or the second is less. A NaN is neither equal to nor in
/// order with any number, itself included.
pub proof fn law_numbers_are_ordered(a: u64, b: u64)
    ensures
        !is_nan(a) && !is_nan(b) ==> (num_lt(a, b) || num_eq(a, b) || num_lt(b, a)),
        !(num_lt(a, b) && num_eq(a, b)),
        !(num_lt(a, b) && num_lt(b, a)),
        is_nan(a) || is_nan(b) ==> !num_lt(a, b) && !num_eq(a, b) && !num_lt(b, a),
        num_eq(a, b) == num_eq(b, a),
{
}

/// The order of numbers is transitive, and equal numbers stand alike in it.
pub proof fn law_number_order_is_transitive(a: u64, b: u64, c: u64)
    ensures
        num_lt(a, b) && num_lt(b, c) ==> num_lt(a, c),
        num_eq(a, b) && num_eq(b, c) ==> num_eq(a, c),
        num_eq(a, b) && num_lt(b, c) ==> num_lt(a, c),
        num_lt(a, b) && num_eq(b, c) ==> num_lt(a, c),
{
}

/// Two encodings are equal as numbers exactly when they are the same and
/// no NaN, or are the two zeros.
pub proof fn law_number_equality(a: u64, b: u64)
    ensures
        num_eq(a, b) <==> !is_nan(a) && !is_nan(b) && (a == b || (magnitude(a) == 0 && magnitude(
            b,
        ) == 0)),
{
    assert(a == b <==> (a & 0x7fff_ffff_ffff_ffff == b & 0x7fff_ffff_ffff_ffff && (a
        & 0x8000_0000_0000_0000 != 0) == (b & 0x8000_0000_0000_0000 != 0))) by (bit_vector);
}

} // verus!
