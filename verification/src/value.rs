//! The values that a running program holds.
//!
//! A number is an IEEE-754 binary64 value, carried as its bit pattern. What
//! depends only on sign, exponent and fraction (order, equality, truth,
//! negation, clamping) is computed here on the bits. Sums, products, quotients
//! and powers are computed by the host and handed in as bit patterns.

use vstd::std_specs::cmp::PartialEqSpecImpl;
use vstd::prelude::*;

verus! {

/// The sign bit of a binary64 value.
pub const SIGN_BIT: u64 = 0x8000_0000_0000_0000;

/// The bit pattern of positive infinity. A larger magnitude is no number.
pub const INFINITY: u64 = 0x7FF0_0000_0000_0000;

/// The bit pattern of `1.0`.
pub const ONE: u64 = 0x3FF0_0000_0000_0000;

/// The bit pattern of `0.0`.
pub const ZERO: u64 = 0;

/// The bits of `bits` without the sign bit.
pub open spec fn magnitude(bits: u64) -> int {
    if bits >= SIGN_BIT {
        bits - SIGN_BIT
    } else {
        bits as int
    }
}

/// Whether `bits` is a NaN.
pub open spec fn is_nan(bits: u64) -> bool {
    magnitude(bits) > INFINITY
}

/// An integer that orders the numbers as their values do: the magnitude,
/// negated where the sign bit is set. Both zeros have rank 0.
pub open spec fn rank(bits: u64) -> int {
    if bits >= SIGN_BIT {
        -magnitude(bits)
    } else {
        magnitude(bits)
    }
}

/// `a < b` as numbers. False where either is a NaN.
pub open spec fn number_lt(a: u64, b: u64) -> bool {
    !is_nan(a) && !is_nan(b) && rank(a) < rank(b)
}

/// `a <= b` as numbers. False where either is a NaN.
pub open spec fn number_le(a: u64, b: u64) -> bool {
    !is_nan(a) && !is_nan(b) && rank(a) <= rank(b)
}

/// `a == b` as numbers: false where either is a NaN, true of the two zeros.
pub open spec fn number_eq(a: u64, b: u64) -> bool {
    !is_nan(a) && !is_nan(b) && rank(a) == rank(b)
}

/// `bits` with the sign bit flipped.
pub open spec fn negated(bits: u64) -> u64 {
    if bits >= SIGN_BIT {
        (bits - SIGN_BIT) as u64
    } else {
        (bits + SIGN_BIT) as u64
    }
}

/// A number folded into `[0, 1]`: a negative number becomes its absolute
/// value, then what is above 1 becomes 1. What is no number becomes 1: the
/// host's arithmetic gives a NaN where the magnitudes were beyond what a
/// number holds.
pub open spec fn clamped(bits: u64) -> u64 {
    let folded = if number_lt(bits, ZERO) {
        negated(bits)
    } else {
        bits
    };
    if is_nan(bits) || number_lt(ONE, folded) {
        ONE
    } else {
        folded
    }
}

fn nan(bits: u64) -> (r: bool)
    ensures
        r == is_nan(bits),
{
    if bits >= SIGN_BIT {
        bits - SIGN_BIT > INFINITY
    } else {
        bits > INFINITY
    }
}

/// `a < b` as numbers.
pub fn less(a: u64, b: u64) -> (r: bool)
    ensures
        r == number_lt(a, b),
{
    if nan(a) || nan(b) {
        false
    } else if a >= SIGN_BIT {
        if b >= SIGN_BIT {
            a > b
        } else {
            a > SIGN_BIT || b > 0
        }
    } else {
        b < SIGN_BIT && a < b
    }
}

/// `a == b` as numbers.
pub fn same(a: u64, b: u64) -> (r: bool)
    ensures
        r == number_eq(a, b),
{
    if nan(a) || nan(b) {
        false
    } else {
        a == b || ((a == 0 || a == SIGN_BIT) && (b == 0 || b == SIGN_BIT))
    }
}

/// `a <= b` as numbers.
pub fn less_or_same(a: u64, b: u64) -> (r: bool)
    ensures
        r == number_le(a, b),
{
    less(a, b) || same(a, b)
}

/// `bits` with the sign flipped.
pub fn negate(bits: u64) -> (r: u64)
    ensures
        r == negated(bits),
{
    if bits >= SIGN_BIT {
        bits - SIGN_BIT
    } else {
        bits + SIGN_BIT
    }
}

/// Folds a number into `[0, 1]`: negatives to their absolute value, then
/// what is above 1 to 1, and what is no number to 1.
pub fn abs_clamp_01(bits: u64) -> (r: u64)
    ensures
        r == clamped(bits),
        number_le(ZERO, r),
        number_le(r, ONE),
{
    if nan(bits) {
        return ONE;
    }
    let folded = if less(bits, ZERO) {
        negate(bits)
    } else {
        bits
    };
    if less(ONE, folded) {
        ONE
    } else {
        folded
    }
}

/// Clamping yields a value of `[0, 1]` for every input, the infinities and
/// what is no number included, and changes no value that lies in `[0, 1]`
/// already.
pub proof fn clamped_is_probability(bits: u64)
    ensures
        !is_nan(clamped(bits)),
        number_le(ZERO, clamped(bits)),
        number_le(clamped(bits), ONE),
        number_le(ZERO, bits) && number_le(bits, ONE) ==> clamped(bits) == bits,
        clamped(clamped(bits)) == clamped(bits),
{
}

/// A value of the running program.
#[derive(Debug, Clone, Copy)]
pub enum Value {
    Null,
    /// A number, as the bit pattern of a binary64
    Number(u64),
}

impl PartialEq for Value {
    /// Equality as the language has it: numbers are equal as numbers, and
    /// `Null` equals nothing, not even `Null`.
    fn eq(&self, other: &Value) -> (r: bool) {
        match (self, other) {
            (Value::Number(a), Value::Number(b)) => same(*a, *b),
            _ => false,
        }
    }
}

impl PartialEqSpecImpl for Value {
    open spec fn obeys_eq_spec() -> bool {
        true
    }

    open spec fn eq_spec(&self, other: &Value) -> bool {
        self.equals(*other)
    }
}

impl Value {
    /// Equality as the language has it: numbers are equal as numbers, and
    /// `Null` equals nothing, not even `Null`.
    pub open spec fn equals(self, other: Value) -> bool {
        match (self, other) {
            (Value::Number(a), Value::Number(b)) => number_eq(a, b),
            _ => false,
        }
    }

    /// The number that stands for a truth value: `1.0` or `0.0`.
    pub open spec fn of_bool(b: bool) -> Value {
        if b {
            Value::Number(ONE)
        } else {
            Value::Number(ZERO)
        }
    }

    /// The bits of the number that this value counts as: its own, or those of
    /// `0.0` for `Null`.
    pub open spec fn bits(self) -> u64 {
        match self {
            Value::Number(b) => b,
            Value::Null => ZERO,
        }
    }

    /// Whether this value counts as true: a number greater than zero.
    pub open spec fn truth(self) -> bool {
        match self {
            Value::Number(b) => number_lt(ZERO, b),
            Value::Null => false,
        }
    }

    /// The number that stands for a truth value: `1.0` or `0.0`.
    pub fn from_bool(b: bool) -> (v: Value)
        ensures
            v == Value::of_bool(b),
    {
        if b {
            Value::Number(ONE)
        } else {
            Value::Number(ZERO)
        }
    }

    /// The bits of this value as a number, `Null` counting as `0.0`.
    pub fn as_f64(&self) -> (bits: u64)
        ensures
            bits == self.bits(),
    {
        match self {
            Value::Number(b) => *b,
            Value::Null => ZERO,
        }
    }

    /// The bits of this value if it is a number.
    pub fn as_f64_checked(&self) -> (bits: Option<u64>)
        ensures
            bits == (match *self {
                Value::Number(b) => Some(b),
                Value::Null => None,
            }),
    {
        match self {
            Value::Number(b) => Some(*b),
            Value::Null => None,
        }
    }

    /// Whether this value counts as true.
    pub fn as_bool(&self) -> (b: bool)
        ensures
            b == self.truth(),
    {
        match self {
            Value::Null => false,
            Value::Number(bits) => less(ZERO, *bits),
        }
    }

    /// This value as a degree of truth: a number as it is, `Null` as `0.0`.
    pub fn as_probability_number(&self) -> (bits: u64)
        ensures
            bits == self.bits(),
    {
        match self {
            Value::Number(b) => *b,
            Value::Null => ZERO,
        }
    }

    /// `self < other`, as `1.0` or `0.0`. `Null` counts as `0.0`.
    pub fn lt(&self, other: &Value) -> (v: Value)
        ensures
            v == Value::of_bool(number_lt(self.bits(), other.bits())),
    {
        Value::from_bool(less(self.as_f64(), other.as_f64()))
    }

    /// `self <= other`, as `1.0` or `0.0`. `Null` counts as `0.0`.
    pub fn lte(&self, other: &Value) -> (v: Value)
        ensures
            v == Value::of_bool(number_le(self.bits(), other.bits())),
    {
        Value::from_bool(less_or_same(self.as_f64(), other.as_f64()))
    }

    /// `self > other`, as `1.0` or `0.0`. `Null` counts as `0.0`.
    pub fn gt(&self, other: &Value) -> (v: Value)
        ensures
            v == Value::of_bool(number_lt(other.bits(), self.bits())),
    {
        Value::from_bool(less(other.as_f64(), self.as_f64()))
    }

    /// `self >= other`, as `1.0` or `0.0`. `Null` counts as `0.0`.
    pub fn gte(&self, other: &Value) -> (v: Value)
        ensures
            v == Value::of_bool(number_le(other.bits(), self.bits())),
    {
        Value::from_bool(less_or_same(other.as_f64(), self.as_f64()))
    }

    /// The fuzzy disjunction of two degrees of truth, from their
    /// probabilistic sum `a + b - a * b` as the host computed it: the sum
    /// folded into `[0, 1]`. The result is a number of `[0, 1]` whatever the
    /// host hands in.
    pub fn fuzzy_or(probabilistic_sum: u64) -> (v: Value)
        ensures
            v == Value::Number(clamped(probabilistic_sum)),
            number_le(ZERO, v.bits()) && number_le(v.bits(), ONE),
    {
        Value::Number(abs_clamp_01(probabilistic_sum))
    }

    /// The fuzzy conjunction of two degrees of truth, from their product
    /// `a * b` as the host computed it: the product folded into `[0, 1]`. The
    /// result is a number of `[0, 1]` whatever the host hands in.
    pub fn fuzzy_and(product: u64) -> (v: Value)
        ensures
            v == Value::Number(clamped(product)),
            number_le(ZERO, v.bits()) && number_le(v.bits(), ONE),
    {
        Value::Number(abs_clamp_01(product))
    }

    /// Whether either value counts as true, as `1.0` or `0.0`.
    pub fn or(&self, other: &Value) -> (v: Value)
        ensures
            v == Value::of_bool(self.truth() || other.truth()),
    {
        Value::from_bool(self.as_bool() || other.as_bool())
    }

    /// Whether both values count as true, as `1.0` or `0.0`.
    pub fn and(&self, other: &Value) -> (v: Value)
        ensures
            v == Value::of_bool(self.truth() && other.truth()),
    {
        Value::from_bool(self.as_bool() && other.as_bool())
    }

    /// The negative of this value. `Null` counts as `0.0`, so its negative is
    /// `-0.0`.
    pub fn neg(&self) -> (v: Value)
        ensures
            v == Value::Number(negated(self.bits())),
    {
        Value::Number(negate(self.as_f64()))
    }
}

} // verus!
