//! Single-precision numbers held by their bit pattern.
//!
//! The library never calculates with floating point; it only carries such
//! numbers, compares them and picks among them. A [`Float32`] is the IEEE 754
//! binary32 encoding of a number, and every operation below is exact.

use vstd::arithmetic::power2::*;
use vstd::prelude::*;

verus! {

/// A binary32 number, stored as its encoding.
#[derive(Debug, Clone, Copy, PartialEq, Eq, Structural)]
pub struct Float32 {
    pub bits: u32,
}

/// The encoding of `0.0`.
pub const ZERO_BITS: u32 = 0;

/// The encoding of `1.0`.
pub const ONE_BITS: u32 = 0x3F80_0000;

/// The size of the number with encoding `magnitude` (sign bit cleared), in
/// units of the smallest positive number, 2^-149. Infinity counts as 2^128.
pub open spec fn scaled_magnitude(magnitude: int) -> int {
    let exponent = magnitude / 0x80_0000;
    let fraction = magnitude % 0x80_0000;
    if exponent == 0 {
        fraction
    } else {
        (0x80_0000 + fraction) * pow2((exponent - 1) as nat) as int
    }
}

impl Float32 {
    /// Whether the sign bit is set.
    pub open spec fn is_negative(self) -> bool {
        self.bits >= 0x8000_0000u32
    }

    /// The encoding without its sign bit.
    pub open spec fn magnitude(self) -> int {
        if self.is_negative() {
            self.bits - 0x8000_0000
        } else {
            self.bits as int
        }
    }

    pub open spec fn spec_is_nan(self) -> bool {
        self.magnitude() > 0x7F80_0000
    }

    /// The number itself, in units of 2^-149 (meaningless for a NaN).
    pub open spec fn scaled(self) -> int {
        if self.is_negative() {
            -scaled_magnitude(self.magnitude())
        } else {
            scaled_magnitude(self.magnitude())
        }
    }

    /// `self < other`, which is false as soon as a NaN takes part.
    pub open spec fn less(self, other: Float32) -> bool {
        !self.spec_is_nan() && !other.spec_is_nan() && self.scaled() < other.scaled()
    }

    /// `self <= other`, which is false as soon as a NaN takes part.
    pub open spec fn at_most(self, other: Float32) -> bool {
        !self.spec_is_nan() && !other.spec_is_nan() && self.scaled() <= other.scaled()
    }

    pub open spec fn spec_abs(self) -> Float32 {
        Float32 { bits: self.magnitude() as u32 }
    }

    /// The larger number; a NaN gives way to the other operand.
    pub open spec fn spec_larger(self, other: Float32) -> Float32 {
        if self.spec_is_nan() || self.less(other) {
            other
        } else {
            self
        }
    }

    /// The smaller number; a NaN gives way to the other operand.
    pub open spec fn spec_smaller(self, other: Float32) -> Float32 {
        if self.spec_is_nan() || other.less(self) {
            other
        } else {
            self
        }
    }

    /// `self` moved into `low..=high`; a NaN stays a NaN.
    pub open spec fn spec_clamped(self, low: Float32, high: Float32) -> Float32 {
        if self.less(low) {
            low
        } else if high.less(self) {
            high
        } else {
            self
        }
    }

    /// The place of the number in the IEEE 754 total order, in which -0 comes
    /// before +0 and NaNs stand at the two ends.
    pub open spec fn order_key(self) -> int {
        if self.is_negative() {
            -1 - self.magnitude()
        } else {
            self.magnitude()
        }
    }

    pub fn is_nan(self) -> (r: bool)
        ensures
            r == self.spec_is_nan(),
    {
        if self.bits >= 0x8000_0000u32 {
            self.bits - 0x8000_0000u32 > 0x7F80_0000u32
        } else {
            self.bits > 0x7F80_0000u32
        }
    }

    /// The encoding read as a signed number: zero for both zeros, and ordered
    /// as the numbers are.
    fn signed_magnitude(self) -> (r: i64)
        ensures
            r == if self.is_negative() {
                -self.magnitude()
            } else {
                self.magnitude()
            },
    {
        if self.bits >= 0x8000_0000u32 {
            -((self.bits - 0x8000_0000u32) as i64)
        } else {
            self.bits as i64
        }
    }

    /// `self < other`
    pub fn lt(self, other: Float32) -> (r: bool)
        ensures
            r == self.less(other),
    {
        proof {
            lemma_scaled_order(self, other);
        }
        !self.is_nan() && !other.is_nan() && self.signed_magnitude() < other.signed_magnitude()
    }

    /// `self <= other`
    pub fn le(self, other: Float32) -> (r: bool)
        ensures
            r == self.at_most(other),
    {
        proof {
            lemma_scaled_order(self, other);
            lemma_scaled_order(other, self);
        }
        !self.is_nan() && !other.is_nan() && self.signed_magnitude() <= other.signed_magnitude()
    }

    /// `self > other`
    pub fn gt(self, other: Float32) -> (r: bool)
        ensures
            r == other.less(self),
    {
        other.lt(self)
    }

    /// `self >= other`
    pub fn ge(self, other: Float32) -> (r: bool)
        ensures
            r == other.at_most(self),
    {
        other.le(self)
    }

    /// The number without its sign.
    pub fn abs(self) -> (r: Float32)
        ensures
            r == self.spec_abs(),
    {
        if self.bits >= 0x8000_0000u32 {
            Float32 { bits: self.bits - 0x8000_0000u32 }
        } else {
            self
        }
    }

    pub fn larger(self, other: Float32) -> (r: Float32)
        ensures
            r == self.spec_larger(other),
    {
        if self.is_nan() || self.lt(other) {
            other
        } else {
            self
        }
    }

    pub fn smaller(self, other: Float32) -> (r: Float32)
        ensures
            r == self.spec_smaller(other),
    {
        if self.is_nan() || other.lt(self) {
            other
        } else {
            self
        }
    }

    pub fn clamped(self, low: Float32, high: Float32) -> (r: Float32)
        ensures
            r == self.spec_clamped(low, high),
    {
        if self.lt(low) {
            low
        } else if high.lt(self) {
            high
        } else {
            self
        }
    }

    /// `order_key` as a machine integer.
    pub fn total_order_key(self) -> (r: i64)
        ensures
            r == self.order_key(),
    {
        if self.bits >= 0x8000_0000u32 {
            -1 - ((self.bits - 0x8000_0000u32) as i64)
        } else {
            self.bits as i64
        }
    }
}

/// A larger encoding stands for a larger number.
pub proof fn lemma_scaled_magnitude_increases(a: int, b: int)
    requires
        0 <= a < b,
    ensures
        0 <= scaled_magnitude(a) < scaled_magnitude(b),
{
    let step: int = 0x80_0000;
    let ea = a / step;
    let fa = a % step;
    let eb = b / step;
    let fb = b % step;
    assert(a == ea * step + fa && 0 <= fa < step);
    assert(b == eb * step + fb && 0 <= fb < step);
    if ea == eb {
        if ea != 0 {
            let p = pow2((ea - 1) as nat) as int;
            lemma_pow2_pos((ea - 1) as nat);
            assert((step + fa) * p < (step + fb) * p) by (nonlinear_arith)
                requires
                    fa < fb,
                    p > 0,
            ;
            assert(0 <= (step + fa) * p) by (nonlinear_arith)
                requires
                    step + fa >= 0,
                    p > 0,
            ;
        }
    } else {
        assert(ea < eb);
        let pb = pow2((eb - 1) as nat) as int;
        lemma_pow2_pos((eb - 1) as nat);
        assert(step * pb <= (step + fb) * pb) by (nonlinear_arith)
            requires
                fb >= 0,
                pb > 0,
        ;
        if ea == 0 {
            assert(fa < step * pb) by (nonlinear_arith)
                requires
                    0 <= fa < step,
                    pb >= 1,
            ;
        } else {
            let pa = pow2((ea - 1) as nat) as int;
            lemma_pow2_pos((ea - 1) as nat);
            lemma_pow2_adds((ea - 1) as nat, (eb - ea) as nat);
            let q = pow2((eb - ea) as nat) as int;
            assert(q >= 2) by {
                lemma_pow2_strictly_increases(0, (eb - ea) as nat);
                lemma2_to64();
            }
            assert(pb == pa * q);
            assert((step + fa) * pa < step * pb) by (nonlinear_arith)
                requires
                    0 <= fa < step,
                    pa > 0,
                    q >= 2,
                    pb == pa * q,
            ;
            assert(0 <= (step + fa) * pa) by (nonlinear_arith)
                requires
                    step + fa >= 0,
                    pa > 0,
            ;
        }
    }
}

/// Comparing sign and encoding compares the numbers.
pub proof fn lemma_scaled_order(a: Float32, b: Float32)
    ensures
        ({
            let sa = if a.is_negative() { -a.magnitude() } else { a.magnitude() };
            let sb = if b.is_negative() { -b.magnitude() } else { b.magnitude() };
            sa < sb <==> a.scaled() < b.scaled()
        }),
{
    let ma = a.magnitude();
    let mb = b.magnitude();
    if ma < mb {
        lemma_scaled_magnitude_increases(ma, mb);
    } else if mb < ma {
        lemma_scaled_magnitude_increases(mb, ma);
    }
    if ma > 0 {
        lemma_scaled_magnitude_increases(0, ma);
    }
    if mb > 0 {
        lemma_scaled_magnitude_increases(0, mb);
    }
    assert(scaled_magnitude(0) == 0);
}

/// The total order puts a smaller number before a greater one.
pub proof fn total_order_agrees_with_less(a: Float32, b: Float32)
    requires
        a.less(b),
    ensures
        a.order_key() < b.order_key(),
{
    lemma_scaled_order(a, b);
}

/// No two numbers share a place in the total order.
pub proof fn total_order_tells_numbers_apart(a: Float32, b: Float32)
    requires
        a.order_key() == b.order_key(),
    ensures
        a == b,
{
}

/// The larger of two numbers is one of them and not below either; the smaller is one of them and
/// not above either. A NaN is passed over.
pub proof fn larger_and_smaller_are_bounds(a: Float32, b: Float32)
    ensures
        a.spec_larger(b) == a || a.spec_larger(b) == b,
        a.spec_smaller(b) == a || a.spec_smaller(b) == b,
        !a.spec_is_nan() ==> a.at_most(a.spec_larger(b)) && a.spec_smaller(b).at_most(a),
        !b.spec_is_nan() ==> b.at_most(a.spec_larger(b)) && a.spec_smaller(b).at_most(b),
{
}

/// A number that is moved into a range lies in it, and one that lies in it stays.
pub proof fn clamped_lies_in_range(a: Float32, low: Float32, high: Float32)
    requires
        !a.spec_is_nan(),
        low.at_most(high),
    ensures
        low.at_most(a.spec_clamped(low, high)),
        a.spec_clamped(low, high).at_most(high),
        low.at_most(a) && a.at_most(high) ==> a.spec_clamped(low, high) == a,
        a.spec_clamped(low, high) != a ==> a.spec_clamped(low, high) == low || a.spec_clamped(
            low,
            high,
        ) == high,
{
}

/// An encoding below two binades is its own size; from the first normal number on, the same
/// fraction one binade higher is twice the number.
pub proof fn binades_double(magnitude: int)
    requires
        0 <= magnitude,
    ensures
        magnitude < 0x100_0000 ==> scaled_magnitude(magnitude) == magnitude,
        magnitude >= 0x80_0000 ==> scaled_magnitude(magnitude + 0x80_0000) == 2 * scaled_magnitude(
            magnitude,
        ),
{
    let step: int = 0x80_0000;
    let e = magnitude / step;
    let f = magnitude % step;
    assert((magnitude + step) / step == e + 1 && (magnitude + step) % step == f);
    if e >= 1 {
        lemma_pow2_unfold(e as nat);
        let p = pow2((e - 1) as nat) as int;
        assert((step + f) * (2 * p) == 2 * ((step + f) * p)) by (nonlinear_arith);
        if e == 1 {
            lemma2_to64();
        }
    }
}

/// Taking the absolute value clears the sign and nothing else; a number and its negative have the
/// same size.
pub proof fn absolute_values_are_not_negative(a: Float32)
    ensures
        a.spec_abs().bits < 0x8000_0000,
        a.bits < 0x8000_0000 ==> a.spec_abs() == a,
        a.bits >= 0x8000_0000 ==> a.spec_abs().bits == a.bits - 0x8000_0000,
        a.spec_abs().scaled() == a.scaled() || a.spec_abs().scaled() == -a.scaled(),
        a.spec_is_nan() == a.spec_abs().spec_is_nan(),
{
}

/// Numbers without a sign are ordered as their encodings are, and those with one the other way
/// round, below all others.
pub proof fn encodings_are_ordered(a: Float32, b: Float32)
    requires
        !a.spec_is_nan(),
        !b.spec_is_nan(),
    ensures
        a.bits < b.bits < 0x8000_0000 ==> a.less(b),
        0x8000_0000 <= a.bits < b.bits ==> b.less(a),
        0x8000_0000 < a.bits && b.bits < 0x8000_0000 ==> a.less(b),
        a.less(b) ==> !b.at_most(a),
{
    lemma_scaled_order(a, b);
    lemma_scaled_order(b, a);
}

/// Infinities are numbers, and what lies beyond them in encoding is not.
pub proof fn only_what_lies_beyond_infinity_is_nan(a: Float32)
    ensures
        a.spec_is_nan() <==> 0x7F80_0000 < a.bits < 0x8000_0000 || 0xFF80_0000 < a.bits,
        a.spec_is_nan() ==> !a.less(a) && !a.at_most(a),
        !a.spec_is_nan() ==> !a.less(a) && a.at_most(a),
{
}

} // verus!
