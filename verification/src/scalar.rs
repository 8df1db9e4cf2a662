//! Single-precision numbers held by their bit patterns.
//!
//! A `Scalar` is the 32-bit encoding of an IEEE-754 binary32 number: one sign
//! bit, eight exponent bits, twenty-three fraction bits. Within one sign the
//! numeric order of the encoded numbers is the order of the remaining 31 bits
//! read as an unsigned integer, which is what every comparison here rests on.

use vstd::prelude::*;
use vstd::arithmetic::power2::{lemma2_to64, pow2};

verus! {

/// The weight of the sign bit.
pub const SIGN_BIT: u32 = 0x8000_0000;

/// The magnitude bits of the two infinities; larger magnitudes are not numbers.
pub const INFINITY_BITS: u32 = 0x7f80_0000;

/// The bit pattern of 1.
pub const ONE_BITS: u32 = 0x3f80_0000;

/// The bit pattern of the largest finite number.
pub const MAX_BITS: u32 = 0x7f7f_ffff;

/// The weight of the lowest exponent bit: the fraction lies below it.
pub const FRACTION_RANGE: u32 = 0x80_0000;

/// A binary32 number, by its encoding.
#[derive(Clone, Copy, Debug, PartialEq, Eq, Structural)]
pub struct Scalar {
    pub bits: u32,
}

impl Scalar {
    /// The encoding without its sign bit.
    pub open spec fn magnitude(self) -> int {
        if self.bits >= SIGN_BIT {
            self.bits - SIGN_BIT
        } else {
            self.bits as int
        }
    }

    /// Whether the sign bit is set.
    pub open spec fn sign_negative(self) -> bool {
        self.bits >= SIGN_BIT
    }

    /// Whether the encoding stands for no number.
    pub open spec fn nan(self) -> bool {
        self.magnitude() > INFINITY_BITS
    }

    /// The place of the encoded number on the number line: numbers compare as
    /// their ranks do. Both zeros have rank 0 and the infinities have the
    /// ranks of largest absolute value. Meaningful only where `nan()` is false.
    pub open spec fn rank(self) -> int {
        if self.sign_negative() {
            -self.magnitude()
        } else {
            self.magnitude()
        }
    }

    /// `self < other` as IEEE-754 orders numbers: false if either is no number.
    pub open spec fn spec_lt(self, other: Scalar) -> bool {
        !self.nan() && !other.nan() && self.rank() < other.rank()
    }

    /// `self <= other` as IEEE-754 orders numbers: false if either is no number.
    pub open spec fn spec_le(self, other: Scalar) -> bool {
        !self.nan() && !other.nan() && self.rank() <= other.rank()
    }

    /// Whether the number lies from `lo` to `hi`, the ends included. What is
    /// no number lies in no range, and no number lies in a range with an end
    /// that is no number.
    pub open spec fn spec_within(self, lo: Scalar, hi: Scalar) -> bool {
        lo.spec_le(self) && self.spec_le(hi)
    }

    /// The smaller of two numbers; where one is no number, the other.
    pub open spec fn spec_min(self, other: Scalar) -> Scalar {
        if self.nan() {
            other
        } else if other.nan() {
            self
        } else if other.rank() < self.rank() {
            other
        } else {
            self
        }
    }

    /// The larger of two numbers; where one is no number, the other.
    pub open spec fn spec_max(self, other: Scalar) -> Scalar {
        if self.nan() {
            other
        } else if other.nan() {
            self
        } else if other.rank() > self.rank() {
            other
        } else {
            self
        }
    }

    /// The encoding with its sign bit flipped.
    pub open spec fn spec_neg(self) -> Scalar {
        if self.bits >= SIGN_BIT {
            Scalar { bits: (self.bits - SIGN_BIT) as u32 }
        } else {
            Scalar { bits: (self.bits + SIGN_BIT) as u32 }
        }
    }

    /// The encoding with its sign bit cleared.
    pub open spec fn spec_abs(self) -> Scalar {
        Scalar { bits: self.magnitude() as u32 }
    }

    /// The exponent field of the encoding.
    pub open spec fn exponent(self) -> int {
        self.magnitude() / (FRACTION_RANGE as int)
    }

    /// The fraction field of the encoding.
    pub open spec fn fraction(self) -> int {
        self.magnitude() % (FRACTION_RANGE as int)
    }

    /// The number as a byte: its integer part, held to the range of a byte.
    /// What is no number, what is negative and what lies below 1 gives 0;
    /// what lies at or above 256 gives 255. A number between has the
    /// exponent field 127 + e with e from 0 to 7 and the value
    /// (2^23 + fraction) / 2^(23 - e), whose integer part is taken.
    pub open spec fn spec_to_u8(self) -> u8 {
        if self.nan() || self.sign_negative() || self.exponent() < 127 {
            0
        } else if self.exponent() >= 135 {
            255
        } else {
            ((FRACTION_RANGE + self.fraction()) / (pow2((150 - self.exponent()) as nat) as int)) as u8
        }
    }

    /// The number as an unsigned integer of 32 bits: its integer part, held
    /// to the range of such an integer. What is no number, what is negative
    /// and what lies below 1 gives 0; what lies at or above 2^32 gives the
    /// largest such integer. A number between has the exponent field 127 + e
    /// with e from 0 to 31 and the value (2^23 + fraction) * 2^(e - 23),
    /// whose integer part is taken.
    pub open spec fn spec_to_u32(self) -> u32 {
        if self.nan() || self.sign_negative() || self.exponent() < 127 {
            0
        } else if self.exponent() >= 159 {
            0xffff_ffff
        } else if self.exponent() < 150 {
            ((FRACTION_RANGE + self.fraction()) / (pow2((150 - self.exponent()) as nat) as int)) as u32
        } else {
            ((FRACTION_RANGE + self.fraction()) * pow2((self.exponent() - 150) as nat)) as u32
        }
    }

    pub fn from_bits(bits: u32) -> (r: Scalar)
        ensures
            r.bits == bits,
    {
        Scalar { bits }
    }

    pub fn to_bits(self) -> (r: u32)
        ensures
            r == self.bits,
    {
        self.bits
    }

    pub fn zero() -> (r: Scalar)
        ensures
            r.bits == 0,
            !r.nan(),
            r.rank() == 0,
    {
        Scalar { bits: 0 }
    }

    pub fn one() -> (r: Scalar)
        ensures
            r.bits == ONE_BITS,
            !r.nan(),
            r.rank() == ONE_BITS,
    {
        Scalar { bits: ONE_BITS }
    }

    fn magnitude_bits(self) -> (r: u32)
        ensures
            r == self.magnitude(),
            r < SIGN_BIT,
    {
        if self.bits >= SIGN_BIT {
            self.bits - SIGN_BIT
        } else {
            self.bits
        }
    }

    pub fn rank_value(self) -> (r: i64)
        ensures
            r == self.rank(),
    {
        let m: u32 = self.magnitude_bits();
        if self.bits >= SIGN_BIT {
            -(m as i64)
        } else {
            m as i64
        }
    }

    pub fn is_nan(self) -> (r: bool)
        ensures
            r == self.nan(),
    {
        self.magnitude_bits() > INFINITY_BITS
    }

    pub fn lt(self, other: Scalar) -> (r: bool)
        ensures
            r == self.spec_lt(other),
    {
        !self.is_nan() && !other.is_nan() && self.rank_value() < other.rank_value()
    }

    pub fn le(self, other: Scalar) -> (r: bool)
        ensures
            r == self.spec_le(other),
    {
        !self.is_nan() && !other.is_nan() && self.rank_value() <= other.rank_value()
    }

    /// Whether the number lies from `lo` to `hi`, the ends included.
    pub fn within(self, lo: Scalar, hi: Scalar) -> (r: bool)
        ensures
            r == self.spec_within(lo, hi),
    {
        lo.le(self) && self.le(hi)
    }

    pub fn gt(self, other: Scalar) -> (r: bool)
        ensures
            r == other.spec_lt(self),
    {
        other.lt(self)
    }

    pub fn ge(self, other: Scalar) -> (r: bool)
        ensures
            r == other.spec_le(self),
    {
        other.le(self)
    }

    pub fn min(self, other: Scalar) -> (r: Scalar)
        ensures
            r == self.spec_min(other),
    {
        if self.is_nan() {
            other
        } else if other.is_nan() {
            self
        } else if other.rank_value() < self.rank_value() {
            other
        } else {
            self
        }
    }

    pub fn max(self, other: Scalar) -> (r: Scalar)
        ensures
            r == self.spec_max(other),
    {
        if self.is_nan() {
            other
        } else if other.is_nan() {
            self
        } else if other.rank_value() > self.rank_value() {
            other
        } else {
            self
        }
    }

    pub fn neg(self) -> (r: Scalar)
        ensures
            r == self.spec_neg(),
            r.nan() == self.nan(),
            r.rank() == -self.rank(),
    {
        if self.bits >= SIGN_BIT {
            Scalar { bits: self.bits - SIGN_BIT }
        } else {
            Scalar { bits: self.bits + SIGN_BIT }
        }
    }

    pub fn abs(self) -> (r: Scalar)
        ensures
            r == self.spec_abs(),
            r.nan() == self.nan(),
            r.rank() == self.magnitude(),
    {
        Scalar { bits: self.magnitude_bits() }
    }

    /// The number as a byte, as a saturating cast to an unsigned byte gives
    /// it.
    pub fn to_u8(self) -> (r: u8)
        ensures
            r == self.spec_to_u8(),
    {
        if self.bits >= SIGN_BIT {
            return 0;
        }
        if self.bits > INFINITY_BITS {
            return 0;
        }
        let exponent: u32 = self.bits / FRACTION_RANGE;
        let fraction: u32 = self.bits % FRACTION_RANGE;
        if exponent < 127 {
            return 0;
        }
        if exponent >= 135 {
            return 255;
        }
        proof {
            lemma2_to64();
        }
        let divisor: u32 = if exponent == 127 {
            0x80_0000
        } else if exponent == 128 {
            0x40_0000
        } else if exponent == 129 {
            0x20_0000
        } else if exponent == 130 {
            0x10_0000
        } else if exponent == 131 {
            0x8_0000
        } else if exponent == 132 {
            0x4_0000
        } else if exponent == 133 {
            0x2_0000
        } else {
            0x1_0000
        };
        assert(divisor == pow2((150 - exponent) as nat));
        let whole: u32 = (FRACTION_RANGE + fraction) / divisor;
        assert(whole < 256) by (nonlinear_arith)
            requires
                whole == (FRACTION_RANGE + fraction) / (divisor as int),
                fraction < FRACTION_RANGE,
                FRACTION_RANGE == 0x80_0000,
                divisor >= 0x1_0000,
        ;
        whole as u8
    }

    /// The number as an unsigned integer of 32 bits, as a saturating cast
    /// gives it.
    pub fn to_u32(self) -> (r: u32)
        ensures
            r == self.spec_to_u32(),
    {
        if self.bits >= SIGN_BIT {
            return 0;
        }
        if self.bits > INFINITY_BITS {
            return 0;
        }
        let exponent: u32 = self.bits / FRACTION_RANGE;
        let fraction: u32 = self.bits % FRACTION_RANGE;
        if exponent < 127 {
            return 0;
        }
        if exponent >= 159 {
            return 0xffff_ffff;
        }
        let shift: u32 = if exponent < 150 {
            150 - exponent
        } else {
            exponent - 150
        };
        let mut power: u32 = 1;
        let mut k: u32 = 0;
        proof {
            lemma2_to64();
        }
        while k < shift
            invariant
                k <= shift <= 23,
                power == pow2(k as nat),
                power <= 0x80_0000,
            decreases shift - k,
        {
            proof {
                vstd::arithmetic::power2::lemma_pow2_unfold((k + 1) as nat);
                lemma2_to64();
                if k + 1 < 23 {
                    vstd::arithmetic::power2::lemma_pow2_strictly_increases(
                        (k + 1) as nat,
                        23,
                    );
                }
                if k < 23 {
                    vstd::arithmetic::power2::lemma_pow2_strictly_increases(k as nat, 23);
                }
            }
            power = power * 2;
            k += 1;
        }
        if exponent < 150 {
            proof {
                vstd::arithmetic::power2::lemma_pow2_pos(shift as nat);
            }
            (FRACTION_RANGE + fraction) / power
        } else {
            proof {
                lemma2_to64();
                if shift < 8 {
                    vstd::arithmetic::power2::lemma_pow2_strictly_increases(shift as nat, 8);
                }
            }
            assert((FRACTION_RANGE + fraction) * power <= 0xffff_ffff) by (nonlinear_arith)
                requires
                    fraction < FRACTION_RANGE,
                    FRACTION_RANGE == 0x80_0000,
                    0 < power <= 256,
            ;
            (FRACTION_RANGE + fraction) * power
        }
    }
}

/// A number that is not negative and no larger than 255 goes to the byte
/// whose value is its integer part: bytes order as the numbers do.
pub proof fn lemma_to_u8_is_monotone(a: Scalar, b: Scalar)
    requires
        a.spec_le(b),
    ensures
        a.spec_to_u8() <= b.spec_to_u8(),
{
    lemma2_to64();
    let ea = a.exponent();
    let eb = b.exponent();
    let fa = a.fraction();
    let fb = b.fraction();
    assert(a.magnitude() == ea * 0x80_0000 + fa && 0 <= fa < 0x80_0000) by (nonlinear_arith)
        requires
            ea == a.magnitude() / 0x80_0000,
            fa == a.magnitude() % 0x80_0000,
    ;
    assert(b.magnitude() == eb * 0x80_0000 + fb && 0 <= fb < 0x80_0000) by (nonlinear_arith)
        requires
            eb == b.magnitude() / 0x80_0000,
            fb == b.magnitude() % 0x80_0000,
    ;
    if !a.sign_negative() && ea >= 127 {
        // Then `b` is positive and at least as large as `a`.
        assert(!b.sign_negative());
        assert(ea <= eb) by (nonlinear_arith)
            requires
                ea * 0x80_0000 + fa <= eb * 0x80_0000 + fb,
                0 <= fa < 0x80_0000,
                0 <= fb < 0x80_0000,
        ;
        if eb < 135 {
            let da = pow2((150 - ea) as nat) as int;
            let db = pow2((150 - eb) as nat) as int;
            if ea == eb {
                assert((0x80_0000 + fa) / da <= (0x80_0000 + fb) / da) by (nonlinear_arith)
                    requires
                        fa <= fb,
                        da > 0,
                ;
            } else {
                lemma_pow2_doubles_upward((150 - eb) as nat, (150 - ea) as nat);
                let k = pow2((eb - 127) as nat) as int;
                vstd::arithmetic::power2::lemma_pow2_adds((150 - eb) as nat, (eb - 127) as nat);
                vstd::arithmetic::power2::lemma_pow2_pos((eb - 127) as nat);
                assert(db * k == 0x80_0000);
                assert((0x80_0000 + fb) / db >= k) by (nonlinear_arith)
                    requires
                        0 <= fb,
                        db * k == 0x80_0000,
                        db > 0,
                        k > 0,
                ;
                assert((0x80_0000 + fa) / da < k) by (nonlinear_arith)
                    requires
                        0 <= fa < 0x80_0000,
                        da >= 2 * db,
                        db * k == 0x80_0000,
                        db > 0,
                        k > 0,
                ;
                assert((0x80_0000 + fb) / db < 256) by (nonlinear_arith)
                    requires
                        0 <= fb < 0x80_0000,
                        db >= 0x1_0000,
                ;
            }
            assert(0 <= (0x80_0000 + fa) / da < 256) by (nonlinear_arith)
                requires
                    0 <= fa < 0x80_0000,
                    da >= 0x1_0000,
            ;
            assert(0 <= (0x80_0000 + fb) / db < 256) by (nonlinear_arith)
                requires
                    0 <= fb < 0x80_0000,
                    db >= 0x1_0000,
            ;
        }
    }
}

/// A power of two is at least twice every smaller power of two.
proof fn lemma_pow2_doubles_upward(low: nat, high: nat)
    requires
        low < high,
    ensures
        pow2(high) >= 2 * pow2(low),
    decreases high,
{
    vstd::arithmetic::power2::lemma_pow2_unfold(high);
    if low + 1 < high {
        lemma_pow2_doubles_upward(low, (high - 1) as nat);
    }
}

} // verus!
