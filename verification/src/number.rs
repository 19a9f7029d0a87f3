//! Numbers as they arrive on the wire: IEEE 754 binary64 values, held by
//! their bit pattern and rounded with integer arithmetic only.

use vstd::arithmetic::div_mod::lemma_small_mod;
use vstd::arithmetic::power2::{
    lemma2_to64, lemma2_to64_rest, lemma_pow2_adds, lemma_pow2_pos, lemma_pow2_strictly_increases,
    pow2,
};
use vstd::bits::{lemma_u64_shl_is_mul, lemma_u64_shr_is_div};
use vstd::prelude::*;

verus! {

/// Largest value of the biased exponent field; it marks infinities and NaN.
pub const EXPONENT_MAX: u64 = 2047;

/// Bias of the exponent once the significand is read as an integer.
pub const EXPONENT_BIAS: u64 = 1075;

/// A binary64 floating point value, identified by its bit pattern.
///
/// Two numbers are the same when their bit patterns are: a NaN is the same
/// as itself, and the two zeros differ.
#[derive(Clone, Copy, Debug, PartialEq, Eq, Structural)]
pub struct Number {
    bits: u64,
}

impl Number {
    /// The bit pattern.
    pub closed spec fn bits_spec(self) -> u64 {
        self.bits
    }

    /// Whether the sign bit is set.
    pub open spec fn sign_negative(self) -> bool {
        self.bits_spec() >= pow2(63)
    }

    /// The biased exponent field.
    pub open spec fn exponent_field(self) -> int {
        (self.bits_spec() as int / pow2(52) as int) % 2048
    }

    /// The fraction field.
    pub open spec fn fraction_field(self) -> int {
        self.bits_spec() as int % pow2(52) as int
    }

    pub open spec fn is_nan(self) -> bool {
        self.exponent_field() == 2047 && self.fraction_field() != 0
    }

    pub open spec fn is_infinite(self) -> bool {
        self.exponent_field() == 2047 && self.fraction_field() == 0
    }

    /// The integer `m` such that the magnitude is `m * 2^exponent()`.
    pub open spec fn significand(self) -> int {
        if self.exponent_field() == 0 {
            self.fraction_field()
        } else {
            self.fraction_field() + pow2(52)
        }
    }

    /// The power of two that scales the significand.
    pub open spec fn exponent(self) -> int {
        if self.exponent_field() == 0 {
            -1074
        } else {
            self.exponent_field() - 1075
        }
    }

    /// The integer nearest to the magnitude of a finite number, halfway cases
    /// going away from zero.
    pub open spec fn rounded_magnitude(self) -> int {
        let m = self.significand();
        let e = self.exponent();
        if e >= 0 {
            m * pow2(e as nat)
        } else {
            (2 * m + pow2((-e) as nat)) / (2 * pow2((-e) as nat) as int)
        }
    }

    /// The nearest integer, halfway cases going away from zero, brought into
    /// the range of `i64`: NaN gives 0 and what lies outside the range gives
    /// the nearest bound.
    pub open spec fn rounded(self) -> int {
        if self.is_nan() {
            0
        } else if self.is_infinite() {
            if self.sign_negative() {
                i64::MIN as int
            } else {
                i64::MAX as int
            }
        } else {
            let magnitude = self.rounded_magnitude();
            if self.sign_negative() {
                if magnitude >= pow2(63) {
                    i64::MIN as int
                } else {
                    -magnitude
                }
            } else {
                if magnitude >= pow2(63) {
                    i64::MAX as int
                } else {
                    magnitude
                }
            }
        }
    }

    /// The integer that the number is, where it is finite and has no
    /// fractional part. Both zeros are the integer 0.
    pub open spec fn integer(self) -> Option<int> {
        let m = self.significand();
        let e = self.exponent();
        if self.exponent_field() == 2047 {
            None
        } else if e >= 0 {
            Some(
                if self.sign_negative() {
                    -(m * pow2(e as nat))
                } else {
                    m * pow2(e as nat)
                },
            )
        } else if m % (pow2((-e) as nat) as int) == 0 {
            Some(
                if self.sign_negative() {
                    -(m / (pow2((-e) as nat) as int))
                } else {
                    m / (pow2((-e) as nat) as int)
                },
            )
        } else {
            None
        }
    }

    /// The integer that the number is, where `i64` can hold it.
    pub open spec fn exact_integer(self) -> Option<i64> {
        match self.integer() {
            Some(value) => if i64::MIN <= value <= i64::MAX {
                Some(value as i64)
            } else {
                None
            },
            None => None,
        }
    }

    /// The integer that the number is, where that is one of 0 to 255.
    pub open spec fn small_integer(self) -> Option<u8> {
        match self.integer() {
            Some(value) => if 0 <= value <= 255 {
                Some(value as u8)
            } else {
                None
            },
            None => None,
        }
    }

    /// The number with the given bit pattern.
    pub fn from_bits(bits: u64) -> (number: Number)
        ensures
            number.bits_spec() == bits,
    {
        Number { bits }
    }

    /// The bit pattern of the number.
    pub fn to_bits(&self) -> (bits: u64)
        ensures
            bits == self.bits_spec(),
    {
        self.bits
    }

    /// The sign, the biased exponent field and the fraction field.
    fn fields(&self) -> (fields: (bool, u64, u64))
        ensures
            fields.0 == self.sign_negative(),
            fields.1 == self.exponent_field(),
            fields.2 == self.fraction_field(),
            fields.1 <= EXPONENT_MAX,
            fields.2 < pow2(52),
    {
        let bits = self.bits;
        proof {
            lemma2_to64();
            lemma2_to64_rest();
            lemma_u64_shr_is_div(bits, 63);
            lemma_u64_shr_is_div(bits, 52);
            assert((bits >> 52) & 0x7ff == (bits >> 52) % 2048) by (bit_vector);
            assert(bits & 0xf_ffff_ffff_ffff == bits % 0x10_0000_0000_0000) by (bit_vector);
        }
        (bits >> 63 == 1, (bits >> 52) & 0x7ff, bits & 0xf_ffff_ffff_ffff)
    }

    /// The integer that the number is, if it is one that `i64` can hold.
    pub fn to_integer(&self) -> (value: Option<i64>)
        ensures
            value == self.exact_integer(),
    {
        let (negative, field, fraction) = self.fields();
        proof {
            lemma2_to64();
            lemma2_to64_rest();
        }
        if field == EXPONENT_MAX {
            return None;
        }
        if field == 0 {
            proof {
                lemma_pow2_strictly_increases(52, 1074);
                if fraction != 0 {
                    lemma_small_mod(fraction as nat, pow2(1074));
                }
            }
            return if fraction == 0 {
                Some(0)
            } else {
                None
            };
        }
        let significand: u64 = fraction + 0x10_0000_0000_0000;
        let magnitude: u64 = if field >= EXPONENT_BIAS {
            let shift: u64 = field - EXPONENT_BIAS;
            if shift >= 11 {
                proof {
                    if shift > 11 {
                        lemma_pow2_strictly_increases(11, shift as nat);
                    }
                    lemma_pow2_adds(52, 11);
                    let scale = pow2(shift as nat) as int;
                    assert(significand * scale >= pow2(63) && (significand * scale == pow2(63)
                        ==> significand == pow2(52) && scale == pow2(11))) by (nonlinear_arith)
                        requires
                            significand >= pow2(52),
                            scale >= pow2(11),
                            pow2(63) == pow2(52) * pow2(11),
                            pow2(52) > 0,
                            pow2(11) > 0,
                    ;
                }
                return if negative && shift == 11 && fraction == 0 {
                    Some(i64::MIN)
                } else {
                    None
                };
            }
            proof {
                scaled_significand_fits(significand, shift);
                lemma_u64_shl_is_mul(significand, shift);
            }
            significand << shift
        } else {
            let shift: u64 = EXPONENT_BIAS - field;
            if shift > 52 {
                proof {
                    if shift > 53 {
                        lemma_pow2_strictly_increases(53, shift as nat);
                    }
                    lemma_small_mod(significand as nat, pow2(shift as nat));
                }
                return None;
            }
            proof {
                if shift < 52 {
                    lemma_pow2_strictly_increases(shift as nat, 52);
                }
                lemma_pow2_pos(shift as nat);
                assert(1 * pow2(shift as nat) == pow2(shift as nat));
                lemma_u64_shl_is_mul(1, shift);
                lemma_u64_shr_is_div(significand, shift);
            }
            let unit: u64 = 1u64 << shift;
            if significand % unit != 0 {
                return None;
            }
            proof {
                assert(significand as nat / pow2(shift as nat) <= significand) by (nonlinear_arith)
                    requires
                        pow2(shift as nat) >= 1,
                ;
            }
            significand >> shift
        };
        if negative {
            Some(-(magnitude as i64))
        } else {
            Some(magnitude as i64)
        }
    }

    /// The integer from 0 to 255 that the number is, if it is one.
    pub fn to_u8(&self) -> (value: Option<u8>)
        ensures
            value == self.small_integer(),
    {
        match self.to_integer() {
            Some(value) => if 0 <= value && value <= 255 {
                Some(value as u8)
            } else {
                None
            },
            None => None,
        }
    }

    /// Rounds to the nearest integer, halfway cases away from zero, and
    /// saturates at the bounds of `i64`.
    pub fn round(&self) -> (rounded: i64)
        ensures
            rounded == self.rounded(),
    {
        let (negative, field, fraction) = self.fields();
        proof {
            lemma2_to64();
            lemma2_to64_rest();
        }
        if field == EXPONENT_MAX {
            if fraction != 0 {
                0
            } else if negative {
                i64::MIN
            } else {
                i64::MAX
            }
        } else {
            let significand: u64 = if field == 0 {
                fraction
            } else {
                fraction + 0x10_0000_0000_0000
            };
            let magnitude: u64 = if field >= EXPONENT_BIAS {
                let shift: u64 = field - EXPONENT_BIAS;
                if shift >= 11 {
                    proof {
                        if shift > 11 {
                            lemma_pow2_strictly_increases(11, shift as nat);
                        }
                        lemma_pow2_adds(52, 11);
                        assert(pow2(63) <= significand * pow2(shift as nat)) by (nonlinear_arith)
                            requires
                                significand >= pow2(52),
                                pow2(shift as nat) >= pow2(11),
                                pow2(63) == pow2(52) * pow2(11),
                        ;
                    }
                    0x8000_0000_0000_0000
                } else {
                    proof {
                        scaled_significand_fits(significand, shift);
                        lemma_u64_shl_is_mul(significand, shift);
                    }
                    significand << shift
                }
            } else {
                let shift: u64 = if field == 0 {
                    1074
                } else {
                    EXPONENT_BIAS - field
                };
                if shift >= 54 {
                    proof {
                        halved_significand_vanishes(significand, shift);
                    }
                    0
                } else {
                    proof {
                        rounding_shift(significand, shift);
                    }
                    (significand + (1u64 << (shift - 1))) >> shift
                }
            };
            if magnitude >= 0x8000_0000_0000_0000 {
                if negative {
                    i64::MIN
                } else {
                    i64::MAX
                }
            } else if negative {
                -(magnitude as i64)
            } else {
                magnitude as i64
            }
        }
    }
}

/// The rounding of a number is an integer that `i64` can hold, and the
/// magnitude it is made of is not negative.
pub proof fn lemma_rounded_range(number: Number)
    ensures
        number.exponent_field() != 2047 ==> number.rounded_magnitude() >= 0,
        i64::MIN <= number.rounded() <= i64::MAX,
{
    lemma2_to64();
    lemma2_to64_rest();
    if number.exponent_field() != 2047 {
        let m = number.significand();
        let e = number.exponent();
        if e >= 0 {
            lemma_pow2_pos(e as nat);
            assert(m * pow2(e as nat) >= 0) by (nonlinear_arith)
                requires
                    m >= 0,
                    pow2(e as nat) > 0,
            ;
        } else {
            lemma_pow2_pos((-e) as nat);
            let p = pow2((-e) as nat) as int;
            assert((2 * m + p) / (2 * p) >= 0) by (nonlinear_arith)
                requires
                    m >= 0,
                    p > 0,
            ;
        }
    }
}

/// A significand scaled by fewer than eleven binary places stays below 2^63.
proof fn scaled_significand_fits(significand: u64, shift: u64)
    requires
        significand < pow2(53),
        shift <= 10,
    ensures
        significand * pow2(shift as nat) < pow2(63),
        significand * pow2(shift as nat) <= u64::MAX,
{
    lemma2_to64();
    lemma2_to64_rest();
    if shift < 10 {
        lemma_pow2_strictly_increases(shift as nat, 10);
    }
    lemma_pow2_adds(53, 10);
    assert(significand * pow2(shift as nat) < pow2(63)) by (nonlinear_arith)
        requires
            significand < pow2(53),
            0 < pow2(shift as nat) <= pow2(10),
            pow2(63) == pow2(53) * pow2(10),
    ;
}

/// Below one half the nearest integer is zero.
proof fn halved_significand_vanishes(significand: u64, shift: u64)
    requires
        significand < pow2(53),
        shift >= 54,
    ensures
        (2 * significand + pow2(shift as nat)) / (2 * pow2(shift as nat) as int) == 0,
{
    lemma2_to64();
    lemma2_to64_rest();
    if shift > 54 {
        lemma_pow2_strictly_increases(54, shift as nat);
    }
    let p = pow2(shift as nat) as int;
    assert(2 * significand < p);
    assert((2 * significand + p) / (2 * p) == 0) by (nonlinear_arith)
        requires
            0 <= 2 * significand < p,
    ;
}

/// Adding half a unit and shifting right rounds halfway cases upward.
proof fn rounding_shift(significand: u64, shift: u64)
    requires
        significand < pow2(53),
        1 <= shift <= 53,
    ensures
        significand + (1u64 << ((shift - 1) as u64)) <= u64::MAX,
        ((significand + (1u64 << ((shift - 1) as u64))) as u64 >> shift) == (2 * significand + pow2(
            shift as nat,
        )) / (2 * pow2(shift as nat) as int),
        ((significand + (1u64 << ((shift - 1) as u64))) as u64 >> shift) < pow2(63),
{
    lemma2_to64();
    lemma2_to64_rest();
    let half_shift = (shift - 1) as u64;
    if half_shift < 52 {
        lemma_pow2_strictly_increases(half_shift as nat, 52);
    }
    lemma_pow2_pos(half_shift as nat);
    assert(1 * pow2(half_shift as nat) == pow2(half_shift as nat));
    lemma_u64_shl_is_mul(1, half_shift);
    let half = 1u64 << half_shift;
    assert(half == pow2(half_shift as nat));
    let sum: u64 = (significand + half) as u64;
    lemma_u64_shr_is_div(sum, shift);
    lemma_pow2_adds(half_shift as nat, 1);
    let p = pow2(shift as nat) as int;
    assert(p == 2 * half);
    assert((2 * significand + p) / (2 * p) == (significand + half) / p) by (nonlinear_arith)
        requires
            p == 2 * half,
            p > 0,
    ;
    assert((significand + half) / p <= significand + half) by (nonlinear_arith)
        requires
            p >= 1,
            significand + half >= 0,
    ;
}

} // verus!
