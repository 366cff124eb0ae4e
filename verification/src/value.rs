//! The scalar domain of the dataflow evaluator: a signed 32-bit fixed-point
//! number with 16 fractional bits and saturating arithmetic, plus the two
//! quantities that only the outside world can supply — the sine of an angle
//! and the current time.

use vstd::prelude::*;

verus! {

/// The representation of 1.0: one shifted left by the 16 fractional bits.
pub const FRACTION_ONE: i32 = 65536;

/// The representation of the period of the sine node's argument (2.0).
pub const FRACTION_TWO: i32 = 131072;

/// Half of [`FRACTION_ONE`], used to round to the nearest representable value.
pub const FRACTION_HALF: i32 = 32768;

/// The closest representation of the circle constant pi.
pub const PI_BITS: i32 = 205887;

/// The absolute value of an unbounded integer.
pub open spec fn abs_int(x: int) -> int {
    if x < 0 {
        -x
    } else {
        x
    }
}

/// Saturation to the range of the 32-bit representation.
pub open spec fn clamp_bits(x: int) -> int {
    if x > i32::MAX {
        i32::MAX as int
    } else if x < i32::MIN {
        i32::MIN as int
    } else {
        x
    }
}

/// The sum of two fixed-point values, saturating at the ends of the range.
pub open spec fn spec_add(a: int, b: int) -> int {
    clamp_bits(a + b)
}

/// The product of two fixed-point values: the product of the magnitudes,
/// rescaled with rounding to the nearest representable value, with the sign
/// of the true product, saturating at the ends of the range.
pub open spec fn spec_mul(a: int, b: int) -> int {
    let m = abs_int(a) * abs_int(b);
    let q = (m + FRACTION_HALF) / (FRACTION_ONE as int);
    if (a < 0) != (b < 0) {
        clamp_bits(-q)
    } else {
        clamp_bits(q)
    }
}

/// The quotient `num / den` as a fixed-point value, rounded to the nearest
/// representable value (den positive).
pub open spec fn spec_from_ratio(num: int, den: int) -> int {
    let q = (abs_int(num) * (FRACTION_ONE as int) + den / 2) / den;
    if num < 0 {
        clamp_bits(-q)
    } else {
        clamp_bits(q)
    }
}

/// The sine node's argument reduced by its period: congruent to `v` modulo
/// the representation of 2.0, lying in (-1.0, 1.0].
pub open spec fn reduce_period(v: int) -> int {
    let m = v % (FRACTION_TWO as int);
    if m > FRACTION_ONE {
        m - FRACTION_TWO
    } else {
        m
    }
}

/// The result of the fixed-point sine routine of the outside library on a
/// given angle, in radians. It depends on the angle's bits alone.
pub uninterp spec fn fixed_sin(angle_bits: int) -> int;

/// The sine of `v` times pi: the argument is reduced by its period of 2.0,
/// scaled by pi, and handed to the fixed-point sine routine; the result is
/// saturated to the 32-bit representation, as the routine's own result
/// always is.
pub open spec fn spec_sin_times_pi(v: int) -> int {
    clamp_bits(fixed_sin(spec_mul(reduce_period(v), PI_BITS as int)))
}

/// The time node's value for a given millisecond reading: the milliseconds
/// within the current second, as a fraction of one second, rounded to the
/// nearest representable value. Always in [0.0, 1.0).
pub open spec fn spec_time_value(millis: int) -> int {
    ((millis % 1000) * (FRACTION_ONE as int) + 500) / 1000
}

/// A scalar carried by a node of the dataflow graph: a signed fixed-point
/// number with 16 fractional bits.
#[derive(Debug, Clone, Copy, PartialEq, Eq, Hash, Structural)]
pub struct Value {
    /// The raw two's-complement representation, in units of 2 to the -16.
    pub bits: i32,
}

impl View for Value {
    type V = int;

    /// A value is seen in specifications as its raw bits.
    open spec fn view(&self) -> int {
        self.bits as int
    }
}

impl Value {
    /// The value 0.0.
    pub fn zero() -> (r: Value)
        ensures
            r@ == 0,
    {
        Value { bits: 0 }
    }

    /// The value 1.0.
    pub fn one() -> (r: Value)
        ensures
            r@ == FRACTION_ONE as int,
    {
        Value { bits: FRACTION_ONE }
    }

    /// The value with the given raw bits.
    pub fn from_bits(bits: i32) -> (r: Value)
        ensures
            r@ == bits as int,
    {
        Value { bits }
    }

    /// The raw bits of this value.
    pub fn to_bits(self) -> (r: i32)
        ensures
            r as int == self@,
    {
        self.bits
    }

    /// The given whole number as a fixed-point value.
    pub fn from_int(n: i32) -> (r: Value)
        ensures
            r@ == clamp_bits(n * (FRACTION_ONE as int)),
    {
        proof {
            assert(-0x8000_0000i64 * 65536 <= (n as i64) * (FRACTION_ONE as i64)
                <= 0x8000_0000i64 * 65536) by (nonlinear_arith)
                requires
                    -0x8000_0000i64 <= n as i64 <= 0x8000_0000i64,
            ;
        }
        let wide: i64 = (n as i64) * (FRACTION_ONE as i64);
        Value { bits: clamp_i64(wide) }
    }

    /// The quotient of two whole numbers as a fixed-point value, rounded to
    /// the nearest representable value.
    pub fn from_ratio(num: i32, den: i32) -> (r: Value)
        requires
            den > 0,
        ensures
            r@ == spec_from_ratio(num as int, den as int),
    {
        let mag: u64 = abs_u64(num);
        proof {
            assert(mag * (FRACTION_ONE as u64) <= 0x8000_0000u64 * 65536) by (nonlinear_arith)
                requires
                    mag <= 0x8000_0000u64,
            ;
        }
        let scaled: u64 = mag * (FRACTION_ONE as u64) + (den as u64) / 2;
        let q: u64 = scaled / (den as u64);
        proof {
            assert(q <= scaled) by (nonlinear_arith)
                requires
                    q as int == scaled as int / (den as int),
                    den >= 1,
            ;
        }
        if num < 0 {
            Value { bits: clamp_i64(-(q as i64)) }
        } else {
            Value { bits: clamp_i64(q as i64) }
        }
    }

    /// The saturating sum of two values.
    pub fn saturating_add(self, other: Value) -> (r: Value)
        ensures
            r@ == spec_add(self@, other@),
    {
        let wide: i64 = (self.bits as i64) + (other.bits as i64);
        Value { bits: clamp_i64(wide) }
    }

    /// The saturating, rounded product of two values.
    pub fn saturating_mul(self, other: Value) -> (r: Value)
        ensures
            r@ == spec_mul(self@, other@),
    {
        let ma: u64 = abs_u64(self.bits);
        let mb: u64 = abs_u64(other.bits);
        proof {
            assert(ma * mb <= 0x8000_0000u64 * 0x8000_0000u64) by (nonlinear_arith)
                requires
                    ma <= 0x8000_0000u64,
                    mb <= 0x8000_0000u64,
            ;
        }
        let m: u64 = ma * mb;
        let q: u64 = (m + (FRACTION_HALF as u64)) / (FRACTION_ONE as u64);
        proof {
            assert(q <= m + (FRACTION_HALF as u64)) by (nonlinear_arith)
                requires
                    q as int == (m as int + FRACTION_HALF as int) / (FRACTION_ONE as int),
            ;
        }
        if (self.bits < 0) != (other.bits < 0) {
            Value { bits: clamp_i64(-(q as i64)) }
        } else {
            Value { bits: clamp_i64(q as i64) }
        }
    }

    /// The sine node's formula: the sine of this value times pi.
    pub fn sin_times_pi(self) -> (r: Value)
        ensures
            r@ == spec_sin_times_pi(self@),
    {
        let reduced: i32 = reduce_period_exec(self.bits);
        let angle: Value = Value { bits: reduced }.saturating_mul(Value { bits: PI_BITS });
        let s = sin_i16f16(angle.bits);
        proof {
            assert(clamp_bits(fixed_sin(angle@)) == s as int);
        }
        Value { bits: s }
    }

    /// The time node's value for a given millisecond reading.
    pub fn time_value_from_millis(millis: u64) -> (r: Value)
        ensures
            r@ == spec_time_value(millis as int),
            0 <= r@ < FRACTION_ONE as int,
    {
        let within: u64 = millis % 1000;
        let bits: u64 = (within * (FRACTION_ONE as u64) + 500) / 1000;
        proof {
            assert((millis as int) % 1000 == within as int);
            assert(within * 65536 + 500 <= 999 * 65536 + 500) by (nonlinear_arith)
                requires
                    within <= 999,
            ;
        }
        Value { bits: bits as i32 }
    }

    /// The time node's value right now: the current milliseconds within the
    /// second, as a fraction of one second.
    pub fn time_sample() -> (r: Value)
        ensures
            exists|ms: int| 0 <= ms && r@ == spec_time_value(ms),
            0 <= r@ < FRACTION_ONE as int,
    {
        let millis: u64 = unix_millis();
        let r = Value::time_value_from_millis(millis);
        proof {
            assert(0 <= millis as int && r@ == spec_time_value(millis as int));
        }
        r
    }
}

/// Saturation of a 64-bit sum or product back to the 32-bit representation.
fn clamp_i64(x: i64) -> (r: i32)
    ensures
        r as int == clamp_bits(x as int),
{
    if x > i32::MAX as i64 {
        i32::MAX
    } else if x < i32::MIN as i64 {
        i32::MIN
    } else {
        x as i32
    }
}

/// The magnitude of a 32-bit integer, widened so that the smallest value has
/// a representable magnitude.
fn abs_u64(x: i32) -> (r: u64)
    ensures
        r as int == abs_int(x as int),
        r <= 0x8000_0000u64,
{
    if x < 0 {
        (-(x as i64)) as u64
    } else {
        x as u64
    }
}

/// The sine node's argument reduced by its period, on raw bits.
fn reduce_period_exec(v: i32) -> (r: i32)
    ensures
        r as int == reduce_period(v as int),
{
    let m: i32 = if v >= 0 {
        v % FRACTION_TWO
    } else {
        let k: i32 = ((-(v as i64)) % (FRACTION_TWO as i64)) as i32;
        if k == 0 {
            0
        } else {
            FRACTION_TWO - k
        }
    };
    proof {
        assert(m as int == (v as int) % (FRACTION_TWO as int));
    }
    if m > FRACTION_ONE {
        m - FRACTION_TWO
    } else {
        m
    }
}

/// Relies on cordic::sin over the fixed crate's I16F16 type: the fixed-point
/// sine of the angle, in radians; the result depends on the angle's bits
/// alone, and the routine returns for every input.
#[verifier::external_body]
fn sin_i16f16(angle_bits: i32) -> (r: i32)
    ensures
        r as int == fixed_sin(angle_bits as int),
{
    cordic::sin(fixed::types::I16F16::from_bits(angle_bits)).to_bits()
}

/// Relies on std::time::SystemTime::now and duration_since: the milliseconds
/// since the Unix epoch, or 0 where the clock reads before the epoch.
#[verifier::external_body]
fn unix_millis() -> (r: u64)
{
    match std::time::SystemTime::now().duration_since(std::time::UNIX_EPOCH) {
        Ok(d) => d.as_millis() as u64,
        Err(_) => 0,
    }
}

} // verus!

