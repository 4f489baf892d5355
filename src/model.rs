//! The Callendar–Van Dusen curve of IEC 60751, held exactly at whole degrees.
//!
//! With A = 3.9083e-3, B = -5.7750e-7 and C = -4.1830e-12 the curve is
//! R(t) = R0 · (1 + A·t + B·t²) for t ≥ 0 and
//! R(t) = R0 · (1 + A·t + B·t² + C·(t − 100)·t³) for t < 0.
//! Scaled by 10^15 every coefficient is an integer, so at a whole degree the
//! curve is an integer too, and so is the floor of the resistance there.
use vstd::prelude::*;
use crate::error::Error;
use crate::sensor::RTDType;

verus! {

/// The factor that makes the curve's coefficients integers.
pub const SCALE: u64 = 1_000_000_000_000_000;

/// A · SCALE.
pub const COEFF_A: i64 = 3_908_300_000_000;

/// −B · SCALE.
pub const COEFF_MINUS_B: i64 = 577_500_000;

/// −C · SCALE.
pub const COEFF_MINUS_C: i64 = 4183;

/// Lowest whole temperature of the model, in °C.
pub const T_MIN: i32 = -200;

/// Highest whole temperature of the model, in °C.
pub const T_MAX: i32 = 850;

/// Whether a whole temperature lies in the domain of the model.
pub open spec fn in_domain(t: int) -> bool {
    T_MIN <= t <= T_MAX
}

/// (R(t) / R0) · SCALE at the whole temperature t.
pub open spec fn curve(t: int) -> int {
    if t >= 0 {
        SCALE + COEFF_A * t - COEFF_MINUS_B * (t * t)
    } else {
        SCALE + COEFF_A * t - COEFF_MINUS_B * (t * t) - COEFF_MINUS_C * ((t - 100) * (t * t * t))
    }
}

/// R(t) · SCALE, in ohms, at the whole temperature t.
pub open spec fn model_resistance(r0: RTDType, t: int) -> int {
    r0.nominal() * curve(t)
}

/// The floor of R(t), in ohms, at the whole temperature t.
pub open spec fn floor_resistance(r0: RTDType, t: int) -> int {
    model_resistance(r0, t) / (SCALE as int)
}

/// The curve is positive and below 5 · SCALE over the domain.
proof fn lemma_curve_bounds(t: int)
    requires
        in_domain(t),
    ensures
        0 < curve(t) < 5 * SCALE,
{
    if t >= 0 {
        assert(0 <= t * t <= 722_500) by (nonlinear_arith)
            requires
                0 <= t <= 850,
        ;
    } else {
        assert(0 < t * t <= 40_000) by (nonlinear_arith)
            requires
                -200 <= t < 0,
        ;
        assert(0 < (t - 100) * (t * t * t) <= 2_400_000_000) by (nonlinear_arith)
            requires
                -200 <= t < 0,
        ;
    }
}

/// The curve rises from each whole degree of the domain to the next.
proof fn lemma_curve_step(t: int)
    requires
        T_MIN <= t < T_MAX,
    ensures
        curve(t) < curve(t + 1),
{
    let u = t + 1;
    if t >= 0 {
        assert(u * u - t * t == 2 * t + 1) by (nonlinear_arith)
            requires
                u == t + 1,
        ;
    } else if t == -1 {
        assert(curve(t) < curve(u));
    } else {
        assert(u * u - t * t == 2 * t + 1) by (nonlinear_arith)
            requires
                u == t + 1,
        ;
        assert((u - 100) * (u * u * u) - (t - 100) * (t * t * t) == 4 * (t * t * t) - 294 * (t
            * t) - 296 * t - 99) by (nonlinear_arith)
            requires
                u == t + 1,
        ;
        assert(4 * (t * t * t) - 294 * (t * t) - 296 * t - 99 < 0) by (nonlinear_arith)
            requires
                -200 <= t <= -2,
        ;
    }
}

/// Strict rise of the curve over the domain: at whole degrees t1 < t2 the
/// resistance at t1 is the smaller, for every sensor class, and so its floor
/// is at most the floor at t2.
pub proof fn lemma_resistance_strictly_increasing(r0: RTDType, t1: int, t2: int)
    requires
        in_domain(t1),
        in_domain(t2),
        t1 < t2,
    ensures
        model_resistance(r0, t1) < model_resistance(r0, t2),
        floor_resistance(r0, t1) <= floor_resistance(r0, t2),
    decreases t2 - t1,
{
    lemma_curve_step(t2 - 1);
    if t1 < t2 - 1 {
        lemma_resistance_strictly_increasing(r0, t1, t2 - 1);
    }
    let n = r0.nominal();
    let (c1, c2) = (curve(t1), curve(t2));
    assert(c1 < c2);
    assert(n * c1 < n * c2) by (nonlinear_arith)
        requires
            0 < n,
            c1 < c2,
    ;
    vstd::arithmetic::div_mod::lemma_div_is_ordered(
        model_resistance(r0, t1),
        model_resistance(r0, t2),
        SCALE as int,
    );
}

/// At 0 °C every sensor class has exactly its nominal resistance.
pub proof fn lemma_nominal_at_zero(r0: RTDType)
    ensures
        model_resistance(r0, 0) == r0.nominal() * SCALE,
        floor_resistance(r0, 0) == r0.nominal(),
{
    let n = r0.nominal();
    assert(n * SCALE / (SCALE as int) == n) by (nonlinear_arith);
}

/// Which side of 0 °C a temperature lies on; the model takes a different
/// formula on each.
#[derive(Debug, Clone, Copy, PartialEq, Eq, Structural)]
pub enum Region {
    /// 0 °C and above: the quadratic formula.
    AtOrAboveZero,
    /// Below 0 °C: the quadratic formula with the quartic term of C.
    BelowZero,
}

/// The region of a whole temperature.
pub open spec fn region_of(t: int) -> Region {
    if t >= 0 {
        Region::AtOrAboveZero
    } else {
        Region::BelowZero
    }
}

/// Picks the formula for a temperature whose floor is `t`, or refuses a
/// temperature outside -200..=850 °C.
pub fn temperature_region(t: i32) -> (r: Result<Region, Error>)
    ensures
        r == (if in_domain(t as int) {
            Ok(region_of(t as int))
        } else {
            Err(Error::OutOfBounds)
        }),
{
    if 0 <= t && t <= T_MAX {
        Ok(Region::AtOrAboveZero)
    } else if T_MIN <= t && t < 0 {
        Ok(Region::BelowZero)
    } else {
        Err(Error::OutOfBounds)
    }
}

/// The floor of the sensor's resistance, in ohms, at the whole temperature
/// `t`, computed exactly; a temperature outside -200..=850 °C is refused.
pub fn resistance_floor(t: i32, r0: RTDType) -> (r: Result<u32, Error>)
    ensures
        match r {
            Ok(v) => in_domain(t as int) && v == floor_resistance(r0, t as int),
            Err(e) => !in_domain(t as int) && e == Error::OutOfBounds,
        },
{
    let region = match temperature_region(t) {
        Ok(region) => region,
        Err(e) => return Err(e),
    };
    let ti = t as i64;
    proof {
        lemma_curve_bounds(t as int);
        assert(0 <= ti * ti <= 722_500) by (nonlinear_arith)
            requires
                -200 <= ti <= 850,
        ;
    }
    let sq = ti * ti;
    let mut c: i64 = SCALE as i64 + COEFF_A * ti - COEFF_MINUS_B * sq;
    if let Region::BelowZero = region {
        assert(-8_000_000 <= sq * ti < 0) by (nonlinear_arith)
            requires
                -200 <= ti < 0,
                sq == ti * ti,
        ;
        assert(0 < (ti - 100) * (sq * ti) <= 2_400_000_000) by (nonlinear_arith)
            requires
                -200 <= ti < 0,
                sq == ti * ti,
        ;
        let quartic = (ti - 100) * (sq * ti);
        c = c - COEFF_MINUS_C * quartic;
    }
    assert(c == curve(t as int));
    let n = r0.nominal_resistance() as i64;
    assert(0 < n * c < 5_000_000_000_000_000_000) by (nonlinear_arith)
        requires
            0 < n <= 1000,
            0 < c < 5_000_000_000_000_000,
    ;
    let scaled = (n * c) as u64;
    let v = scaled / SCALE;
    assert(v < 5000) by (nonlinear_arith)
        requires
            v == scaled / SCALE,
            scaled < 5_000_000_000_000_000_000,
    ;
    Ok(v as u32)
}

} // verus!
