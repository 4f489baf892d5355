//! How a measured resistance is turned back into a temperature: within which
//! bounds, and with which correction.
use vstd::prelude::*;
use crate::error::Error;
use crate::model::{
    floor_resistance, in_domain, lemma_nominal_at_zero, lemma_resistance_strictly_increasing,
    model_resistance, resistance_floor, SCALE, T_MAX, T_MIN,
};
use crate::sensor::{Correction, RTDType};

verus! {

/// The floor of the resistance at -200 °C: the lowest floor that inverts.
pub open spec fn min_resistance(r0: RTDType) -> int {
    floor_resistance(r0, T_MIN as int)
}

/// The floor of the resistance at 850 °C: the highest floor that inverts.
pub open spec fn max_resistance(r0: RTDType) -> int {
    floor_resistance(r0, T_MAX as int)
}

/// The floors of the resistance at both ends of the domain, in ohms.
pub fn resistance_bounds(r0: RTDType) -> (b: (u32, u32))
    ensures
        b.0 == min_resistance(r0),
        b.1 == max_resistance(r0),
{
    // Both ends lie in the domain, so neither call is refused.
    let lo = match resistance_floor(T_MIN, r0) {
        Ok(v) => v,
        Err(_) => 0,
    };
    let hi = match resistance_floor(T_MAX, r0) {
        Ok(v) => v,
        Err(_) => 0,
    };
    (lo, hi)
}

/// How a temperature is had from a resistance.
#[derive(Debug, Clone, Copy, PartialEq, Eq, Structural)]
pub enum Inversion {
    /// The resistance lies at or above the nominal one: the quadratic
    /// inverse is the temperature.
    Direct,
    /// The resistance lies below the nominal one: the quadratic inverse plus
    /// the given correction polynomial, taken at the resistance.
    Corrected(Correction),
}

/// The inversion for a resistance whose floor is `r`.
pub open spec fn inversion_of(r: int, r0: RTDType) -> Result<Inversion, Error> {
    if r0.nominal() <= r <= max_resistance(r0) {
        Ok(Inversion::Direct)
    } else if min_resistance(r0) <= r < r0.nominal() {
        Ok(Inversion::Corrected(r0.correction_table()))
    } else {
        Err(Error::OutOfBounds)
    }
}

/// Decides how a resistance whose floor is `r` is inverted: directly from
/// the nominal resistance up to the bound at 850 °C, with the class's
/// correction from the bound at -200 °C up to the nominal resistance, and
/// not at all outside those bounds.
pub fn inversion(r: i32, r0: RTDType) -> (res: Result<Inversion, Error>)
    ensures
        res == inversion_of(r as int, r0),
{
    let (lo, hi) = resistance_bounds(r0);
    let correction = match r0.correction() {
        Ok(c) => c,
        Err(e) => return Err(e),
    };
    let nominal = r0.nominal_resistance() as i64;
    let r = r as i64;
    if nominal <= r && r <= hi as i64 {
        Ok(Inversion::Direct)
    } else if lo as i64 <= r && r < nominal {
        Ok(Inversion::Corrected(correction))
    } else {
        Err(Error::OutOfBounds)
    }
}

/// The nominal resistance of a class is inverted directly, with no
/// correction: it is the resistance at 0 °C.
pub proof fn lemma_nominal_inverts_directly(r0: RTDType)
    ensures
        inversion_of(r0.nominal(), r0) == Ok::<Inversion, Error>(Inversion::Direct),
{
    lemma_nominal_at_zero(r0);
    lemma_resistance_strictly_increasing(r0, 0, T_MAX as int);
}

/// Forward and back agree on the region: the floor of the resistance at a
/// whole temperature of the domain is always inverted, directly when the
/// temperature is at or above 0 °C and with the class's correction when it
/// is below.
pub proof fn lemma_inversion_matches_region(r0: RTDType, t: int)
    requires
        in_domain(t),
    ensures
        inversion_of(floor_resistance(r0, t), r0) == (if t >= 0 {
            Ok::<Inversion, Error>(Inversion::Direct)
        } else {
            Ok::<Inversion, Error>(Inversion::Corrected(r0.correction_table()))
        }),
{
    lemma_nominal_at_zero(r0);
    if t > T_MIN {
        lemma_resistance_strictly_increasing(r0, T_MIN as int, t);
    }
    if t < T_MAX {
        lemma_resistance_strictly_increasing(r0, t, T_MAX as int);
    }
    if t > 0 {
        lemma_resistance_strictly_increasing(r0, 0, t);
    } else if t < 0 {
        lemma_resistance_strictly_increasing(r0, t, 0);
        let n = r0.nominal();
        vstd::arithmetic::div_mod::lemma_div_is_ordered(
            model_resistance(r0, t),
            n * SCALE - 1,
            SCALE as int,
        );
        assert((n * SCALE - 1) / (SCALE as int) == n - 1)
            by (nonlinear_arith)
            requires
                0 < n,
        ;
    }
}

} // verus!
