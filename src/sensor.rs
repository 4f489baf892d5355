//! The sensor classes and what the conversions need to know of each.
use vstd::prelude::*;
use crate::error::Error;

verus! {

/// The polynomial that corrects the quadratic inverse of the curve below
/// 0 °C for a sensor class.
#[derive(Debug, Clone, Copy, PartialEq, Eq, Structural)]
pub enum Correction {
    /// The fitted polynomial for PT100.
    Pt100Fit,
    /// The fitted polynomial for PT1000.
    Pt1000Fit,
    /// No polynomial has been fitted for the class yet: results below 0 °C
    /// carry the error of the quadratic inverse.
    Unavailable,
}

/// Platinum sensor classes, named after their resistance at 0 °C.
#[non_exhaustive]
#[derive(Debug, Clone, Copy, PartialEq, Eq, Structural)]
pub enum RTDType {
    PT100,
    PT200,
    PT500,
    PT1000,
}

impl RTDType {
    /// Resistance at 0 °C, in ohms.
    pub open spec fn nominal(self) -> int {
        match self {
            RTDType::PT100 => 100,
            RTDType::PT200 => 200,
            RTDType::PT500 => 500,
            RTDType::PT1000 => 1000,
        }
    }

    /// Resistance at 0 °C, in ohms.
    pub fn nominal_resistance(&self) -> (r: u32)
        ensures
            r == self.nominal(),
    {
        match self {
            RTDType::PT100 => 100,
            RTDType::PT200 => 200,
            RTDType::PT500 => 500,
            RTDType::PT1000 => 1000,
        }
    }

    /// The correction polynomial that stands for the class.
    pub open spec fn correction_table(self) -> Correction {
        match self {
            RTDType::PT100 => Correction::Pt100Fit,
            RTDType::PT1000 => Correction::Pt1000Fit,
            RTDType::PT200 | RTDType::PT500 => Correction::Unavailable,
        }
    }

    /// The correction polynomial for temperatures below 0 °C; a class
    /// without an entry would give `NonexistentType`.
    pub fn correction(&self) -> (c: Result<Correction, Error>)
        ensures
            c == Ok::<Correction, Error>(self.correction_table()),
    {
        match self {
            RTDType::PT100 => Ok(Correction::Pt100Fit),
            RTDType::PT200 => Ok(Correction::Unavailable),
            RTDType::PT500 => Ok(Correction::Unavailable),
            RTDType::PT1000 => Ok(Correction::Pt1000Fit),
        }
    }
}

} // verus!
