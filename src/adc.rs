//! Analog-to-digital converters and the codes they give.
use vstd::prelude::*;
use vstd::arithmetic::power2::{pow2, lemma2_to64};
use crate::error::Error;

verus! {

/// Converter resolutions, by number of bits.
#[non_exhaustive]
#[derive(Debug, Clone, Copy, PartialEq, Eq, Structural)]
pub enum ADCRes {
    B8,
    B10,
    B12,
    B14,
    B16,
    B18,
    B20,
    B22,
    B24,
}

impl ADCRes {
    /// Number of bits of a code.
    pub open spec fn bits(self) -> nat {
        match self {
            ADCRes::B8 => 8,
            ADCRes::B10 => 10,
            ADCRes::B12 => 12,
            ADCRes::B14 => 14,
            ADCRes::B16 => 16,
            ADCRes::B18 => 18,
            ADCRes::B20 => 20,
            ADCRes::B22 => 22,
            ADCRes::B24 => 24,
        }
    }

    /// The largest code: 2^bits − 1.
    pub open spec fn full_scale(self) -> int {
        pow2(self.bits()) - 1
    }

    /// The largest code that the converter gives.
    pub fn max_code(&self) -> (m: u32)
        ensures
            m == self.full_scale(),
    {
        proof {
            lemma2_to64();
        }
        match self {
            ADCRes::B8 => 255,
            ADCRes::B10 => 1_023,
            ADCRes::B12 => 4_095,
            ADCRes::B14 => 16_383,
            ADCRes::B16 => 65_535,
            ADCRes::B18 => 262_143,
            ADCRes::B20 => 1_048_575,
            ADCRes::B22 => 4_194_303,
            ADCRes::B24 => 16_777_215,
        }
    }
}

/// Checks a code of a ratiometric measurement against the converter's range
/// and returns the full-scale code that the resistance is scaled by:
/// R = code · r_ref / (full_scale · gain).
pub fn checked_full_scale(d_val: u32, res: ADCRes) -> (r: Result<u32, Error>)
    ensures
        r == (if d_val <= res.full_scale() {
            Ok::<u32, Error>(res.full_scale() as u32)
        } else {
            Err(Error::OutOfBounds)
        }),
{
    let full = res.max_code();
    if d_val <= full {
        Ok(full)
    } else {
        Err(Error::OutOfBounds)
    }
}

} // verus!
