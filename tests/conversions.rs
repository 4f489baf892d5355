use rtd::adc::checked_full_scale;
use rtd::inverse::{inversion, resistance_bounds, Inversion};
use rtd::model::{resistance_floor, temperature_region, Region};
use rtd::sensor::Correction;
use rtd::{ADCRes, Error, RTDType};

const ALL_TYPES: [RTDType; 4] = [RTDType::PT100, RTDType::PT200, RTDType::PT500, RTDType::PT1000];

#[test]
fn nominal_resistances() {
    assert_eq!(RTDType::PT100.nominal_resistance(), 100);
    assert_eq!(RTDType::PT200.nominal_resistance(), 200);
    assert_eq!(RTDType::PT500.nominal_resistance(), 500);
    assert_eq!(RTDType::PT1000.nominal_resistance(), 1000);
}

#[test]
fn correction_tables() {
    assert_eq!(RTDType::PT100.correction(), Ok(Correction::Pt100Fit));
    assert_eq!(RTDType::PT200.correction(), Ok(Correction::Unavailable));
    assert_eq!(RTDType::PT500.correction(), Ok(Correction::Unavailable));
    assert_eq!(RTDType::PT1000.correction(), Ok(Correction::Pt1000Fit));
}

#[test]
fn resistance_at_zero_is_nominal() {
    for r0 in ALL_TYPES {
        assert_eq!(resistance_floor(0, r0), Ok(r0.nominal_resistance()));
    }
}

#[test]
fn resistance_at_domain_ends() {
    assert_eq!(resistance_floor(-200, RTDType::PT100), Ok(18));
    assert_eq!(resistance_floor(-200, RTDType::PT200), Ok(37));
    assert_eq!(resistance_floor(-200, RTDType::PT500), Ok(92));
    assert_eq!(resistance_floor(-200, RTDType::PT1000), Ok(185));
    assert_eq!(resistance_floor(850, RTDType::PT100), Ok(390));
    assert_eq!(resistance_floor(850, RTDType::PT200), Ok(780));
    assert_eq!(resistance_floor(850, RTDType::PT500), Ok(1952));
    assert_eq!(resistance_floor(850, RTDType::PT1000), Ok(3904));
}

#[test]
fn resistance_at_inner_points() {
    // 100 · (1 + 0.39083 − 0.005775) = 138.5055
    assert_eq!(resistance_floor(100, RTDType::PT100), Ok(138));
    // 1000 · (1 − 0.39083 − 0.005775 − 4.183e-12 · (−200) · (−1e6)) = 602.5587...
    assert_eq!(resistance_floor(-100, RTDType::PT1000), Ok(602));
    assert_eq!(resistance_floor(-1, RTDType::PT100), Ok(99));
}

#[test]
fn resistance_out_of_domain() {
    for r0 in ALL_TYPES {
        assert_eq!(resistance_floor(-201, r0), Err(Error::OutOfBounds));
        assert_eq!(resistance_floor(851, r0), Err(Error::OutOfBounds));
        assert_eq!(resistance_floor(i32::MIN, r0), Err(Error::OutOfBounds));
        assert_eq!(resistance_floor(i32::MAX, r0), Err(Error::OutOfBounds));
    }
}

#[test]
fn temperature_regions() {
    assert_eq!(temperature_region(0), Ok(Region::AtOrAboveZero));
    assert_eq!(temperature_region(850), Ok(Region::AtOrAboveZero));
    assert_eq!(temperature_region(-1), Ok(Region::BelowZero));
    assert_eq!(temperature_region(-200), Ok(Region::BelowZero));
    assert_eq!(temperature_region(-201), Err(Error::OutOfBounds));
    assert_eq!(temperature_region(851), Err(Error::OutOfBounds));
}

#[test]
fn resistance_rises_with_temperature() {
    for r0 in ALL_TYPES {
        let mut last = resistance_floor(-200, r0).unwrap();
        for t in -199..=850 {
            let r = resistance_floor(t, r0).unwrap();
            assert!(r >= last);
            last = r;
        }
    }
}

#[test]
fn bounds_of_each_class() {
    assert_eq!(resistance_bounds(RTDType::PT100), (18, 390));
    assert_eq!(resistance_bounds(RTDType::PT200), (37, 780));
    assert_eq!(resistance_bounds(RTDType::PT500), (92, 1952));
    assert_eq!(resistance_bounds(RTDType::PT1000), (185, 3904));
}

#[test]
fn nominal_resistance_inverts_directly() {
    for r0 in ALL_TYPES {
        assert_eq!(inversion(r0.nominal_resistance() as i32, r0), Ok(Inversion::Direct));
    }
}

#[test]
fn inversion_cases() {
    assert_eq!(inversion(390, RTDType::PT100), Ok(Inversion::Direct));
    assert_eq!(inversion(391, RTDType::PT100), Err(Error::OutOfBounds));
    assert_eq!(inversion(99, RTDType::PT100), Ok(Inversion::Corrected(Correction::Pt100Fit)));
    assert_eq!(inversion(18, RTDType::PT100), Ok(Inversion::Corrected(Correction::Pt100Fit)));
    assert_eq!(inversion(17, RTDType::PT100), Err(Error::OutOfBounds));
    assert_eq!(inversion(-5, RTDType::PT100), Err(Error::OutOfBounds));
    assert_eq!(inversion(150, RTDType::PT200), Ok(Inversion::Corrected(Correction::Unavailable)));
    assert_eq!(inversion(499, RTDType::PT500), Ok(Inversion::Corrected(Correction::Unavailable)));
    assert_eq!(inversion(185, RTDType::PT1000), Ok(Inversion::Corrected(Correction::Pt1000Fit)));
    assert_eq!(inversion(3904, RTDType::PT1000), Ok(Inversion::Direct));
    assert_eq!(inversion(3905, RTDType::PT1000), Err(Error::OutOfBounds));
}

#[test]
fn forward_and_back_agree_on_region() {
    for r0 in ALL_TYPES {
        for t in -200..=850 {
            let r = resistance_floor(t, r0).unwrap() as i32;
            let expected = if t >= 0 {
                Inversion::Direct
            } else {
                Inversion::Corrected(r0.correction().unwrap())
            };
            assert_eq!(inversion(r, r0), Ok(expected));
        }
    }
}

#[test]
fn adc_full_scale_codes() {
    assert_eq!(ADCRes::B8.max_code(), 255);
    assert_eq!(ADCRes::B10.max_code(), 1_023);
    assert_eq!(ADCRes::B12.max_code(), 4_095);
    assert_eq!(ADCRes::B14.max_code(), 16_383);
    assert_eq!(ADCRes::B16.max_code(), 65_535);
    assert_eq!(ADCRes::B18.max_code(), 262_143);
    assert_eq!(ADCRes::B20.max_code(), 1_048_575);
    assert_eq!(ADCRes::B22.max_code(), 4_194_303);
    assert_eq!(ADCRes::B24.max_code(), 16_777_215);
}

#[test]
fn adc_code_range() {
    assert_eq!(checked_full_scale(4095, ADCRes::B12), Ok(4095));
    assert_eq!(checked_full_scale(0, ADCRes::B12), Ok(4095));
    assert_eq!(checked_full_scale(4096, ADCRes::B12), Err(Error::OutOfBounds));
    assert_eq!(checked_full_scale(256, ADCRes::B8), Err(Error::OutOfBounds));
    assert_eq!(checked_full_scale(16_777_215, ADCRes::B24), Ok(16_777_215));
    assert_eq!(checked_full_scale(u32::MAX, ADCRes::B24), Err(Error::OutOfBounds));
}

#[test]
fn adc_scaling_of_twelve_bit_reading() {
    let full = checked_full_scale(4095, ADCRes::B12).unwrap();
    let r = 4095_f32 * 1000_f32 / (full as f32 * 1_f32);
    assert_eq!(r, 1000.0);
    let full = checked_full_scale(0, ADCRes::B12).unwrap();
    let r = 0_f32 * 1000_f32 / (full as f32 * 1_f32);
    assert_eq!(r, 0.0);
}
