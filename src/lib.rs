//! Conversions for platinum resistance temperature detectors (PT100, PT200,
//! PT500, PT1000) after the Callendar–Van Dusen model of IEC 60751.
//!
//! The library states the sensor and converter data, the exact model of the
//! sensor curve at whole degrees, and every decision that the conversions
//! make: which branch of the model a temperature uses, which resistances can
//! be inverted and how, and which converter codes are valid.

pub mod adc;
pub mod error;
pub mod sensor;
pub mod model;
pub mod inverse;

pub use adc::ADCRes;
pub use error::Error;
pub use sensor::RTDType;
