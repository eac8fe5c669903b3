//! Errors of the driver and of the CRC check.
use vstd::prelude::*;

verus! {

/// A frame failed the CRC check: `crc` is what the register held after the
/// whole frame, CRC byte included, went through it (zero for a good frame).
#[derive(Clone, Copy, Debug, PartialEq, Eq, Structural)]
pub struct CrcError {
    pub crc: u8,
}

/// Errors of the DS18B20 driver.
#[derive(Clone, Copy, Debug, PartialEq, Eq, Structural)]
pub enum Error {
    /// An error reported by ESP-IDF, held by its `esp_err_t` code.
    Esp(i32),
    /// No device answered on the bus.
    DeviceNotFound,
    /// The configuration register holds none of the four resolutions.
    UnexpectedConfigurationRegister { configuration_register: u8 },
    /// A frame read from the bus failed its CRC check.
    UnexpectedCrc { crc: u8, expected: u8 },
}

impl Error {
    /// Whether this is a CRC error.
    pub fn is_crc(&self) -> (r: bool)
        ensures
            r == (*self is UnexpectedCrc),
    {
        match self {
            Error::UnexpectedCrc { .. } => true,
            _ => false,
        }
    }
}

impl vstd::std_specs::convert::FromSpecImpl<CrcError> for Error {
    open spec fn obeys_from_spec() -> bool {
        true
    }

    /// A failed check is an unexpected CRC: a good frame leaves zero behind.
    open spec fn from_spec(e: CrcError) -> Self {
        Error::UnexpectedCrc { crc: e.crc, expected: 0 }
    }
}

impl From<CrcError> for Error {
    fn from(e: CrcError) -> (r: Self) {
        Error::UnexpectedCrc { crc: e.crc, expected: 0 }
    }
}

} // verus!
