//! Dallas/Maxim one-wire support for the DS18B20 thermometer: the CRC-8
//! that guards every frame on the bus, the errors of the driver, the ROM
//! code, the scratchpad frames, and the command bytes that the driver puts
//! on the bus.

pub mod crc8;
pub mod error;
pub mod rom;
pub mod scratchpad;

use vstd::prelude::*;

verus! {

/// The family code of the DS18B20, the first byte of its ROM code.
pub const FAMILY_CODE: u8 = 0x28;

/// The function (memory) commands of the DS18B20.
#[derive(Clone, Copy, Debug, PartialEq, Eq, Structural)]
pub enum Command {
    WriteScratchpad,
    ReadScratchpad,
    CopyScratchpad,
    ConvertTemperature,
    RecallE2Memory,
    ReadPowerSupply,
}

impl Command {
    /// The byte that puts this command on the bus.
    pub fn code(self) -> (r: u8)
        ensures
            r == match self {
                Command::WriteScratchpad => 0x4Eu8,
                Command::ReadScratchpad => 0xBEu8,
                Command::CopyScratchpad => 0x48u8,
                Command::ConvertTemperature => 0x44u8,
                Command::RecallE2Memory => 0xB8u8,
                Command::ReadPowerSupply => 0xB4u8,
            },
    {
        match self {
            Command::WriteScratchpad => 0x4E,
            Command::ReadScratchpad => 0xBE,
            Command::CopyScratchpad => 0x48,
            Command::ConvertTemperature => 0x44,
            Command::RecallE2Memory => 0xB8,
            Command::ReadPowerSupply => 0xB4,
        }
    }
}

} // verus!
