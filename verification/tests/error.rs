use thermometer::error::{CrcError, Error};
use thermometer::{Command, FAMILY_CODE};

#[test]
fn only_crc_errors_are_crc_errors() {
    assert!(Error::UnexpectedCrc { crc: 21, expected: 0 }.is_crc());
    assert!(!Error::DeviceNotFound.is_crc());
    assert!(!Error::Esp(-1).is_crc());
    assert!(!Error::UnexpectedConfigurationRegister { configuration_register: 3 }.is_crc());
}

#[test]
fn failed_check_becomes_unexpected_crc() {
    let e: Error = Error::from(CrcError { crc: 155 });
    assert_eq!(e, Error::UnexpectedCrc { crc: 155, expected: 0 });
    assert!(e.is_crc());
}

#[test]
fn command_codes() {
    assert_eq!(Command::WriteScratchpad.code(), 0x4E);
    assert_eq!(Command::ReadScratchpad.code(), 0xBE);
    assert_eq!(Command::CopyScratchpad.code(), 0x48);
    assert_eq!(Command::ConvertTemperature.code(), 0x44);
    assert_eq!(Command::RecallE2Memory.code(), 0xB8);
    assert_eq!(Command::ReadPowerSupply.code(), 0xB4);
    assert_eq!(FAMILY_CODE, 0x28);
}
