use thermometer::error::CrcError;
use thermometer::rom::{rom_address, rom_command_frame};

#[test]
fn rom_codes_of_real_devices_decode() {
    assert_eq!(rom_address(&[40, 188, 175, 110, 4, 0, 0, 35]), Ok(0x230000046eafbc28));
    assert_eq!(rom_address(&[40, 78, 32, 136, 0, 0, 0, 69]), Ok(0x4500000088204e28));
    assert_eq!(rom_address(&[40, 254, 20, 106, 0, 0, 0, 151]), Ok(0x970000006a14fe28));
}

#[test]
fn corrupted_rom_code_is_refused() {
    assert_eq!(
        rom_address(&[40, 188, 175, 111, 4, 0, 0, 35]),
        Err(CrcError { crc: 205 })
    );
}

#[test]
fn match_rom_frame_carries_the_address() {
    assert_eq!(
        rom_command_frame(0x55, 0x230000046eafbc28),
        vec![0x55, 40, 188, 175, 110, 4, 0, 0, 35]
    );
    assert_eq!(rom_command_frame(0x55, 0), vec![0x55, 0, 0, 0, 0, 0, 0, 0, 0]);
    assert_eq!(
        rom_command_frame(0xCC, u64::MAX),
        vec![0xCC, 255, 255, 255, 255, 255, 255, 255, 255]
    );
}

#[test]
fn rom_code_survives_the_round_trip() {
    let rom = [40u8, 254, 20, 106, 0, 0, 0, 151];
    let address = rom_address(&rom).unwrap();
    let frame = rom_command_frame(0x55, address);
    assert_eq!(&frame[1..], &rom[..]);
}
