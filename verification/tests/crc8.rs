use thermometer::crc8::append;
use thermometer::error::CrcError;

#[test]
fn calculate() {
    assert_eq!(thermometer::crc8::calculate(&[99, 1, 75, 70, 127, 255, 13, 16]), 21);
    assert_eq!(thermometer::crc8::calculate(&[99, 1, 75, 70, 127, 255, 13, 16, 21]), 0);

    assert_eq!(thermometer::crc8::calculate(&[97, 1, 75, 70, 127, 255, 15, 16]), 2);
    assert_eq!(thermometer::crc8::calculate(&[97, 1, 75, 70, 127, 255, 15, 16, 2]), 0);

    assert_eq!(thermometer::crc8::calculate(&[95, 1, 75, 70, 127, 255, 1, 16]), 155);
    assert_eq!(thermometer::crc8::calculate(&[95, 1, 75, 70, 127, 255, 1, 16, 155]), 0);
}

#[test]
fn check() {
    assert_eq!(
        thermometer::crc8::check(&[99, 1, 75, 70, 127, 255, 13, 16]),
        Err(CrcError { crc: 21 })
    );
    assert!(thermometer::crc8::check(&[99, 1, 75, 70, 127, 255, 13, 16, 21]).is_ok());

    assert_eq!(
        thermometer::crc8::check(&[97, 1, 75, 70, 127, 255, 15, 16]),
        Err(CrcError { crc: 2 })
    );
    assert!(thermometer::crc8::check(&[97, 1, 75, 70, 127, 255, 15, 16, 2]).is_ok());

    assert_eq!(
        thermometer::crc8::check(&[95, 1, 75, 70, 127, 255, 1, 16]),
        Err(CrcError { crc: 155 })
    );
    assert!(thermometer::crc8::check(&[95, 1, 75, 70, 127, 255, 1, 16, 155]).is_ok());
}

#[test]
fn crc_of_nothing_is_the_init_value() {
    assert_eq!(thermometer::crc8::calculate(&[]), 0);
    assert_eq!(append(0x5A, &[]), 0x5A);
    assert!(thermometer::crc8::check(&[]).is_ok());
}

#[test]
fn crc_of_standard_check_string() {
    assert_eq!(thermometer::crc8::calculate(b"123456789"), 0xA1);
}

#[test]
fn crc_is_computed_piecewise() {
    let first = thermometer::crc8::calculate(&[1, 2, 3]);
    assert_eq!(first, 216);
    assert_eq!(append(first, &[4, 5]), 42);
    assert_eq!(thermometer::crc8::calculate(&[1, 2, 3, 4, 5]), 42);
    assert_eq!(append(0, &[4, 5]), 4);
}

#[test]
fn appended_crc_byte_passes_and_any_other_fails() {
    let data = [7u8, 0, 255, 128, 1];
    let crc = thermometer::crc8::calculate(&data);
    for byte in 0..=255u8 {
        let frame = [data[0], data[1], data[2], data[3], data[4], byte];
        assert_eq!(thermometer::crc8::check(&frame).is_ok(), byte == crc);
    }
}

#[test]
fn crc_is_linear_over_xor() {
    let a = [1u8, 2, 3];
    let b = [9u8, 8, 7];
    let x = [1u8 ^ 9, 2 ^ 8, 3 ^ 7];
    assert_eq!(append(0x11 ^ 0x22, &x), 153);
    assert_eq!(append(0x11, &a) ^ append(0x22, &b), 153);
}

#[test]
fn distinct_start_values_give_distinct_crcs() {
    let data = [1u8, 2, 3];
    assert_eq!(append(5, &data), 237);
    assert_eq!(append(6, &data), 9);
    let mut seen = [false; 256];
    for init in 0..=255u8 {
        let crc = append(init, &data) as usize;
        assert!(!seen[crc]);
        seen[crc] = true;
    }
}

#[test]
fn every_single_byte_change_is_detected() {
    let good = [99u8, 1, 75, 70, 127, 255, 13, 16, 21];
    assert!(thermometer::crc8::check(&good).is_ok());
    for i in 0..good.len() {
        for byte in 0..=255u8 {
            if byte == good[i] {
                continue;
            }
            let mut bad = good;
            bad[i] = byte;
            let crc = thermometer::crc8::calculate(&bad);
            assert_ne!(crc, 0);
            assert_eq!(thermometer::crc8::check(&bad), Err(CrcError { crc }));
        }
    }
}
