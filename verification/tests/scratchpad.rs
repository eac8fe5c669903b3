use thermometer::error::Error;
use thermometer::scratchpad::{
    scratchpad_fields, scratchpad_write_frame, ConfigurationRegister, Resolution, Scratchpad,
    Triggers, ELEVEN, NINE, TEN, TWELVE,
};

fn frame(head: [u8; 8]) -> [u8; 9] {
    let crc = thermometer::crc8::calculate(&head);
    [head[0], head[1], head[2], head[3], head[4], head[5], head[6], head[7], crc]
}

#[test]
fn scratchpad_read_from_the_bus_is_taken_apart() {
    assert_eq!(
        scratchpad_fields(&[99, 1, 75, 70, 127, 255, 13, 16, 21]),
        Ok(Scratchpad {
            temperature_lsb: 99,
            temperature_msb: 1,
            triggers: Triggers { high: 75, low: 70 },
            configuration_register: ConfigurationRegister { resolution: Resolution::Twelve },
            crc: 21,
        })
    );
}

#[test]
fn negative_triggers_and_nine_bit_resolution() {
    let fields = scratchpad_fields(&frame([0x50, 0x05, 0xF6, 0x81, 0x1F, 0xFF, 0x0C, 0x10])).unwrap();
    assert_eq!(fields.triggers, Triggers { high: -10, low: -127 });
    assert_eq!(fields.configuration_register.resolution, Resolution::Nine);
    assert_eq!(fields.crc, 178);
}

#[test]
fn corrupted_scratchpad_is_refused() {
    assert_eq!(
        scratchpad_fields(&[99, 1, 75, 70, 127, 255, 13, 16, 22]),
        Err(Error::UnexpectedCrc { crc: 226, expected: 0 })
    );
}

#[test]
fn unknown_configuration_register_is_refused() {
    assert_eq!(
        scratchpad_fields(&[0x50, 0x05, 30, 19, 0x20, 0xFF, 0x0C, 0x10, 220]),
        Err(Error::UnexpectedConfigurationRegister { configuration_register: 0x20 })
    );
    for byte in 0..=255u8 {
        let decoded = scratchpad_fields(&frame([0x50, 0x05, 30, 19, byte, 0xFF, 0x0C, 0x10]));
        let valid = byte == NINE || byte == TEN || byte == ELEVEN || byte == TWELVE;
        assert_eq!(decoded.is_ok(), valid);
        if !valid {
            assert_eq!(
                decoded,
                Err(Error::UnexpectedConfigurationRegister { configuration_register: byte })
            );
        }
    }
}

#[test]
fn configuration_register_bytes() {
    for (byte, resolution) in [
        (0x1Fu8, Resolution::Nine),
        (0x3F, Resolution::Ten),
        (0x5F, Resolution::Eleven),
        (0x7F, Resolution::Twelve),
    ] {
        let register = ConfigurationRegister::try_from(byte).unwrap();
        assert_eq!(register.resolution, resolution);
        assert_eq!(register.byte(), byte);
    }
    assert_eq!(
        ConfigurationRegister::try_from(0xFF),
        Err(Error::UnexpectedConfigurationRegister { configuration_register: 0xFF })
    );
}

#[test]
fn write_frame_holds_triggers_and_configuration() {
    let scratchpad = Scratchpad {
        temperature_lsb: 0,
        temperature_msb: 0,
        triggers: Triggers { high: 30, low: -19 },
        configuration_register: ConfigurationRegister { resolution: Resolution::Ten },
        crc: 0,
    };
    assert_eq!(scratchpad_write_frame(&scratchpad), [30, 0xED, 0x3F]);
}

#[test]
fn written_scratchpad_reads_back() {
    let written = Scratchpad {
        temperature_lsb: 0,
        temperature_msb: 0,
        triggers: Triggers { high: -55, low: 125 },
        configuration_register: ConfigurationRegister { resolution: Resolution::Eleven },
        crc: 0,
    };
    let w = scratchpad_write_frame(&written);
    let read = scratchpad_fields(&frame([0x91, 0x01, w[0], w[1], w[2], 0xFF, 0x0C, 0x10])).unwrap();
    assert_eq!(read.triggers, written.triggers);
    assert_eq!(read.configuration_register, written.configuration_register);
}

#[test]
fn raw_temperature_follows_the_resolution() {
    let at = |lsb: u8, msb: u8, register: u8| {
        scratchpad_fields(&frame([lsb, msb, 30, 19, register, 0xFF, 0x0C, 0x10]))
            .unwrap()
            .raw_temperature()
    };
    assert_eq!(at(0x50, 0x05, TWELVE), 1360);
    assert_eq!(at(0x91, 0x01, TWELVE), 401);
    assert_eq!(at(0x91, 0x01, ELEVEN), 400);
    assert_eq!(at(0x5E, 0xFF, TWELVE), -162);
    assert_eq!(at(0x5E, 0xFF, TEN), -164);
    assert_eq!(at(0x5E, 0xFF, NINE), -168);
    assert_eq!(at(0x00, 0x80, NINE), -32768);
    assert_eq!(at(0xFF, 0x7F, NINE), 32760);
}
