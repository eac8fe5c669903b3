//! The DS18B20 scratchpad as it travels on the bus.
//!
//! READ SCRATCHPAD returns nine bytes: temperature LSB and MSB, the high and
//! low alarm triggers (TH, TL), the configuration register, three reserved
//! bytes, and the CRC of the first eight. WRITE SCRATCHPAD takes three: TH,
//! TL and the configuration register.
use vstd::prelude::*;

use crate::crc8::{check, crc_fold};
use crate::error::Error;

verus! {

/// Configuration register for 9-bit resolution.
pub const NINE: u8 = 0x1F;

/// Configuration register for 10-bit resolution.
pub const TEN: u8 = 0x3F;

/// Configuration register for 11-bit resolution.
pub const ELEVEN: u8 = 0x5F;

/// Configuration register for 12-bit resolution.
pub const TWELVE: u8 = 0x7F;

/// The resolution of a temperature conversion.
#[derive(Clone, Copy, Debug, PartialEq, Eq, Structural)]
pub enum Resolution {
    Nine,
    Ten,
    Eleven,
    Twelve,
}

/// The configuration register: bits R1 R0 (6 and 5) select the resolution,
/// bit 7 reads 0 and bits 4..0 read 1.
#[derive(Clone, Copy, Debug, PartialEq, Eq, Structural)]
pub struct ConfigurationRegister {
    pub resolution: Resolution,
}

/// The high and low alarm triggers, signed whole degrees.
#[derive(Clone, Copy, Debug, PartialEq, Eq, Structural)]
pub struct Triggers {
    pub high: i8,
    pub low: i8,
}

/// A scratchpad read from the bus that passed its checks.
#[derive(Clone, Copy, Debug, PartialEq, Eq, Structural)]
pub struct Scratchpad {
    pub temperature_lsb: u8,
    pub temperature_msb: u8,
    pub triggers: Triggers,
    pub configuration_register: ConfigurationRegister,
    pub crc: u8,
}

/// The register byte of a resolution.
pub open spec fn register_byte(resolution: Resolution) -> u8 {
    match resolution {
        Resolution::Nine => NINE,
        Resolution::Ten => TEN,
        Resolution::Eleven => ELEVEN,
        Resolution::Twelve => TWELVE,
    }
}

/// The resolution that a register byte selects, if it is one of the four.
pub open spec fn resolution_of(byte: u8) -> Option<Resolution> {
    if byte == NINE {
        Some(Resolution::Nine)
    } else if byte == TEN {
        Some(Resolution::Ten)
    } else if byte == ELEVEN {
        Some(Resolution::Eleven)
    } else if byte == TWELVE {
        Some(Resolution::Twelve)
    } else {
        None
    }
}

/// What a configuration byte decodes to.
pub open spec fn decode_register(byte: u8) -> Result<ConfigurationRegister, Error> {
    match resolution_of(byte) {
        Some(resolution) => Ok(ConfigurationRegister { resolution }),
        None => Err(Error::UnexpectedConfigurationRegister { configuration_register: byte }),
    }
}

/// What nine bytes read from the scratchpad decode to: the CRC is checked
/// first, then the configuration register.
pub open spec fn decode_scratchpad(b: Seq<u8>) -> Result<Scratchpad, Error> {
    if crc_fold(0, b) != 0 {
        Err(Error::UnexpectedCrc { crc: crc_fold(0, b), expected: 0 })
    } else {
        match decode_register(b[4]) {
            Ok(configuration_register) => Ok(
                Scratchpad {
                    temperature_lsb: b[0],
                    temperature_msb: b[1],
                    triggers: Triggers { high: b[2] as i8, low: b[3] as i8 },
                    configuration_register,
                    crc: b[8],
                },
            ),
            Err(e) => Err(e),
        }
    }
}

/// The three bytes that WRITE SCRATCHPAD sends for a scratchpad.
pub open spec fn write_bytes(s: Scratchpad) -> Seq<u8> {
    seq![
        s.triggers.high as u8,
        s.triggers.low as u8,
        register_byte(s.configuration_register.resolution),
    ]
}

/// The temperature in sixteenths of a degree that the two temperature
/// bytes spell (two's complement, LSB first).
pub open spec fn sixteenths(lsb: u8, msb: u8) -> int {
    (msb as i8) * 256 + lsb
}

/// The smallest step, in sixteenths of a degree, of a resolution; the bits
/// below it are undefined.
pub open spec fn step(resolution: Resolution) -> int {
    match resolution {
        Resolution::Nine => 8,
        Resolution::Ten => 4,
        Resolution::Eleven => 2,
        Resolution::Twelve => 1,
    }
}

impl ConfigurationRegister {
    /// Decodes a configuration register byte; any byte but the four
    /// resolutions is an error.
    pub fn try_from(byte: u8) -> (r: Result<Self, Error>)
        ensures
            r == decode_register(byte),
            r matches Ok(c) ==> byte == match c.resolution {
                Resolution::Nine => 0x1Fu8,
                Resolution::Ten => 0x3Fu8,
                Resolution::Eleven => 0x5Fu8,
                Resolution::Twelve => 0x7Fu8,
            },
            r is Err ==> r == Err::<Self, Error>(
                Error::UnexpectedConfigurationRegister { configuration_register: byte },
            ) && byte != 0x1Fu8 && byte != 0x3Fu8 && byte != 0x5Fu8 && byte != 0x7Fu8,
    {
        if byte == NINE {
            Ok(ConfigurationRegister { resolution: Resolution::Nine })
        } else if byte == TEN {
            Ok(ConfigurationRegister { resolution: Resolution::Ten })
        } else if byte == ELEVEN {
            Ok(ConfigurationRegister { resolution: Resolution::Eleven })
        } else if byte == TWELVE {
            Ok(ConfigurationRegister { resolution: Resolution::Twelve })
        } else {
            Err(Error::UnexpectedConfigurationRegister { configuration_register: byte })
        }
    }

    /// The byte that holds this register on the bus.
    pub fn byte(&self) -> (r: u8)
        ensures
            r == register_byte(self.resolution),
            r == match self.resolution {
                Resolution::Nine => 0x1Fu8,
                Resolution::Ten => 0x3Fu8,
                Resolution::Eleven => 0x5Fu8,
                Resolution::Twelve => 0x7Fu8,
            },
    {
        match self.resolution {
            Resolution::Nine => NINE,
            Resolution::Ten => TEN,
            Resolution::Eleven => ELEVEN,
            Resolution::Twelve => TWELVE,
        }
    }
}

impl Scratchpad {
    /// The temperature in sixteenths of a degree, with the bits that the
    /// resolution leaves undefined cleared (rounded down to the step).
    pub fn raw_temperature(&self) -> (r: i16)
        ensures
            r == sixteenths(self.temperature_lsb, self.temperature_msb) - sixteenths(
                self.temperature_lsb,
                self.temperature_msb,
            ) % step(self.configuration_register.resolution),
            ({
                let v = ((((self.temperature_msb as u16) << 8u16) | (
                self.temperature_lsb as u16)) as i16) as int;
                let s = match self.configuration_register.resolution {
                    Resolution::Nine => 8int,
                    Resolution::Ten => 4int,
                    Resolution::Eleven => 2int,
                    Resolution::Twelve => 1int,
                };
                &&& r <= v < r + s
                &&& (r as int) % s == 0
            }),
    {
        proof {
            lemma_sixteenths_is_twos_complement(self.temperature_lsb, self.temperature_msb);
        }
        let v: i32 = (self.temperature_msb as i8) as i32 * 256 + self.temperature_lsb as i32;
        let w: i32 = v + 32768;
        let m: i32 = match self.configuration_register.resolution {
            Resolution::Nine => 8,
            Resolution::Ten => 4,
            Resolution::Eleven => 2,
            Resolution::Twelve => 1,
        };
        assert(w % m == v % m);
        let r: i32 = w - w % m - 32768;
        r as i16
    }
}

/// Checks the CRC of the nine scratchpad bytes, then decodes the
/// configuration register, and takes the fields apart.
pub fn scratchpad_fields(b: &[u8; 9]) -> (r: Result<Scratchpad, Error>)
    ensures
        r == decode_scratchpad(b@),
        crc_fold(0, b@) != 0 ==> r == Err::<Scratchpad, Error>(
            Error::UnexpectedCrc { crc: crc_fold(0, b@), expected: 0 },
        ),
        r is Ok <==> crc_fold(0, b@) == 0 && (b@[4] == 0x1Fu8 || b@[4] == 0x3Fu8 || b@[4] == 0x5Fu8
            || b@[4] == 0x7Fu8),
        crc_fold(0, b@) == 0 && !(b@[4] == 0x1Fu8 || b@[4] == 0x3Fu8 || b@[4] == 0x5Fu8 || b@[4]
            == 0x7Fu8) ==> r == Err::<Scratchpad, Error>(
            Error::UnexpectedConfigurationRegister { configuration_register: b@[4] },
        ),
        r matches Ok(s) ==> {
            &&& s.temperature_lsb == b@[0]
            &&& s.temperature_msb == b@[1]
            &&& s.triggers.high == b@[2] as i8
            &&& s.triggers.low == b@[3] as i8
            &&& s.crc == b@[8]
            &&& register_byte(s.configuration_register.resolution) == b@[4]
            &&& b@[4] == match s.configuration_register.resolution {
                Resolution::Nine => 0x1Fu8,
                Resolution::Ten => 0x3Fu8,
                Resolution::Eleven => 0x5Fu8,
                Resolution::Twelve => 0x7Fu8,
            }
        },
{
    match check(b.as_slice()) {
        Ok(()) => {},
        Err(e) => {
            return Err(Error::from(e));
        },
    }
    let configuration_register = match ConfigurationRegister::try_from(b[4]) {
        Ok(c) => c,
        Err(e) => {
            return Err(e);
        },
    };
    Ok(
        Scratchpad {
            temperature_lsb: b[0],
            temperature_msb: b[1],
            triggers: Triggers { high: b[2] as i8, low: b[3] as i8 },
            configuration_register,
            crc: b[8],
        },
    )
}

/// The three bytes that WRITE SCRATCHPAD sends: TH, TL and the
/// configuration register.
pub fn scratchpad_write_frame(scratchpad: &Scratchpad) -> (f: [u8; 3])
    ensures
        f@ == write_bytes(*scratchpad),
        f@[0] as i8 == scratchpad.triggers.high,
        f@[1] as i8 == scratchpad.triggers.low,
        f@[2] == match scratchpad.configuration_register.resolution {
            Resolution::Nine => 0x1Fu8,
            Resolution::Ten => 0x3Fu8,
            Resolution::Eleven => 0x5Fu8,
            Resolution::Twelve => 0x7Fu8,
        },
{
    let f = [
        scratchpad.triggers.high as u8,
        scratchpad.triggers.low as u8,
        scratchpad.configuration_register.byte(),
    ];
    assert(f@ =~= write_bytes(*scratchpad));
    proof {
        lemma_write_bytes(*scratchpad);
    }
    f
}

/// The two temperature bytes are one 16-bit two's-complement number, MSB
/// high and LSB low.
pub proof fn lemma_sixteenths_is_twos_complement(lsb: u8, msb: u8)
    ensures
        sixteenths(lsb, msb) == ((((msb as u16) << 8u16) | (lsb as u16)) as i16) as int,
{
    let v = (((msb as u16) << 8u16) | (lsb as u16)) as i16;
    assert(v as int == (msb as i8) as int * 256 + lsb as int) by (bit_vector)
        requires
            v == (((msb as u16) << 8u16) | (lsb as u16)) as i16,
    ;
}

/// What a scratchpad frame decodes to, field by field: a frame that fails
/// its CRC is an unexpected CRC, one that passes but holds none of the four
/// register bytes is an unexpected configuration register, and one that
/// decodes keeps its temperature bytes and CRC as read, takes the triggers
/// as two's-complement bytes, and holds the register whose byte it read.
pub proof fn lemma_decode_scratchpad(b: Seq<u8>)
    requires
        b.len() == 9,
    ensures
        crc_fold(0, b) != 0 ==> decode_scratchpad(b) == Err::<Scratchpad, Error>(
            Error::UnexpectedCrc { crc: crc_fold(0, b), expected: 0 },
        ),
        decode_scratchpad(b) is Ok <==> crc_fold(0, b) == 0 && (b[4] == 0x1Fu8 || b[4] == 0x3Fu8
            || b[4] == 0x5Fu8 || b[4] == 0x7Fu8),
        crc_fold(0, b) == 0 && !(b[4] == 0x1Fu8 || b[4] == 0x3Fu8 || b[4] == 0x5Fu8 || b[4]
            == 0x7Fu8) ==> decode_scratchpad(b) == Err::<Scratchpad, Error>(
            Error::UnexpectedConfigurationRegister { configuration_register: b[4] },
        ),
        decode_scratchpad(b) matches Ok(s) ==> {
            &&& s.temperature_lsb == b[0]
            &&& s.temperature_msb == b[1]
            &&& s.triggers.high == b[2] as i8
            &&& s.triggers.low == b[3] as i8
            &&& s.crc == b[8]
            &&& b[4] == match s.configuration_register.resolution {
                Resolution::Nine => 0x1Fu8,
                Resolution::Ten => 0x3Fu8,
                Resolution::Eleven => 0x5Fu8,
                Resolution::Twelve => 0x7Fu8,
            }
        },
{
}

/// The bytes that WRITE SCRATCHPAD sends are the two triggers as
/// two's-complement bytes and the register byte of the resolution (R1 R0
/// in bits 6 and 5, bit 7 clear, bits 4..0 set).
pub proof fn lemma_write_bytes(s: Scratchpad)
    ensures
        write_bytes(s).len() == 3,
        write_bytes(s)[0] as i8 == s.triggers.high,
        write_bytes(s)[1] as i8 == s.triggers.low,
        write_bytes(s)[2] == match s.configuration_register.resolution {
            Resolution::Nine => 0x1Fu8,
            Resolution::Ten => 0x3Fu8,
            Resolution::Eleven => 0x5Fu8,
            Resolution::Twelve => 0x7Fu8,
        },
        decode_register(write_bytes(s)[2]) == Ok::<ConfigurationRegister, Error>(
            s.configuration_register,
        ),
{
    let h = s.triggers.high;
    let l = s.triggers.low;
    assert((h as u8) as i8 == h) by (bit_vector);
    assert((l as u8) as i8 == l) by (bit_vector);
}

/// Every register byte decodes back to its resolution, and a byte that
/// decodes is the byte of what it decodes to.
pub proof fn lemma_register_roundtrip(c: ConfigurationRegister, byte: u8)
    ensures
        decode_register(register_byte(c.resolution)) == Ok::<ConfigurationRegister, Error>(c),
        decode_register(byte) is Ok ==> register_byte(decode_register(byte)->Ok_0.resolution)
            == byte,
{
}

/// A scratchpad read back from a device holds the triggers and the
/// configuration register that WRITE SCRATCHPAD put there: when bytes 2..5
/// of a frame that passes its CRC are the bytes written for `s`, the frame
/// decodes, with the triggers and register of `s`.
pub proof fn lemma_written_scratchpad_reads_back(s: Scratchpad, b: Seq<u8>)
    requires
        b.len() == 9,
        crc_fold(0, b) == 0,
        b.subrange(2, 5) == write_bytes(s),
    ensures
        decode_scratchpad(b) is Ok,
        decode_scratchpad(b)->Ok_0.triggers == s.triggers,
        decode_scratchpad(b)->Ok_0.configuration_register == s.configuration_register,
{
    assert(b[2] == b.subrange(2, 5)[0]);
    assert(b[3] == b.subrange(2, 5)[1]);
    assert(b[4] == b.subrange(2, 5)[2]);
    let h = s.triggers.high;
    let l = s.triggers.low;
    assert((h as u8) as i8 == h) by (bit_vector);
    assert((l as u8) as i8 == l) by (bit_vector);
}

} // verus!
