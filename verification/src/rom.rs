//! The 64-bit ROM code of a one-wire device and the frames that carry it.
//!
//! On the bus a ROM code is eight bytes, least significant first: the family
//! code, six bytes of serial number, and the CRC-8 of those seven bytes.
use vstd::arithmetic::div_mod::{lemma_div_denominator, lemma_fundamental_div_mod_converse};
use vstd::arithmetic::power::{lemma_pow_positive, pow};
use vstd::prelude::*;

use crate::crc8::{check, crc_fold, lemma_trailing_crc_passes};
use crate::error::CrcError;

verus! {

/// The number that `s` spells, least significant byte first.
pub open spec fn le_value(s: Seq<u8>) -> nat
    decreases s.len(),
{
    if s.len() == 0 {
        0
    } else {
        s[0] as nat + 256 * le_value(s.drop_first())
    }
}

/// The `n` low bytes of `x`, least significant first.
pub open spec fn le_bytes(x: nat, n: nat) -> Seq<u8> {
    Seq::new(n, |j: int| ((x as int / pow(256, j as nat)) % 256) as u8)
}

proof fn lemma_pow256_step(j: nat)
    ensures
        pow(256, j + 1) == 256 * pow(256, j),
        pow(256, j) > 0,
{
    reveal(pow);
    lemma_pow_positive(256, j);
}

proof fn lemma_pow256_seven()
    ensures
        pow(256, 0) == 1,
        pow(256, 1) == 0x100,
        pow(256, 2) == 0x10000,
        pow(256, 3) == 0x1000000,
        pow(256, 4) == 0x100000000,
        pow(256, 5) == 0x10000000000,
        pow(256, 6) == 0x1000000000000,
        pow(256, 7) == 0x100000000000000,
{
    reveal(pow);
    assert(pow(256, 0) == 1);
    assert(pow(256, 1) == 0x100);
    assert(pow(256, 2) == 0x10000);
    assert(pow(256, 3) == 0x1000000);
    assert(pow(256, 4) == 0x100000000);
    assert(pow(256, 5) == 0x10000000000);
    assert(pow(256, 6) == 0x1000000000000);
}

proof fn lemma_pow256_eight()
    ensures
        pow(256, 8) == 0x10000000000000000,
{
    lemma_pow256_seven();
    lemma_pow256_step(7);
}

proof fn lemma_le_value_bound(s: Seq<u8>)
    ensures
        le_value(s) < pow(256, s.len()),
    decreases s.len(),
{
    reveal(pow);
    if s.len() > 0 {
        lemma_le_value_bound(s.drop_first());
    }
}

proof fn lemma_le_bytes_drop_first(x: nat, n: nat)
    requires
        n > 0,
    ensures
        le_bytes(x, n)[0] == (x % 256) as u8,
        le_bytes(x, n).drop_first() == le_bytes(x / 256, (n - 1) as nat),
{
    reveal(pow);
    assert forall|j: int| 0 <= j < n - 1 implies #[trigger] le_bytes(x, n).drop_first()[j]
        == le_bytes(x / 256, (n - 1) as nat)[j] by {
        lemma_pow256_step(j as nat);
        lemma_div_denominator(x as int, 256, pow(256, j as nat));
    }
    assert(le_bytes(x, n).drop_first() =~= le_bytes(x / 256, (n - 1) as nat));
}

/// Reading the bytes of a number back gives the number.
pub proof fn lemma_le_value_of_bytes(x: nat, n: nat)
    requires
        x < pow(256, n),
    ensures
        le_value(le_bytes(x, n)) == x,
    decreases n,
{
    reveal(pow);
    if n > 0 {
        lemma_le_bytes_drop_first(x, n);
        assert(x / 256 < pow(256, (n - 1) as nat));
        lemma_le_value_of_bytes(x / 256, (n - 1) as nat);
    }
}

/// Writing out the number that bytes spell gives the bytes.
pub proof fn lemma_le_bytes_of_value(s: Seq<u8>)
    ensures
        le_bytes(le_value(s), s.len()) == s,
    decreases s.len(),
{
    if s.len() > 0 {
        let v = le_value(s);
        let r = le_value(s.drop_first());
        lemma_fundamental_div_mod_converse(v as int, 256, r as int, s[0] as int);
        lemma_le_bytes_drop_first(v, s.len());
        lemma_le_bytes_of_value(s.drop_first());
        assert(le_bytes(v, s.len()) =~= seq![s[0]] + s.drop_first());
        assert(s =~= seq![s[0]] + s.drop_first());
    } else {
        assert(le_bytes(le_value(s), 0) =~= s);
    }
}

/// The ROM code that eight bytes read from the bus spell, once they have
/// passed the CRC check (the last byte is the CRC of the first seven).
pub fn rom_address(rom: &[u8; 8]) -> (r: Result<u64, CrcError>)
    ensures
        match r {
            Ok(address) => crc_fold(0, rom@) == 0 && address == le_value(rom@),
            Err(e) => crc_fold(0, rom@) != 0 && e == CrcError { crc: crc_fold(0, rom@) },
        },
        r matches Ok(address) ==> address == rom@[0] + 0x100 * rom@[1] + 0x10000 * rom@[2]
            + 0x1000000 * rom@[3] + 0x100000000 * rom@[4] + 0x10000000000 * rom@[5]
            + 0x1000000000000 * rom@[6] + 0x100000000000000 * rom@[7],
{
    proof {
        lemma_le_value_digits(rom@);
    }
    match check(rom.as_slice()) {
        Ok(()) => {},
        Err(e) => {
            return Err(e);
        },
    }
    let mut acc: u64 = 0;
    let mut i: usize = 8;
    while i > 0
        invariant
            i <= 8,
            rom@.len() == 8,
            acc == le_value(rom@.subrange(i as int, 8)),
        decreases i,
    {
        i = i - 1;
        proof {
            let tail = rom@.subrange(i + 1, 8);
            lemma_le_value_bound(tail);
            lemma_pow256_step((7 - i) as nat);
            lemma_pow256_seven();
            if i < 7 {
                vstd::arithmetic::power::lemma_pow_increases(256, (7 - i) as nat, 7);
            }
            assert(rom@.subrange(i as int, 8).drop_first() =~= tail);
        }
        acc = rom[i] as u64 + 256 * acc;
    }
    proof {
        assert(rom@.subrange(0, 8) =~= rom@);
    }
    Ok(acc)
}

/// A command followed by a ROM code, as the MATCH ROM command puts it on the
/// bus: the command byte, then the eight bytes of `address`, least
/// significant first.
pub fn rom_command_frame(command: u8, address: u64) -> (frame: Vec<u8>)
    ensures
        frame@ == seq![command] + le_bytes(address as nat, 8),
        frame@.len() == 9,
        frame@[0] == command,
        forall|k: int|
            0 <= k < 8 ==> #[trigger] frame@[k + 1] == ((address >> (8 * k) as u64) & 0xFF) as u8,
{
    let mut frame: Vec<u8> = Vec::new();
    frame.push(command);
    let mut rest: u64 = address;
    let mut i: usize = 0;
    proof {
        reveal(pow);
    }
    while i < 8
        invariant
            i <= 8,
            frame@.len() == i + 1,
            frame@[0] == command,
            rest == address as int / pow(256, i as nat),
            forall|j: int| 0 <= j < i ==> #[trigger] frame@[j + 1] == le_bytes(address as nat, 8)[j],
        decreases 8 - i,
    {
        proof {
            lemma_pow256_step(i as nat);
            lemma_div_denominator(address as int, pow(256, i as nat), 256);
        }
        frame.push((rest % 256) as u8);
        rest = rest / 256;
        i = i + 1;
    }
    let ghost expected = seq![command] + le_bytes(address as nat, 8);
    assert forall|k: int| 0 <= k < 9 implies frame@[k] == expected[k] by {
        if k > 0 {
            assert(frame@[(k - 1) + 1] == le_bytes(address as nat, 8)[k - 1]);
        }
    }
    assert(frame@ =~= expected);
    proof {
        lemma_le_bytes_shifts(address);
    }
    frame
}

/// Eight bytes spell the number whose base-256 digits they are, least
/// significant first.
pub proof fn lemma_le_value_digits(s: Seq<u8>)
    requires
        s.len() == 8,
    ensures
        le_value(s) == s[0] + 0x100 * s[1] + 0x10000 * s[2] + 0x1000000 * s[3] + 0x100000000
            * s[4] + 0x10000000000 * s[5] + 0x1000000000000 * s[6] + 0x100000000000000 * s[7],
{
    let s1 = s.drop_first();
    let s2 = s1.drop_first();
    let s3 = s2.drop_first();
    let s4 = s3.drop_first();
    let s5 = s4.drop_first();
    let s6 = s5.drop_first();
    let s7 = s6.drop_first();
    let s8 = s7.drop_first();
    assert(le_value(s8) == 0);
    assert(le_value(s7) == s[7] + 256 * le_value(s8));
    assert(le_value(s6) == s[6] + 256 * le_value(s7));
    assert(le_value(s5) == s[5] + 256 * le_value(s6));
    assert(le_value(s4) == s[4] + 256 * le_value(s5));
    assert(le_value(s3) == s[3] + 256 * le_value(s4));
    assert(le_value(s2) == s[2] + 256 * le_value(s3));
    assert(le_value(s1) == s[1] + 256 * le_value(s2));
    assert(le_value(s) == s[0] + 256 * le_value(s1));
}

/// Byte `k` of the bytes written for an address is bits `8k..8k+8` of the
/// address.
pub proof fn lemma_le_bytes_shifts(address: u64)
    ensures
        le_bytes(address as nat, 8).len() == 8,
        forall|k: int|
            0 <= k < 8 ==> #[trigger] le_bytes(address as nat, 8)[k] == ((address >> (8 * k) as u64)
                & 0xFF) as u8,
{
    lemma_pow256_seven();
    assert forall|k: int| 0 <= k < 8 implies #[trigger] le_bytes(address as nat, 8)[k] == ((address
        >> (8 * k) as u64) & 0xFF) as u8 by {
        let a = address;
        if k == 0 {
            assert(((a / 0x1u64) % 0x100u64) as u8 == ((a >> 0u64) & 0xFFu64) as u8) by (bit_vector);
        } else if k == 1 {
            assert(((a / 0x100u64) % 0x100u64) as u8 == ((a >> 8u64) & 0xFFu64) as u8) by (bit_vector);
        } else if k == 2 {
            assert(((a / 0x10000u64) % 0x100u64) as u8 == ((a >> 16u64) & 0xFFu64) as u8) by (bit_vector);
        } else if k == 3 {
            assert(((a / 0x1000000u64) % 0x100u64) as u8 == ((a >> 24u64) & 0xFFu64) as u8) by (bit_vector);
        } else if k == 4 {
            assert(((a / 0x100000000u64) % 0x100u64) as u8 == ((a >> 32u64) & 0xFFu64) as u8) by (bit_vector);
        } else if k == 5 {
            assert(((a / 0x10000000000u64) % 0x100u64) as u8 == ((a >> 40u64) & 0xFFu64) as u8) by (bit_vector);
        } else if k == 6 {
            assert(((a / 0x1000000000000u64) % 0x100u64) as u8 == ((a >> 48u64) & 0xFFu64) as u8) by (bit_vector);
        } else {
            assert(((a / 0x100000000000000u64) % 0x100u64) as u8 == ((a >> 56u64) & 0xFFu64) as u8) by (bit_vector);
        }
    }
}

/// A ROM code passes the CRC check exactly when its last byte is the CRC of
/// its first seven (family code and serial number).
pub proof fn lemma_rom_crc(rom: Seq<u8>)
    requires
        rom.len() == 8,
    ensures
        crc_fold(0, rom) == 0 <==> rom[7] == crc_fold(0, rom.take(7)),
{
    assert(rom.take(7).push(rom[7]) =~= rom);
    lemma_trailing_crc_passes(0, rom.take(7), rom[7]);
}

/// The address that eight ROM bytes spell fits in a `u64`, and the MATCH ROM
/// frame puts those same eight bytes back on the bus.
pub proof fn lemma_rom_bytes_roundtrip(rom: Seq<u8>)
    requires
        rom.len() == 8,
    ensures
        le_value(rom) <= u64::MAX,
        le_bytes(le_value(rom), 8) == rom,
{
    lemma_le_value_bound(rom);
    lemma_pow256_eight();
    lemma_le_bytes_of_value(rom);
}

/// The bytes that the MATCH ROM frame carries for an address spell that
/// address again.
pub proof fn lemma_address_roundtrip(address: u64)
    ensures
        le_bytes(address as nat, 8).len() == 8,
        le_value(le_bytes(address as nat, 8)) == address,
{
    lemma_pow256_eight();
    lemma_le_value_of_bytes(address as nat, 8);
}

} // verus!
