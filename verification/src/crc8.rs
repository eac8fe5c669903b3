//! The Dallas/Maxim CRC-8 (`X^8 + X^5 + X^4 + 1`, reflected, initial value 0).
use vstd::prelude::*;

use crate::error::CrcError;

verus! {

/// One step of the shift register: shift right, and fold the reflected
/// polynomial `0b1000_1100` in when a one bit falls out.
pub open spec fn crc_shift(c: u8) -> u8 {
    if c & 1u8 != 0u8 {
        (c >> 1u8) ^ 0x8Cu8
    } else {
        c >> 1u8
    }
}

/// `n` steps of the shift register.
pub open spec fn crc_shifts(c: u8, n: nat) -> u8
    decreases n,
{
    if n == 0 {
        c
    } else {
        crc_shift(crc_shifts(c, (n - 1) as nat))
    }
}

/// The register after one more byte has gone through it.
pub open spec fn crc_byte(crc: u8, byte: u8) -> u8 {
    crc_shifts(crc ^ byte, 8)
}

/// The register after all of `data` has gone through it, starting from `init`.
pub open spec fn crc_fold(init: u8, data: Seq<u8>) -> u8 {
    data.fold_left(init, |c: u8, b: u8| crc_byte(c, b))
}

/// Calculates the crc8 of the input data with init value.
pub fn append(crc: u8, data: &[u8]) -> (r: u8)
    ensures
        r == crc_fold(crc, data@),
{
    let mut reg: u8 = crc;
    let mut i: usize = 0;
    while i < data.len()
        invariant
            i <= data.len(),
            reg == crc_fold(crc, data@.subrange(0, i as int)),
        decreases data.len() - i,
    {
        reg = reg ^ data[i];
        let ghost start = reg;
        for k in 0..u8::BITS
            invariant
                reg == crc_shifts(start, k as nat),
        {
            let bit = reg & 0x01u8;
            reg = reg >> 1u8;
            if bit != 0 {
                reg = reg ^ 0x8Cu8;
            }
        }
        proof {
            assert(data@.subrange(0, i + 1).drop_last() =~= data@.subrange(0, i as int));
        }
        i = i + 1;
    }
    proof {
        assert(data@.subrange(0, data.len() as int) =~= data@);
    }
    reg
}

/// Calculates the crc8 of the input data.
pub fn calculate(data: &[u8]) -> (r: u8)
    ensures
        r == crc_fold(0, data@),
{
    append(0, data)
}

/// Checks to see if data (including the crc byte) passes the crc check.
pub fn check(data: &[u8]) -> (r: Result<(), CrcError>)
    ensures
        r == (if crc_fold(0, data@) == 0 {
            Ok(())
        } else {
            Err(CrcError { crc: crc_fold(0, data@) })
        }),
{
    let crc = calculate(data);
    if crc == 0 {
        Ok(())
    } else {
        Err(CrcError { crc })
    }
}

/// The register after one byte is zero exactly when that byte equals the
/// register before it: the shift register maps only zero to zero.
pub proof fn lemma_crc_byte_zero(crc: u8, byte: u8)
    ensures
        crc_byte(crc, byte) == 0 <==> byte == crc,
{
    let x = crc ^ byte;
    let c1 = crc_shift(x);
    let c2 = crc_shift(c1);
    let c3 = crc_shift(c2);
    let c4 = crc_shift(c3);
    let c5 = crc_shift(c4);
    let c6 = crc_shift(c5);
    let c7 = crc_shift(c6);
    let c8 = crc_shift(c7);
    assert(crc_shifts(x, 8) == c8) by {
        reveal_with_fuel(crc_shifts, 9);
    }
    assert(c8 == 0u8 <==> x == 0u8) by (bit_vector)
        requires
            c1 == crc_shift(x),
            c2 == crc_shift(c1),
            c3 == crc_shift(c2),
            c4 == crc_shift(c3),
            c5 == crc_shift(c4),
            c6 == crc_shift(c5),
            c7 == crc_shift(c6),
            c8 == crc_shift(c7),
    ;
    assert(x == 0u8 <==> byte == crc) by (bit_vector)
        requires
            x == crc ^ byte,
    ;
}

/// A frame passes the check (leaves zero in the register) exactly when its
/// last byte is the CRC of the bytes before it.
pub proof fn lemma_trailing_crc_passes(init: u8, data: Seq<u8>, byte: u8)
    ensures
        crc_fold(init, data.push(byte)) == 0 <==> byte == crc_fold(init, data),
{
    assert(data.push(byte).drop_last() =~= data);
    lemma_crc_byte_zero(crc_fold(init, data), byte);
}

/// The CRC can be computed piecewise: the CRC of `a ++ b` is the CRC of `b`
/// started from the CRC of `a`.
pub proof fn lemma_crc_concat(init: u8, a: Seq<u8>, b: Seq<u8>)
    ensures
        crc_fold(init, a + b) == crc_fold(crc_fold(init, a), b),
{
    let s = a + b;
    let f = |c: u8, x: u8| crc_byte(c, x);
    s.lemma_fold_left_split(init, f, a.len() as int);
    assert(s.subrange(0, a.len() as int) =~= a);
    assert(s.subrange(a.len() as int, s.len() as int) =~= b);
}

proof fn lemma_crc_shifts_linear(a: u8, b: u8, n: nat)
    ensures
        crc_shifts(a ^ b, n) == crc_shifts(a, n) ^ crc_shifts(b, n),
    decreases n,
{
    if n > 0 {
        lemma_crc_shifts_linear(a, b, (n - 1) as nat);
        let x = crc_shifts(a, (n - 1) as nat);
        let y = crc_shifts(b, (n - 1) as nat);
        assert(crc_shift(x ^ y) == crc_shift(x) ^ crc_shift(y)) by (bit_vector);
    }
}

proof fn lemma_crc_shifts_injective(a: u8, b: u8, n: nat)
    requires
        crc_shifts(a, n) == crc_shifts(b, n),
    ensures
        a == b,
    decreases n,
{
    if n > 0 {
        let x = crc_shifts(a, (n - 1) as nat);
        let y = crc_shifts(b, (n - 1) as nat);
        assert(crc_shift(x) == crc_shift(y) ==> x == y) by (bit_vector);
        lemma_crc_shifts_injective(a, b, (n - 1) as nat);
    }
}

/// The CRC is linear over xor, in the start value and the data together:
/// the CRC of the bytewise xor of two frames, started from the xor of two
/// start values, is the xor of their CRCs.
pub proof fn lemma_crc_linear(c1: u8, c2: u8, d1: Seq<u8>, d2: Seq<u8>, dx: Seq<u8>)
    requires
        d1.len() == d2.len(),
        dx.len() == d1.len(),
        forall|i: int| 0 <= i < d1.len() ==> #[trigger] dx[i] == d1[i] ^ d2[i],
    ensures
        crc_fold(c1 ^ c2, dx) == crc_fold(c1, d1) ^ crc_fold(c2, d2),
    decreases dx.len(),
{
    if dx.len() > 0 {
        let n = dx.len() - 1;
        assert forall|i: int| 0 <= i < n implies #[trigger] dx.drop_last()[i]
            == d1.drop_last()[i] ^ d2.drop_last()[i] by {
            assert(dx[i] == d1[i] ^ d2[i]);
        }
        lemma_crc_linear(c1, c2, d1.drop_last(), d2.drop_last(), dx.drop_last());
        let r1 = crc_fold(c1, d1.drop_last());
        let r2 = crc_fold(c2, d2.drop_last());
        let b1 = d1.last();
        let b2 = d2.last();
        assert(dx.last() == b1 ^ b2);
        assert((r1 ^ r2) ^ (b1 ^ b2) == (r1 ^ b1) ^ (r2 ^ b2)) by (bit_vector);
        lemma_crc_shifts_linear(r1 ^ b1, r2 ^ b2, 8);
    } else {
        assert(0u8 ^ 0u8 == 0u8) by (bit_vector);
        assert(crc_fold(c1, d1) == c1 && crc_fold(c2, d2) == c2);
    }
}

/// For a fixed frame, distinct start values always give distinct CRCs.
pub proof fn lemma_crc_init_injective(c1: u8, c2: u8, data: Seq<u8>)
    requires
        crc_fold(c1, data) == crc_fold(c2, data),
    ensures
        c1 == c2,
    decreases data.len(),
{
    if data.len() > 0 {
        let r1 = crc_fold(c1, data.drop_last());
        let r2 = crc_fold(c2, data.drop_last());
        let b = data.last();
        lemma_crc_shifts_injective(r1 ^ b, r2 ^ b, 8);
        assert(r1 ^ b == r2 ^ b ==> r1 == r2) by (bit_vector);
        lemma_crc_init_injective(c1, c2, data.drop_last());
    }
}

proof fn lemma_crc_zeros(c: u8, zeros: Seq<u8>)
    requires
        forall|i: int| 0 <= i < zeros.len() ==> #[trigger] zeros[i] == 0,
    ensures
        crc_fold(c, zeros) == 0 <==> c == 0,
    decreases zeros.len(),
{
    if zeros.len() > 0 {
        let z = zeros.drop_last();
        assert forall|i: int| 0 <= i < z.len() implies #[trigger] z[i] == 0 by {
            assert(zeros[i] == 0);
        }
        lemma_crc_zeros(c, z);
        assert(zeros.last() == 0);
        lemma_crc_byte_zero(crc_fold(c, z), 0);
    }
}

/// Any change confined to one byte of a frame changes its CRC (whatever the
/// start value): every single-bit error, and every error within one byte,
/// is detected.
pub proof fn lemma_single_byte_change_detected(c: u8, d1: Seq<u8>, d2: Seq<u8>, i: int)
    requires
        d1.len() == d2.len(),
        0 <= i < d1.len(),
        d1[i] != d2[i],
        forall|j: int| 0 <= j < d1.len() && j != i ==> #[trigger] d1[j] == #[trigger] d2[j],
    ensures
        crc_fold(c, d1) != crc_fold(c, d2),
{
    let e = Seq::new(d1.len(), |j: int| d1[j] ^ d2[j]);
    lemma_crc_linear(c, c, d1, d2, e);
    assert(c ^ c == 0u8) by (bit_vector);
    let x = e[i];
    let a = d1[i];
    let b = d2[i];
    assert(a != b ==> a ^ b != 0u8) by (bit_vector);
    assert forall|j: int| 0 <= j < e.len() && j != i implies #[trigger] e[j] == 0 by {
        let p = d1[j];
        let q = d2[j];
        assert(p == q ==> p ^ q == 0u8) by (bit_vector);
    }
    let head = e.take(i);
    let tail = e.skip(i + 1);
    assert forall|j: int| 0 <= j < head.len() implies #[trigger] head[j] == 0 by {
        assert(e[j] == 0);
    }
    assert forall|j: int| 0 <= j < tail.len() implies #[trigger] tail[j] == 0 by {
        assert(e[i + 1 + j] == 0);
    }
    lemma_crc_zeros(0, head);
    assert(head.push(x).drop_last() =~= head);
    lemma_crc_byte_zero(0, x);
    assert(crc_fold(0, head.push(x)) != 0);
    lemma_crc_zeros(crc_fold(0, head.push(x)), tail);
    assert(e =~= head.push(x) + tail);
    lemma_crc_concat(0, head.push(x), tail);
    assert(crc_fold(0, e) != 0);
    let r1 = crc_fold(c, d1);
    let r2 = crc_fold(c, d2);
    assert(r1 ^ r2 != 0u8 ==> r1 != r2) by (bit_vector);
}

/// A frame that passes the check no longer passes it once one of its bytes
/// is changed: `check` then reports the CRC of the changed frame, which is
/// not zero.
pub proof fn lemma_corrupted_frame_fails(good: Seq<u8>, bad: Seq<u8>, i: int)
    requires
        crc_fold(0, good) == 0,
        good.len() == bad.len(),
        0 <= i < good.len(),
        good[i] != bad[i],
        forall|j: int| 0 <= j < good.len() && j != i ==> #[trigger] good[j] == #[trigger] bad[j],
    ensures
        crc_fold(0, bad) != 0,
{
    lemma_single_byte_change_detected(0, good, bad, i);
}

} // verus!
