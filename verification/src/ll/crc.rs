//! BLE CRC-24 (reflected register form, polynomial 0x65B, init 0x555555).
use vstd::prelude::*;

use crate::Error;

verus! {

/// BLE CRC-24 generator polynomial x^24 + x^10 + x^9 + x^6 + x^4 + x^3 + x + 1.
pub const CRC_POLY: u32 = 0x0000_065B;

/// BLE CRC-24 initial value.
pub const CRC_INIT: u32 = 0x0055_5555;

/// The generator polynomial in bit-reversed (LSB-first) order.
pub const CRC_REFLECTED_POLY: u32 = 0x00DA_6000;

/// One LFSR step of the reflected CRC register.
pub open spec fn crc_shift(c: u32) -> u32 {
    if c & 1 != 0 {
        (c >> 1) ^ CRC_REFLECTED_POLY
    } else {
        c >> 1
    }
}

/// `n` LFSR steps of the reflected CRC register.
pub open spec fn crc_shift_n(c: u32, n: nat) -> u32
    decreases n,
{
    if n == 0 {
        c
    } else {
        crc_shift(crc_shift_n(c, (n - 1) as nat))
    }
}

/// Feed one byte (LSB first) into the 24-bit register.
pub open spec fn crc_update_byte(c: u32, b: u8) -> u32 {
    crc_shift_n(c ^ (b as u32), 8) & 0xFF_FFFF
}

/// Feed a byte sequence into the 24-bit register.
pub open spec fn crc_update(c: u32, s: Seq<u8>) -> u32
    decreases s.len(),
{
    if s.len() == 0 {
        c
    } else {
        crc_update_byte(crc_update(c, s.drop_last()), s.last())
    }
}

/// The value of bit-reversing `n` more bits of `v` into the accumulator `r`.
pub open spec fn reflect_acc(v: u32, r: u32, n: nat) -> u32
    decreases n,
{
    if n == 0 {
        r
    } else {
        reflect_acc(v >> 1, (r << 1) | (v & 1), (n - 1) as nat)
    }
}

/// The low `bits` bits of `value` in reverse order.
pub open spec fn reflect_spec(value: u32, bits: nat) -> u32 {
    reflect_acc(value, 0, bits)
}

/// CRC-24 of `data` with a normal-form initial value.
pub open spec fn crc24_spec(data: Seq<u8>, init: u32) -> u32 {
    crc_update(reflect_spec(init & 0xFF_FFFF, 24), data)
}

/// The three CRC bytes in on-air order (normal-form MSB byte first, i.e. the
/// reflected register's low byte first).
pub open spec fn crc_bytes(c: u32) -> Seq<u8> {
    seq![c as u8, (c >> 8) as u8, (c >> 16) as u8]
}

proof fn lemma_reflect_acc_bound(v: u32, r: u32, n: nat, k: u32)
    requires
        k + n <= 24,
        r < (1u32 << k),
    ensures
        reflect_acc(v, r, n) < (1u32 << ((k + n) as u32)),
    decreases n,
{
    if n == 0 {
    } else {
        assert(k < 24 && r < (1u32 << k) ==> ((r << 1) | (v & 1)) < (1u32 << (k + 1))) by (bit_vector);
        lemma_reflect_acc_bound(v >> 1, (r << 1) | (v & 1), (n - 1) as nat, (k + 1) as u32);
    }
}

proof fn lemma_crc_update_bound(c: u32, s: Seq<u8>)
    requires
        c < 0x100_0000,
    ensures
        crc_update(c, s) < 0x100_0000,
    decreases s.len(),
{
    if s.len() > 0 {
        lemma_crc_update_bound(c, s.drop_last());
        let x = crc_shift_n(crc_update(c, s.drop_last()) ^ (s.last() as u32), 8);
        assert(x & 0xFF_FFFF < 0x100_0000) by (bit_vector);
    }
}

/// CRC values always fit in 24 bits.
pub proof fn lemma_crc24_bound(data: Seq<u8>, init: u32)
    ensures
        crc24_spec(data, init) < 0x100_0000,
{
    assert(0u32 < (1u32 << 0u32)) by (bit_vector);
    lemma_reflect_acc_bound(init & 0xFF_FFFF, 0, 24, 0);
    assert(1u32 << 24u32 == 0x100_0000) by (bit_vector);
    lemma_crc_update_bound(reflect_spec(init & 0xFF_FFFF, 24), data);
}

/// Feeding `a + b` is feeding `a`, then `b`.
pub proof fn lemma_crc_update_concat(c: u32, a: Seq<u8>, b: Seq<u8>)
    ensures
        crc_update(c, a + b) == crc_update(crc_update(c, a), b),
    decreases b.len(),
{
    if b.len() == 0 {
        assert(a + b =~= a);
    } else {
        assert((a + b).drop_last() =~= a + b.drop_last());
        assert((a + b).last() == b.last());
        lemma_crc_update_concat(c, a, b.drop_last());
    }
}

proof fn lemma_shift_clean(x: u32, k: u32)
    requires
        k <= 8,
        x & 0xff == 0,
    ensures
        crc_shift_n(x, k as nat) == x >> k,
    decreases k,
{
    if k == 0 {
        assert(x >> 0u32 == x) by (bit_vector);
    } else {
        lemma_shift_clean(x, (k - 1) as u32);
        assert(x & 0xff == 0 && 1 <= k <= 8 ==> (x >> ((k - 1) as u32)) & 1 == 0 && ((x >> ((
        k - 1) as u32)) >> 1) == x >> k) by (bit_vector);
    }
}

proof fn lemma_feed_low_byte(c: u32)
    requires
        c < 0x100_0000,
    ensures
        crc_update_byte(c, c as u8) == c >> 8,
{
    let x = c ^ ((c as u8) as u32);
    assert(x & 0xff == 0 && (x >> 8) & 0xFF_FFFF == c >> 8) by (bit_vector)
        requires
            x == c ^ ((c as u8) as u32),
            c < 0x100_0000,
    ;
    lemma_shift_clean(x, 8);
}

/// Feeding a register its own three CRC bytes leaves a zero residue.
pub proof fn lemma_crc_residue(c: u32)
    requires
        c < 0x100_0000,
    ensures
        crc_update(c, crc_bytes(c)) == 0,
{
    let s = crc_bytes(c);
    assert(s.drop_last().drop_last().drop_last() =~= Seq::<u8>::empty());
    assert(s.drop_last().drop_last().last() == c as u8);
    assert(s.drop_last().last() == (c >> 8) as u8);
    assert(s.last() == (c >> 16) as u8);
    lemma_feed_low_byte(c);
    assert((c >> 8) < 0x100_0000 && (c >> 8) >> 8 == c >> 16 && (c >> 16) >> 8 == 0 && ((c >> 8)
        as u8) == (c >> 8) as u8 && (c >> 16) < 0x100_0000) by (bit_vector)
        requires
            c < 0x100_0000,
    ;
    lemma_feed_low_byte(c >> 8);
    lemma_feed_low_byte(c >> 16);
    let s1 = s.drop_last().drop_last();
    let s2 = s.drop_last();
    assert(crc_update(c, s1.drop_last()) == c);
    assert(crc_update(c, s1) == c >> 8);
    assert(crc_update(c, s2) == c >> 16);
}

/// A PDU followed by its own CRC bytes always passes the CRC check.
pub proof fn lemma_check_appended(pdu: Seq<u8>)
    ensures
        crc24_spec(pdu + crc_bytes(crc24_spec(pdu, CRC_INIT)), CRC_INIT) == 0,
        (pdu + crc_bytes(crc24_spec(pdu, CRC_INIT))).len() >= 3,
{
    let start = reflect_spec(CRC_INIT & 0xFF_FFFF, 24);
    let c = crc24_spec(pdu, CRC_INIT);
    lemma_crc24_bound(pdu, CRC_INIT);
    lemma_crc_update_concat(start, pdu, crc_bytes(c));
    lemma_crc_residue(c);
}

/// Bit-reverse the low `bits` bits of `value`.
fn reflect(value: u32, bits: u32) -> (r: u32)
    requires
        bits <= 24,
    ensures
        r == reflect_spec(value, bits as nat),
        r < (1u32 << bits),
{
    let mut v = value;
    let mut r = 0u32;
    let mut i: u32 = 0;
    assert(0u32 < (1u32 << 0u32)) by (bit_vector);
    while i < bits
        invariant
            i <= bits,
            bits <= 24,
            reflect_acc(v, r, (bits - i) as nat) == reflect_spec(value, bits as nat),
            r < (1u32 << i),
        decreases bits - i,
    {
        assert(i < 24 && r < (1u32 << i) ==> ((r << 1) | (v & 1)) < (1u32 << (i + 1))) by (bit_vector);
        r = (r << 1) | (v & 1);
        v >>= 1;
        i += 1;
    }
    r
}

/// Compute the BLE CRC-24 over `data` with the standard initial value.
pub fn crc24(data: &[u8]) -> (c: u32)
    ensures
        c == crc24_spec(data@, CRC_INIT),
        c < 0x100_0000,
{
    crc24_with_init(data, CRC_INIT)
}

/// Compute the BLE CRC-24 over `data` with a custom (normal-form) initial value.
pub fn crc24_with_init(data: &[u8], init: u32) -> (c: u32)
    ensures
        c == crc24_spec(data@, init),
        c < 0x100_0000,
{
    let mut crc = reflect(init & 0xFF_FFFF, 24);
    assert(1u32 << 24u32 == 0x100_0000) by (bit_vector);
    let mut i: usize = 0;
    while i < data.len()
        invariant
            i <= data@.len(),
            crc == crc_update(reflect_spec(init & 0xFF_FFFF, 24), data@.take(i as int)),
            crc < 0x100_0000,
        decreases data@.len() - i,
    {
        let c0 = crc ^ (data[i] as u32);
        crc = c0;
        let mut bit: u32 = 0;
        while bit < 8
            invariant
                bit <= 8,
                crc == crc_shift_n(c0, bit as nat),
            decreases 8 - bit,
        {
            if crc & 1 != 0 {
                crc = (crc >> 1) ^ CRC_REFLECTED_POLY;
            } else {
                crc >>= 1;
            }
            bit += 1;
        }
        crc &= 0xFF_FFFF;
        proof {
            let t = data@.take(i + 1);
            assert(t.drop_last() =~= data@.take(i as int));
            assert(t.last() == data@[i as int]);
            let x = crc_shift_n(c0, 8);
            assert(x & 0xFF_FFFF < 0x100_0000) by (bit_vector);
        }
        i += 1;
    }
    assert(data@.take(data@.len() as int) =~= data@);
    crc
}

/// Append the CRC bytes (on-air order: normal-form MSB byte first) to `out`.
pub fn append_crc(pdu: &[u8], out: &mut [u8]) -> (res: Result<(), Error>)
    ensures
        old(out)@.len() < 3 ==> res == Err::<(), Error>(Error::BufferTooSmall) && final(out)@
            == old(out)@,
        old(out)@.len() >= 3 ==> res is Ok && final(out)@ == crc_bytes(
            crc24_spec(pdu@, CRC_INIT),
        ) + old(out)@.skip(3),
{
    if out.len() < 3 {
        return Err(Error::BufferTooSmall);
    }
    let crc = crc24(pdu);
    out[0] = crc as u8;
    out[1] = (crc >> 8) as u8;
    out[2] = (crc >> 16) as u8;
    assert(final(out)@ =~= crc_bytes(crc) + old(out)@.skip(3));
    Ok(())
}

/// Verify a PDU with appended CRC: true when the CRC residue is zero.
pub fn check(pdu_with_crc: &[u8]) -> (ok: bool)
    ensures
        ok == (pdu_with_crc@.len() >= 3 && crc24_spec(pdu_with_crc@, CRC_INIT) == 0),
{
    if pdu_with_crc.len() < 3 {
        return false;
    }
    crc24(pdu_with_crc) == 0
}

} // verus!
