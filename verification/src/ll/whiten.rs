//! BLE data whitening: a 7-bit LFSR keystream XORed onto the packet.
use vstd::prelude::*;

verus! {

/// The LFSR seed of a channel: bit 6 set, channel index in bits 0-5.
pub open spec fn whitening_init_spec(channel: u8) -> u8 {
    0x40 | (channel & 0x3F)
}

/// One step of the whitening LFSR (x^7 + x^4 + 1), kept to 7 bits.
pub open spec fn lfsr_step(l: u16) -> u16 {
    ((l << 1) | (((l >> 6) ^ (l >> 3)) & 1)) & 0x7F
}

/// `n` steps of the whitening LFSR.
pub open spec fn lfsr_n(l: u16, n: nat) -> u16
    decreases n,
{
    if n == 0 {
        l
    } else {
        lfsr_step(lfsr_n(l, (n - 1) as nat))
    }
}

/// The keystream bit produced by an LFSR state.
pub open spec fn key_bit(l: u16) -> u8 {
    ((l >> 6) as u8) & 1
}

/// The first `n` keystream bits from state `l`, LSB first.
pub open spec fn key_byte_partial(l: u16, n: nat) -> u8
    decreases n,
{
    if n == 0 {
        0
    } else {
        key_byte_partial(l, (n - 1) as nat) | (key_bit(lfsr_n(l, (n - 1) as nat)) << ((n
            - 1) as u8))
    }
}

/// The keystream byte XORed onto byte number `i` of a packet on `channel`.
pub open spec fn key_at(channel: u8, i: nat) -> u8 {
    key_byte_partial(lfsr_n(whitening_init_spec(channel) as u16, 8 * i), 8)
}

/// The whitened form of `data` on `channel`.
pub open spec fn whiten_spec(data: Seq<u8>, channel: u8) -> Seq<u8> {
    Seq::new(data.len(), |i: int| data[i] ^ key_at(channel, i as nat))
}

/// The low `i` bits set.
pub open spec fn low_mask(i: u32) -> u32 {
    ((1u32 << i) - 1) as u32
}

/// BLE whitening LFSR initial value for a channel (0x40 + channel).
pub fn whitening_init(channel: u8) -> (r: u8)
    ensures
        r == whitening_init_spec(channel),
        r & 0x40 != 0,
        r & 0x80 == 0,
{
    let r = 0x40 | (channel & 0x3F);
    assert(r == 0x40 | (channel & 0x3F) ==> r & 0x40 != 0 && r & 0x80 == 0) by (bit_vector);
    r
}

/// Apply BLE data whitening to `buf` in place (involutive).
pub fn whiten(buf: &mut [u8], channel: u8)
    ensures
        final(buf)@ == whiten_spec(old(buf)@, channel),
{
    let mut lfsr: u16 = whitening_init(channel) as u16;
    let ghost seed = lfsr;
    let mut idx: usize = 0;
    while idx < buf.len()
        invariant
            buf@.len() == old(buf)@.len(),
            idx <= buf@.len(),
            seed == whitening_init_spec(channel) as u16,
            lfsr == lfsr_n(seed, 8 * idx as nat),
            forall|j: int| 0 <= j < idx ==> buf@[j] == old(buf)@[j] ^ key_at(channel, j as nat),
            forall|j: int| idx <= j < buf@.len() ==> buf@[j] == old(buf)@[j],
        decreases buf@.len() - idx,
    {
        let byte = buf[idx];
        let ghost l0 = lfsr;
        let mut out = 0u8;
        let mut i: u32 = 0;
        assert(0u8 as u32 == ((byte ^ 0u8) as u32) & low_mask(0) && (0u8 as u32) < (1u32
            << 0u32)) by (bit_vector);
        while i < 8
            invariant
                i <= 8,
                lfsr == lfsr_n(l0, i as nat),
                out as u32 == ((byte ^ key_byte_partial(l0, i as nat)) as u32) & low_mask(i),
                (key_byte_partial(l0, i as nat) as u32) < (1u32 << i),
            decreases 8 - i,
        {
            let ghost kp = key_byte_partial(l0, i as nat);
            let data_bit = (byte >> i) & 1;
            let key_bit = (lfsr >> 6) as u8 & 1;
            assert(key_bit <= 1) by (bit_vector)
                requires
                    key_bit == ((lfsr >> 6) as u8) & 1,
            ;
            assert(i < 8 && key_bit <= 1 && out as u32 == ((byte ^ kp) as u32) & low_mask(i)
                && (kp as u32) < (1u32 << i) ==> ((out | ((((byte >> i) & 1) ^ key_bit) << i))
                as u32) == ((byte ^ (kp | (key_bit << (i as u8)))) as u32) & low_mask((i + 1) as u32) && ((kp | (key_bit << (i as u8))) as u32) < (1u32 << ((i + 1) as u32)))
                by (bit_vector);
            out |= (data_bit ^ key_bit) << i;
            let feedback = ((lfsr >> 6) ^ (lfsr >> 3)) & 1;
            lfsr = ((lfsr << 1) | feedback) & 0x7F;
            i += 1;
        }
        assert(low_mask(8) == 0xff) by (bit_vector);
        assert(out == byte ^ key_byte_partial(l0, 8)) by (bit_vector)
            requires
                out as u32 == ((byte ^ key_byte_partial(l0, 8)) as u32) & 0xff,
        ;
        assert(8 * idx + 8 == 8 * (idx + 1));
        proof {
            lemma_lfsr_n_add(seed, 8 * idx as nat, 8);
        }
        buf[idx] = out;
        idx += 1;
    }
}

proof fn lemma_lfsr_n_add(l: u16, a: nat, b: nat)
    ensures
        lfsr_n(lfsr_n(l, a), b) == lfsr_n(l, a + b),
    decreases b,
{
    if b > 0 {
        lemma_lfsr_n_add(l, a, (b - 1) as nat);
    }
}

/// Whitening is an involution: applying it twice on the same channel
/// restores the data.
pub proof fn lemma_whiten_involution(data: Seq<u8>, channel: u8)
    ensures
        whiten_spec(whiten_spec(data, channel), channel) == data,
{
    let w = whiten_spec(whiten_spec(data, channel), channel);
    assert forall|i: int| 0 <= i < data.len() implies w[i] == data[i] by {
        let x = data[i];
        let k = key_at(channel, i as nat);
        assert((x ^ k) ^ k == x) by (bit_vector);
    }
    assert(w =~= data);
}

} // verus!
