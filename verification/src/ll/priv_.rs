//! Privacy: IRK-based resolvable private address (RPA) generation and
//! resolution.
use vstd::prelude::*;

use crate::hw::smp::{aes128, aes_encrypt};

verus! {

/// The hash `ah(irk, prand)`: the first three bytes of the AES-128
/// encryption of `prand` padded with zero bytes to a full block.
pub open spec fn ah_spec(irk: Seq<u8>, prand: Seq<u8>) -> Seq<u8> {
    let e = aes128(irk, prand + Seq::new(13, |i: int| 0u8));
    seq![e[0], e[1], e[2]]
}

/// The random part of an RPA: the low 24 bits of `prand`, with the two top
/// bits of the most significant byte set to `0b01`.
pub open spec fn rpa_prand(prand: u32) -> Seq<u8> {
    seq![prand as u8, (prand >> 8) as u8, (((prand >> 16) as u8) & 0x3F) | 0x40]
}

/// The resolvable private address generated from `irk` and `prand`: the
/// hash in the three low bytes, the random part in the three high bytes.
pub open spec fn generate_rpa_spec(irk: Seq<u8>, prand: u32) -> Seq<u8> {
    ah_spec(irk, rpa_prand(prand)) + rpa_prand(prand)
}

/// `addr` is a resolvable private address whose hash matches `irk`.
pub open spec fn resolve_rpa_spec(irk: Seq<u8>, addr: Seq<u8>) -> bool {
    &&& addr[5] >> 6 == 1
    &&& addr.take(3) == ah_spec(irk, addr.subrange(3, 6))
}

/// Generate the 3-byte hash part of a resolvable private address.
///
/// `ah(irk, prand)` = AES-128(irk, prand || padding)[0..3] with the
/// `prand` in the 3 least significant octets of the block.
pub fn ah(irk: &[u8; 16], prand: [u8; 3]) -> (hash: [u8; 3])
    ensures
        hash@ == ah_spec(irk@, prand@),
{
    let mut block = [0u8; 16];
    block[0] = prand[0];
    block[1] = prand[1];
    block[2] = prand[2];
    assert(block@ =~= prand@ + Seq::new(13, |i: int| 0u8));
    aes_encrypt(irk, &mut block);
    let hash = [block[0], block[1], block[2]];
    assert(hash@ =~= ah_spec(irk@, prand@));
    hash
}

/// Build a resolvable private address from an IRK and a random 24-bit
/// value. The top two bits of the prand (and the address) are set to
/// `0b01`, and the hash is computed over the prand including those bits.
pub fn generate_rpa(irk: &[u8; 16], prand: u32) -> (addr: [u8; 6])
    ensures
        addr@ == generate_rpa_spec(irk@, prand),
{
    let ghost p = prand;
    let prand = prand & 0x00FF_FFFF;
    let mut prand_bytes = [
        (prand & 0xFF) as u8,
        ((prand >> 8) & 0xFF) as u8,
        ((prand >> 16) & 0xFF) as u8,
    ];
    prand_bytes[2] = (prand_bytes[2] & 0x3F) | 0x40;
    assert(prand_bytes@ =~= rpa_prand(p)) by {
        let m = p & 0x00FF_FFFF;
        assert(((m & 0xFF) as u8) == p as u8 && (((m >> 8) & 0xFF) as u8) == (p >> 8) as u8 && (((
        (m >> 16) & 0xFF) as u8) & 0x3F) == ((p >> 16) as u8) & 0x3F) by (bit_vector)
            requires
                m == p & 0x00FF_FFFF,
        ;
    }
    let hash = ah(irk, prand_bytes);
    let addr = [hash[0], hash[1], hash[2], prand_bytes[0], prand_bytes[1], prand_bytes[2]];
    assert(addr@ =~= hash@ + prand_bytes@);
    addr
}

/// Try to resolve a resolvable private address with an IRK.
///
/// Returns `true` when the hash part matches.
pub fn resolve_rpa(irk: &[u8; 16], addr: &[u8; 6]) -> (resolved: bool)
    ensures
        resolved == resolve_rpa_spec(irk@, addr@),
{
    if addr[5] >> 6 != 1 {
        return false;
    }
    let prand = [addr[3], addr[4], addr[5]];
    assert(prand@ =~= addr@.subrange(3, 6));
    let expected = ah(irk, prand);
    rpa_hash_matches(addr, expected)
}

/// The hash part (the three low bytes) of `addr` is `hash`.
pub fn rpa_hash_matches(addr: &[u8; 6], hash: [u8; 3]) -> (r: bool)
    ensures
        r == (addr@.take(3) == hash@),
{
    let r = hash[0] == addr[0] && hash[1] == addr[1] && hash[2] == addr[2];
    assert(r == (addr@.take(3) =~= hash@));
    r
}

/// A freshly generated resolvable private address resolves with the IRK it
/// was made from, and carries the `0b01` random type bits.
pub proof fn lemma_generated_rpa_resolves(irk: Seq<u8>, prand: u32)
    ensures
        resolve_rpa_spec(irk, generate_rpa_spec(irk, prand)),
        generate_rpa_spec(irk, prand)[5] >> 6 == 1,
{
    let a = generate_rpa_spec(irk, prand);
    let r = rpa_prand(prand);
    let h = ah_spec(irk, r);
    assert(a.subrange(3, 6) =~= r);
    assert(a.take(3) =~= h);
    let b = (prand >> 16) as u8;
    assert(((b & 0x3F) | 0x40) >> 6 == 1) by (bit_vector);
}

} // verus!
