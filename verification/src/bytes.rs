//! Little-endian field encodings and in-place byte copies shared by the codecs.
use vstd::prelude::*;

verus! {

/// Two little-endian bytes of a 16-bit value.
pub open spec fn le16(x: u16) -> Seq<u8> {
    seq![x as u8, (x >> 8) as u8]
}

/// Four little-endian bytes of a 32-bit value.
pub open spec fn le32(x: u32) -> Seq<u8> {
    seq![x as u8, (x >> 8) as u8, (x >> 16) as u8, (x >> 24) as u8]
}

/// The 16-bit value of two little-endian bytes.
pub open spec fn u16_le(b0: u8, b1: u8) -> u16 {
    ((b0 as u16) | ((b1 as u16) << 8)) as u16
}

/// `s` with `src` written over it from index `at`.
pub open spec fn splice(s: Seq<u8>, at: int, src: Seq<u8>) -> Seq<u8> {
    s.take(at) + src + s.skip(at + src.len())
}

/// Copy `src` into `out` starting at `at`.
pub fn copy_into(out: &mut [u8], at: usize, src: &[u8])
    requires
        at + src@.len() <= old(out)@.len(),
    ensures
        final(out)@ == splice(old(out)@, at as int, src@),
{
    let n = out.len();
    let mut i: usize = 0;
    while i < src.len()
        invariant
            n == out@.len(),
            at + src@.len() <= out@.len(),
            out@.len() == old(out)@.len(),
            i <= src@.len(),
            out@ == splice(old(out)@, at as int, src@.take(i as int)),
        decreases src@.len() - i,
    {
        out[at + i] = src[i];
        i += 1;
        assert(out@ =~= splice(old(out)@, at as int, src@.take(i as int)));
    }
    assert(src@.take(src@.len() as int) =~= src@);
}

/// Copy the six bytes of `s` starting at `at` into an array.
pub fn addr_at(s: &[u8], at: usize) -> (r: [u8; 6])
    requires
        at + 6 <= s@.len(),
    ensures
        r@ == s@.subrange(at as int, at + 6),
{
    let r = [s[at], s[at + 1], s[at + 2], s[at + 3], s[at + 4], s[at + 5]];
    assert(r@ =~= s@.subrange(at as int, at + 6));
    r
}

/// Byte-wise equality of two slices.
pub fn bytes_eq(a: &[u8], b: &[u8]) -> (r: bool)
    ensures
        r == (a@ == b@),
{
    if a.len() != b.len() {
        return false;
    }
    let mut i: usize = 0;
    while i < a.len()
        invariant
            a@.len() == b@.len(),
            i <= a@.len(),
            forall|j: int| 0 <= j < i ==> a@[j] == b@[j],
        decreases a@.len() - i,
    {
        if a[i] != b[i] {
            return false;
        }
        i += 1;
    }
    assert(a@ =~= b@);
    true
}


/// Reading back the two little-endian bytes of a 16-bit value gives it.
pub proof fn lemma_le16_roundtrip(x: u16)
    ensures
        u16_le(le16(x)[0], le16(x)[1]) == x,
{
    assert(u16_le(x as u8, (x >> 8) as u8) == x) by (bit_vector);
}

/// The little-endian bytes of a value below 256.
pub proof fn lemma_le16_small(x: u16)
    requires
        x < 256,
    ensures
        le16(x) == seq![x as u8, 0u8],
{
    assert((x >> 8u16) as u8 == 0u8) by (bit_vector)
        requires
            x < 256,
    ;
    assert(le16(x) =~= seq![x as u8, 0u8]);
}

} // verus!
