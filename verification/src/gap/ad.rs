//! Advertising data (AD structure) codec.
use vstd::prelude::*;

use crate::bytes::{copy_into, splice};
use crate::Error;

verus! {

/// Flags.
pub const AD_TYPE_FLAGS: u8 = 0x01;

/// Incomplete list of 16-bit service UUIDs.
pub const AD_TYPE_UUID16_INCOMPLETE: u8 = 0x02;

/// Complete list of 16-bit service UUIDs.
pub const AD_TYPE_UUID16_COMPLETE: u8 = 0x03;

/// Incomplete list of 32-bit service UUIDs.
pub const AD_TYPE_UUID32_INCOMPLETE: u8 = 0x04;

/// Complete list of 32-bit service UUIDs.
pub const AD_TYPE_UUID32_COMPLETE: u8 = 0x05;

/// Incomplete list of 128-bit service UUIDs.
pub const AD_TYPE_UUID128_INCOMPLETE: u8 = 0x06;

/// Complete list of 128-bit service UUIDs.
pub const AD_TYPE_UUID128_COMPLETE: u8 = 0x07;

/// Shortened local name.
pub const AD_TYPE_SHORT_NAME: u8 = 0x08;

/// Complete local name.
pub const AD_TYPE_COMPLETE_NAME: u8 = 0x09;

/// TX power level (in dBm).
pub const AD_TYPE_TX_POWER_LEVEL: u8 = 0x0A;

/// Appearance.
pub const AD_TYPE_APPEARANCE: u8 = 0x19;

/// Manufacturer specific data.
pub const AD_TYPE_MANUFACTURER_SPECIFIC: u8 = 0xFF;

/// LE Limited Discoverable Mode flag bit.
pub const AD_FLAG_LE_LIMITED_DISCOVERABLE: u8 = 0x01;

/// LE General Discoverable Mode flag bit.
pub const AD_FLAG_LE_GENERAL_DISCOVERABLE: u8 = 0x02;

/// BR/EDR not supported flag bit.
pub const AD_FLAG_BR_EDR_NOT_SUPPORTED: u8 = 0x04;

/// LE and BR/EDR controller support flag bit.
pub const AD_FLAG_LE_BR_EDR_CONTROLLER: u8 = 0x08;

/// LE and BR/EDR host support flag bit.
pub const AD_FLAG_LE_BR_EDR_HOST: u8 = 0x10;

/// Maximum length of legacy advertising data and scan response data.
pub const LEGACY_AD_DATA_MAX_LEN: usize = 31;

/// One AD structure: a length byte, an AD type byte and payload data.
#[derive(Debug, Clone, Copy, PartialEq, Eq)]
pub struct AdEntry<'a> {
    /// AD type.
    pub ad_type: u8,
    /// AD payload.
    pub data: &'a [u8],
}

/// Abstract AD structure: its type and payload.
pub type AdModel = (u8, Seq<u8>);

/// The abstract content of a list of AD structures.
pub open spec fn ad_models(es: Seq<AdEntry>) -> Seq<AdModel> {
    es.map_values(|e: AdEntry| (e.ad_type, e.data@))
}

/// The on-air bytes of one AD structure.
pub open spec fn ad_entry_bytes(e: AdModel) -> Seq<u8> {
    seq![(e.1.len() + 1) as u8, e.0] + e.1
}

/// The on-air bytes of a list of AD structures, in order.
pub open spec fn ad_serialize(es: Seq<AdModel>) -> Seq<u8>
    decreases es.len(),
{
    if es.len() == 0 {
        Seq::empty()
    } else {
        ad_entry_bytes(es[0]) + ad_serialize(es.drop_first())
    }
}

/// The AD structures of a buffer, when it splits exactly into well-formed
/// ones.
pub open spec fn ad_parse(s: Seq<u8>) -> Option<Seq<AdModel>>
    decreases s.len(),
{
    if s.len() == 0 {
        Some(Seq::empty())
    } else if s[0] == 0 || s[0] + 1 > s.len() {
        None
    } else {
        match ad_parse(s.skip(s[0] + 1)) {
            Some(rest) => Some(seq![(s[1], s.subrange(2, s[0] + 1))] + rest),
            None => None,
        }
    }
}

/// What the iterator yields at byte offset `pos` of `buf`: nothing at the
/// end, an error for a zero or overlong length byte (without advancing), or
/// the next structure and the offset after it.
pub open spec fn ad_next_spec(buf: Seq<u8>, pos: int) -> Option<Result<(AdModel, int), Error>> {
    if pos >= buf.len() {
        None
    } else if buf[pos] == 0 || pos + 1 + buf[pos] > buf.len() {
        Some(Err(Error::InvalidAd))
    } else {
        Some(
            Ok(
                (
                    (buf[pos + 1], buf.subrange(pos + 2, pos + 1 + buf[pos])),
                    pos + 1 + buf[pos],
                ),
            ),
        )
    }
}

/// What packing `es` into a buffer of `cap` bytes returns.
pub open spec fn ad_build_spec(es: Seq<AdModel>, cap: nat) -> Result<nat, Error>
    decreases es.len(),
{
    if es.len() == 0 {
        Ok(0)
    } else {
        match ad_build_spec(es.drop_last(), cap) {
            Err(e) => Err(e),
            Ok(n) => {
                let d = es.last().1;
                if d.len() > 254 {
                    Err(Error::InvalidLength)
                } else if n + 2 + d.len() > cap {
                    Err(Error::BufferTooSmall)
                } else {
                    Ok(n + 2 + d.len())
                }
            },
        }
    }
}

/// How many leading structures are packed before the first failure.
pub open spec fn ad_build_packed(es: Seq<AdModel>, cap: nat) -> nat
    decreases es.len(),
{
    if es.len() == 0 {
        0
    } else if ad_build_spec(es, cap) is Ok {
        es.len()
    } else {
        ad_build_packed(es.drop_last(), cap)
    }
}

/// Iterator over the AD structures of a buffer.
pub struct AdIter<'a> {
    buf: &'a [u8],
    pos: usize,
}

impl<'a> View for AdIter<'a> {
    type V = (Seq<u8>, int);

    /// The buffer and the offset of the next structure.
    closed spec fn view(&self) -> (Seq<u8>, int) {
        (self.buf@, self.pos as int)
    }
}

impl<'a> AdIter<'a> {
    #[verifier::type_invariant]
    spec fn wf(self) -> bool {
        self.pos <= self.buf@.len()
    }

    /// Create an iterator over `buf`.
    pub fn new(buf: &'a [u8]) -> (r: Self)
        ensures
            r@ == (buf@, 0int),
    {
        AdIter { buf, pos: 0 }
    }

    /// The next AD structure, or an error when the buffer is malformed at the
    /// current position.
    pub fn next(&mut self) -> (r: Option<Result<AdEntry<'a>, Error>>)
        ensures
            final(self)@.0 == old(self)@.0,
            match ad_next_spec(old(self)@.0, old(self)@.1) {
                None => r is None && final(self)@.1 == old(self)@.1,
                Some(Err(e)) => r == Some(Err::<AdEntry<'a>, Error>(e)) && final(self)@.1 == old(self)@.1,
                Some(Ok((m, p))) => (r matches Some(Ok(e)) && (e.ad_type, e.data@) == m)
                    && final(self)@.1 == p,
            },
    {
        proof {
            use_type_invariant(&*self);
        }
        if self.pos >= self.buf.len() {
            return None;
        }
        let len = self.buf[self.pos] as usize;
        if len == 0 {
            return Some(Err(Error::InvalidAd));
        }
        if len >= self.buf.len() - self.pos {
            return Some(Err(Error::InvalidAd));
        }
        let entry = AdEntry {
            ad_type: self.buf[self.pos + 1],
            data: &self.buf[self.pos + 2..self.pos + 1 + len],
        };
        self.pos = self.pos + 1 + len;
        Some(Ok(entry))
    }
}

/// Iterate the AD structures of `buf`.
pub fn iter(buf: &[u8]) -> (r: AdIter<'_>)
    ensures
        r@ == (buf@, 0int),
{
    AdIter::new(buf)
}

proof fn lemma_serialize_push(es: Seq<AdModel>, e: AdModel)
    ensures
        ad_serialize(es.push(e)) == ad_serialize(es) + ad_entry_bytes(e),
    decreases es.len(),
{
    if es.len() == 0 {
        assert(es.push(e).drop_first() =~= Seq::<AdModel>::empty());
        assert(es.push(e)[0] == e);
        assert(ad_serialize(Seq::<AdModel>::empty()) == Seq::<u8>::empty());
        assert(ad_serialize(es) == Seq::<u8>::empty());
        assert(ad_serialize(es.push(e)) =~= ad_serialize(es) + ad_entry_bytes(e));
    } else {
        lemma_serialize_push(es.drop_first(), e);
        assert(es.push(e).drop_first() =~= es.drop_first().push(e));
        assert(ad_serialize(es.push(e)) =~= ad_serialize(es) + ad_entry_bytes(e));
    }
}

proof fn lemma_build_len(es: Seq<AdModel>, cap: nat)
    requires
        ad_build_spec(es, cap) is Ok,
    ensures
        ad_build_spec(es, cap) == Ok::<nat, Error>(ad_serialize(es).len()),
    decreases es.len(),
{
    if es.len() > 0 {
        lemma_build_len(es.drop_last(), cap);
        lemma_serialize_push(es.drop_last(), es.last());
        assert(es.drop_last().push(es.last()) =~= es);
    }
}

proof fn lemma_build_err_sticks(es: Seq<AdModel>, i: nat, cap: nat)
    requires
        i < es.len(),
        ad_build_spec(es.take(i as int), cap) is Ok,
        ad_build_spec(es.take(i + 1int), cap) is Err,
    ensures
        ad_build_spec(es, cap) == ad_build_spec(es.take(i + 1int), cap),
        ad_build_packed(es, cap) == i,
    decreases es.len(),
{
    if es.len() == i + 1 {
        assert(es.take(i + 1int) =~= es);
        assert(es.drop_last() =~= es.take(i as int));
        assert(ad_build_spec(es, cap) is Err);
        assert(ad_build_packed(es, cap) == ad_build_packed(es.drop_last(), cap));
        if i > 0 {
            assert(ad_build_packed(es.drop_last(), cap) == es.drop_last().len());
        }
    } else {
        assert(es.drop_last().take(i as int) =~= es.take(i as int));
        assert(es.drop_last().take(i + 1int) =~= es.take(i + 1int));
        lemma_build_err_sticks(es.drop_last(), i, cap);
        assert(ad_build_spec(es, cap) is Err);
    }
}

/// Pack AD structures into `out`, returning the number of bytes written.
///
/// On failure the structures before the failing one have been written.
pub fn build(entries: &[AdEntry], out: &mut [u8]) -> (r: Result<usize, Error>)
    ensures
        match ad_build_spec(ad_models(entries@), old(out)@.len()) {
            Ok(n) => r == Ok::<usize, Error>(n as usize),
            Err(e) => r == Err::<usize, Error>(e),
        },
        final(out)@ == splice(
            old(out)@,
            0,
            ad_serialize(
                ad_models(entries@).take(
                    ad_build_packed(ad_models(entries@), old(out)@.len()) as int,
                ),
            ),
        ),
{
    let ghost es = ad_models(entries@);
    let ghost cap = out@.len();
    let mut pos = 0usize;
    let mut i: usize = 0;
    assert(es.take(0) =~= Seq::<AdModel>::empty());
    assert(out@ =~= splice(old(out)@, 0, Seq::<u8>::empty()));
    while i < entries.len()
        invariant
            es == ad_models(entries@),
            cap == old(out)@.len(),
            out@.len() == cap,
            i <= entries@.len(),
            ad_build_spec(es.take(i as int), cap) == Ok::<nat, Error>(pos as nat),
            pos == ad_serialize(es.take(i as int)).len(),
            pos <= cap,
            out@ == splice(old(out)@, 0, ad_serialize(es.take(i as int))),
        decreases entries@.len() - i,
    {
        let entry = entries[i];
        let ghost t = es.take(i + 1int);
        assert(t.drop_last() =~= es.take(i as int));
        assert(t.last() == (entry.ad_type, entry.data@));
        if entry.data.len() > 254 {
            proof {
                lemma_build_err_sticks(es, i as nat, cap);
                assert(es.take(i as int).take(i as int) =~= es.take(i as int));
            }
            return Err(Error::InvalidLength);
        }
        let len = entry.data.len() + 1;
        if len + 1 > out.len() - pos {
            proof {
                lemma_build_err_sticks(es, i as nat, cap);
            }
            return Err(Error::BufferTooSmall);
        }
        out[pos] = len as u8;
        out[pos + 1] = entry.ad_type;
        copy_into(out, pos + 2, entry.data);
        proof {
            lemma_serialize_push(es.take(i as int), (entry.ad_type, entry.data@));
            assert(es.take(i as int).push((entry.ad_type, entry.data@)) =~= t);
            assert(out@ =~= splice(old(out)@, 0, ad_serialize(t)));
        }
        pos += 1 + len;
        i += 1;
    }
    assert(es.take(entries@.len() as int) =~= es);
    proof {
        if es.len() > 0 {
            assert(ad_build_spec(es, cap) is Ok);
        }
    }
    Ok(pos)
}

/// Assemble the Flags AD payload value.
pub fn ad_flags_value(
    general_discoverable: bool,
    limited_discoverable: bool,
    br_edr_not_supported: bool,
) -> (v: u8)
    ensures
        v == (if limited_discoverable {
            AD_FLAG_LE_LIMITED_DISCOVERABLE
        } else {
            0u8
        }) | (if general_discoverable {
            AD_FLAG_LE_GENERAL_DISCOVERABLE
        } else {
            0u8
        }) | (if br_edr_not_supported {
            AD_FLAG_BR_EDR_NOT_SUPPORTED
        } else {
            0u8
        }),
{
    let limited = if limited_discoverable {
        AD_FLAG_LE_LIMITED_DISCOVERABLE
    } else {
        0
    };
    let general = if general_discoverable {
        AD_FLAG_LE_GENERAL_DISCOVERABLE
    } else {
        0
    };
    let br_edr = if br_edr_not_supported {
        AD_FLAG_BR_EDR_NOT_SUPPORTED
    } else {
        0
    };
    limited | general | br_edr
}

/// Packing structures whose payloads fit the length byte and parsing the
/// bytes gives the structures back.
pub proof fn lemma_ad_roundtrip(es: Seq<AdModel>)
    requires
        forall|i: int| 0 <= i < es.len() ==> #[trigger] es[i].1.len() <= 254,
    ensures
        ad_parse(ad_serialize(es)) == Some(es),
    decreases es.len(),
{
    if es.len() > 0 {
        let rest = es.drop_first();
        assert forall|i: int| 0 <= i < rest.len() implies #[trigger] rest[i].1.len() <= 254 by {
            assert(rest[i] == es[i + 1]);
        }
        lemma_ad_roundtrip(rest);
        let e = es[0];
        let s = ad_serialize(es);
        let eb = ad_entry_bytes(e);
        assert(s == eb + ad_serialize(rest));
        assert(s[0] == (e.1.len() + 1) as u8);
        assert(s[0] as int == e.1.len() + 1);
        assert(s.skip(s[0] + 1) =~= ad_serialize(rest));
        assert(s.subrange(2, s[0] + 1) =~= e.1);
        assert(seq![(s[1], s.subrange(2, s[0] + 1))] + rest =~= es);
    }
}

/// Iterating a buffer that parses into structures yields the first one and
/// moves to where the rest of them start.
pub proof fn lemma_next_follows_parse(buf: Seq<u8>, pos: int)
    requires
        0 <= pos <= buf.len(),
        ad_parse(buf.skip(pos)) is Some,
        ad_parse(buf.skip(pos))->0.len() > 0,
    ensures
        ad_next_spec(buf, pos) matches Some(Ok((m, p))) && m == ad_parse(buf.skip(pos))->0[0]
            && 0 <= p <= buf.len() && ad_parse(buf.skip(p)) == Some(
            ad_parse(buf.skip(pos))->0.drop_first(),
        ),
{
    let s = buf.skip(pos);
    let es = ad_parse(s)->0;
    assert(s.len() > 0);
    assert(s.skip(s[0] + 1) =~= buf.skip(pos + 1 + buf[pos]));
    assert(s.subrange(2, s[0] + 1) =~= buf.subrange(pos + 2, pos + 1 + buf[pos]));
    assert((seq![(s[1], s.subrange(2, s[0] + 1))] + ad_parse(s.skip(s[0] + 1))->0).drop_first()
        =~= ad_parse(s.skip(s[0] + 1))->0);
}

} // verus!
