//! The on-flash format of bond records.
use vstd::prelude::*;

use crate::bytes::{copy_into, le32};
use crate::hw::conn::BondInfo;

verus! {

/// Magic header of a programmed bond page.
pub const BOND_PAGE_MAGIC: u32 = 0x4E42_3144;

/// Flash page size used for the bond page.
pub const BOND_PAGE_SIZE: u32 = 4096;

/// Number of bond slots in the page.
pub const BOND_MAX: usize = 8;

/// Length of one serialized bond record.
pub const BOND_RECORD_LEN: usize = 44;

/// Trailer marking a programmed record.
pub const BOND_RECORD_TRAILER: u32 = 0xA5A5_5A5A;

/// The 44 bytes of a bond record: address, a zero byte, the LTK, the IRK
/// flag, the IRK (zeros when absent) and the trailer.
pub open spec fn record_bytes(b: BondInfo) -> Seq<u8> {
    b.addr@ + seq![0u8] + b.ltk@ + match b.irk {
        Some(k) => seq![1u8] + k@,
        None => seq![0u8] + Seq::new(16, |i: int| 0u8),
    } + le32(BOND_RECORD_TRAILER)
}

/// The bond a record holds, if its trailer is intact.
pub open spec fn record_decode_spec(rec: Seq<u8>) -> Option<BondInfo> {
    if rec.subrange(40, 44) != le32(BOND_RECORD_TRAILER) {
        None
    } else {
        Some(
            BondInfo {
                addr: choose|a: [u8; 6]| a@ == rec.subrange(0, 6),
                ltk: choose|k: [u8; 16]| k@ == rec.subrange(7, 23),
                irk: if rec[23] != 0 {
                    Some(choose|k: [u8; 16]| k@ == rec.subrange(24, 40))
                } else {
                    None
                },
            },
        )
    }
}

/// Serialize one bond record.
pub fn encode_record(bond: &BondInfo) -> (rec: [u8; 44])
    ensures
        rec@ == record_bytes(*bond),
{
    let mut rec = [0u8; 44];
    rec[0] = bond.addr[0];
    rec[1] = bond.addr[1];
    rec[2] = bond.addr[2];
    rec[3] = bond.addr[3];
    rec[4] = bond.addr[4];
    rec[5] = bond.addr[5];
    rec[6] = 0;
    copy_into(&mut rec, 7, &bond.ltk);
    rec[23] = if bond.irk.is_some() {
        1
    } else {
        0
    };
    match bond.irk {
        Some(irk) => {
            copy_into(&mut rec, 24, &irk);
        },
        None => {},
    }
    let t = BOND_RECORD_TRAILER;
    rec[40] = t as u8;
    rec[41] = (t >> 8) as u8;
    rec[42] = (t >> 16) as u8;
    rec[43] = (t >> 24) as u8;
    assert(rec@ =~= record_bytes(*bond));
    rec
}

/// Deserialize a bond record; `None` for empty or corrupt slots.
pub fn decode_record(rec: &[u8; 44]) -> (r: Option<BondInfo>)
    ensures
        match record_decode_spec(rec@) {
            None => r is None,
            Some(b) => r matches Some(x) && x.addr@ == b.addr@ && x.ltk@ == b.ltk@ && match (
                x.irk,
                b.irk,
            ) {
                (Some(p), Some(q)) => p@ == q@,
                (None, None) => true,
                _ => false,
            },
        },
{
    let t = BOND_RECORD_TRAILER;
    if rec[40] != t as u8 || rec[41] != (t >> 8) as u8 || rec[42] != (t >> 16) as u8 || rec[43]
        != (t >> 24) as u8 {
        assert(rec@.subrange(40, 44) != le32(BOND_RECORD_TRAILER)) by {
            let s = rec@.subrange(40, 44);
            if s == le32(BOND_RECORD_TRAILER) {
                assert(s[0] == rec@[40] && s[1] == rec@[41] && s[2] == rec@[42] && s[3] == rec@[43]);
            }
        }
        return None;
    }
    assert(rec@.subrange(40, 44) =~= le32(BOND_RECORD_TRAILER));
    let addr = [rec[0], rec[1], rec[2], rec[3], rec[4], rec[5]];
    let mut ltk = [0u8; 16];
    copy_into(&mut ltk, 0, &rec[7..23]);
    let irk = if rec[23] != 0 {
        let mut k = [0u8; 16];
        copy_into(&mut k, 0, &rec[24..40]);
        assert(k@ =~= rec@.subrange(24, 40));
        Some(k)
    } else {
        None
    };
    assert(addr@ =~= rec@.subrange(0, 6));
    assert(ltk@ =~= rec@.subrange(7, 23));
    proof {
        let b = record_decode_spec(rec@).unwrap();
        let a2 = choose|a: [u8; 6]| a@ == rec@.subrange(0, 6);
        assert(a2@ == rec@.subrange(0, 6));
        let l2 = choose|k: [u8; 16]| k@ == rec@.subrange(7, 23);
        assert(l2@ == rec@.subrange(7, 23));
        if rec@[23] != 0 {
            let i2 = choose|k: [u8; 16]| k@ == rec@.subrange(24, 40);
            assert(i2@ == rec@.subrange(24, 40));
        }
    }
    Some(BondInfo { addr, ltk, irk })
}

/// A record written by `encode_record` decodes to the same bond.
pub proof fn lemma_record_roundtrip(b: BondInfo)
    ensures
        record_decode_spec(record_bytes(b)) matches Some(x) && x.addr@ == b.addr@ && x.ltk@
            == b.ltk@ && match (x.irk, b.irk) {
            (Some(p), Some(q)) => p@ == q@,
            (None, None) => true,
            _ => false,
        },
{
    let r = record_bytes(b);
    assert(r.subrange(40, 44) =~= le32(BOND_RECORD_TRAILER));
    assert(r.subrange(0, 6) =~= b.addr@);
    assert(r.subrange(7, 23) =~= b.ltk@);
    let a2 = choose|a: [u8; 6]| a@ == r.subrange(0, 6);
    assert(exists|a: [u8; 6]| a@ == r.subrange(0, 6)) by {
        assert(b.addr@ == r.subrange(0, 6));
    }
    assert(exists|k: [u8; 16]| k@ == r.subrange(7, 23)) by {
        assert(b.ltk@ == r.subrange(7, 23));
    }
    match b.irk {
        Some(k) => {
            assert(r.subrange(24, 40) =~= k@);
            assert(r[23] == 1);
            assert(exists|k2: [u8; 16]| k2@ == r.subrange(24, 40)) by {
                assert(k@ == r.subrange(24, 40));
            }
        },
        None => {
            assert(r[23] == 0);
        },
    }
}

} // verus!
