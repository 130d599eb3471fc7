//! The ATT server of a connection (the Nordic UART Service database) and
//! the routing of ATT responses to the GATT client.
use vstd::prelude::*;

use crate::bytes::{copy_into, le16, splice, u16_le};
use crate::hw::conn::cut;
use crate::hw::conn::{
    Conn, ConnEvent, GattUuid, GATT_UUID_CHARACTERISTIC, GATT_UUID_CLIENT_CHAR_CFG,
    GATT_UUID_PRIMARY_SERVICE, HANDLE_PRIMARY_SERVICE, HANDLE_RX_CHAR_DECL, HANDLE_RX_VALUE,
    HANDLE_TX_CCCD, HANDLE_TX_CHAR_DECL, HANDLE_TX_VALUE, NUS_RX_CHAR_UUID, NUS_SERVICE_UUID,
    NUS_TX_CHAR_UUID,
};
use crate::Error;

verus! {

/// The attribute type of handle `h` (1 to 6) in the server's database.
pub open spec fn gatt_uuid(h: int) -> GattUuid {
    if h == 1 {
        GattUuid::Uuid128(NUS_SERVICE_UUID)
    } else if h == 2 || h == 4 {
        GattUuid::Uuid16(GATT_UUID_CHARACTERISTIC)
    } else if h == 3 {
        GattUuid::Uuid128(NUS_RX_CHAR_UUID)
    } else if h == 5 {
        GattUuid::Uuid128(NUS_TX_CHAR_UUID)
    } else {
        GattUuid::Uuid16(GATT_UUID_CLIENT_CHAR_CFG)
    }
}

/// First database handle within `start..=end`.
pub open spec fn range_lo(start: u16) -> int {
    if start < 1 {
        1
    } else {
        start as int
    }
}

/// Last database handle within `start..=end`.
pub open spec fn range_hi(end: u16) -> int {
    if end > 6 {
        6
    } else {
        end as int
    }
}

/// Number of database handles within `start..=end`.
pub open spec fn range_count(start: u16, end: u16) -> int {
    if range_lo(start) <= range_hi(end) {
        range_hi(end) - range_lo(start) + 1
    } else {
        0
    }
}

/// `h` lies in `start..=end`.
pub open spec fn in_range(h: u16, start: u16, end: u16) -> bool {
    start <= h && h <= end
}

/// Find Information answers in the 128-bit format: some attribute in
/// range has a 128-bit type.
pub open spec fn fi_wide(start: u16, end: u16) -> bool {
    !(forall|k: int| 0 <= k < range_count(start, end) ==> #[trigger] gatt_uuid(range_lo(start) + k) is Uuid16)
}

/// One Find Information entry: handle and type, in the short or the
/// 128-bit format (a 16-bit type widened to bytes 2 and 3 of zeros).
pub open spec fn fi_entry(h: int, wide: bool) -> Seq<u8> {
    match gatt_uuid(h) {
        GattUuid::Uuid16(u) => if wide {
            le16(h as u16) + seq![0u8, 0u8] + le16(u) + Seq::new(12, |i: int| 0u8)
        } else {
            le16(h as u16) + le16(u)
        },
        GattUuid::Uuid128(x) => le16(h as u16) + x@,
    }
}

/// The first `k` Find Information entries of the range.
pub open spec fn fi_body(start: u16, end: u16, k: int) -> Seq<u8>
    decreases k,
{
    if k <= 0 {
        Seq::empty()
    } else {
        fi_body(start, end, k - 1) + fi_entry(range_lo(start) + k - 1, fi_wide(start, end))
    }
}

/// Entries that fit a 64-byte response.
pub open spec fn fi_kept(start: u16, end: u16) -> int {
    if fi_wide(start, end) && range_count(start, end) > 3 {
        3
    } else {
        range_count(start, end)
    }
}

/// Find Information Response for `start..=end`.
pub open spec fn find_information_rsp(start: u16, end: u16) -> Seq<u8> {
    seq![0x05u8, if fi_wide(start, end) { 0x02u8 } else { 0x01u8 }] + fi_body(
        start,
        end,
        fi_kept(start, end),
    )
}

/// Read By Type entries (handle, then value) for `uuid` in `start..=end`.
pub open spec fn rbt_body(start: u16, end: u16, uuid: u16) -> Seq<u8> {
    if uuid == GATT_UUID_PRIMARY_SERVICE {
        if in_range(HANDLE_PRIMARY_SERVICE, start, end) {
            le16(HANDLE_PRIMARY_SERVICE) + NUS_SERVICE_UUID@
        } else {
            Seq::empty()
        }
    } else if uuid == GATT_UUID_CHARACTERISTIC {
        (if in_range(HANDLE_RX_CHAR_DECL, start, end) {
            le16(HANDLE_RX_CHAR_DECL) + seq![0x08u8] + le16(HANDLE_RX_VALUE) + NUS_RX_CHAR_UUID@
        } else {
            Seq::empty()
        }) + (if in_range(HANDLE_TX_CHAR_DECL, start, end) {
            le16(HANDLE_TX_CHAR_DECL) + seq![0x20u8] + le16(HANDLE_TX_VALUE) + NUS_TX_CHAR_UUID@
        } else {
            Seq::empty()
        })
    } else if uuid == GATT_UUID_CLIENT_CHAR_CFG {
        if in_range(HANDLE_TX_CCCD, start, end) {
            le16(HANDLE_TX_CCCD) + seq![0u8, 0u8]
        } else {
            Seq::empty()
        }
    } else {
        Seq::empty()
    }
}

/// Entry width of a Read By Type response (0 when it has no entry).
pub open spec fn rbt_width(start: u16, end: u16, uuid: u16) -> u8 {
    if rbt_body(start, end, uuid).len() == 0 {
        0
    } else if uuid == GATT_UUID_PRIMARY_SERVICE {
        18
    } else if uuid == GATT_UUID_CHARACTERISTIC {
        21
    } else {
        4
    }
}

/// Read By Type Response.
pub open spec fn read_by_type_rsp(start: u16, end: u16, uuid: u16) -> Seq<u8> {
    seq![0x09u8, rbt_width(start, end, uuid)] + rbt_body(start, end, uuid)
}

/// Read By Group Type Response for primary services.
pub open spec fn read_by_group_rsp(start: u16, end: u16) -> Seq<u8> {
    if in_range(HANDLE_PRIMARY_SERVICE, start, end) {
        seq![0x11u8, 18u8] + le16(HANDLE_PRIMARY_SERVICE) + NUS_SERVICE_UUID@
    } else {
        seq![0x11u8, 0u8]
    }
}

/// The readable value of a handle, if it is readable.
pub open spec fn attr_value(c: Conn, handle: u16) -> Option<Seq<u8>> {
    if handle == HANDLE_TX_VALUE {
        Some(Seq::empty())
    } else if handle == HANDLE_TX_CCCD {
        Some(seq![c.nus_cccd, 0u8])
    } else {
        None
    }
}

/// ATT Error Response for `op` with error code `code` (handle 0).
pub open spec fn att_error(op: u8, code: u8) -> Seq<u8> {
    seq![0x01u8, op, 0u8, 0u8, code]
}

/// Read Response.
pub open spec fn read_rsp(c: Conn, handle: u16) -> Seq<u8> {
    match attr_value(c, handle) {
        Some(v) => seq![0x0Bu8] + v,
        None => att_error(0x0A, 0x0A),
    }
}

/// Read Blob Response.
pub open spec fn read_blob_rsp(c: Conn, handle: u16, offset: u16) -> Seq<u8> {
    match attr_value(c, handle) {
        Some(v) => if (offset as int) < v.len() {
            seq![0x0Du8] + v.skip(offset as int)
        } else {
            att_error(0x0C, 0x0A)
        },
        None => att_error(0x0C, 0x0A),
    }
}

/// The CCCD value a write of `value` sets.
pub open spec fn cccd_written(value: Seq<u8>) -> u8 {
    if value.len() >= 2 && value[0] & 0x01 != 0 {
        0x01
    } else {
        0
    }
}

/// `n` capped at `cap`.
pub open spec fn min_int(n: int, cap: int) -> int {
    if n < cap {
        n
    } else {
        cap
    }
}

/// A response was queued for the peer: `d` is `c` with `rsp` in the
/// outgoing buffer.
pub open spec fn queued_rsp(c: Conn, d: Conn, rsp: Seq<u8>) -> bool {
    &&& d.tx_att@ == splice(c.tx_att@, 0, rsp)
    &&& d.tx_att_len == rsp.len()
    &&& d == (Conn { tx_att: d.tx_att, tx_att_len: d.tx_att_len, tx_pending: true, ..c })
}

/// The response the server gives to request `att` (one it answers with a
/// queued PDU; writes excepted).
pub open spec fn server_rsp(c: Conn, att: Seq<u8>) -> Seq<u8> {
    let op = att[0];
    if op == 0x02 {
        seq![0x03u8] + le16(c.att_mtu) + seq![0u8, 0u8]
    } else if op == 0x04 {
        find_information_rsp(u16_le(att[1], att[2]), u16_le(att[3], att[4]))
    } else if op == 0x08 {
        read_by_type_rsp(u16_le(att[3], att[4]), u16_le(att[5], att[6]), u16_le(att[1], att[2]))
    } else if op == 0x0A {
        read_rsp(c, u16_le(att[1], att[2]))
    } else if op == 0x0C {
        read_blob_rsp(c, u16_le(att[1], att[2]), u16_le(att[3], att[4]))
    } else if op == 0x10 {
        if u16_le(att[1], att[2]) == GATT_UUID_PRIMARY_SERVICE {
            read_by_group_rsp(u16_le(att[3], att[4]), u16_le(att[5], att[6]))
        } else {
            att_error(0x10, 0x10)
        }
    } else {
        att_error(op, 0x06)
    }
}

/// Opcodes of ATT responses routed to the GATT client.
pub open spec fn is_att_rsp_op(op: u8) -> bool {
    op == 0x01 || op == 0x03 || op == 0x09 || op == 0x0B || op == 0x11 || op == 0x13 || op == 0x15
        || op == 0x17
}

/// The ATT MTU after the peer's Exchange MTU Response with `peer`.
pub open spec fn mtu_negotiated(ours: u16, peer: u16) -> u16 {
    let m = if peer < ours {
        peer
    } else {
        ours
    };
    if m < 23 {
        23
    } else {
        m
    }
}

/// ATT PDUs that are processed without reading past their end: each
/// request carries the parameters its opcode announces.
pub open spec fn att_accepts(c: Conn, att: Seq<u8>) -> bool {
    att.len() > 0 && !(c.pending_request && is_att_rsp_op(att[0])) ==> {
        let op = att[0];
        &&& (op == 0x1B || op == 0x0A || op == 0x12) ==> att.len() >= 3
        &&& (op == 0x04 || op == 0x0C) ==> att.len() >= 5
        &&& (op == 0x08 || op == 0x10) ==> att.len() >= 7
    }
}

/// What handling ATT PDU `att` (non-empty) does: `c` and `r0` before, `d`
/// and `r1` after.
#[verifier::opaque]
pub open spec fn att_post(c: Conn, d: Conn, att: Seq<u8>, r0: ConnEvent, r1: ConnEvent) -> bool {
    let op = att[0];
    if c.pending_request && is_att_rsp_op(op) {
        let n = min_int(att.len() as int, 64);
        &&& r1 == r0
        &&& d.gatt_result@ == splice(c.gatt_result@, 0, att.take(n))
        &&& d == (Conn {
            att_mtu: if op == 0x03 && att.len() >= 3 {
                mtu_negotiated(c.att_mtu, u16_le(att[1], att[2]))
            } else {
                c.att_mtu
            },
            pending_request: false,
            gatt_result: d.gatt_result,
            gatt_result_len: n as usize,
            ..c
        })
    } else if op == 0x1B {
        let n = min_int(att.len() - 3, 20);
        &&& r1 == ConnEvent::Data
        &&& d.rx_data@ == splice(c.rx_data@, 0, att.subrange(3, 3 + n))
        &&& d == (Conn { rx_data: d.rx_data, rx_data_len: n as usize, ..c })
    } else if op == 0x12 {
        let handle = u16_le(att[1], att[2]);
        let value = att.skip(3);
        if handle == HANDLE_RX_VALUE {
            let n = min_int(value.len() as int, 244);
            &&& r1 == ConnEvent::Data
            &&& d.rx_data@ == splice(c.rx_data@, 0, value.take(n))
            &&& queued_rsp(
                Conn { rx_data: d.rx_data, rx_data_len: n as usize, ..c },
                d,
                seq![0x13u8],
            )
        } else if handle == HANDLE_TX_CCCD {
            r1 == r0 && queued_rsp(Conn { nus_cccd: cccd_written(value), ..c }, d, seq![0x13u8])
        } else {
            r1 == r0 && queued_rsp(c, d, att_error(0x12, 0x12))
        }
    } else {
        r1 == r0 && queued_rsp(c, d, server_rsp(c, att))
    }
}

/// Concatenated Read By Type entries.
pub open spec fn rbt_bytes(e: Seq<(u16, [u8; 19], usize)>, i: int) -> Seq<u8>
    decreases i,
{
    if i <= 0 {
        Seq::empty()
    } else {
        rbt_bytes(e, i - 1) + le16(e[i - 1].0) + e[i - 1].1@.take(e[i - 1].2 as int)
    }
}

/// An ATT Error Response in a 64-byte buffer.
fn error_rsp(op: u8, code: u8) -> (r: ([u8; 64], usize))
    ensures
        r.1 == 5,
        r.0@.take(5) == att_error(op, code),
{
    let mut rsp = [0u8; 64];
    rsp[0] = 0x01;
    rsp[1] = op;
    rsp[4] = code;
    assert(rsp@.take(5) =~= att_error(op, code));
    (rsp, 5)
}

/// Bytes of one Find Information entry (first 4 or 18 are used).
fn fi_entry_bytes(handle: u16, uuid: GattUuid, wide: bool) -> (e: [u8; 18])
    requires
        1 <= handle <= 6,
        uuid == gatt_uuid(handle as int),
        uuid is Uuid128 ==> wide,
    ensures
        e@.take(if wide { 18int } else { 4int }) == fi_entry(handle as int, wide),
{
    let mut e = [0u8; 18];
    e[0] = handle as u8;
    e[1] = (handle >> 8) as u8;
    assert((handle as int) as u16 == handle);
    match uuid {
        GattUuid::Uuid16(u) => {
            if wide {
                e[4] = u as u8;
                e[5] = (u >> 8) as u8;
                assert(e@.take(18) =~= le16(handle) + seq![0u8, 0u8] + le16(u) + Seq::new(
                    12,
                    |i: int| 0u8,
                ));
            } else {
                e[2] = u as u8;
                e[3] = (u >> 8) as u8;
                assert(e@.take(4) =~= le16(handle) + le16(u));
            }
        },
        GattUuid::Uuid128(x) => {
            copy_into(&mut e, 2, &x);
            assert(e@.take(18) =~= le16(handle) + x@);
        },
    }
    e
}

impl Conn {
    /// The database attributes within `start..=end`, in handle order.
    pub fn entries(&self, start: u16, end: u16) -> (r: ([(u16, GattUuid); 6], usize))
        ensures
            r.1 == range_count(start, end),
            forall|k: int|
                0 <= k < r.1 ==> (#[trigger] r.0@[k]).0 == range_lo(start) + k && r.0@[k].1
                    == gatt_uuid(range_lo(start) + k),
    {
        let mut out = [(0u16, GattUuid::Uuid16(0)); 6];
        let all = [
            (HANDLE_PRIMARY_SERVICE, GattUuid::Uuid128(NUS_SERVICE_UUID)),
            (HANDLE_RX_CHAR_DECL, GattUuid::Uuid16(GATT_UUID_CHARACTERISTIC)),
            (HANDLE_RX_VALUE, GattUuid::Uuid128(NUS_RX_CHAR_UUID)),
            (HANDLE_TX_CHAR_DECL, GattUuid::Uuid16(GATT_UUID_CHARACTERISTIC)),
            (HANDLE_TX_VALUE, GattUuid::Uuid128(NUS_TX_CHAR_UUID)),
            (HANDLE_TX_CCCD, GattUuid::Uuid16(GATT_UUID_CLIENT_CHAR_CFG)),
        ];
        let ghost lo = range_lo(start);
        let ghost hi = range_hi(end);
        let mut n: usize = 0;
        let mut i: usize = 0;
        while i < 6
            invariant
                i <= 6,
                forall|j: int| 0 <= j < 6 ==> (#[trigger] all@[j]).0 == j + 1 && all@[j].1
                    == gatt_uuid(j + 1),
                lo == range_lo(start),
                hi == range_hi(end),
                n == if lo <= hi && lo <= i {
                    (if (i as int) < hi {
                        i as int
                    } else {
                        hi
                    }) - lo + 1
                } else {
                    0
                },
                forall|k: int|
                    0 <= k < n ==> (#[trigger] out@[k]).0 == lo + k && out@[k].1 == gatt_uuid(
                        lo + k,
                    ),
            decreases 6 - i,
        {
            let (h, u) = all[i];
            if h >= start && h <= end {
                out[n] = (h, u);
                n += 1;
            }
            i += 1;
        }
        (out, n)
    }

    /// Read By Type entries: (handle, value, value length), up to four.
    pub fn by_type(&self, start: u16, end: u16, uuid: u16) -> (r: (
        [(u16, [u8; 19], usize); 4],
        usize,
    ))
        ensures
            r.1 <= 2,
            forall|k: int| 0 <= k < r.1 ==> (#[trigger] r.0@[k]).2 + 2 == rbt_width(start, end, uuid),
            r.1 == 0 <==> rbt_body(start, end, uuid).len() == 0,
            rbt_body(start, end, uuid) == rbt_bytes(r.0@, r.1 as int),
    {
        let mut out = [(0u16, [0u8; 19], 0usize); 4];
        let mut n: usize = 0;
        if uuid == GATT_UUID_PRIMARY_SERVICE && HANDLE_PRIMARY_SERVICE >= start
            && HANDLE_PRIMARY_SERVICE <= end {
            let mut v = [0u8; 19];
            copy_into(&mut v, 0, &NUS_SERVICE_UUID);
            assert(v@.take(16) =~= NUS_SERVICE_UUID@);
            out[0] = (HANDLE_PRIMARY_SERVICE, v, 16);
            n = 1;
        }
        if uuid == GATT_UUID_CHARACTERISTIC {
            if HANDLE_RX_CHAR_DECL >= start && HANDLE_RX_CHAR_DECL <= end {
                let mut v = [0u8; 19];
                v[0] = 0x08;
                v[1] = HANDLE_RX_VALUE as u8;
                v[2] = (HANDLE_RX_VALUE >> 8) as u8;
                copy_into(&mut v, 3, &NUS_RX_CHAR_UUID);
                assert(v@.take(19) =~= seq![0x08u8] + le16(HANDLE_RX_VALUE) + NUS_RX_CHAR_UUID@);
                out[n] = (HANDLE_RX_CHAR_DECL, v, 19);
                n += 1;
            }
            if HANDLE_TX_CHAR_DECL >= start && HANDLE_TX_CHAR_DECL <= end {
                let mut v = [0u8; 19];
                v[0] = 0x20;
                v[1] = HANDLE_TX_VALUE as u8;
                v[2] = (HANDLE_TX_VALUE >> 8) as u8;
                copy_into(&mut v, 3, &NUS_TX_CHAR_UUID);
                assert(v@.take(19) =~= seq![0x20u8] + le16(HANDLE_TX_VALUE) + NUS_TX_CHAR_UUID@);
                out[n] = (HANDLE_TX_CHAR_DECL, v, 19);
                n += 1;
            }
        }
        if uuid == GATT_UUID_CLIENT_CHAR_CFG && HANDLE_TX_CCCD >= start && HANDLE_TX_CCCD <= end {
            let v = [0u8; 19];
            assert(v@.take(2) =~= seq![0u8, 0u8]);
            out[0] = (HANDLE_TX_CCCD, v, 2);
            n = 1;
        }
        proof {
            reveal_with_fuel(rbt_bytes, 3);
            let b = rbt_body(start, end, uuid);
            if n == 2 {
                assert(b =~= le16(out@[0].0) + out@[0].1@.take(out@[0].2 as int) + le16(out@[1].0)
                    + out@[1].1@.take(out@[1].2 as int));
            } else if n == 1 {
                assert(b =~= le16(out@[0].0) + out@[0].1@.take(out@[0].2 as int));
            } else {
                assert(b =~= Seq::<u8>::empty());
            }
        }
        (out, n)
    }

    /// Primary services within `start..=end`: (handle, 128-bit UUID).
    pub fn primary_services(&self, start: u16, end: u16) -> (r: ([(u16, [u8; 16]); 1], usize))
        ensures
            r.1 == (if in_range(HANDLE_PRIMARY_SERVICE, start, end) {
                1usize
            } else {
                0usize
            }),
            r.1 == 1 ==> r.0@[0] == (HANDLE_PRIMARY_SERVICE, NUS_SERVICE_UUID),
    {
        let mut out = [(0u16, [0u8; 16]); 1];
        let mut n: usize = 0;
        if HANDLE_PRIMARY_SERVICE >= start && HANDLE_PRIMARY_SERVICE <= end {
            out[0] = (HANDLE_PRIMARY_SERVICE, NUS_SERVICE_UUID);
            n = 1;
        }
        (out, n)
    }

    /// Read an attribute value into `out`; its length, or `None` when the
    /// handle is not readable.
    pub fn read(&self, handle: u16, out: &mut [u8; 32]) -> (r: Option<usize>)
        ensures
            match attr_value(*self, handle) {
                Some(v) => r == Some(v.len() as usize) && final(out)@ == splice(old(out)@, 0, v),
                None => r is None && final(out)@ == old(out)@,
            },
    {
        if handle == HANDLE_TX_VALUE {
            assert(out@ =~= splice(old(out)@, 0, Seq::empty()));
            Some(0)
        } else if handle == HANDLE_TX_CCCD {
            out[0] = self.nus_cccd;
            out[1] = 0;
            assert(out@ =~= splice(old(out)@, 0, seq![self.nus_cccd, 0u8]));
            Some(2)
        } else {
            None
        }
    }

    /// Write an attribute: the RX value (reported as data) or the TX
    /// CCCD; other handles are refused.
    pub fn write(&mut self, handle: u16, value: &[u8], result: &mut ConnEvent) -> (r: Result<
        (),
        Error,
    >)
        requires
            old(self).wf(),
        ensures
            final(self).wf(),
            handle == HANDLE_RX_VALUE ==> {
                let n = min_int(value@.len() as int, 244);
                &&& r is Ok
                &&& *final(result) == ConnEvent::Data
                &&& final(self).rx_data@ == splice(old(self).rx_data@, 0, value@.take(n))
                &&& *final(self) == (Conn {
                    rx_data: final(self).rx_data,
                    rx_data_len: n as usize,
                    ..*old(self)
                })
            },
            handle == HANDLE_TX_CCCD ==> r is Ok && *final(result) == *old(result) && *final(self)
                == (Conn { nus_cccd: cccd_written(value@), ..*old(self) }),
            handle != HANDLE_RX_VALUE && handle != HANDLE_TX_CCCD ==> r == Err::<(), Error>(
                Error::InvalidPdu,
            ) && *final(result) == *old(result) && *final(self) == *old(self),
    {
        if handle == HANDLE_RX_VALUE {
            let len = if value.len() < 244 {
                value.len()
            } else {
                244
            };
            copy_into(&mut self.rx_data, 0, &value[0..len]);
            self.rx_data_len = len;
            *result = ConnEvent::Data;
            Ok(())
        } else if handle == HANDLE_TX_CCCD {
            self.nus_cccd = if value.len() >= 2 && value[0] & 0x01 != 0 {
                0x01
            } else {
                0
            };
            Ok(())
        } else {
            Err(Error::InvalidPdu)
        }
    }

    /// Find Information Response for `start..=end` (in a 64-byte buffer).
    pub fn find_information(&self, start: u16, end: u16) -> (r: ([u8; 64], usize))
        ensures
            r.1 <= 64,
            r.1 == find_information_rsp(start, end).len(),
            r.0@.take(r.1 as int) == find_information_rsp(start, end),
    {
        let mut rsp = [0u8; 64];
        rsp[0] = 0x05;
        let (entries, count) = self.entries(start, end);
        let ghost lo = range_lo(start);
        let mut uuid16 = true;
        let mut i: usize = 0;
        while i < count
            invariant
                i <= count,
                count == range_count(start, end),
                lo == range_lo(start),
                forall|k: int|
                    0 <= k < count ==> (#[trigger] entries@[k]).0 == lo + k && entries@[k].1
                        == gatt_uuid(lo + k),
                uuid16 == (forall|k: int| 0 <= k < i ==> #[trigger] gatt_uuid(lo + k) is Uuid16),
            decreases count - i,
        {
            if entries[i].1.as_u16().is_none() {
                uuid16 = false;
            }
            i += 1;
        }
        assert(uuid16 == !fi_wide(start, end));
        rsp[1] = if uuid16 {
            0x01
        } else {
            0x02
        };
        let w: usize = if uuid16 {
            4
        } else {
            18
        };
        let ghost cap: int = if uuid16 {
            6
        } else {
            3
        };
        let mut pos: usize = 2;
        let mut kept: usize = 0;
        let mut i: usize = 0;
        while i < count
            invariant
                i <= count,
                count == range_count(start, end),
                count <= 6,
                lo == range_lo(start),
                forall|k: int|
                    0 <= k < count ==> (#[trigger] entries@[k]).0 == lo + k && entries@[k].1
                        == gatt_uuid(lo + k),
                uuid16 == !fi_wide(start, end),
                w == (if uuid16 {
                    4usize
                } else {
                    18usize
                }),
                cap == (if uuid16 {
                    6int
                } else {
                    3int
                }),
                kept == min_int(i as int, cap),
                pos == 2 + w * kept,
                pos <= 64,
                rsp@.len() == 64,
                rsp@[0] == 0x05,
                rsp@[1] == (if uuid16 {
                    0x01u8
                } else {
                    0x02u8
                }),
                rsp@.subrange(2, pos as int) == fi_body(start, end, kept as int),
            decreases count - i,
        {
            let (handle, uuid) = entries[i];
            if pos + w <= 64 {
                assert(uuid16 ==> gatt_uuid(lo + i) is Uuid16);
                let e = fi_entry_bytes(handle, uuid, !uuid16);
                let ghost before = rsp@;
                copy_into(&mut rsp, pos, &e[0..w]);
                proof {
                    assert(kept == i);
                    assert(rsp@.subrange(2, pos + w) =~= before.subrange(2, pos as int)
                        + e@.take(w as int));
                }
                pos += w;
                kept += 1;
            } else {
                proof {
                    assert(kept == cap) by (nonlinear_arith)
                        requires
                            kept == min_int(i as int, cap),
                            pos == 2 + w * kept,
                            pos + w > 64,
                            cap == (if w == 4 { 6int } else { 3int }),
                            w == 4 || w == 18,
                    ;
                }
            }
            i += 1;
        }
        proof {
            assert(kept == fi_kept(start, end));
            assert(rsp@.take(pos as int) =~= seq![0x05u8, rsp@[1]] + rsp@.subrange(2, pos as int));
        }
        (rsp, pos)
    }

    /// Read By Type Response for `uuid` in `start..=end`.
    pub fn read_by_type(&self, start: u16, end: u16, uuid: u16) -> (r: ([u8; 64], usize))
        ensures
            r.1 <= 64,
            r.1 == read_by_type_rsp(start, end, uuid).len(),
            r.0@.take(r.1 as int) == read_by_type_rsp(start, end, uuid),
    {
        let mut rsp = [0u8; 64];
        rsp[0] = 0x09;
        let mut pos: usize = 2;
        let mut width: u8 = 0;
        let (entries, count) = self.by_type(start, end, uuid);
        let mut i: usize = 0;
        while i < count
            invariant
                i <= count,
                count <= 2,
                forall|k: int| 0 <= k < count ==> (#[trigger] entries@[k]).2 + 2 == rbt_width(start, end, uuid),
                count == 0 <==> rbt_body(start, end, uuid).len() == 0,
                rbt_width(start, end, uuid) <= 21,
                width == (if i == 0 {
                    0u8
                } else {
                    rbt_width(start, end, uuid)
                }),
                pos == 2 + i * (rbt_width(start, end, uuid) as int),
                pos <= 2 + 21 * i,
                rsp@.len() == 64,
                rsp@[0] == 0x09,
                i > 0 ==> rsp@[1] == rbt_width(start, end, uuid),
                i == 0 ==> rsp@[1] == 0,
                rsp@.subrange(2, pos as int) == rbt_bytes(entries@, i as int),
            decreases count - i,
        {
            let (handle, payload, plen) = entries[i];
            if width == 0 {
                width = 2 + plen as u8;
                rsp[1] = width;
            }
            let ghost before = rsp@;
            let mut e = [0u8; 21];
            e[0] = handle as u8;
            e[1] = (handle >> 8) as u8;
            copy_into(&mut e, 2, &payload[0..plen]);
            copy_into(&mut rsp, pos, &e[0..width as usize]);
            proof {
                assert(e@.take(width as int) =~= le16(handle) + payload@.take(plen as int));
                assert(rsp@.subrange(2, pos + width) =~= before.subrange(2, pos as int) + e@.take(
                    width as int,
                ));
            }
            pos += width as usize;
            i += 1;
        }
        proof {
            assert(rsp@.take(pos as int) =~= seq![0x09u8, rsp@[1]] + rsp@.subrange(2, pos as int));
            if count == 0 {
                assert(rsp@[1] == rbt_width(start, end, uuid));
            }
        }
        (rsp, pos)
    }

    /// The server's answer to a request other than a write, in a 64-byte
    /// buffer.
    pub fn server_response(&self, att: &[u8]) -> (r: ([u8; 64], usize))
        requires
            att@.len() > 0,
            att_accepts(*self, att@),
            !(self.pending_request && is_att_rsp_op(att@[0])),
            att@[0] != 0x1B && att@[0] != 0x12,
        ensures
            r.1 <= 64,
            r.0@.take(r.1 as int) == server_rsp(*self, att@),
    {
        let op = att[0];
        let mut rsp = [0u8; 64];
        if op == 0x02 {
            rsp[0] = 0x03;
            rsp[1] = self.att_mtu as u8;
            rsp[2] = (self.att_mtu >> 8) as u8;
            assert(rsp@.take(5) =~= server_rsp(*self, att@));
            (rsp, 5)
        } else if op == 0x04 {
            let start = (att[1] as u16) | ((att[2] as u16) << 8);
            let end = (att[3] as u16) | ((att[4] as u16) << 8);
            self.find_information(start, end)
        } else if op == 0x08 {
            let uuid = (att[1] as u16) | ((att[2] as u16) << 8);
            let start = (att[3] as u16) | ((att[4] as u16) << 8);
            let end = (att[5] as u16) | ((att[6] as u16) << 8);
            self.read_by_type(start, end, uuid)
        } else if op == 0x0A {
            let handle = (att[1] as u16) | ((att[2] as u16) << 8);
            let mut value = [0u8; 32];
            match self.read(handle, &mut value) {
                Some(vlen) => {
                    rsp[0] = 0x0B;
                    copy_into(&mut rsp, 1, &value[0..vlen]);
                    assert(rsp@.take(1 + vlen) =~= server_rsp(*self, att@));
                    (rsp, 1 + vlen)
                },
                None => {
                    error_rsp(0x0A, 0x0A)
                },
            }
        } else if op == 0x0C {
            let handle = (att[1] as u16) | ((att[2] as u16) << 8);
            let offset = ((att[3] as u16) | ((att[4] as u16) << 8)) as usize;
            let mut value = [0u8; 32];
            match self.read(handle, &mut value) {
                Some(vlen) => {
                    if offset < vlen {
                        rsp[0] = 0x0D;
                        copy_into(&mut rsp, 1, &value[offset..vlen]);
                        assert(rsp@.take(1 + vlen - offset) =~= server_rsp(*self, att@));
                        (rsp, 1 + vlen - offset)
                    } else {
                        error_rsp(0x0C, 0x0A)
                    }
                },
                None => error_rsp(0x0C, 0x0A),
            }
        } else if op == 0x10 {
            let uuid = (att[1] as u16) | ((att[2] as u16) << 8);
            let start = (att[3] as u16) | ((att[4] as u16) << 8);
            let end = (att[5] as u16) | ((att[6] as u16) << 8);
            if uuid == GATT_UUID_PRIMARY_SERVICE {
                rsp[0] = 0x11;
                let mut pos: usize = 2;
                let (services, count) = self.primary_services(start, end);
                if count > 0 {
                    let (handle, svc) = services[0];
                    rsp[1] = 18;
                    rsp[2] = handle as u8;
                    rsp[3] = (handle >> 8) as u8;
                    copy_into(&mut rsp, 4, &svc);
                    pos = 20;
                }
                assert(rsp@.take(pos as int) =~= server_rsp(*self, att@));
                (rsp, pos)
            } else {
                error_rsp(0x10, 0x10)
            }
        } else {
            error_rsp(op, 0x06)
        }
    }

    fn att_route_response(&mut self, att: &[u8], result: &mut ConnEvent)
        requires
            old(self).wf(),
            att@.len() > 0,
            old(self).pending_request && is_att_rsp_op(att@[0]),
        ensures
            final(self).wf(),
            att_post(*old(self), *final(self), att@, *old(result), *final(result)),
    {
        let op = att[0];
        if op == 0x03 && att.len() >= 3 {
            let peer = (att[1] as u16) | ((att[2] as u16) << 8);
            let m = if peer < self.att_mtu {
                peer
            } else {
                self.att_mtu
            };
            self.att_mtu = if m < 23 {
                23
            } else {
                m
            };
        }
        self.pending_request = false;
        let n = if att.len() < 64 {
            att.len()
        } else {
            64
        };
        copy_into(&mut self.gatt_result, 0, &att[0..n]);
        self.gatt_result_len = n;
        proof {
            reveal(att_post);
        }
    }

    fn att_notification(&mut self, att: &[u8], result: &mut ConnEvent)
        requires
            old(self).wf(),
            att@.len() >= 3,
            att@[0] == 0x1B,
            !(old(self).pending_request && is_att_rsp_op(att@[0])),
        ensures
            final(self).wf(),
            att_post(*old(self), *final(self), att@, *old(result), *final(result)),
    {
        let mut buf = [0u8; 20];
        let n = if att.len() - 3 < 20 {
            att.len() - 3
        } else {
            20
        };
        copy_into(&mut buf, 0, &att[3..3 + n]);
        copy_into(&mut self.rx_data, 0, &buf[0..n]);
        assert(buf@.subrange(0, n as int) =~= att@.subrange(3, 3 + n));
        self.rx_data_len = n;
        *result = ConnEvent::Data;
        proof {
            reveal(att_post);
        }
    }

    fn att_write_req(&mut self, att: &[u8], result: &mut ConnEvent)
        requires
            old(self).wf(),
            att@.len() >= 3,
            att@[0] == 0x12,
            !(old(self).pending_request && is_att_rsp_op(att@[0])),
        ensures
            final(self).wf(),
            att_post(*old(self), *final(self), att@, *old(result), *final(result)),
    {
        let handle = (att[1] as u16) | ((att[2] as u16) << 8);
        let value = &att[3..att.len()];
        assert(value@ == att@.skip(3));
        match self.write(handle, value, result) {
            Ok(()) => {
                let rsp = [0x13u8];
                assert(cut(rsp@, 251) =~= seq![0x13u8]);
                self.queue_att(&rsp);
            },
            Err(_) => {
                let rsp = [0x01u8, 0x12, 0x00, 0x00, 0x12];
                assert(cut(rsp@, 251) =~= att_error(0x12, 0x12));
                self.queue_att(&rsp);
            },
        }
        proof {
            reveal(att_post);
        }
    }

    fn att_server_reply(&mut self, att: &[u8], result: &mut ConnEvent)
        requires
            old(self).wf(),
            att@.len() > 0,
            att_accepts(*old(self), att@),
            !(old(self).pending_request && is_att_rsp_op(att@[0])),
            att@[0] != 0x1B && att@[0] != 0x12,
        ensures
            final(self).wf(),
            att_post(*old(self), *final(self), att@, *old(result), *final(result)),
    {
        let (rsp, n) = self.server_response(att);
        assert(cut(rsp@.take(n as int), 251) =~= rsp@.take(n as int));
        self.queue_att(&rsp[0..n]);
        proof {
            reveal(att_post);
        }
    }

    /// Handle one ATT PDU from the peer: a response to our pending GATT
    /// client request is stored for [`Conn::gatt_take_result`]; a
    /// notification is reported as data; a request is answered from the
    /// NUS database (the answer is queued for sending).
    pub fn handle_att(&mut self, att: &[u8], result: &mut ConnEvent)
        requires
            old(self).wf(),
            att_accepts(*old(self), att@),
        ensures
            final(self).wf(),
            att@.len() == 0 ==> *final(self) == *old(self) && *final(result) == *old(result),
            att@.len() > 0 ==> att_post(*old(self), *final(self), att@, *old(result), *final(result)),
    {
        if att.len() == 0 {
            return;
        }
        let op = att[0];
        let is_rsp = op == 0x01 || op == 0x03 || op == 0x09 || op == 0x0B || op == 0x11 || op
            == 0x13 || op == 0x15 || op == 0x17;
        if self.pending_request && is_rsp {
            self.att_route_response(att, result);
        } else if op == 0x1B {
            self.att_notification(att, result);
        } else if op == 0x12 {
            self.att_write_req(att, result);
        } else {
            self.att_server_reply(att, result);
        }
    }
}

/// Whether a CCCD value enables notifications: a two-byte (or longer) value
/// whose first byte has bit 0 set.
pub open spec fn cccd_value_enables(value: Seq<u8>) -> bool {
    value.len() >= 2 && value[0] & 1 == 1
}

/// A write of the TX CCCD (the state [`Conn::write`] leaves) turns
/// notifications on exactly when the value enables them, and off
/// otherwise; nothing else of the connection changes.
pub proof fn lemma_cccd_write(c: Conn, d: Conn, value: Seq<u8>)
    requires
        d == (Conn { nus_cccd: cccd_written(value), ..c }),
    ensures
        cccd_value_enables(value) ==> d.nus_cccd == 1,
        !cccd_value_enables(value) ==> d.nus_cccd == 0,
        d == (Conn { nus_cccd: d.nus_cccd, ..c }),
{
    if value.len() >= 2 {
        let b = value[0];
        assert((b & 1 != 0) == (b & 1 == 1)) by (bit_vector);
    }
}

/// A Write Request to the TX CCCD followed by a Read Request of it: the
/// write enables notifications exactly when the value does, and the read
/// answers `[0x0B, bit, 0x00]` with that bit.
pub proof fn lemma_cccd_write_then_read(
    c: Conn,
    d: Conn,
    e: Conn,
    value: Seq<u8>,
    r0: ConnEvent,
    r1: ConnEvent,
    r2: ConnEvent,
    r3: ConnEvent,
)
    requires
        att_post(c, d, seq![0x12u8, 0x06u8, 0x00u8] + value, r0, r1),
        att_post(d, e, seq![0x0Au8, 0x06u8, 0x00u8], r2, r3),
    ensures
        r1 == r0,
        cccd_value_enables(value) ==> d.nus_cccd == 1 && e.tx_att@.take(3) == seq![
            0x0Bu8,
            1u8,
            0u8,
        ],
        !cccd_value_enables(value) ==> d.nus_cccd == 0 && e.tx_att@.take(3) == seq![
            0x0Bu8,
            0u8,
            0u8,
        ],
        e.tx_att_len == 3,
{
    reveal(att_post);
    let w = seq![0x12u8, 0x06u8, 0x00u8] + value;
    let rd = seq![0x0Au8, 0x06u8, 0x00u8];
    assert(w[0] == 0x12 && w[1] == 0x06 && w[2] == 0x00);
    assert(rd[0] == 0x0A && rd[1] == 0x06 && rd[2] == 0x00);
    assert(u16_le(0x06u8, 0x00u8) == 6u16) by (bit_vector);
    assert(w.skip(3) =~= value);
    lemma_cccd_write(c, Conn { nus_cccd: cccd_written(value), ..c }, value);
    let rsp = seq![0x0Bu8, d.nus_cccd, 0u8];
    assert(server_rsp(d, rd) =~= rsp);
    assert(e.tx_att@.take(3) =~= rsp);
}

} // verus!
