//! Advertising and data channel PDU codecs.
use vstd::prelude::*;

use crate::bytes::{addr_at, copy_into, le16, le32, splice, u16_le};
use crate::Error;

verus! {

/// Advertising indication (connectable undirected).
pub const PDU_ADV_IND: u8 = 0;

/// Directed advertising indication (connectable).
pub const PDU_ADV_DIRECT_IND: u8 = 1;

/// Non-connectable advertising indication.
pub const PDU_ADV_NONCONN_IND: u8 = 2;

/// Scan request.
pub const PDU_SCAN_REQ: u8 = 3;

/// Scan response.
pub const PDU_SCAN_RSP: u8 = 4;

/// Connection request.
pub const PDU_CONNECT_REQ: u8 = 5;

/// Scannable undirected advertising indication.
pub const PDU_ADV_SCAN_IND: u8 = 6;

/// LLID: LL Data PDU, start of a new L2CAP PDU.
pub const LLID_DATA_START: u8 = 1;

/// LLID: LL Data PDU, continuation or complete L2CAP PDU.
pub const LLID_DATA_CONTINUATION_OR_COMPLETE: u8 = 0;

/// LLID: LL Data PDU, complete L2CAP PDU.
pub const LLID_DATA_COMPLETE: u8 = 3;

/// LLID: LL Control PDU.
pub const LLID_CONTROL: u8 = 2;

/// Length of the CONNECT_REQ LLData field.
pub const CONNECT_LL_DATA_LEN: usize = 22;

/// 1 for a set flag, 0 otherwise.
pub open spec fn flag(b: bool) -> u8 {
    if b {
        1
    } else {
        0
    }
}

fn flag_bit(b: bool) -> (r: u8)
    ensures
        r == flag(b),
{
    if b {
        1
    } else {
        0
    }
}

/// Advertising physical channel PDU header (2 bytes).
#[derive(Debug, Clone, Copy, PartialEq, Eq, Structural)]
pub struct AdvHdr {
    /// PDU type (4 bits).
    pub pdu_type: u8,
    /// ChSel bit (Bluetooth 5.0+).
    pub ch_sel: bool,
    /// TxAdd bit: 1 = transmitter address is random.
    pub tx_add: bool,
    /// RxAdd bit: 1 = receiver address is random.
    pub rx_add: bool,
    /// Payload length in bytes (6 bits).
    pub len: u8,
}

/// On-air bytes of an advertising header.
pub open spec fn adv_hdr_bytes(h: AdvHdr) -> Seq<u8> {
    seq![
        (h.pdu_type & 0x0F) | (flag(h.ch_sel) << 6) | (flag(h.tx_add) << 7),
        flag(h.rx_add) | ((h.len & 0x3F) << 1),
    ]
}

/// The header named by two on-air bytes; reserved PDU types (8-15) are
/// rejected.
pub open spec fn adv_hdr_decode(b0: u8, b1: u8) -> Result<AdvHdr, Error> {
    if b0 & 0x0F > 7 {
        Err(Error::InvalidPdu)
    } else {
        Ok(
            AdvHdr {
                pdu_type: b0 & 0x0F,
                ch_sel: b0 & 0x40 != 0,
                tx_add: b0 & 0x80 != 0,
                rx_add: b1 & 0x01 != 0,
                len: (b1 >> 1) & 0x3F,
            },
        )
    }
}

impl AdvHdr {
    /// Encode the header into two bytes.
    pub fn encode(&self) -> (r: [u8; 2])
        ensures
            r@ == adv_hdr_bytes(*self),
    {
        let mut h = [0u8; 2];
        h[0] = (self.pdu_type & 0x0F) | (flag_bit(self.ch_sel) << 6) | (flag_bit(self.tx_add) << 7);
        h[1] = flag_bit(self.rx_add) | ((self.len & 0x3F) << 1);
        assert(h@ =~= adv_hdr_bytes(*self));
        h
    }

    /// Decode a two-byte header.
    pub fn decode(bytes: [u8; 2]) -> (r: Result<Self, Error>)
        ensures
            r == adv_hdr_decode(bytes@[0], bytes@[1]),
    {
        let pdu_type = bytes[0] & 0x0F;
        if pdu_type > 7 {
            return Err(Error::InvalidPdu);
        }
        Ok(
            AdvHdr {
                pdu_type,
                ch_sel: bytes[0] & 0x40 != 0,
                tx_add: bytes[0] & 0x80 != 0,
                rx_add: bytes[1] & 0x01 != 0,
                len: (bytes[1] >> 1) & 0x3F,
            },
        )
    }
}

/// A header with a valid PDU type and a 6-bit length decodes back to itself.
pub proof fn lemma_adv_hdr_roundtrip(h: AdvHdr)
    requires
        h.pdu_type <= 7,
        h.len <= 63,
    ensures
        adv_hdr_decode(adv_hdr_bytes(h)[0], adv_hdr_bytes(h)[1]) == Ok::<AdvHdr, Error>(h),
{
    let t = h.pdu_type;
    let c = flag(h.ch_sel);
    let x = flag(h.tx_add);
    let r = flag(h.rx_add);
    let l = h.len;
    let b0 = (t & 0x0F) | (c << 6) | (x << 7);
    let b1 = r | ((l & 0x3F) << 1);
    assert(t <= 7 && c <= 1 && x <= 1 && b0 == (t & 0x0F) | (c << 6) | (x << 7) ==> b0 & 0x0F == t
        && (b0 & 0x40 != 0) == (c == 1) && (b0 & 0x80 != 0) == (x == 1)) by (bit_vector);
    assert(l <= 63 && r <= 1 && b1 == r | ((l & 0x3F) << 1) ==> (b1 & 0x01 != 0) == (r == 1) && ((
    b1 >> 1) & 0x3F) == l) by (bit_vector);
}

/// Abstract content of an advertising channel PDU.
pub enum AdvPduModel {
    AdvInd { adv_addr: Seq<u8>, data: Seq<u8> },
    AdvDirectInd { adv_addr: Seq<u8>, init_addr: Seq<u8> },
    AdvNonconnInd { adv_addr: Seq<u8>, data: Seq<u8> },
    ScanReq { scan_addr: Seq<u8>, adv_addr: Seq<u8> },
    ScanRsp { adv_addr: Seq<u8>, data: Seq<u8> },
    ConnectReq { init_addr: Seq<u8>, adv_addr: Seq<u8>, ll_data: Seq<u8> },
    AdvScanInd { adv_addr: Seq<u8>, data: Seq<u8> },
}

/// A decoded advertising physical channel PDU.
#[derive(Debug, Clone, Copy, PartialEq, Eq)]
pub enum AdvPdu<'a> {
    /// ADV_IND: connectable undirected.
    AdvInd {
        /// Advertiser address.
        adv_addr: [u8; 6],
        /// Advertising data.
        data: &'a [u8],
    },
    /// ADV_DIRECT_IND: connectable directed.
    AdvDirectInd {
        /// Advertiser address.
        adv_addr: [u8; 6],
        /// Target (initiator) address.
        init_addr: [u8; 6],
    },
    /// ADV_NONCONN_IND: non-connectable.
    AdvNonconnInd {
        /// Advertiser address.
        adv_addr: [u8; 6],
        /// Advertising data.
        data: &'a [u8],
    },
    /// SCAN_REQ.
    ScanReq {
        /// Scanner address.
        scan_addr: [u8; 6],
        /// Advertiser address.
        adv_addr: [u8; 6],
    },
    /// SCAN_RSP.
    ScanRsp {
        /// Advertiser address.
        adv_addr: [u8; 6],
        /// Scan response data.
        data: &'a [u8],
    },
    /// CONNECT_REQ.
    ConnectReq {
        /// Initiator address.
        init_addr: [u8; 6],
        /// Advertiser address.
        adv_addr: [u8; 6],
        /// Raw LLData (see [`ConnectReqData`]).
        ll_data: &'a [u8],
    },
    /// ADV_SCAN_IND: scannable, non-connectable.
    AdvScanInd {
        /// Advertiser address.
        adv_addr: [u8; 6],
        /// Advertising data.
        data: &'a [u8],
    },
}

impl<'a> View for AdvPdu<'a> {
    type V = AdvPduModel;

    open spec fn view(&self) -> AdvPduModel {
        match *self {
            AdvPdu::AdvInd { adv_addr, data } => AdvPduModel::AdvInd {
                adv_addr: adv_addr@,
                data: data@,
            },
            AdvPdu::AdvDirectInd { adv_addr, init_addr } => AdvPduModel::AdvDirectInd {
                adv_addr: adv_addr@,
                init_addr: init_addr@,
            },
            AdvPdu::AdvNonconnInd { adv_addr, data } => AdvPduModel::AdvNonconnInd {
                adv_addr: adv_addr@,
                data: data@,
            },
            AdvPdu::ScanReq { scan_addr, adv_addr } => AdvPduModel::ScanReq {
                scan_addr: scan_addr@,
                adv_addr: adv_addr@,
            },
            AdvPdu::ScanRsp { adv_addr, data } => AdvPduModel::ScanRsp {
                adv_addr: adv_addr@,
                data: data@,
            },
            AdvPdu::ConnectReq { init_addr, adv_addr, ll_data } => AdvPduModel::ConnectReq {
                init_addr: init_addr@,
                adv_addr: adv_addr@,
                ll_data: ll_data@,
            },
            AdvPdu::AdvScanInd { adv_addr, data } => AdvPduModel::AdvScanInd {
                adv_addr: adv_addr@,
                data: data@,
            },
        }
    }
}

/// The PDU type code of a model.
pub open spec fn adv_pdu_type(m: AdvPduModel) -> u8 {
    match m {
        AdvPduModel::AdvInd { .. } => PDU_ADV_IND,
        AdvPduModel::AdvDirectInd { .. } => PDU_ADV_DIRECT_IND,
        AdvPduModel::AdvNonconnInd { .. } => PDU_ADV_NONCONN_IND,
        AdvPduModel::ScanReq { .. } => PDU_SCAN_REQ,
        AdvPduModel::ScanRsp { .. } => PDU_SCAN_RSP,
        AdvPduModel::ConnectReq { .. } => PDU_CONNECT_REQ,
        AdvPduModel::AdvScanInd { .. } => PDU_ADV_SCAN_IND,
    }
}

/// The payload bytes (after the header) of a model.
pub open spec fn adv_payload(m: AdvPduModel) -> Seq<u8> {
    match m {
        AdvPduModel::AdvInd { adv_addr, data } => adv_addr + data,
        AdvPduModel::AdvDirectInd { adv_addr, init_addr } => adv_addr + init_addr,
        AdvPduModel::AdvNonconnInd { adv_addr, data } => adv_addr + data,
        AdvPduModel::ScanReq { scan_addr, adv_addr } => scan_addr + adv_addr,
        AdvPduModel::ScanRsp { adv_addr, data } => adv_addr + data,
        AdvPduModel::ConnectReq { init_addr, adv_addr, ll_data } => init_addr + adv_addr + ll_data,
        AdvPduModel::AdvScanInd { adv_addr, data } => adv_addr + data,
    }
}

/// The payload length the encoder announces for a model.
pub open spec fn adv_payload_len(m: AdvPduModel) -> int {
    match m {
        AdvPduModel::AdvDirectInd { .. } => 12,
        AdvPduModel::ScanReq { .. } => 12,
        AdvPduModel::ConnectReq { .. } => 34,
        _ => adv_payload(m).len() as int,
    }
}

/// The TxAdd bit the encoder writes: the one the caller passes.
pub open spec fn adv_tx_flag(m: AdvPduModel, tx_add: bool) -> bool {
    tx_add
}

/// The RxAdd bit the encoder writes: the one the caller passes on the PDUs
/// addressed to a peer (ADV_DIRECT_IND, SCAN_REQ, CONNECT_REQ), clear on
/// the others.
pub open spec fn adv_rx_flag(m: AdvPduModel, rx_add: bool) -> bool {
    match m {
        AdvPduModel::AdvDirectInd { .. } => rx_add,
        AdvPduModel::ScanReq { .. } => rx_add,
        AdvPduModel::ConnectReq { .. } => rx_add,
        _ => false,
    }
}

/// Header plus payload of a model, as the encoder writes it.
pub open spec fn adv_pdu_bytes(m: AdvPduModel, tx_add: bool, rx_add: bool) -> Seq<u8> {
    adv_hdr_bytes(
        AdvHdr {
            pdu_type: adv_pdu_type(m),
            ch_sel: false,
            tx_add: adv_tx_flag(m, tx_add),
            rx_add: adv_rx_flag(m, rx_add),
            len: adv_payload_len(m) as u8,
        },
    ) + adv_payload(m)
}

/// What encoding a model into a buffer of `cap` bytes returns.
pub open spec fn adv_encode_result(m: AdvPduModel, cap: nat) -> Result<usize, Error> {
    if cap < 2 {
        Err(Error::BufferTooSmall)
    } else if adv_payload_len(m) > 0x3F {
        Err(Error::InvalidLength)
    } else if cap < 2 + adv_payload_len(m) {
        Err(Error::BufferTooSmall)
    } else {
        Ok((2 + adv_payload_len(m)) as usize)
    }
}

/// The advertising PDU (if any) that a byte string decodes to.
pub open spec fn adv_decode_spec(b: Seq<u8>) -> Result<AdvPduModel, Error> {
    if b.len() < 2 {
        Err(Error::InvalidPdu)
    } else {
        match adv_hdr_decode(b[0], b[1]) {
            Err(e) => Err(e),
            Ok(h) => {
                let p = b.skip(2);
                let a = p.take(6);
                let rest = p.skip(6);
                if p.len() != h.len {
                    Err(Error::InvalidLength)
                } else if h.pdu_type == 7 {
                    Err(Error::InvalidPdu)
                } else if p.len() < 6 {
                    Err(Error::InvalidLength)
                } else if h.pdu_type == PDU_ADV_IND {
                    Ok(AdvPduModel::AdvInd { adv_addr: a, data: rest })
                } else if h.pdu_type == PDU_ADV_DIRECT_IND {
                    if rest.len() != 6 {
                        Err(Error::InvalidLength)
                    } else {
                        Ok(AdvPduModel::AdvDirectInd { adv_addr: a, init_addr: rest })
                    }
                } else if h.pdu_type == PDU_ADV_NONCONN_IND {
                    Ok(AdvPduModel::AdvNonconnInd { adv_addr: a, data: rest })
                } else if h.pdu_type == PDU_SCAN_REQ {
                    if rest.len() != 6 {
                        Err(Error::InvalidLength)
                    } else {
                        Ok(AdvPduModel::ScanReq { scan_addr: a, adv_addr: rest })
                    }
                } else if h.pdu_type == PDU_SCAN_RSP {
                    Ok(AdvPduModel::ScanRsp { adv_addr: a, data: rest })
                } else if h.pdu_type == PDU_CONNECT_REQ {
                    if rest.len() != 28 {
                        Err(Error::InvalidLength)
                    } else {
                        Ok(
                            AdvPduModel::ConnectReq {
                                init_addr: a,
                                adv_addr: rest.take(6),
                                ll_data: rest.skip(6),
                            },
                        )
                    }
                } else {
                    Ok(AdvPduModel::AdvScanInd { adv_addr: a, data: rest })
                }
            },
        }
    }
}

/// The models the encoder can produce a frame for: six-byte addresses, a
/// 22-byte LLData, and a payload that fits the 6-bit length field.
pub open spec fn adv_model_wf(m: AdvPduModel) -> bool {
    &&& match m {
        AdvPduModel::AdvInd { adv_addr, .. } => adv_addr.len() == 6,
        AdvPduModel::AdvDirectInd { adv_addr, init_addr } => adv_addr.len() == 6
            && init_addr.len() == 6,
        AdvPduModel::AdvNonconnInd { adv_addr, .. } => adv_addr.len() == 6,
        AdvPduModel::ScanReq { scan_addr, adv_addr } => scan_addr.len() == 6 && adv_addr.len()
            == 6,
        AdvPduModel::ScanRsp { adv_addr, .. } => adv_addr.len() == 6,
        AdvPduModel::ConnectReq { init_addr, adv_addr, ll_data } => init_addr.len() == 6
            && adv_addr.len() == 6 && ll_data.len() == 22,
        AdvPduModel::AdvScanInd { adv_addr, .. } => adv_addr.len() == 6,
    }
    &&& adv_payload_len(m) <= 0x3F
}

/// Encoding a well-formed PDU and decoding the bytes gives the PDU back
/// (the TxAdd/RxAdd bits are not part of the decoded PDU).
pub proof fn lemma_adv_pdu_roundtrip(m: AdvPduModel, tx_add: bool, rx_add: bool)
    requires
        adv_model_wf(m),
    ensures
        adv_decode_spec(adv_pdu_bytes(m, tx_add, rx_add)) == Ok::<AdvPduModel, Error>(m),
{
    let h = AdvHdr {
        pdu_type: adv_pdu_type(m),
        ch_sel: false,
        tx_add: adv_tx_flag(m, tx_add),
        rx_add: adv_rx_flag(m, rx_add),
        len: adv_payload_len(m) as u8,
    };
    lemma_adv_hdr_roundtrip(h);
    let b = adv_pdu_bytes(m, tx_add, rx_add);
    assert(b[0] == adv_hdr_bytes(h)[0]);
    assert(b[1] == adv_hdr_bytes(h)[1]);
    let p = b.skip(2);
    assert(p =~= adv_payload(m));
    match m {
        AdvPduModel::AdvInd { adv_addr, data } => {
            assert(p.take(6) =~= adv_addr);
            assert(p.skip(6) =~= data);
        },
        AdvPduModel::AdvDirectInd { adv_addr, init_addr } => {
            assert(p.take(6) =~= adv_addr);
            assert(p.skip(6) =~= init_addr);
        },
        AdvPduModel::AdvNonconnInd { adv_addr, data } => {
            assert(p.take(6) =~= adv_addr);
            assert(p.skip(6) =~= data);
        },
        AdvPduModel::ScanReq { scan_addr, adv_addr } => {
            assert(p.take(6) =~= scan_addr);
            assert(p.skip(6) =~= adv_addr);
        },
        AdvPduModel::ScanRsp { adv_addr, data } => {
            assert(p.take(6) =~= adv_addr);
            assert(p.skip(6) =~= data);
        },
        AdvPduModel::ConnectReq { init_addr, adv_addr, ll_data } => {
            assert(p.take(6) =~= init_addr);
            assert(p.skip(6).take(6) =~= adv_addr);
            assert(p.skip(6).skip(6) =~= ll_data);
        },
        AdvPduModel::AdvScanInd { adv_addr, data } => {
            assert(p.take(6) =~= adv_addr);
            assert(p.skip(6) =~= data);
        },
    }
}

/// The decoder's result, seen through the PDU view.
pub open spec fn adv_result_view(r: Result<AdvPdu, Error>) -> Result<AdvPduModel, Error> {
    match r {
        Ok(p) => Ok(p@),
        Err(e) => Err(e),
    }
}

impl<'a> AdvPdu<'a> {
    /// Decode a full advertising channel PDU (header + payload).
    pub fn decode(bytes: &'a [u8]) -> (r: Result<AdvPdu<'a>, Error>)
        ensures
            adv_result_view(r) == adv_decode_spec(bytes@),
    {
        if bytes.len() < 2 {
            return Err(Error::InvalidPdu);
        }
        let hb = [bytes[0], bytes[1]];
        assert(hb@[0] == bytes@[0] && hb@[1] == bytes@[1]);
        let header = match AdvHdr::decode(hb) {
            Ok(h) => h,
            Err(e) => return Err(e),
        };
        let payload = &bytes[2..bytes.len()];
        if payload.len() != header.len as usize {
            return Err(Error::InvalidLength);
        }
        if header.pdu_type == 7 {
            return Err(Error::InvalidPdu);
        }
        if payload.len() < 6 {
            return Err(Error::InvalidLength);
        }
        let a = addr_at(payload, 0);
        let rest = &payload[6..payload.len()];
        assert(payload@ =~= bytes@.skip(2));
        assert(rest@ =~= bytes@.skip(2).skip(6));
        assert(a@ =~= bytes@.skip(2).take(6));
        if header.pdu_type == PDU_ADV_IND {
            Ok(AdvPdu::AdvInd { adv_addr: a, data: rest })
        } else if header.pdu_type == PDU_ADV_DIRECT_IND {
            if rest.len() != 6 {
                return Err(Error::InvalidLength);
            }
            assert(rest@.subrange(0, 6) =~= rest@);
            Ok(AdvPdu::AdvDirectInd { adv_addr: a, init_addr: addr_at(rest, 0) })
        } else if header.pdu_type == PDU_ADV_NONCONN_IND {
            Ok(AdvPdu::AdvNonconnInd { adv_addr: a, data: rest })
        } else if header.pdu_type == PDU_SCAN_REQ {
            if rest.len() != 6 {
                return Err(Error::InvalidLength);
            }
            assert(rest@.subrange(0, 6) =~= rest@);
            Ok(AdvPdu::ScanReq { scan_addr: a, adv_addr: addr_at(rest, 0) })
        } else if header.pdu_type == PDU_SCAN_RSP {
            Ok(AdvPdu::ScanRsp { adv_addr: a, data: rest })
        } else if header.pdu_type == PDU_CONNECT_REQ {
            if rest.len() != 28 {
                return Err(Error::InvalidLength);
            }
            let ll_data = &rest[6..rest.len()];
            assert(ll_data@ =~= rest@.skip(6));
            Ok(AdvPdu::ConnectReq { init_addr: a, adv_addr: addr_at(rest, 0), ll_data })
        } else {
            Ok(AdvPdu::AdvScanInd { adv_addr: a, data: rest })
        }
    }

    /// Encode the PDU into `out`, returning the number of bytes written.
    ///
    /// The TxAdd/RxAdd header bits are cleared; use [`AdvPdu::encode_typed`]
    /// when the address types are known.
    pub fn encode(&self, out: &mut [u8]) -> (r: Result<usize, Error>)
        requires
            (*self is ConnectReq && old(out)@.len() >= 36) ==> self->ll_data@.len() == 22,
        ensures
            r == adv_encode_result(self@, old(out)@.len()),
            r matches Ok(n) ==> final(out)@ == splice(
                old(out)@,
                0,
                adv_pdu_bytes(self@, false, false),
            ) && n == adv_pdu_bytes(self@, false, false).len(),
            r is Err ==> final(out)@ == old(out)@,
    {
        self.encode_typed(out, false, false)
    }

    /// Encode the PDU with explicit TxAdd/RxAdd address-type header bits.
    #[verifier::rlimit(40)]
    pub fn encode_typed(&self, out: &mut [u8], tx_add: bool, rx_add: bool) -> (r: Result<
        usize,
        Error,
    >)
        requires
            (*self is ConnectReq && old(out)@.len() >= 36) ==> self->ll_data@.len() == 22,
        ensures
            r == adv_encode_result(self@, old(out)@.len()),
            r matches Ok(n) ==> final(out)@ == splice(
                old(out)@,
                0,
                adv_pdu_bytes(self@, tx_add, rx_add),
            ) && n == adv_pdu_bytes(self@, tx_add, rx_add).len(),
            r is Err ==> final(out)@ == old(out)@,
    {
        if out.len() < 2 {
            return Err(Error::BufferTooSmall);
        }
        let empty: [u8; 0] = [];
        match *self {
            AdvPdu::AdvInd { adv_addr, data } => {
                if data.len() > 0x3F {
                    return Err(Error::InvalidLength);
                }
                Self::encode_with(
                    out,
                    PDU_ADV_IND,
                    tx_add,
                    false,
                    6 + data.len(),
                    adv_addr.as_slice(),
                    data,
                    empty.as_slice(),
                )
            },
            AdvPdu::AdvScanInd { adv_addr, data } => {
                if data.len() > 0x3F {
                    return Err(Error::InvalidLength);
                }
                Self::encode_with(
                    out,
                    PDU_ADV_SCAN_IND,
                    tx_add,
                    false,
                    6 + data.len(),
                    adv_addr.as_slice(),
                    data,
                    empty.as_slice(),
                )
            },
            AdvPdu::AdvNonconnInd { adv_addr, data } => {
                if data.len() > 0x3F {
                    return Err(Error::InvalidLength);
                }
                Self::encode_with(
                    out,
                    PDU_ADV_NONCONN_IND,
                    tx_add,
                    false,
                    6 + data.len(),
                    adv_addr.as_slice(),
                    data,
                    empty.as_slice(),
                )
            },
            AdvPdu::ScanRsp { adv_addr, data } => {
                if data.len() > 0x3F {
                    return Err(Error::InvalidLength);
                }
                Self::encode_with(
                    out,
                    PDU_SCAN_RSP,
                    tx_add,
                    false,
                    6 + data.len(),
                    adv_addr.as_slice(),
                    data,
                    empty.as_slice(),
                )
            },
            AdvPdu::AdvDirectInd { adv_addr, init_addr } => Self::encode_with(
                out,
                PDU_ADV_DIRECT_IND,
                tx_add,
                rx_add,
                12,
                adv_addr.as_slice(),
                init_addr.as_slice(),
                empty.as_slice(),
            ),
            AdvPdu::ScanReq { scan_addr, adv_addr } => Self::encode_with(
                out,
                PDU_SCAN_REQ,
                tx_add,
                rx_add,
                12,
                scan_addr.as_slice(),
                adv_addr.as_slice(),
                empty.as_slice(),
            ),
            AdvPdu::ConnectReq { init_addr, adv_addr, ll_data } => Self::encode_with(
                out,
                PDU_CONNECT_REQ,
                tx_add,
                rx_add,
                34,
                init_addr.as_slice(),
                adv_addr.as_slice(),
                ll_data,
            ),
        }
    }

    /// The PDU type of this packet.
    pub fn pdu_type(&self) -> (t: u8)
        ensures
            t == adv_pdu_type(self@),
    {
        match *self {
            AdvPdu::AdvInd { .. } => PDU_ADV_IND,
            AdvPdu::AdvDirectInd { .. } => PDU_ADV_DIRECT_IND,
            AdvPdu::AdvNonconnInd { .. } => PDU_ADV_NONCONN_IND,
            AdvPdu::ScanReq { .. } => PDU_SCAN_REQ,
            AdvPdu::ScanRsp { .. } => PDU_SCAN_RSP,
            AdvPdu::ConnectReq { .. } => PDU_CONNECT_REQ,
            AdvPdu::AdvScanInd { .. } => PDU_ADV_SCAN_IND,
        }
    }

    fn encode_with(
        out: &mut [u8],
        pdu_type: u8,
        tx_add: bool,
        rx_add: bool,
        payload_len: usize,
        part1: &[u8],
        part2: &[u8],
        part3: &[u8],
    ) -> (r: Result<usize, Error>)
        requires
            pdu_type <= 7,
            old(out)@.len() >= 2 + payload_len && payload_len <= 0x3F ==> part1@.len()
                + part2@.len() + part3@.len() == payload_len,
        ensures
            payload_len > 0x3F ==> r == Err::<usize, Error>(Error::InvalidLength),
            payload_len <= 0x3F && old(out)@.len() < 2 + payload_len ==> r == Err::<usize, Error>(
                Error::BufferTooSmall,
            ),
            payload_len <= 0x3F && old(out)@.len() >= 2 + payload_len ==> r == Ok::<
                usize,
                Error,
            >((2 + payload_len) as usize) && final(out)@ == splice(
                old(out)@,
                0,
                adv_hdr_bytes(
                    AdvHdr {
                        pdu_type,
                        ch_sel: false,
                        tx_add,
                        rx_add,
                        len: payload_len as u8,
                    },
                ) + part1@ + part2@ + part3@,
            ),
            r is Err ==> final(out)@ == old(out)@,
    {
        if payload_len > 0x3F {
            return Err(Error::InvalidLength);
        }
        let total = 2 + payload_len;
        if out.len() < total {
            return Err(Error::BufferTooSmall);
        }
        let header = AdvHdr { pdu_type, ch_sel: false, tx_add, rx_add, len: payload_len as u8 };
        let h = header.encode();
        out[0] = h[0];
        out[1] = h[1];
        copy_into(out, 2, part1);
        copy_into(out, 2 + part1.len(), part2);
        copy_into(out, 2 + part1.len() + part2.len(), part3);
        assert(out@ =~= splice(
            old(out)@,
            0,
            adv_hdr_bytes(header) + part1@ + part2@ + part3@,
        ));
        Ok(total)
    }
}


/// Abstract content of a data channel PDU.
pub struct DataPduModel {
    pub llid: u8,
    pub nesn: bool,
    pub sn: bool,
    pub md: bool,
    pub payload: Seq<u8>,
}

/// A decoded data physical channel PDU.
#[derive(Debug, Clone, Copy, PartialEq, Eq)]
pub struct DataPdu<'a> {
    /// LLID field.
    pub llid: u8,
    /// Next Expected Sequence Number.
    pub nesn: bool,
    /// Sequence Number.
    pub sn: bool,
    /// More Data.
    pub md: bool,
    /// Payload.
    pub payload: &'a [u8],
}

impl<'a> View for DataPdu<'a> {
    type V = DataPduModel;

    open spec fn view(&self) -> DataPduModel {
        DataPduModel {
            llid: self.llid,
            nesn: self.nesn,
            sn: self.sn,
            md: self.md,
            payload: self.payload@,
        }
    }
}

/// First header byte of a data channel PDU.
pub open spec fn data_hdr0(llid: u8, nesn: bool, sn: bool, md: bool) -> u8 {
    (llid & 0x03) | (flag(nesn) << 2) | (flag(sn) << 3) | (flag(md) << 4)
}

/// On-air bytes of a data channel PDU.
pub open spec fn data_pdu_bytes(p: DataPduModel) -> Seq<u8> {
    seq![data_hdr0(p.llid, p.nesn, p.sn, p.md), (p.payload.len() as u8) & 0x3F] + p.payload
}

/// The data channel PDU (if any) that a byte string decodes to.
pub open spec fn data_decode_spec(b: Seq<u8>) -> Result<DataPduModel, Error> {
    if b.len() < 2 {
        Err(Error::InvalidPdu)
    } else if b.skip(2).len() != (b[1] & 0x3F) {
        Err(Error::InvalidLength)
    } else {
        Ok(
            DataPduModel {
                llid: b[0] & 0x03,
                nesn: b[0] & 0x04 != 0,
                sn: b[0] & 0x08 != 0,
                md: b[0] & 0x10 != 0,
                payload: b.skip(2),
            },
        )
    }
}

/// What encoding a data PDU into a buffer of `cap` bytes returns.
pub open spec fn data_encode_result(p: DataPduModel, cap: nat) -> Result<usize, Error> {
    if p.payload.len() > 0x3F {
        Err(Error::InvalidLength)
    } else if cap < 2 + p.payload.len() {
        Err(Error::BufferTooSmall)
    } else {
        Ok((2 + p.payload.len()) as usize)
    }
}

/// The decoder's result, seen through the PDU view.
pub open spec fn data_result_view(r: Result<DataPdu, Error>) -> Result<DataPduModel, Error> {
    match r {
        Ok(p) => Ok(p@),
        Err(e) => Err(e),
    }
}

/// A data PDU with a 2-bit LLID and at most 63 payload bytes decodes from
/// its own encoding.
pub proof fn lemma_data_pdu_roundtrip(p: DataPduModel)
    requires
        p.llid <= 3,
        p.payload.len() <= 0x3F,
    ensures
        data_decode_spec(data_pdu_bytes(p)) == Ok::<DataPduModel, Error>(p),
{
    let b = data_pdu_bytes(p);
    let l = p.llid;
    let n = flag(p.nesn);
    let s = flag(p.sn);
    let m = flag(p.md);
    let b0 = data_hdr0(p.llid, p.nesn, p.sn, p.md);
    let len = p.payload.len() as u8;
    assert(l <= 3 && n <= 1 && s <= 1 && m <= 1 && b0 == (l & 0x03) | (n << 2) | (s << 3) | (m
        << 4) ==> b0 & 0x03 == l && (b0 & 0x04 != 0) == (n == 1) && (b0 & 0x08 != 0) == (s == 1)
        && (b0 & 0x10 != 0) == (m == 1)) by (bit_vector);
    assert(len <= 0x3F ==> (len & 0x3F) & 0x3F == len) by (bit_vector);
    assert(b.skip(2) =~= p.payload);
}

impl<'a> DataPdu<'a> {
    /// Decode a full data channel PDU (header + payload).
    pub fn decode(bytes: &'a [u8]) -> (r: Result<DataPdu<'a>, Error>)
        ensures
            data_result_view(r) == data_decode_spec(bytes@),
    {
        if bytes.len() < 2 {
            return Err(Error::InvalidPdu);
        }
        let llid = bytes[0] & 0b11;
        let nesn = bytes[0] & 0b100 != 0;
        let sn = bytes[0] & 0b1000 != 0;
        let md = bytes[0] & 0b10000 != 0;
        let len = (bytes[1] & 0b11_1111) as usize;
        let payload = &bytes[2..bytes.len()];
        assert(payload@ =~= bytes@.skip(2));
        if payload.len() != len {
            return Err(Error::InvalidLength);
        }
        Ok(DataPdu { llid, nesn, sn, md, payload })
    }

    /// Encode the PDU into `out`, returning the number of bytes written.
    pub fn encode(&self, out: &mut [u8]) -> (r: Result<usize, Error>)
        ensures
            r == data_encode_result(self@, old(out)@.len()),
            r is Ok ==> final(out)@ == splice(old(out)@, 0, data_pdu_bytes(self@)),
            r is Err ==> final(out)@ == old(out)@,
    {
        self.encode_typed(out, false, false)
    }

    /// Encode the PDU; a data channel header has no address-type bits, so
    /// `tx_add` and `rx_add` do not change the output.
    pub fn encode_typed(&self, out: &mut [u8], tx_add: bool, rx_add: bool) -> (r: Result<
        usize,
        Error,
    >)
        ensures
            r == data_encode_result(self@, old(out)@.len()),
            r is Ok ==> final(out)@ == splice(old(out)@, 0, data_pdu_bytes(self@)),
            r is Err ==> final(out)@ == old(out)@,
    {
        if self.payload.len() > 0x3F {
            return Err(Error::InvalidLength);
        }
        let total = 2 + self.payload.len();
        if out.len() < total {
            return Err(Error::BufferTooSmall);
        }
        out[0] = (self.llid & 0b11) | (flag_bit(self.nesn) << 2) | (flag_bit(self.sn) << 3) | (
        flag_bit(self.md) << 4);
        out[1] = (self.payload.len() as u8) & 0b11_1111;
        copy_into(out, 2, self.payload);
        assert(out@ =~= splice(old(out)@, 0, data_pdu_bytes(self@)));
        Ok(total)
    }
}

/// Parsed CONNECT_REQ LLData (connection parameters).
#[derive(Debug, Clone, Copy, PartialEq, Eq)]
pub struct ConnectReqData {
    /// Connection access address.
    pub access_addr: u32,
    /// Connection CRC initial value.
    pub crc_init: u32,
    /// Transmit window size in 1.25 ms units.
    pub win_size: u8,
    /// Transmit window offset in 1.25 ms units.
    pub win_offset: u16,
    /// Connection interval in 1.25 ms units.
    pub interval: u16,
    /// Slave latency in connection events.
    pub latency: u16,
    /// Supervision timeout in 10 ms units.
    pub timeout: u16,
    /// Data channel map (5 bytes, 37 channels).
    pub channel_map: [u8; 5],
    /// Hop increment (5 bits).
    pub hop: u8,
    /// Sleep clock accuracy (3 bits).
    pub sca: u8,
}

/// The 32-bit value of four little-endian bytes.
pub open spec fn u32_le(b0: u8, b1: u8, b2: u8, b3: u8) -> u32 {
    (b0 as u32) | ((b1 as u32) << 8) | ((b2 as u32) << 16) | ((b3 as u32) << 24)
}

/// The 22 LLData bytes of a CONNECT_REQ.
pub open spec fn conn_req_bytes(d: ConnectReqData) -> Seq<u8> {
    le32(d.access_addr) + seq![
        d.crc_init as u8,
        (d.crc_init >> 8) as u8,
        (d.crc_init >> 16) as u8,
        d.win_size,
    ] + le16(d.win_offset) + le16(d.interval) + le16(d.latency) + le16(d.timeout)
        + d.channel_map@ + seq![(d.hop & 0x1F) | ((d.sca & 0x07) << 5)]
}

/// `d` holds the connection parameters carried by the 22 bytes `b`.
pub open spec fn conn_req_fields(d: ConnectReqData, b: Seq<u8>) -> bool {
    &&& b.len() == CONNECT_LL_DATA_LEN
    &&& d.access_addr == u32_le(b[0], b[1], b[2], b[3])
    &&& d.crc_init == (b[4] as u32) | ((b[5] as u32) << 8) | ((b[6] as u32) << 16)
    &&& d.win_size == b[7]
    &&& d.win_offset == u16_le(b[8], b[9])
    &&& d.interval == u16_le(b[10], b[11])
    &&& d.latency == u16_le(b[12], b[13])
    &&& d.timeout == u16_le(b[14], b[15])
    &&& d.channel_map@ == b.subrange(16, 21)
    &&& d.hop == b[21] & 0x1F
    &&& d.sca == (b[21] >> 5) & 0x07
}

/// Parameters whose fields fit their on-air widths decode from their own
/// encoding.
pub proof fn lemma_conn_req_roundtrip(d: ConnectReqData)
    requires
        d.crc_init < 0x100_0000,
        d.hop < 32,
        d.sca < 8,
    ensures
        conn_req_fields(d, conn_req_bytes(d)),
{
    let b = conn_req_bytes(d);
    let x = d.access_addr;
    let c = d.crc_init;
    assert(x == (x as u8 as u32) | (((x >> 8) as u8 as u32) << 8) | (((x >> 16) as u8 as u32)
        << 16) | (((x >> 24) as u8 as u32) << 24)) by (bit_vector);
    assert(c < 0x100_0000 ==> c == (c as u8 as u32) | (((c >> 8) as u8 as u32) << 8) | (((c
        >> 16) as u8 as u32) << 16)) by (bit_vector);
    assert forall|y: u16| y == ((y as u8 as u16) | (((y >> 8) as u8 as u16) << 8)) as u16 by {
        assert(y == ((y as u8 as u16) | (((y >> 8) as u8 as u16) << 8))) by (bit_vector);
    }
    let h = d.hop;
    let s = d.sca;
    assert(h < 32 && s < 8 ==> ((h & 0x1F) | ((s & 0x07) << 5)) & 0x1F == h && ((((h & 0x1F) | ((
    s & 0x07) << 5)) >> 5) & 0x07) == s) by (bit_vector);
    assert(b.subrange(16, 21) =~= d.channel_map@);
}

impl ConnectReqData {
    /// Decode a 22-byte LLData field.
    pub fn decode(ll_data: &[u8]) -> (r: Result<ConnectReqData, Error>)
        ensures
            ll_data@.len() != CONNECT_LL_DATA_LEN ==> r == Err::<ConnectReqData, Error>(
                Error::InvalidLength,
            ),
            ll_data@.len() == CONNECT_LL_DATA_LEN ==> (r matches Ok(d) && conn_req_fields(
                d,
                ll_data@,
            )),
    {
        if ll_data.len() != CONNECT_LL_DATA_LEN {
            return Err(Error::InvalidLength);
        }
        let access_addr = (ll_data[0] as u32) | ((ll_data[1] as u32) << 8) | ((ll_data[2] as u32)
            << 16) | ((ll_data[3] as u32) << 24);
        let crc_init = (ll_data[4] as u32) | ((ll_data[5] as u32) << 8) | ((ll_data[6] as u32)
            << 16);
        let win_size = ll_data[7];
        let win_offset = (ll_data[8] as u16) | ((ll_data[9] as u16) << 8);
        let interval = (ll_data[10] as u16) | ((ll_data[11] as u16) << 8);
        let latency = (ll_data[12] as u16) | ((ll_data[13] as u16) << 8);
        let timeout = (ll_data[14] as u16) | ((ll_data[15] as u16) << 8);
        let channel_map = [ll_data[16], ll_data[17], ll_data[18], ll_data[19], ll_data[20]];
        assert(channel_map@ =~= ll_data@.subrange(16, 21));
        let last = ll_data[21];
        Ok(
            ConnectReqData {
                access_addr,
                crc_init,
                win_size,
                win_offset,
                interval,
                latency,
                timeout,
                channel_map,
                hop: last & 0x1F,
                sca: (last >> 5) & 0x07,
            },
        )
    }

    /// Encode the LLData into `out`, returning the number of bytes written.
    pub fn encode(&self, out: &mut [u8]) -> (r: Result<usize, Error>)
        ensures
            old(out)@.len() < CONNECT_LL_DATA_LEN ==> r == Err::<usize, Error>(
                Error::BufferTooSmall,
            ) && final(out)@ == old(out)@,
            old(out)@.len() >= CONNECT_LL_DATA_LEN ==> r == Ok::<usize, Error>(
                CONNECT_LL_DATA_LEN,
            ) && final(out)@ == splice(old(out)@, 0, conn_req_bytes(*self)),
    {
        self.encode_typed(out, false, false)
    }

    /// Encode the LLData; it carries no address-type bits, so `tx_add` and
    /// `rx_add` do not change the output.
    pub fn encode_typed(&self, out: &mut [u8], tx_add: bool, rx_add: bool) -> (r: Result<
        usize,
        Error,
    >)
        ensures
            old(out)@.len() < CONNECT_LL_DATA_LEN ==> r == Err::<usize, Error>(
                Error::BufferTooSmall,
            ) && final(out)@ == old(out)@,
            old(out)@.len() >= CONNECT_LL_DATA_LEN ==> r == Ok::<usize, Error>(
                CONNECT_LL_DATA_LEN,
            ) && final(out)@ == splice(old(out)@, 0, conn_req_bytes(*self)),
    {
        if out.len() < CONNECT_LL_DATA_LEN {
            return Err(Error::BufferTooSmall);
        }
        let aa = self.access_addr;
        out[0] = aa as u8;
        out[1] = (aa >> 8) as u8;
        out[2] = (aa >> 16) as u8;
        out[3] = (aa >> 24) as u8;
        out[4] = self.crc_init as u8;
        out[5] = (self.crc_init >> 8) as u8;
        out[6] = (self.crc_init >> 16) as u8;
        out[7] = self.win_size;
        out[8] = self.win_offset as u8;
        out[9] = (self.win_offset >> 8) as u8;
        out[10] = self.interval as u8;
        out[11] = (self.interval >> 8) as u8;
        out[12] = self.latency as u8;
        out[13] = (self.latency >> 8) as u8;
        out[14] = self.timeout as u8;
        out[15] = (self.timeout >> 8) as u8;
        copy_into(out, 16, self.channel_map.as_slice());
        out[21] = (self.hop & 0x1F) | ((self.sca & 0x07) << 5);
        assert(out@ =~= splice(old(out)@, 0, conn_req_bytes(*self)));
        Ok(CONNECT_LL_DATA_LEN)
    }
}

} // verus!
