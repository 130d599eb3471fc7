//! LL control procedures of a connection: version exchange, features,
//! encryption start, data length, PHY, ping, connection update.
use vstd::prelude::*;

use crate::bytes::{le16, splice, u16_le};
use crate::hw::conn::{
    header_byte, Conn, DisconnectReason, LL_CONTROL_CONNECTION_UPDATE_REQ, LL_CONTROL_ENCRYPT_REQ,
    LL_CONTROL_ENCRYPT_RSP, LL_CONTROL_FEATURE_REQ, LL_CONTROL_FEATURE_RSP, LL_CONTROL_LENGTH_REQ,
    LL_CONTROL_LENGTH_RSP, LL_CONTROL_PHY_REQ, LL_CONTROL_PHY_RSP, LL_CONTROL_PING_REQ,
    LL_CONTROL_PING_RSP, LL_CONTROL_START_ENC_REQ, LL_CONTROL_START_ENC_RSP,
    LL_CONTROL_TERMINATE_IND, LL_CONTROL_UNKNOWN_RSP, LL_CONTROL_VERSION_IND, LL_PDU_PAYLOAD_MAX,
};
use crate::ll::pdu::{data_hdr0, LLID_CONTROL};

verus! {

/// A 19-byte LL control PDU body: `prefix` then zeros.
pub open spec fn ctrl19(prefix: Seq<u8>) -> Seq<u8> {
    prefix + Seq::new((19 - prefix.len()) as nat, |i: int| 0u8)
}

/// The bytes of a queued control PDU, if any.
pub open spec fn ctrl_view(c: Option<[u8; 19]>) -> Option<Seq<u8>> {
    match c {
        Some(a) => Some(a@),
        None => None,
    }
}

/// What a connection event must put on air right away for a control PDU.
#[derive(Debug, Clone, Copy, PartialEq, Eq, Structural)]
pub enum LlTx {
    /// Nothing to send now.
    Nothing,
    /// Send `tx_buf[..len]`, encrypted when `encrypt` is set.
    Send {
        /// Packet length (header included).
        len: usize,
        /// Run the packet through the link cipher first.
        encrypt: bool,
    },
}

/// Control payloads that are processed without reading past their end:
/// a data length PDU carries its 6 parameter bytes, and a connection
/// update that announces parameters carries its instant too.
pub open spec fn ll_control_accepts(p: Seq<u8>) -> bool {
    p.len() > 0 ==> {
        &&& (p[0] == LL_CONTROL_LENGTH_REQ || p[0] == LL_CONTROL_LENGTH_RSP) ==> p.len() >= 7
        &&& p[0] == LL_CONTROL_CONNECTION_UPDATE_REQ ==> p.len() != 10
    }
}

/// Opcodes that are answered with a queued control PDU.
pub open spec fn ll_queues_reply(op: u8) -> bool {
    !(op == LL_CONTROL_TERMINATE_IND || op == LL_CONTROL_VERSION_IND || op
        == LL_CONTROL_FEATURE_REQ || op == LL_CONTROL_FEATURE_RSP || op
        == LL_CONTROL_START_ENC_REQ || op == LL_CONTROL_START_ENC_RSP || op
        == LL_CONTROL_LENGTH_RSP || op == LL_CONTROL_CONNECTION_UPDATE_REQ)
}

/// The control PDU queued in answer to opcode `op` (with `p` its payload).
pub open spec fn ll_reply(p: Seq<u8>) -> Seq<u8> {
    let op = p[0];
    if op == LL_CONTROL_ENCRYPT_REQ {
        ctrl19(seq![LL_CONTROL_ENCRYPT_RSP])
    } else if op == LL_CONTROL_ENCRYPT_RSP {
        ctrl19(seq![LL_CONTROL_START_ENC_REQ])
    } else if op == LL_CONTROL_LENGTH_REQ {
        ctrl19(seq![LL_CONTROL_LENGTH_RSP] + le16(251) + le16(2120) + le16(251) + le16(2120))
    } else if op == LL_CONTROL_PING_REQ {
        ctrl19(seq![LL_CONTROL_PING_RSP])
    } else if op == LL_CONTROL_PHY_REQ {
        ctrl19(seq![LL_CONTROL_PHY_RSP, 0u8, 1u8, 1u8, 1u8])
    } else {
        ctrl19(seq![LL_CONTROL_UNKNOWN_RSP, op])
    }
}

/// The packet sent at once for opcode `op` (empty when none).
pub open spec fn ll_immediate(c: Conn, op: u8) -> Seq<u8> {
    let h = data_hdr0(LLID_CONTROL, !c.nesn, c.sn, false);
    if op == LL_CONTROL_VERSION_IND {
        seq![h, 4u8, LL_CONTROL_VERSION_IND, 0x0Cu8, 0xFFu8, 0xFFu8, 0u8, 0u8]
    } else if op == LL_CONTROL_FEATURE_REQ || op == LL_CONTROL_FEATURE_RSP {
        seq![h, 9u8, LL_CONTROL_FEATURE_RSP] + Seq::new(8, |i: int| 0u8)
    } else if op == LL_CONTROL_START_ENC_REQ {
        seq![h, 1u8, LL_CONTROL_START_ENC_RSP, 0u8]
    } else {
        Seq::empty()
    }
}

/// Largest LL payload of a data length PDU field (capped at 251).
pub open spec fn pdu_max_field(b0: u8, b1: u8) -> usize {
    let v = u16_le(b0, b1);
    if v < 251 {
        v as usize
    } else {
        251
    }
}

/// What processing control payload `p` (non-empty) does: `c` before,
/// `d` after, `r` the outcome.
#[verifier::opaque]
pub open spec fn ll_control_post(c: Conn, d: Conn, p: Seq<u8>, r: Result<LlTx, DisconnectReason>) -> bool {
    let op = p[0];
    let imm = ll_immediate(c, op);
    &&& op == LL_CONTROL_TERMINATE_IND ==> r == Err::<LlTx, DisconnectReason>(
        DisconnectReason::RemoteTerminate,
    ) && d == c
    &&& op == LL_CONTROL_VERSION_IND ==> r == Ok::<LlTx, DisconnectReason>(
        LlTx::Send { len: 8, encrypt: false },
    ) && d.tx_buf@ == splice(c.tx_buf@, 0, imm) && d == (Conn {
        tx_buf: d.tx_buf,
        peer_version_ok: true,
        ..c
    })
    &&& (op == LL_CONTROL_FEATURE_REQ || op == LL_CONTROL_FEATURE_RSP) ==> r == Ok::<
        LlTx,
        DisconnectReason,
    >(LlTx::Send { len: 11, encrypt: false }) && d.tx_buf@ == splice(c.tx_buf@, 0, imm) && d == (
    Conn { tx_buf: d.tx_buf, ..c })
    &&& op == LL_CONTROL_START_ENC_REQ ==> r == Ok::<LlTx, DisconnectReason>(
        LlTx::Send { len: 3, encrypt: c.encrypted },
    ) && d.tx_buf@ == splice(c.tx_buf@, 0, imm) && d == (Conn {
        tx_buf: d.tx_buf,
        encrypted: true,
        packet_counter: 0,
        ..c
    })
    &&& op == LL_CONTROL_START_ENC_RSP ==> r == Ok::<LlTx, DisconnectReason>(LlTx::Nothing) && d
        == (Conn { encrypted: true, packet_counter: 0, ..c })
    &&& (op == LL_CONTROL_LENGTH_REQ || op == LL_CONTROL_LENGTH_RSP) ==> r == Ok::<
        LlTx,
        DisconnectReason,
    >(LlTx::Nothing) && ctrl_view(d.pending_control) == (if op == LL_CONTROL_LENGTH_REQ {
        Some(ll_reply(p))
    } else {
        ctrl_view(c.pending_control)
    }) && d == (Conn {
        pending_control: d.pending_control,
        tx_pdu_max: pdu_max_field(p[1], p[2]),
        rx_pdu_max: pdu_max_field(p[5], p[6]),
        ..c
    })
    &&& op == LL_CONTROL_CONNECTION_UPDATE_REQ ==> r == Ok::<LlTx, DisconnectReason>(LlTx::Nothing)
        && d == (if p.len() >= 10 {
        Conn {
            pending_update: Some((u16_le(p[3], p[4]), u16_le(p[7], p[8]))),
            pending_update_instant: u16_le(p[9], p[10]),
            ..c
        }
    } else {
        c
    })
    &&& op == LL_CONTROL_ENCRYPT_REQ ==> r == Ok::<LlTx, DisconnectReason>(LlTx::Nothing)
        && ctrl_view(d.pending_control) == Some(ll_reply(p)) && d == (Conn {
        pending_control: d.pending_control,
        want_encrypt: true,
        ..c
    })
    &&& (ll_queues_reply(op) && op != LL_CONTROL_ENCRYPT_REQ && op != LL_CONTROL_LENGTH_REQ) ==> r
        == Ok::<LlTx, DisconnectReason>(LlTx::Nothing) && ctrl_view(d.pending_control) == Some(
        ll_reply(p),
    ) && d == (Conn { pending_control: d.pending_control, ..c })
}

fn control_pdu(b0: u8, b1: u8) -> (r: [u8; 19])
    ensures
        r@ == ctrl19(seq![b0, b1]),
{
    let mut r = [0u8; 19];
    r[0] = b0;
    r[1] = b1;
    assert(r@ =~= ctrl19(seq![b0, b1]));
    r
}

/// The queued answer to a control opcode that is answered later.
fn ll_reply_pdu(payload: &[u8]) -> (r: [u8; 19])
    requires
        payload@.len() > 0,
        ll_queues_reply(payload@[0]),
        payload@[0] != LL_CONTROL_LENGTH_REQ,
    ensures
        r@ == ll_reply(payload@),
{
    let op = payload[0];
    if op == LL_CONTROL_ENCRYPT_REQ {
        control_pdu(LL_CONTROL_ENCRYPT_RSP, 0)
    } else if op == LL_CONTROL_ENCRYPT_RSP {
        control_pdu(LL_CONTROL_START_ENC_REQ, 0)
    } else if op == LL_CONTROL_PING_REQ {
        control_pdu(LL_CONTROL_PING_RSP, 0)
    } else if op == LL_CONTROL_PHY_REQ {
        let mut rsp = [0u8; 19];
        rsp[0] = LL_CONTROL_PHY_RSP;
        rsp[1] = 0;
        rsp[2] = 0x01;
        rsp[3] = 0x01;
        rsp[4] = 0x01;
        assert(rsp@ =~= ll_reply(payload@));
        rsp
    } else {
        control_pdu(LL_CONTROL_UNKNOWN_RSP, op)
    }
}

impl Conn {
    /// Queue LL_ENC_REQ (all-zero parameters) and mark encryption wanted.
    pub fn queue_encrypt_req(&mut self)
        ensures
            ctrl_view(final(self).pending_control) == Some(ctrl19(seq![LL_CONTROL_ENCRYPT_REQ])),
            *final(self) == (Conn {
                pending_control: final(self).pending_control,
                want_encrypt: true,
                ..*old(self)
            }),
    {
        let ctrl = control_pdu(LL_CONTROL_ENCRYPT_REQ, 0);
        assert(ctrl@ =~= ctrl19(seq![LL_CONTROL_ENCRYPT_REQ]));
        self.pending_control = Some(ctrl);
        self.want_encrypt = true;
    }

    /// Process an LL control PDU payload from the peer. A terminate ends
    /// the link; version, feature and encryption-start exchanges are
    /// answered right away from `tx_buf` (see the returned [`LlTx`]);
    /// other procedures queue their answer in `pending_control`.
    pub fn handle_ll_control(&mut self, payload: &[u8]) -> (r: Result<LlTx, DisconnectReason>)
        requires
            old(self).wf(),
            ll_control_accepts(payload@),
        ensures
            final(self).wf(),
            payload@.len() == 0 ==> r == Ok::<LlTx, DisconnectReason>(LlTx::Nothing)
                && *final(self) == *old(self),
            payload@.len() > 0 ==> ll_control_post(*old(self), *final(self), payload@, r),
    {
        if payload.len() == 0 {
            return Ok(LlTx::Nothing);
        }
        let op = payload[0];
        if op == LL_CONTROL_TERMINATE_IND {
            proof {
                reveal(ll_control_post);
            }
            Err(DisconnectReason::RemoteTerminate)
        } else if op == LL_CONTROL_VERSION_IND {
            self.ll_send_version(payload)
        } else if op == LL_CONTROL_FEATURE_REQ || op == LL_CONTROL_FEATURE_RSP {
            self.ll_send_features(payload)
        } else if op == LL_CONTROL_START_ENC_REQ {
            self.ll_start_enc_rsp(payload)
        } else if op == LL_CONTROL_START_ENC_RSP {
            self.ll_start_enc_done(payload)
        } else if op == LL_CONTROL_LENGTH_REQ || op == LL_CONTROL_LENGTH_RSP {
            self.ll_data_length(payload)
        } else if op == LL_CONTROL_CONNECTION_UPDATE_REQ {
            self.ll_connection_update(payload)
        } else {
            self.ll_queue_reply(payload)
        }
    }

    fn ll_send_version(&mut self, payload: &[u8]) -> (r: Result<LlTx, DisconnectReason>)
        requires
            old(self).wf(),
            payload@.len() > 0,
            payload@[0] == LL_CONTROL_VERSION_IND,
        ensures
            final(self).wf(),
            ll_control_post(*old(self), *final(self), payload@, r),
    {
        let h = header_byte(LLID_CONTROL, !self.nesn, self.sn);
        let mut b = self.tx_buf;
        b[0] = h;
        b[1] = 4;
        b[2] = LL_CONTROL_VERSION_IND;
        b[3] = 0x0C;
        b[4] = 0xFF;
        b[5] = 0xFF;
        b[6] = 0x00;
        b[7] = 0x00;
        assert(b@ =~= splice(old(self).tx_buf@, 0, ll_immediate(*old(self), LL_CONTROL_VERSION_IND)));
        self.tx_buf = b;
        self.peer_version_ok = true;
        proof {
            reveal(ll_control_post);
        }
        Ok(LlTx::Send { len: 8, encrypt: false })
    }

    fn ll_send_features(&mut self, payload: &[u8]) -> (r: Result<LlTx, DisconnectReason>)
        requires
            old(self).wf(),
            payload@.len() > 0,
            payload@[0] == LL_CONTROL_FEATURE_REQ || payload@[0] == LL_CONTROL_FEATURE_RSP,
        ensures
            final(self).wf(),
            ll_control_post(*old(self), *final(self), payload@, r),
    {
        let h = header_byte(LLID_CONTROL, !self.nesn, self.sn);
        let mut b = self.tx_buf;
        b[0] = h;
        b[1] = 9;
        b[2] = LL_CONTROL_FEATURE_RSP;
        let mut i: usize = 3;
        while i < 11
            invariant
                3 <= i <= 11,
                b@.len() == 64,
                forall|j: int| 11 <= j < 64 ==> b@[j] == old(self).tx_buf@[j],
                forall|j: int| 3 <= j < i ==> b@[j] == 0,
                b@[0] == h && b@[1] == 9 && b@[2] == LL_CONTROL_FEATURE_RSP,
            decreases 11 - i,
        {
            b[i] = 0;
            i += 1;
        }
        assert(b@ =~= splice(old(self).tx_buf@, 0, ll_immediate(*old(self), LL_CONTROL_FEATURE_RSP)));
        self.tx_buf = b;
        proof {
            reveal(ll_control_post);
        }
        Ok(LlTx::Send { len: 11, encrypt: false })
    }

    fn ll_start_enc_rsp(&mut self, payload: &[u8]) -> (r: Result<LlTx, DisconnectReason>)
        requires
            old(self).wf(),
            payload@.len() > 0,
            payload@[0] == LL_CONTROL_START_ENC_REQ,
        ensures
            final(self).wf(),
            ll_control_post(*old(self), *final(self), payload@, r),
    {
        let was_encrypted = self.encrypted;
        let h = header_byte(LLID_CONTROL, !self.nesn, self.sn);
        let mut b = self.tx_buf;
        b[0] = h;
        b[1] = 1;
        b[2] = LL_CONTROL_START_ENC_RSP;
        b[3] = 0;
        assert(b@ =~= splice(old(self).tx_buf@, 0, ll_immediate(*old(self), LL_CONTROL_START_ENC_REQ)));
        self.tx_buf = b;
        self.encrypted = true;
        self.packet_counter = 0;
        proof {
            reveal(ll_control_post);
        }
        Ok(LlTx::Send { len: 3, encrypt: was_encrypted })
    }

    fn ll_start_enc_done(&mut self, payload: &[u8]) -> (r: Result<LlTx, DisconnectReason>)
        requires
            old(self).wf(),
            payload@.len() > 0,
            payload@[0] == LL_CONTROL_START_ENC_RSP,
        ensures
            final(self).wf(),
            ll_control_post(*old(self), *final(self), payload@, r),
    {
        self.encrypted = true;
        self.packet_counter = 0;
        proof {
            reveal(ll_control_post);
        }
        Ok(LlTx::Nothing)
    }

    fn ll_data_length(&mut self, payload: &[u8]) -> (r: Result<LlTx, DisconnectReason>)
        requires
            old(self).wf(),
            payload@.len() >= 7,
            payload@[0] == LL_CONTROL_LENGTH_REQ || payload@[0] == LL_CONTROL_LENGTH_RSP,
        ensures
            final(self).wf(),
            ll_control_post(*old(self), *final(self), payload@, r),
    {
        let max_tx = (payload[1] as u16) | ((payload[2] as u16) << 8);
        let max_rx = (payload[5] as u16) | ((payload[6] as u16) << 8);
        if payload[0] == LL_CONTROL_LENGTH_REQ {
            let mut rsp = [0u8; 19];
            rsp[0] = LL_CONTROL_LENGTH_RSP;
            rsp[1] = 251;
            rsp[2] = 0;
            rsp[3] = 0x48;
            rsp[4] = 0x08;
            rsp[5] = 251;
            rsp[6] = 0;
            rsp[7] = 0x48;
            rsp[8] = 0x08;
            assert(251u16 as u8 == 251u8 && (251u16 >> 8u16) as u8 == 0u8) by (bit_vector);
            assert(2120u16 as u8 == 0x48u8 && (2120u16 >> 8u16) as u8 == 0x08u8) by (bit_vector);
            assert(le16(251) =~= seq![251u8, 0u8]);
            assert(le16(2120) =~= seq![0x48u8, 0x08u8]);
            assert(rsp@ =~= ll_reply(payload@));
            self.pending_control = Some(rsp);
        }
        self.tx_pdu_max = if (max_tx as usize) < LL_PDU_PAYLOAD_MAX {
            max_tx as usize
        } else {
            LL_PDU_PAYLOAD_MAX
        };
        self.rx_pdu_max = if (max_rx as usize) < LL_PDU_PAYLOAD_MAX {
            max_rx as usize
        } else {
            LL_PDU_PAYLOAD_MAX
        };
        proof {
            reveal(ll_control_post);
        }
        Ok(LlTx::Nothing)
    }

    fn ll_connection_update(&mut self, payload: &[u8]) -> (r: Result<LlTx, DisconnectReason>)
        requires
            old(self).wf(),
            payload@.len() > 0,
            payload@.len() != 10,
            payload@[0] == LL_CONTROL_CONNECTION_UPDATE_REQ,
        ensures
            final(self).wf(),
            ll_control_post(*old(self), *final(self), payload@, r),
    {
        if payload.len() >= 10 {
            let interval = (payload[3] as u16) | ((payload[4] as u16) << 8);
            let timeout = (payload[7] as u16) | ((payload[8] as u16) << 8);
            let instant = (payload[9] as u16) | ((payload[10] as u16) << 8);
            self.pending_update = Some((interval, timeout));
            self.pending_update_instant = instant;
        }
        proof {
            reveal(ll_control_post);
        }
        Ok(LlTx::Nothing)
    }

    fn ll_queue_reply(&mut self, payload: &[u8]) -> (r: Result<LlTx, DisconnectReason>)
        requires
            old(self).wf(),
            payload@.len() > 0,
            ll_queues_reply(payload@[0]),
            payload@[0] != LL_CONTROL_LENGTH_REQ,
        ensures
            final(self).wf(),
            ll_control_post(*old(self), *final(self), payload@, r),
    {
        let rsp = ll_reply_pdu(payload);
        self.pending_control = Some(rsp);
        if payload[0] == LL_CONTROL_ENCRYPT_REQ {
            self.want_encrypt = true;
        }
        proof {
            reveal(ll_control_post);
        }
        Ok(LlTx::Nothing)
    }
}

/// Control opcodes the link layer knows: those it answers at once, those it
/// acts on without answering, and the requests it answers later.
pub open spec fn ll_known_op(op: u8) -> bool {
    op == 0x00 || op == 0x02 || op == 0x03 || op == 0x04 || op == 0x05 || op == 0x06 || op == 0x08
        || op == 0x09 || op == 0x0C || op == 0x12 || op == 0x14 || op == 0x15 || op == 0x16
}

/// Every LL control request answered later queues its own response:
/// LL_ENC_REQ (0x03) queues LL_ENC_RSP (0x04) with zero parameters and
/// marks encryption wanted; LL_ENC_RSP (0x04) queues LL_START_ENC_REQ
/// (0x05); LL_PING_REQ (0x12) queues LL_PING_RSP (0x13); LL_LENGTH_REQ
/// (0x14) queues LL_LENGTH_RSP (0x15); LL_PHY_REQ (0x16) queues LL_PHY_RSP
/// (0x17); an opcode the link layer does not know is answered with
/// LL_UNKNOWN_RSP (0x07) naming it. None of these sends anything at once.
pub proof fn lemma_ll_request_answered(
    c: Conn,
    d: Conn,
    p: Seq<u8>,
    r: Result<LlTx, DisconnectReason>,
)
    requires
        p.len() > 0,
        ll_control_post(c, d, p, r),
    ensures
        p[0] == 0x03 ==> d.want_encrypt,
        p[0] == 0x03 ==> (ctrl_view(d.pending_control) matches Some(q) && q.len() == 19 && q[0]
            == 0x04 && forall|i: int| 1 <= i < 19 ==> q[i] == 0),
        p[0] == 0x04 ==> (ctrl_view(d.pending_control) matches Some(q) && q.len() == 19 && q[0]
            == 0x05),
        p[0] == 0x12 ==> (ctrl_view(d.pending_control) matches Some(q) && q.len() == 19 && q[0]
            == 0x13),
        p[0] == 0x14 ==> (ctrl_view(d.pending_control) matches Some(q) && q.len() == 19 && q[0]
            == 0x15),
        p[0] == 0x16 ==> (ctrl_view(d.pending_control) matches Some(q) && q.len() == 19 && q[0]
            == 0x17),
        !ll_known_op(p[0]) ==> (ctrl_view(d.pending_control) matches Some(q) && q.len() == 19
            && q[0] == 0x07 && q[1] == p[0]),
        (p[0] == 0x03 || p[0] == 0x04 || p[0] == 0x12 || p[0] == 0x14 || p[0] == 0x16
            || !ll_known_op(p[0])) ==> r == Ok::<LlTx, DisconnectReason>(LlTx::Nothing),
{
    reveal(ll_control_post);
}

} // verus!
