//! The decisions of a connection event: scheduling the anchor and channel,
//! processing the received PDU and choosing what to send back. The radio
//! work between these steps belongs to the caller.
use vstd::prelude::*;

use crate::bytes::{copy_into, splice};
use crate::hw::att::is_att_rsp_op;
use crate::hw::conn::{
    channel_used, dist37, add37, frag_bytes, frag_chunk, frag_fits, frag_payload_len, header_byte,
    next_channel, Conn, ConnEvent, DisconnectReason, L2CAP_ATT_CID, L2CAP_SIGNALING_CID,
    LE_CREDIT_BASED_CONNECTION_RSP, LL_CONTROL_CONNECTION_UPDATE_REQ, LL_CONTROL_LENGTH_REQ,
    LL_CONTROL_LENGTH_RSP, LL_CONTROL_TERMINATE_IND,
};
use crate::hw::l2cap_rx::{l2cap_accepts, l2cap_post};
use crate::hw::ll_control::{ll_control_accepts, ll_control_post, LlTx};
use crate::hw::timers::IntervalAccum;
use crate::ll::pdu::{
    data_decode_spec, data_hdr0, DataPdu, LLID_CONTROL, LLID_DATA_COMPLETE,
    LLID_DATA_CONTINUATION_OR_COMPLETE,
};
use crate::Error;

verus! {

/// The connection parameter update takes effect at this event.
pub open spec fn update_due(c: Conn, counter: u16) -> bool {
    c.pending_update is Some && counter == c.pending_update_instant
}

/// The next data channel (the `next_channel` rule) for `c`.
pub open spec fn hop_ok(c: Conn, ch: u8) -> bool {
    let start = (c.channel + c.hop) % 37;
    &&& ch < 37
    &&& forall|k: int|
        0 <= k < dist37(start, ch as int) ==> !#[trigger] channel_used(
            c.channel_map@,
            add37(start, k),
        )
    &&& channel_used(c.channel_map@, ch as int) || (ch == start && forall|x: int|
        0 <= x < 37 ==> !#[trigger] channel_used(c.channel_map@, x))
}

/// The state the received packet is processed in: sequence number
/// acknowledged and the reception time noted.
pub open spec fn rx_base(c: Conn, sn: bool, now: u32) -> Conn {
    Conn { last_rx: now, nesn: sn, ..c }
}

/// Received packets that are processed without reading past their end.
pub open spec fn rx_accepts(c: Conn, pkt: Seq<u8>, now: u32) -> bool {
    match data_decode_spec(pkt) {
        Ok(m) => m.payload.len() > 0 ==> {
            &&& m.llid == LLID_CONTROL ==> ll_control_accepts(m.payload)
            &&& m.llid != LLID_CONTROL ==> l2cap_accepts(rx_base(c, m.sn, now), m.payload, m.llid)
        },
        Err(_) => true,
    }
}

/// What `respond` builds: `c` before, `d` after, `n` the packet length.
#[verifier::opaque]
pub open spec fn respond_post(c: Conn, d: Conn, n: usize) -> bool {
    match c.pending_control {
        Some(ctrl) => {
            &&& n == 20
            &&& d.tx_buf@ == splice(
                c.tx_buf@,
                0,
                seq![data_hdr0(LLID_CONTROL, !c.nesn, c.sn, false), 18u8] + ctrl@.take(18),
            )
            &&& d == (Conn { tx_buf: d.tx_buf, pending_control: None, ..c })
        },
        None => if c.tx_pending {
            &&& n == 2 + frag_payload_len(c)
            &&& d.tx_buf@ == splice(c.tx_buf@, 0, frag_bytes(c))
            &&& d == (Conn {
                tx_buf: d.tx_buf,
                tx_frag_offset: if c.tx_frag_offset + frag_chunk(c) >= c.tx_att_len {
                    0
                } else {
                    (c.tx_frag_offset + frag_chunk(c)) as usize
                },
                tx_pending: c.tx_frag_offset + frag_chunk(c) < c.tx_att_len,
                sn: !c.sn,
                ..c
            })
        } else {
            &&& n == 2
            &&& d.tx_buf@ == splice(
                c.tx_buf@,
                0,
                seq![data_hdr0(LLID_DATA_COMPLETE, !c.nesn, c.sn, false), 0u8],
            )
            &&& d == (Conn { tx_buf: d.tx_buf, ..c })
        },
    }
}

/// The LL_TERMINATE_IND packet (reason: remote user terminated).
pub open spec fn terminate_pdu(c: Conn) -> Seq<u8> {
    seq![data_hdr0(LLID_CONTROL, !c.nesn, c.sn, false), 2u8, LL_CONTROL_TERMINATE_IND, 0x13u8]
}

/// What processing a received packet does (peripheral role): `c` before,
/// `d` after, `r` the outcome.
#[verifier::opaque]
pub open spec fn receive_post(
    c: Conn,
    d: Conn,
    pkt: Seq<u8>,
    now: u32,
    r: Result<(ConnEvent, LlTx), Error>,
) -> bool {
    match data_decode_spec(pkt) {
        Err(_) => r == Err::<(ConnEvent, LlTx), Error>(Error::InvalidPdu) && d == c,
        Ok(m) => {
            let b = rx_base(c, m.sn, now);
            if m.payload.len() == 0 {
                d == b && r == Ok::<(ConnEvent, LlTx), Error>((ConnEvent::Idle, LlTx::Nothing))
            } else if m.llid == LLID_CONTROL {
                exists|rr: Result<LlTx, DisconnectReason>|
                    #![trigger ll_control_post(b, d, m.payload, rr)]
                    ll_control_post(b, d, m.payload, rr) && r == match rr {
                        Ok(tx) => Ok::<(ConnEvent, LlTx), Error>(
                            (ConnEvent::Control(m.payload[0]), tx),
                        ),
                        Err(reason) => Ok((ConnEvent::Disconnected(reason), LlTx::Nothing)),
                    }
            } else {
                exists|ev: ConnEvent|
                    #![trigger l2cap_post(b, d, m.payload, m.llid, ConnEvent::Idle, ev)]
                    l2cap_post(b, d, m.payload, m.llid, ConnEvent::Idle, ev) && r == Ok::<
                        (ConnEvent, LlTx),
                        Error,
                    >((ev, LlTx::Nothing))
            }
        },
    }
}

/// What processing a received packet does (central role): `c` before,
/// `d` after, `r` the outcome. Control PDUs are reported, not answered.
#[verifier::opaque]
pub open spec fn master_receive_post(c: Conn, d: Conn, pkt: Seq<u8>, now: u32, r: ConnEvent) -> bool {
    match data_decode_spec(pkt) {
        Err(_) => d == (Conn { last_rx: now, ..c }) && r == ConnEvent::Idle,
        Ok(m) => {
            let b = rx_base(c, m.sn, now);
            if m.payload.len() == 0 {
                d == b && r == ConnEvent::Idle
            } else if m.llid == LLID_CONTROL {
                d == b && r == if m.payload[0] == LL_CONTROL_TERMINATE_IND {
                    ConnEvent::Disconnected(DisconnectReason::RemoteTerminate)
                } else {
                    ConnEvent::Control(m.payload[0])
                }
            } else {
                l2cap_post(b, d, m.payload, m.llid, ConnEvent::Idle, r)
            }
        },
    }
}

proof fn lemma_l2cap_accepts_rx_base(c: Conn, sn: bool, now: u32, p: Seq<u8>, llid: u8)
    ensures
        l2cap_accepts(rx_base(c, sn, now), p, llid) == l2cap_accepts(c, p, llid),
{
    reveal(l2cap_accepts);
}

impl Conn {
    /// An ATT PDU of `len` bytes starting with opcode `op` is handled
    /// without reading past its end.
    fn att_fits(&self, op: u8, len: usize) -> (r: bool)
        ensures
            r == (len > 0 && !(self.pending_request && is_att_rsp_op(op)) ==> {
                &&& (op == 0x1B || op == 0x0A || op == 0x12) ==> len >= 3
                &&& (op == 0x04 || op == 0x0C) ==> len >= 5
                &&& (op == 0x08 || op == 0x10) ==> len >= 7
            }),
    {
        if len == 0 {
            return true;
        }
        let rsp = op == 0x01 || op == 0x03 || op == 0x09 || op == 0x0B || op == 0x11 || op == 0x13
            || op == 0x15 || op == 0x17;
        if self.pending_request && rsp {
            return true;
        }
        if (op == 0x1B || op == 0x0A || op == 0x12) && len < 3 {
            return false;
        }
        if (op == 0x04 || op == 0x0C) && len < 5 {
            return false;
        }
        !((op == 0x08 || op == 0x10) && len < 7)
    }

    /// A received L2CAP fragment `p` with LLID `llid` is handled without
    /// reading past its end (see [`l2cap_accepts`]).
    pub fn fragment_accepted(&self, p: &[u8], llid: u8) -> (r: bool)
        requires
            self.wf(),
        ensures
            r == l2cap_accepts(*self, p@, llid),
    {
        proof {
            reveal(l2cap_accepts);
        }
        let first = llid != LLID_DATA_CONTINUATION_OR_COMPLETE || self.rx_l2cap_len == 0;
        let has_hdr = p.len() >= 4;
        let cid: u16 = if has_hdr {
            (p[2] as u16) | ((p[3] as u16) << 8)
        } else {
            0
        };
        if first && has_hdr && cid == L2CAP_SIGNALING_CID {
            let blen = p.len() - 4;
            if blen >= 4 && p[4] == LE_CREDIT_BASED_CONNECTION_RSP && self.coc.is_some() && blen
                < 12 {
                return false;
            }
        }
        let to_att = !first || (has_hdr && cid == L2CAP_ATT_CID);
        if !to_att {
            return true;
        }
        let len0: usize = if first {
            0
        } else {
            self.rx_l2cap_len
        };
        let msg_len: usize = if first {
            ((p[0] as u16) | ((p[1] as u16) << 8)) as usize
        } else {
            self.rx_l2cap_msg_len
        };
        let blen: usize = if first {
            p.len() - 4
        } else {
            p.len()
        };
        let room: usize = 256 - len0;
        let n: usize = if blen < room {
            blen
        } else {
            room
        };
        let msg: usize = if msg_len < 256 {
            msg_len
        } else {
            256
        };
        if len0 + n < msg {
            return true;
        }
        let op = if len0 == 0 && n > 0 {
            if first {
                p[4]
            } else {
                p[0]
            }
        } else {
            self.rx_l2cap[0]
        };
        self.att_fits(op, msg)
    }

    /// A packet received at `now` is handled without reading past its end
    /// (see [`rx_accepts`]).
    pub fn receive_accepted(&self, pkt: &[u8], now: u32) -> (r: bool)
        requires
            self.wf(),
        ensures
            r == rx_accepts(*self, pkt@, now),
    {
        match DataPdu::decode(pkt) {
            Err(_) => true,
            Ok(pdu) => {
                let p = pdu.payload;
                if p.len() == 0 {
                    return true;
                }
                if pdu.llid == LLID_CONTROL {
                    let op = p[0];
                    if (op == LL_CONTROL_LENGTH_REQ || op == LL_CONTROL_LENGTH_RSP) && p.len() < 7 {
                        return false;
                    }
                    !(op == LL_CONTROL_CONNECTION_UPDATE_REQ && p.len() == 10)
                } else {
                    proof {
                        lemma_l2cap_accepts_rx_base(*self, pdu.sn, now, p@, pdu.llid);
                    }
                    self.fragment_accepted(p, pdu.llid)
                }
            },
        }
    }

    /// Begin a connection event: count it, apply a connection update due
    /// at this event, advance the anchor by one interval and hop to the
    /// next data channel (returned).
    pub fn event_start(&mut self) -> (ch: u8)
        requires
            old(self).wf(),
            old(self).channel + old(self).hop <= u8::MAX,
        ensures
            final(self).wf(),
            ch == final(self).channel,
            hop_ok(*old(self), ch),
            ({
                let counter = old(self).event_counter.wrapping_add(1);
                let due = update_due(*old(self), counter);
                let interval = if due {
                    old(self).pending_update.unwrap().0
                } else {
                    old(self).interval
                };
                let acc = if due {
                    (1250nat, 0nat)
                } else {
                    old(self).accum@
                };
                let ticks = ((acc.1 + interval * acc.0) / 32) as u32;
                &&& final(self).accum@ == (acc.0, ((acc.1 + interval * acc.0) % 32) as nat)
                &&& *final(self) == (Conn {
                    event_counter: counter,
                    packet_counter: if old(self).encrypted {
                        old(self).packet_counter.wrapping_add(1)
                    } else {
                        old(self).packet_counter
                    },
                    interval,
                    timeout: if due {
                        old(self).pending_update.unwrap().1
                    } else {
                        old(self).timeout
                    },
                    accum: final(self).accum,
                    anchor: old(self).anchor.wrapping_add(ticks),
                    channel: ch,
                    ..*old(self)
                })
            }),
    {
        self.event_counter = self.event_counter.wrapping_add(1);
        if self.encrypted {
            self.packet_counter = self.packet_counter.wrapping_add(1);
        }
        match self.pending_update {
            Some((interval, timeout)) => {
                if self.event_counter == self.pending_update_instant {
                    self.interval = interval;
                    self.timeout = timeout;
                    self.accum = IntervalAccum::new_125ms();
                }
            },
            None => {},
        }
        let ticks = self.accum.next(self.interval);
        self.anchor = self.anchor.wrapping_add(ticks);
        self.channel = next_channel(self.channel, self.hop, &self.channel_map);
        self.channel
    }

    /// Build the packet to send in this event into `tx_buf`: a queued
    /// control PDU, else the next fragment of the queued L2CAP frame
    /// (advancing our sequence number), else an empty PDU. Returns its
    /// length.
    pub fn respond(&mut self) -> (n: usize)
        requires
            old(self).wf(),
            old(self).pending_control is None && old(self).tx_pending ==> frag_fits(*old(self)),
        ensures
            final(self).wf(),
            respond_post(*old(self), *final(self), n),
    {
        match self.pending_control {
            Some(ctrl) => {
                let h = header_byte(LLID_CONTROL, !self.nesn, self.sn);
                let mut b = self.tx_buf;
                b[0] = h;
                b[1] = 18;
                copy_into(&mut b, 2, &ctrl[0..18]);
                assert(b@ =~= splice(old(self).tx_buf@, 0, seq![h, 18u8] + ctrl@.take(18)));
                self.tx_buf = b;
                self.pending_control = None;
                proof {
                    reveal(respond_post);
                }
                20
            },
            None => {
                if self.tx_pending {
                    let total = self.tx_fragment();
                    self.sn = !self.sn;
                    proof {
                        reveal(respond_post);
                    }
                    total
                } else {
                    let h = header_byte(LLID_DATA_COMPLETE, !self.nesn, self.sn);
                    let mut b = self.tx_buf;
                    b[0] = h;
                    b[1] = 0;
                    assert(b@ =~= splice(old(self).tx_buf@, 0, seq![h, 0u8]));
                    self.tx_buf = b;
                    proof {
                        reveal(respond_post);
                    }
                    2
                }
            },
        }
    }

    /// End of a connection event: a requested termination is sent
    /// (LL_TERMINATE_IND, unencrypted, 4 bytes) and ends the link;
    /// otherwise the regular answer is built. Returns the end of the link
    /// if any, and the packet length in `tx_buf`.
    pub fn event_reply(&mut self) -> (r: (Option<DisconnectReason>, usize))
        requires
            old(self).wf(),
            !old(self).terminate_pending && old(self).pending_control is None
                && old(self).tx_pending ==> frag_fits(*old(self)),
        ensures
            final(self).wf(),
            old(self).terminate_pending ==> r == (Some(DisconnectReason::HostTerminate), 4usize)
                && final(self).tx_buf@ == splice(old(self).tx_buf@, 0, terminate_pdu(*old(self)))
                && *final(self) == (Conn { tx_buf: final(self).tx_buf, ..*old(self) }),
            !old(self).terminate_pending ==> r.0 is None && respond_post(
                *old(self),
                *final(self),
                r.1,
            ),
    {
        if self.terminate_pending {
            let h = header_byte(LLID_CONTROL, !self.nesn, self.sn);
            let mut b = self.tx_buf;
            b[0] = h;
            b[1] = 2;
            b[2] = LL_CONTROL_TERMINATE_IND;
            b[3] = 0x13;
            assert(b@ =~= splice(old(self).tx_buf@, 0, terminate_pdu(*old(self))));
            self.tx_buf = b;
            return (Some(DisconnectReason::HostTerminate), 4);
        }
        let n = self.respond();
        (None, n)
    }

    /// Process a packet received in a connection event (peripheral role):
    /// acknowledge it, answer LL control procedures (a packet to send at
    /// once is returned as [`LlTx`]) and hand data to L2CAP.
    pub fn event_receive(&mut self, pkt: &[u8], now: u32) -> (r: Result<(ConnEvent, LlTx), Error>)
        requires
            old(self).wf(),
            rx_accepts(*old(self), pkt@, now),
        ensures
            final(self).wf(),
            receive_post(*old(self), *final(self), pkt@, now, r),
    {
        let pdu = match DataPdu::decode(pkt) {
            Ok(p) => p,
            Err(_) => {
                proof {
                    reveal(receive_post);
                }
                return Err(Error::InvalidPdu);
            },
        };
        self.last_rx = now;
        let pdu_sn = pdu.sn;
        let llid = pdu.llid;
        let payload = pdu.payload;
        if payload.len() == 0 {
            if pdu_sn != self.nesn {
                self.nesn = pdu_sn;
            }
            proof {
                reveal(receive_post);
            }
            return Ok((ConnEvent::Idle, LlTx::Nothing));
        }
        if llid == LLID_CONTROL {
            if pdu_sn != self.nesn {
                self.nesn = pdu_sn;
            }
            let rr = self.handle_ll_control(payload);
            let r = match rr {
                Ok(tx) => Ok((ConnEvent::Control(payload[0]), tx)),
                Err(reason) => Ok((ConnEvent::Disconnected(reason), LlTx::Nothing)),
            };
            proof {
                reveal(receive_post);
            }
            r
        } else {
            if pdu_sn != self.nesn {
                self.nesn = pdu_sn;
            }
            let mut result = ConnEvent::Idle;
            self.handle_l2cap(payload, llid, &mut result);
            proof {
                reveal(receive_post);
            }
            Ok((result, LlTx::Nothing))
        }
    }

    /// Process a packet received in a connection event (central role):
    /// acknowledge it, report control PDUs (a terminate ends the link) and
    /// hand data to L2CAP; undecodable packets are ignored.
    pub fn event_master_receive(&mut self, pkt: &[u8], now: u32) -> (r: ConnEvent)
        requires
            old(self).wf(),
            rx_accepts(*old(self), pkt@, now),
        ensures
            final(self).wf(),
            master_receive_post(*old(self), *final(self), pkt@, now, r),
    {
        self.last_rx = now;
        let pdu = match DataPdu::decode(pkt) {
            Ok(p) => p,
            Err(_) => {
                proof {
                    reveal(master_receive_post);
                }
                return ConnEvent::Idle;
            },
        };
        if pdu.sn != self.nesn {
            self.nesn = pdu.sn;
        }
        let payload = pdu.payload;
        if payload.len() == 0 {
            proof {
                reveal(master_receive_post);
            }
            return ConnEvent::Idle;
        }
        if pdu.llid == LLID_CONTROL {
            proof {
                reveal(master_receive_post);
            }
            if payload[0] == LL_CONTROL_TERMINATE_IND {
                return ConnEvent::Disconnected(DisconnectReason::RemoteTerminate);
            }
            return ConnEvent::Control(payload[0]);
        }
        let mut result = ConnEvent::Idle;
        self.handle_l2cap(payload, pdu.llid, &mut result);
        proof {
            reveal(master_receive_post);
        }
        result
    }
}

} // verus!
