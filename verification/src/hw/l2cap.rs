//! L2CAP of a connection: LE signaling for credit-based channels, SDU
//! framing and reassembly, and the routing of incoming frames.
use vstd::prelude::*;

use crate::bytes::{copy_into, le16, splice, u16_le};
use crate::hw::conn::{
    cut, Coc, Conn, ConnEvent, COC_CREDITS, COC_LOCAL_CID, COC_MPS, COC_MTU,
    LE_CREDIT_BASED_CONNECTION_END, LE_CREDIT_BASED_CONNECTION_REQ,
    LE_CREDIT_BASED_CONNECTION_RSP, LE_FLOW_CONTROL_CREDIT, L2CAP_SIGNALING_CID,
};
use crate::Error;

verus! {

/// `a` capped at `b`.
pub open spec fn min16(a: u16, b: u16) -> u16 {
    if a < b {
        a
    } else {
        b
    }
}

/// `k` is a freshly opened channel with the given parameters.
pub open spec fn coc_opened(k: Coc, psm: u16, peer_cid: u16, mtu: u16, mps: u16, credits: u16) -> bool {
    &&& k.rx_sdu@ == Seq::new(256, |i: int| 0u8)
    &&& k.tx_sdu@ == Seq::new(256, |i: int| 0u8)
    &&& k == Coc {
        psm,
        local_cid: COC_LOCAL_CID,
        peer_cid,
        credits,
        peer_credits: 0,
        mtu,
        mps,
        rx_sdu: k.rx_sdu,
        rx_sdu_len: 0,
        rx_sdu_total: 0,
        tx_sdu: k.tx_sdu,
        tx_sdu_len: 0,
        tx_sdu_offset: 0,
    }
}

/// `d` is `c` with signaling message `msg` queued.
pub open spec fn signaling_queued(c: Conn, d: Conn, msg: Seq<u8>) -> bool {
    &&& d.tx_att@ == splice(c.tx_att@, 0, msg)
    &&& d == (Conn {
        tx_att: d.tx_att,
        tx_att_len: msg.len() as usize,
        tx_cid: L2CAP_SIGNALING_CID,
        tx_frag_offset: 0,
        tx_pending: true,
        ..c
    })
}

/// The credit-based connection request we send for `psm`.
pub open spec fn coc_connect_req(psm: u16) -> Seq<u8> {
    seq![LE_CREDIT_BASED_CONNECTION_REQ, 0u8] + le16(psm) + le16(COC_LOCAL_CID) + le16(COC_MTU)
        + le16(COC_MPS) + le16(COC_CREDITS)
}

/// Our answer accepting a peer's channel with CID `peer_cid`.
pub open spec fn coc_connect_rsp(peer_cid: u16) -> Seq<u8> {
    seq![LE_CREDIT_BASED_CONNECTION_RSP, 0u8] + le16(peer_cid) + le16(COC_MTU) + le16(COC_MPS)
        + le16(COC_CREDITS) + le16(0)
}

/// `cid` names the channel `k` (either end).
pub open spec fn coc_cid(k: Coc, cid: u16) -> bool {
    cid == k.local_cid || cid == k.peer_cid
}

/// Signaling messages that are processed without reading past their end:
/// a connection response for our open channel carries its result.
pub open spec fn signaling_accepts(c: Conn, body: Seq<u8>) -> bool {
    body.len() >= 4 && body[0] == LE_CREDIT_BASED_CONNECTION_RSP && c.coc is Some ==> body.len()
        >= 12
}

/// What handling LE signaling message `body` does: `c` before, `d` after.
#[verifier::opaque]
pub open spec fn signaling_post(c: Conn, d: Conn, body: Seq<u8>) -> bool {
    let code = body[0];
    if body.len() < 4 {
        d == c
    } else if code == LE_CREDIT_BASED_CONNECTION_REQ {
        if body.len() < 12 {
            d == c
        } else {
            let psm = u16_le(body[2], body[3]);
            let peer_cid = u16_le(body[4], body[5]);
            &&& d.coc matches Some(k) && coc_opened(
                k,
                psm,
                peer_cid,
                min16(u16_le(body[6], body[7]), COC_MTU),
                min16(u16_le(body[8], body[9]), COC_MPS),
                u16_le(body[10], body[11]),
            )
            &&& signaling_queued(Conn { coc: d.coc, ..c }, d, coc_connect_rsp(peer_cid))
        }
    } else if code == LE_CREDIT_BASED_CONNECTION_RSP {
        match c.coc {
            None => d == c,
            Some(k) => if u16_le(body[10], body[11]) == 0 {
                d == (Conn {
                    coc: Some(
                        Coc {
                            peer_cid: u16_le(body[2], body[3]),
                            mtu: min16(k.mtu, u16_le(body[4], body[5])),
                            mps: min16(k.mps, u16_le(body[6], body[7])),
                            peer_credits: u16_le(body[8], body[9]),
                            ..k
                        },
                    ),
                    ..c
                })
            } else {
                d == (Conn { coc: None, ..c })
            },
        }
    } else if code == LE_FLOW_CONTROL_CREDIT {
        match c.coc {
            Some(k) => if body.len() >= 6 && coc_cid(k, u16_le(body[2], body[3])) {
                d == (Conn {
                    coc: Some(
                        Coc {
                            credits: if k.credits + u16_le(body[4], body[5]) > u16::MAX {
                                u16::MAX
                            } else {
                                (k.credits + u16_le(body[4], body[5])) as u16
                            },
                            ..k
                        },
                    ),
                    ..c
                })
            } else {
                d == c
            },
            None => d == c,
        }
    } else if code == LE_CREDIT_BASED_CONNECTION_END {
        match c.coc {
            Some(k) => if coc_cid(k, u16_le(body[2], body[3])) {
                d == (Conn { coc: None, ..c })
            } else {
                d == c
            },
            None => d == c,
        }
    } else {
        d == c
    }
}


/// The flow control credit message returning one credit on `cid`.
pub open spec fn credit_msg(cid: u16) -> Seq<u8> {
    seq![LE_FLOW_CONTROL_CREDIT, 0u8] + le16(cid) + le16(1)
}

/// `n` capped at `cap`.
pub open spec fn cap_at(n: int, cap: int) -> int {
    if n < cap {
        n
    } else {
        cap
    }
}

/// The frame starts a new SDU.
pub open spec fn sdu_first(k: Coc) -> bool {
    k.rx_sdu_len == 0
}

/// Where the frame's bytes go in the SDU buffer.
pub open spec fn sdu_start(k: Coc) -> int {
    if sdu_first(k) {
        0
    } else {
        k.rx_sdu_len as int
    }
}

/// The SDU bytes the frame carries.
pub open spec fn sdu_chunk(k: Coc, body: Seq<u8>) -> Seq<u8> {
    if sdu_first(k) {
        body.skip(2)
    } else {
        body
    }
}

/// The SDU's announced length.
pub open spec fn sdu_total(k: Coc, body: Seq<u8>) -> int {
    if sdu_first(k) {
        u16_le(body[0], body[1]) as int
    } else {
        k.rx_sdu_total as int
    }
}

/// Bytes of the frame that fit the 256-byte SDU buffer.
pub open spec fn sdu_n(k: Coc, body: Seq<u8>) -> int {
    cap_at(sdu_chunk(k, body).len() as int, 256 - sdu_start(k))
}

/// The SDU buffer after the frame.
pub open spec fn sdu_buf(k: Coc, body: Seq<u8>) -> Seq<u8> {
    splice(k.rx_sdu@, sdu_start(k), sdu_chunk(k, body).take(sdu_n(k, body)))
}

/// The frame completes the SDU.
pub open spec fn sdu_complete(k: Coc, body: Seq<u8>) -> bool {
    sdu_start(k) + sdu_n(k, body) >= sdu_total(k, body)
}

/// What receiving frame payload `body` on the open channel does: `c` and
/// `r0` before, `d` and `r1` after. The first frame of an SDU starts
/// with the SDU length; the SDU is collected (up to 256 bytes) and, once
/// complete, handed over as data and one credit is returned.
#[verifier::opaque]
pub open spec fn coc_rx_post(c: Conn, d: Conn, body: Seq<u8>, r0: ConnEvent, r1: ConnEvent) -> bool {
    match c.coc {
        None => d == c && r1 == r0,
        Some(k) => if sdu_first(k) && body.len() < 2 {
            d == c && r1 == r0
        } else if sdu_complete(k, body) {
            let m = cap_at(cap_at(sdu_total(k, body), 256), 244);
            &&& r1 == ConnEvent::Data
            &&& d.coc matches Some(k2) && k2.rx_sdu@ == sdu_buf(k, body) && k2 == (Coc {
                rx_sdu: k2.rx_sdu,
                rx_sdu_len: 0,
                rx_sdu_total: 0,
                ..k
            })
            &&& d.rx_data@ == splice(c.rx_data@, 0, sdu_buf(k, body).take(m))
            &&& d.tx_att@ == splice(c.tx_att@, 0, credit_msg(k.peer_cid))
            &&& d == (Conn {
                coc: d.coc,
                rx_data: d.rx_data,
                rx_data_len: m as usize,
                tx_att: d.tx_att,
                tx_att_len: 6,
                tx_cid: L2CAP_SIGNALING_CID,
                tx_frag_offset: 0,
                tx_pending: true,
                ..c
            })
        } else {
            &&& r1 == r0
            &&& d.coc matches Some(k2) && k2.rx_sdu@ == sdu_buf(k, body) && k2 == (Coc {
                rx_sdu: k2.rx_sdu,
                rx_sdu_len: (sdu_start(k) + sdu_n(k, body)) as usize,
                rx_sdu_total: sdu_total(k, body) as usize,
                ..k
            })
            &&& d == (Conn { coc: d.coc, ..c })
        },
    }
}

/// Append a frame to the SDU being received; true when the SDU is
/// complete (the receive state is then reset).
fn sdu_collect(coc: &mut Coc, body: &[u8]) -> (complete: bool)
    requires
        old(coc).rx_sdu_len <= 256,
        !(sdu_first(*old(coc)) && body@.len() < 2),
    ensures
        complete == sdu_complete(*old(coc), body@),
        final(coc).rx_sdu@ == sdu_buf(*old(coc), body@),
        *final(coc) == (Coc {
            rx_sdu: final(coc).rx_sdu,
            rx_sdu_len: if complete {
                0
            } else {
                (sdu_start(*old(coc)) + sdu_n(*old(coc), body@)) as usize
            },
            rx_sdu_total: if complete {
                0
            } else {
                sdu_total(*old(coc), body@) as usize
            },
            ..*old(coc)
        }),
{
    if coc.rx_sdu_len == 0 {
        coc.rx_sdu_total = ((body[0] as u16) | ((body[1] as u16) << 8)) as usize;
        let chunk = &body[2..body.len()];
        let n = if chunk.len() < 256 {
            chunk.len()
        } else {
            256
        };
        copy_into(&mut coc.rx_sdu, 0, &chunk[0..n]);
        coc.rx_sdu_len = n;
        assert(chunk@ == body@.skip(2));
    } else {
        let room = 256 - coc.rx_sdu_len;
        let n = if body.len() < room {
            body.len()
        } else {
            room
        };
        let at = coc.rx_sdu_len;
        copy_into(&mut coc.rx_sdu, at, &body[0..n]);
        coc.rx_sdu_len = at + n;
    }
    if coc.rx_sdu_len >= coc.rx_sdu_total {
        coc.rx_sdu_len = 0;
        coc.rx_sdu_total = 0;
        true
    } else {
        false
    }
}

fn put16(buf: &mut [u8], at: usize, v: u16)
    requires
        at + 2 <= old(buf)@.len(),
    ensures
        final(buf)@ == splice(old(buf)@, at as int, le16(v)),
{
    buf[at] = v as u8;
    buf[at + 1] = (v >> 8) as u8;
    assert(buf@ =~= splice(old(buf)@, at as int, le16(v)));
}

impl Conn {
    /// Handle an LE signaling message: a peer's request opens a channel
    /// (answered at once), a response completes ours, credits are added,
    /// a disconnection closes the channel.
    pub fn handle_le_signaling(&mut self, body: &[u8])
        requires
            old(self).wf(),
            signaling_accepts(*old(self), body@),
        ensures
            final(self).wf(),
            body@.len() == 0 ==> *final(self) == *old(self),
            body@.len() > 0 ==> signaling_post(*old(self), *final(self), body@),
    {
        if body.len() < 4 {
            proof {
                reveal(signaling_post);
            }
            return;
        }
        let code = body[0];
        if code == LE_CREDIT_BASED_CONNECTION_REQ {
            self.signaling_open(body);
        } else if code == LE_CREDIT_BASED_CONNECTION_RSP {
            match self.coc {
                Some(k) => {
                    let peer_cid = (body[2] as u16) | ((body[3] as u16) << 8);
                    let mtu = (body[4] as u16) | ((body[5] as u16) << 8);
                    let mps = (body[6] as u16) | ((body[7] as u16) << 8);
                    let credits = (body[8] as u16) | ((body[9] as u16) << 8);
                    let result = (body[10] as u16) | ((body[11] as u16) << 8);
                    if result == 0 {
                        let mut k2 = k;
                        k2.peer_cid = peer_cid;
                        k2.mtu = if k.mtu < mtu {
                            k.mtu
                        } else {
                            mtu
                        };
                        k2.mps = if k.mps < mps {
                            k.mps
                        } else {
                            mps
                        };
                        k2.peer_credits = credits;
                        self.coc = Some(k2);
                    } else {
                        self.coc = None;
                    }
                },
                None => {},
            }
            proof {
                reveal(signaling_post);
            }
        } else if code == LE_FLOW_CONTROL_CREDIT {
            match self.coc {
                Some(k) => {
                    if body.len() >= 6 {
                        let cid = (body[2] as u16) | ((body[3] as u16) << 8);
                        let credits = (body[4] as u16) | ((body[5] as u16) << 8);
                        if cid == k.local_cid || cid == k.peer_cid {
                            let mut k2 = k;
                            k2.credits = k.credits.saturating_add(credits);
                            self.coc = Some(k2);
                        }
                    }
                },
                None => {},
            }
            proof {
                reveal(signaling_post);
            }
        } else if code == LE_CREDIT_BASED_CONNECTION_END {
            match self.coc {
                Some(k) => {
                    let cid = (body[2] as u16) | ((body[3] as u16) << 8);
                    if cid == k.local_cid || cid == k.peer_cid {
                        self.coc = None;
                    }
                },
                None => {},
            }
            proof {
                reveal(signaling_post);
            }
        } else {
            proof {
                reveal(signaling_post);
            }
        }
    }

    fn signaling_open(&mut self, body: &[u8])
        requires
            old(self).wf(),
            body@.len() >= 4,
            body@[0] == LE_CREDIT_BASED_CONNECTION_REQ,
        ensures
            final(self).wf(),
            signaling_post(*old(self), *final(self), body@),
    {
        if body.len() < 12 {
            proof {
                reveal(signaling_post);
            }
            return;
        }
        let psm = (body[2] as u16) | ((body[3] as u16) << 8);
        let peer_cid = (body[4] as u16) | ((body[5] as u16) << 8);
        let mtu = (body[6] as u16) | ((body[7] as u16) << 8);
        let mps = (body[8] as u16) | ((body[9] as u16) << 8);
        let credits = (body[10] as u16) | ((body[11] as u16) << 8);
        let mut coc = Coc::new(psm);
        coc.peer_cid = peer_cid;
        coc.mtu = if mtu < COC_MTU {
            mtu
        } else {
            COC_MTU
        };
        coc.mps = if mps < COC_MPS {
            mps
        } else {
            COC_MPS
        };
        coc.credits = credits;
        self.coc = Some(coc);
        let ghost mid = *self;
        let mut rsp = [0u8; 16];
        rsp[0] = LE_CREDIT_BASED_CONNECTION_RSP;
        rsp[1] = 0;
        put16(&mut rsp, 2, peer_cid);
        put16(&mut rsp, 4, COC_MTU);
        put16(&mut rsp, 6, COC_MPS);
        put16(&mut rsp, 8, COC_CREDITS);
        put16(&mut rsp, 10, 0);
        assert(cut(rsp@.take(12), 247) =~= coc_connect_rsp(peer_cid));
        self.queue_signaling(&rsp[0..12]);
        proof {
            reveal(signaling_post);
            assert(mid == (Conn { coc: self.coc, ..*old(self) }));
        }
    }

    /// Open a credit-based channel for `psm` (initiator side): queues the
    /// connection request; nothing happens while a channel is open.
    pub fn l2cap_connect(&mut self, psm: u16)
        requires
            old(self).wf(),
        ensures
            final(self).wf(),
            old(self).coc is Some ==> *final(self) == *old(self),
            old(self).coc is None ==> (final(self).coc matches Some(k) && coc_opened(
                k,
                psm,
                0,
                COC_MTU,
                COC_MPS,
                0,
            )) && signaling_queued(
                Conn { coc: final(self).coc, ..*old(self) },
                *final(self),
                coc_connect_req(psm),
            ),
    {
        if self.coc.is_some() {
            return;
        }
        self.coc = Some(Coc::new(psm));
        let ghost mid = *self;
        let mut req = [0u8; 12];
        req[0] = LE_CREDIT_BASED_CONNECTION_REQ;
        req[1] = 0;
        put16(&mut req, 2, psm);
        put16(&mut req, 4, COC_LOCAL_CID);
        put16(&mut req, 6, COC_MTU);
        put16(&mut req, 8, COC_MPS);
        put16(&mut req, 10, COC_CREDITS);
        assert(cut(req@, 247) =~= coc_connect_req(psm));
        self.queue_signaling(&req);
        assert(mid == (Conn { coc: self.coc, ..*old(self) }));
    }

    /// Send `data` as one SDU on the open channel (framed with its
    /// length), consuming one credit.
    pub fn l2cap_send(&mut self, data: &[u8]) -> (r: Result<(), Error>)
        requires
            old(self).wf(),
        ensures
            final(self).wf(),
            old(self).coc is None ==> r == Err::<(), Error>(Error::NotRunning) && *final(self)
                == *old(self),
            old(self).coc matches Some(k) ==> {
                &&& (data@.len() > k.mtu || data@.len() + 2 > 251) ==> r == Err::<(), Error>(
                    Error::InvalidLength,
                ) && *final(self) == *old(self)
                &&& !(data@.len() > k.mtu || data@.len() + 2 > 251) && k.credits == 0 ==> r
                    == Err::<(), Error>(Error::NotRunning) && *final(self) == *old(self)
                &&& !(data@.len() > k.mtu || data@.len() + 2 > 251) && k.credits > 0 ==> {
                    &&& r is Ok
                    &&& final(self).tx_att@ == splice(
                        old(self).tx_att@,
                        0,
                        le16(data@.len() as u16) + data@,
                    )
                    &&& *final(self) == (Conn {
                        coc: Some(Coc { credits: (k.credits - 1) as u16, ..k }),
                        tx_att: final(self).tx_att,
                        tx_att_len: (data@.len() + 2) as usize,
                        tx_cid: k.local_cid,
                        tx_frag_offset: 0,
                        tx_pending: true,
                        ..*old(self)
                    })
                }
            },
    {
        let mut coc = match self.coc {
            Some(k) => k,
            None => {
                return Err(Error::NotRunning);
            },
        };
        if data.len() > coc.mtu as usize || data.len() + 2 > 251 {
            return Err(Error::InvalidLength);
        }
        if coc.credits == 0 {
            return Err(Error::NotRunning);
        }
        coc.credits = coc.credits - 1;
        self.coc = Some(coc);
        let total = data.len() + 2;
        let ghost before = self.tx_att@;
        put16(&mut self.tx_att, 0, data.len() as u16);
        copy_into(&mut self.tx_att, 2, data);
        assert(self.tx_att@ =~= splice(before, 0, le16(data@.len() as u16) + data@));
        self.tx_att_len = total;
        self.tx_cid = coc.local_cid;
        self.tx_frag_offset = 0;
        self.tx_pending = true;
        Ok(())
    }

    /// Collect a frame of the open channel into the SDU being received;
    /// reports [`ConnEvent::Data`] (SDU in `rx_data`) and returns a credit
    /// when the SDU is complete.
    pub fn rx_coc_sdu(&mut self, body: &[u8], result: &mut ConnEvent)
        requires
            old(self).wf(),
        ensures
            final(self).wf(),
            coc_rx_post(*old(self), *final(self), body@, *old(result), *final(result)),
    {
        let mut coc = match self.coc {
            Some(k) => k,
            None => {
                proof {
                    reveal(coc_rx_post);
                }
                return;
            },
        };
        if coc.rx_sdu_len == 0 && body.len() < 2 {
            proof {
                reveal(coc_rx_post);
            }
            return;
        }
        let ghost k0 = coc;
        let total = if coc.rx_sdu_len == 0 {
            ((body[0] as u16) | ((body[1] as u16) << 8)) as usize
        } else {
            coc.rx_sdu_total
        };
        let complete = sdu_collect(&mut coc, body);
        self.coc = Some(coc);
        if complete {
            self.sdu_deliver(&coc.rx_sdu, total, coc.peer_cid, result);
            proof {
                reveal(coc_rx_post);
            }
        } else {
            proof {
                reveal(coc_rx_post);
            }
        }
    }

    fn sdu_deliver(&mut self, sdu: &[u8; 256], total: usize, peer_cid: u16, result: &mut ConnEvent)
        requires
            old(self).wf(),
        ensures
            final(self).wf(),
            *final(result) == ConnEvent::Data,
            final(self).rx_data@ == splice(
                old(self).rx_data@,
                0,
                sdu@.take(cap_at(cap_at(total as int, 256), 244)),
            ),
            final(self).tx_att@ == splice(old(self).tx_att@, 0, credit_msg(peer_cid)),
            *final(self) == (Conn {
                rx_data: final(self).rx_data,
                rx_data_len: cap_at(cap_at(total as int, 256), 244) as usize,
                tx_att: final(self).tx_att,
                tx_att_len: 6,
                tx_cid: L2CAP_SIGNALING_CID,
                tx_frag_offset: 0,
                tx_pending: true,
                ..*old(self)
            }),
    {
        let mut credit = [0u8; 6];
        credit[0] = LE_FLOW_CONTROL_CREDIT;
        credit[1] = 0;
        put16(&mut credit, 2, peer_cid);
        put16(&mut credit, 4, 1);
        assert(cut(credit@, 247) =~= credit_msg(peer_cid));
        self.queue_signaling(&credit);
        let t = if total < 256 {
            total
        } else {
            256
        };
        let n = if t < 244 {
            t
        } else {
            244
        };
        copy_into(&mut self.rx_data, 0, &sdu[0..n]);
        self.rx_data_len = n;
        *result = ConnEvent::Data;
    }
}

/// A credit-based channel end message (0x17) that names the open channel,
/// by our channel identifier or the peer's, closes the channel and leaves
/// the rest of the connection as it was; one that names another
/// identifier, or arrives with no channel open, changes nothing.
pub proof fn lemma_channel_end_closes(c: Conn, d: Conn, body: Seq<u8>)
    requires
        body.len() >= 4,
        body[0] == 0x17,
        signaling_post(c, d, body),
    ensures
        ({
            let cid = u16_le(body[2], body[3]);
            match c.coc {
                Some(k) => if cid == k.local_cid || cid == k.peer_cid {
                    &&& d.coc is None
                    &&& d == (Conn { coc: d.coc, ..c })
                } else {
                    d == c
                },
                None => d == c,
            }
        }),
{
    reveal(signaling_post);
}

} // verus!
