//! Reassembly and routing of L2CAP frames received on a connection.
use vstd::prelude::*;

use crate::bytes::{copy_into, le16, lemma_le16_roundtrip, splice, u16_le};
use crate::hw::att::{att_accepts, att_post};
use crate::hw::conn::{
    Conn, ConnEvent, L2CAP_ATT_CID, L2CAP_SIGNALING_CID, L2CAP_SMP_CID_LOCAL,
};
use crate::hw::l2cap::{cap_at, coc_cid, coc_rx_post, signaling_accepts, signaling_post};
use crate::hw::pairing::smp_post;
use crate::ll::pdu::{LLID_DATA_CONTINUATION_OR_COMPLETE, LLID_DATA_START};

verus! {

/// The fragment starts an L2CAP frame (a continuation with nothing being
/// reassembled counts as a start).
pub open spec fn l2_first(c: Conn, llid: u8) -> bool {
    llid != LLID_DATA_CONTINUATION_OR_COMPLETE || c.rx_l2cap_len == 0
}

/// Channel of a first fragment.
pub open spec fn l2_cid(p: Seq<u8>) -> u16 {
    u16_le(p[2], p[3])
}

/// The state once a first fragment's L2CAP header is taken in.
pub open spec fn l2_head(c: Conn, p: Seq<u8>) -> Conn {
    Conn {
        rx_l2cap_len: 0,
        rx_l2cap_msg_len: u16_le(p[0], p[1]) as usize,
        rx_l2cap_cid: l2_cid(p),
        ..c
    }
}

/// The state the fragment's payload is appended to.
pub open spec fn l2_base(c: Conn, p: Seq<u8>, llid: u8) -> Conn {
    if l2_first(c, llid) {
        l2_head(c, p)
    } else {
        c
    }
}

/// The payload bytes of the fragment.
pub open spec fn l2_body(c: Conn, p: Seq<u8>, llid: u8) -> Seq<u8> {
    if l2_first(c, llid) {
        p.skip(4)
    } else {
        p
    }
}

/// Bytes of the fragment that fit the 256-byte reassembly buffer.
pub open spec fn l2_n(c: Conn, p: Seq<u8>, llid: u8) -> int {
    cap_at(l2_body(c, p, llid).len() as int, 256 - l2_base(c, p, llid).rx_l2cap_len)
}

/// The reassembly buffer after the fragment.
pub open spec fn l2_buf(c: Conn, p: Seq<u8>, llid: u8) -> Seq<u8> {
    let b = l2_base(c, p, llid);
    splice(b.rx_l2cap@, b.rx_l2cap_len as int, l2_body(c, p, llid).take(l2_n(c, p, llid)))
}

/// Bytes reassembled after the fragment.
pub open spec fn l2_len(c: Conn, p: Seq<u8>, llid: u8) -> int {
    l2_base(c, p, llid).rx_l2cap_len + l2_n(c, p, llid)
}

/// Length of the frame being reassembled (capped at the buffer).
pub open spec fn l2_msg_len(c: Conn, p: Seq<u8>, llid: u8) -> int {
    cap_at(l2_base(c, p, llid).rx_l2cap_msg_len as int, 256)
}

/// The fragment goes to the ATT reassembly.
pub open spec fn l2_to_att(c: Conn, p: Seq<u8>, llid: u8) -> bool {
    !l2_first(c, llid) || (p.len() >= 4 && l2_cid(p) == L2CAP_ATT_CID)
}

/// Fragments processed without reading past their end: signaling and a
/// completed ATT PDU are accepted by their handlers.
#[verifier::opaque]
pub open spec fn l2cap_accepts(c: Conn, p: Seq<u8>, llid: u8) -> bool {
    &&& (l2_first(c, llid) && p.len() >= 4 && l2_cid(p) == L2CAP_SIGNALING_CID) ==> signaling_accepts(
        l2_head(c, p),
        p.skip(4),
    )
    &&& (l2_to_att(c, p, llid) && l2_len(c, p, llid) >= l2_msg_len(c, p, llid)) ==> att_accepts(
        c,
        l2_buf(c, p, llid).take(l2_msg_len(c, p, llid)),
    )
}

/// What handling fragment `p` with LLID `llid` does: `c` and `r0` before,
/// `d` and `r1` after.
#[verifier::opaque]
pub open spec fn l2cap_post(c: Conn, d: Conn, p: Seq<u8>, llid: u8, r0: ConnEvent, r1: ConnEvent) -> bool {
    let first = l2_first(c, llid);
    if first && p.len() < 4 {
        d == c && r1 == r0
    } else if first && l2_cid(p) == L2CAP_SMP_CID_LOCAL {
        let h = l2_head(c, p);
        &&& r1 == r0
        &&& p.len() == 4 ==> d == h
        &&& p.len() > 4 ==> smp_post(h, d, p.skip(4))
    } else if first && l2_cid(p) == L2CAP_SIGNALING_CID {
        let h = l2_head(c, p);
        &&& r1 == r0
        &&& p.len() == 4 ==> d == h
        &&& p.len() > 4 ==> signaling_post(h, d, p.skip(4))
    } else if first && l2_cid(p) != L2CAP_ATT_CID {
        let h = l2_head(c, p);
        if c.coc matches Some(k) && coc_cid(k, l2_cid(p)) {
            coc_rx_post(h, d, p.skip(4), r0, r1)
        } else {
            d == h && r1 == ConnEvent::L2cap(l2_cid(p))
        }
    } else {
        let ml = l2_msg_len(c, p, llid);
        let n = l2_len(c, p, llid);
        let c2 = Conn { rx_l2cap: d.rx_l2cap, rx_l2cap_len: n as usize, ..l2_base(c, p, llid) };
        &&& d.rx_l2cap@ == l2_buf(c, p, llid)
        &&& if n < ml {
            d == c2 && r1 == r0
        } else if ml == 0 {
            d == (Conn { rx_l2cap_len: 0, ..c2 }) && r1 == r0
        } else {
            &&& d.rx_l2cap_len == 0
            &&& att_post(
                c2,
                Conn { rx_l2cap_len: n as usize, ..d },
                l2_buf(c, p, llid).take(ml),
                r0,
                r1,
            )
        }
    }
}

impl Conn {
    /// Handle the payload of a data PDU: reassemble L2CAP frames (the
    /// first fragment carries the length and channel) and route them to
    /// SMP, LE signaling, the open credit-based channel or the ATT server;
    /// other channels are reported.
    pub fn handle_l2cap(&mut self, payload: &[u8], llid: u8, result: &mut ConnEvent)
        requires
            old(self).wf(),
            l2cap_accepts(*old(self), payload@, llid),
        ensures
            final(self).wf(),
            l2cap_post(*old(self), *final(self), payload@, llid, *old(result), *final(result)),
    {
        let is_first = llid != LLID_DATA_CONTINUATION_OR_COMPLETE || self.rx_l2cap_len == 0;
        if is_first {
            if payload.len() < 4 {
                proof {
                    reveal(l2cap_post);
                }
                return;
            }
            let cid = (payload[2] as u16) | ((payload[3] as u16) << 8);
            if cid != L2CAP_ATT_CID {
                self.l2cap_route(payload, llid, result);
                return;
            }
        }
        self.l2cap_att_append(payload, llid, result);
    }

    fn l2cap_route(&mut self, payload: &[u8], llid: u8, result: &mut ConnEvent)
        requires
            old(self).wf(),
            l2cap_accepts(*old(self), payload@, llid),
            l2_first(*old(self), llid),
            payload@.len() >= 4,
            l2_cid(payload@) != L2CAP_ATT_CID,
        ensures
            final(self).wf(),
            l2cap_post(*old(self), *final(self), payload@, llid, *old(result), *final(result)),
    {
        let ghost c0 = *self;
        let ghost r0 = *result;
        self.rx_l2cap_len = 0;
        self.rx_l2cap_msg_len = ((payload[0] as u16) | ((payload[1] as u16) << 8)) as usize;
        self.rx_l2cap_cid = (payload[2] as u16) | ((payload[3] as u16) << 8);
        let cid = self.rx_l2cap_cid;
        let body = &payload[4..payload.len()];
        let ghost h = *self;
        proof {
            assert(body@ == payload@.skip(4));
            assert(h == l2_head(c0, payload@));
        }
        if cid == L2CAP_SMP_CID_LOCAL {
            self.handle_smp(body, result);
            proof {
                lemma_l2_smp(c0, h, *self, payload@, llid, r0, *result);
            }
        } else if cid == L2CAP_SIGNALING_CID {
            proof {
                reveal(l2cap_accepts);
            }
            self.handle_le_signaling(body);
            proof {
                lemma_l2_signaling(c0, h, *self, payload@, llid, r0, *result);
            }
        } else {
            let is_coc = match self.coc {
                Some(c) => c.peer_cid == cid || c.local_cid == cid,
                None => false,
            };
            if is_coc {
                self.rx_coc_sdu(body, result);
                proof {
                    lemma_l2_coc(c0, h, *self, payload@, llid, r0, *result);
                }
            } else {
                *result = ConnEvent::L2cap(cid);
                proof {
                    lemma_l2_other(c0, h, *self, payload@, llid, r0, *result);
                }
            }
        }
    }

    fn l2cap_att_append(&mut self, payload: &[u8], llid: u8, result: &mut ConnEvent)
        requires
            old(self).wf(),
            l2cap_accepts(*old(self), payload@, llid),
            l2_to_att(*old(self), payload@, llid),
        ensures
            final(self).wf(),
            l2cap_post(*old(self), *final(self), payload@, llid, *old(result), *final(result)),
    {
        let ghost c0 = *self;
        let ghost r0 = *result;
        let is_first = llid != LLID_DATA_CONTINUATION_OR_COMPLETE || self.rx_l2cap_len == 0;
        if is_first {
            self.rx_l2cap_len = 0;
            self.rx_l2cap_msg_len = ((payload[0] as u16) | ((payload[1] as u16) << 8)) as usize;
            self.rx_l2cap_cid = (payload[2] as u16) | ((payload[3] as u16) << 8);
        }
        let ghost b = *self;
        assert(b == l2_base(c0, payload@, llid));
        let start: usize = if is_first {
            4
        } else {
            0
        };
        let body = &payload[start..payload.len()];
        assert(body@ == l2_body(c0, payload@, llid));
        self.rx_append(body);
        let ghost c2 = *self;
        proof {
            lemma_l2_accepts_att(c0, b, c2, payload@, llid);
        }
        self.l2_att_deliver(result);
        proof {
            lemma_l2_att(c0, b, c2, *self, payload@, llid, r0, *result);
        }
    }

    fn l2_att_deliver(&mut self, result: &mut ConnEvent)
        requires
            old(self).wf(),
            old(self).rx_l2cap_len >= cap_at(old(self).rx_l2cap_msg_len as int, 256) ==> att_accepts(
                *old(self),
                old(self).rx_l2cap@.take(cap_at(old(self).rx_l2cap_msg_len as int, 256)),
            ),
        ensures
            final(self).wf(),
            l2_delivered(*old(self), *final(self), *old(result), *final(result)),
    {
        let cap: usize = 256;
        let msg_len = if self.rx_l2cap_msg_len < cap {
            self.rx_l2cap_msg_len
        } else {
            cap
        };
        if self.rx_l2cap_len >= msg_len {
            let ghost c2 = *self;
            let mut att = [0u8; 256];
            copy_into(&mut att, 0, &self.rx_l2cap[0..msg_len]);
            assert(att@.subrange(0, msg_len as int) =~= self.rx_l2cap@.take(msg_len as int));
            self.handle_att(&att[0..msg_len], result);
            let ghost da = *self;
            proof {
                if msg_len > 0 {
                    lemma_att_keeps_rx(c2, da, att@.subrange(0, msg_len as int), *old(result), *result);
                }
            }
            self.rx_l2cap_len = 0;
            proof {
                if msg_len > 0 {
                    assert(Conn { rx_l2cap_len: c2.rx_l2cap_len, ..*self } == da);
                }
            }
        }
    }

    fn rx_append(&mut self, body: &[u8])
        requires
            old(self).wf(),
        ensures
            final(self).wf(),
            appended(*old(self), *final(self), body@),
    {
        let at = self.rx_l2cap_len;
        let n = if body.len() < 256 - at {
            body.len()
        } else {
            256 - at
        };
        copy_into(&mut self.rx_l2cap, at, &body[0..n]);
        self.rx_l2cap_len = at + n;
        proof {
            reveal(appended);
        }
    }
}

/// `c2` is `b` with `body` appended to the reassembly buffer (cut to its
/// 256 bytes).
#[verifier::opaque]
pub open spec fn appended(b: Conn, c2: Conn, body: Seq<u8>) -> bool {
    let n = cap_at(body.len() as int, 256 - b.rx_l2cap_len);
    &&& c2.rx_l2cap@ == splice(b.rx_l2cap@, b.rx_l2cap_len as int, body.take(n))
    &&& c2 == (Conn { rx_l2cap: c2.rx_l2cap, rx_l2cap_len: (b.rx_l2cap_len + n) as usize, ..b })
}

/// Hand a completed ATT PDU in the reassembly buffer to the ATT server:
/// `c` and `r0` before, `d` and `r1` after.
pub open spec fn l2_delivered(c: Conn, d: Conn, r0: ConnEvent, r1: ConnEvent) -> bool {
    let ml = cap_at(c.rx_l2cap_msg_len as int, 256);
    if c.rx_l2cap_len < ml {
        d == c && r1 == r0
    } else if ml == 0 {
        d == (Conn { rx_l2cap_len: 0, ..c }) && r1 == r0
    } else {
        &&& d.rx_l2cap_len == 0
        &&& d.rx_l2cap == c.rx_l2cap
        &&& att_post(c, Conn { rx_l2cap_len: c.rx_l2cap_len, ..d }, c.rx_l2cap@.take(ml), r0, r1)
    }
}

proof fn lemma_l2_accepts_att(c: Conn, b: Conn, c2: Conn, p: Seq<u8>, llid: u8)
    requires
        l2cap_accepts(c, p, llid),
        l2_to_att(c, p, llid),
        b == l2_base(c, p, llid),
        appended(b, c2, l2_body(c, p, llid)),
    ensures
        c2.rx_l2cap_len >= cap_at(c2.rx_l2cap_msg_len as int, 256) ==> att_accepts(
            c2,
            c2.rx_l2cap@.take(cap_at(c2.rx_l2cap_msg_len as int, 256)),
        ),
{
    reveal(l2cap_accepts);
    reveal(appended);
}

proof fn lemma_l2_att(
    c: Conn,
    b: Conn,
    c2: Conn,
    d: Conn,
    p: Seq<u8>,
    llid: u8,
    r0: ConnEvent,
    r1: ConnEvent,
)
    requires
        l2_to_att(c, p, llid),
        b == l2_base(c, p, llid),
        appended(b, c2, l2_body(c, p, llid)),
        l2_delivered(c2, d, r0, r1),
    ensures
        l2cap_post(c, d, p, llid, r0, r1),
{
    reveal(l2cap_post);
    reveal(appended);
    let ml = cap_at(c2.rx_l2cap_msg_len as int, 256);
    if c2.rx_l2cap_len >= ml && ml > 0 {
        assert(Conn { rx_l2cap: d.rx_l2cap, rx_l2cap_len: c2.rx_l2cap_len, ..b } == c2);
    } else if c2.rx_l2cap_len >= ml {
        assert(d.rx_l2cap == c2.rx_l2cap);
    } else {
        assert(d.rx_l2cap == c2.rx_l2cap);
    }
}

proof fn lemma_l2_smp(c: Conn, h: Conn, d: Conn, p: Seq<u8>, llid: u8, r0: ConnEvent, r1: ConnEvent)
    requires
        l2_first(c, llid),
        p.len() >= 4,
        l2_cid(p) == L2CAP_SMP_CID_LOCAL,
        h == l2_head(c, p),
        r1 == r0,
        p.len() == 4 ==> d == h,
        p.len() > 4 ==> smp_post(h, d, p.skip(4)),
    ensures
        l2cap_post(c, d, p, llid, r0, r1),
{
    reveal(l2cap_post);
}

proof fn lemma_l2_signaling(
    c: Conn,
    h: Conn,
    d: Conn,
    p: Seq<u8>,
    llid: u8,
    r0: ConnEvent,
    r1: ConnEvent,
)
    requires
        l2_first(c, llid),
        p.len() >= 4,
        l2_cid(p) == L2CAP_SIGNALING_CID,
        h == l2_head(c, p),
        r1 == r0,
        p.len() == 4 ==> d == h,
        p.len() > 4 ==> signaling_post(h, d, p.skip(4)),
    ensures
        l2cap_post(c, d, p, llid, r0, r1),
{
    reveal(l2cap_post);
}

proof fn lemma_l2_coc(c: Conn, h: Conn, d: Conn, p: Seq<u8>, llid: u8, r0: ConnEvent, r1: ConnEvent)
    requires
        l2_first(c, llid),
        p.len() >= 4,
        l2_cid(p) != L2CAP_ATT_CID,
        l2_cid(p) != L2CAP_SMP_CID_LOCAL,
        l2_cid(p) != L2CAP_SIGNALING_CID,
        h == l2_head(c, p),
        c.coc matches Some(k) && coc_cid(k, l2_cid(p)),
        coc_rx_post(h, d, p.skip(4), r0, r1),
    ensures
        l2cap_post(c, d, p, llid, r0, r1),
{
    reveal(l2cap_post);
}

proof fn lemma_l2_other(c: Conn, h: Conn, d: Conn, p: Seq<u8>, llid: u8, r0: ConnEvent, r1: ConnEvent)
    requires
        l2_first(c, llid),
        p.len() >= 4,
        l2_cid(p) != L2CAP_ATT_CID,
        l2_cid(p) != L2CAP_SMP_CID_LOCAL,
        l2_cid(p) != L2CAP_SIGNALING_CID,
        h == l2_head(c, p),
        !(c.coc matches Some(k) && coc_cid(k, l2_cid(p))),
        d == h,
        r1 == ConnEvent::L2cap(l2_cid(p)),
    ensures
        l2cap_post(c, d, p, llid, r0, r1),
{
    reveal(l2cap_post);
}

/// An ATT frame received in two fragments, a start fragment carrying the
/// L2CAP header (length `a1.len() + a2.len()`, the ATT channel) and the
/// first bytes `a1`, then a continuation with the rest `a2`, reaches the
/// ATT layer whole, as `a1 + a2`, and the reassembly buffer is emptied.
pub proof fn lemma_att_reassembly(
    c: Conn,
    d1: Conn,
    d2: Conn,
    a1: Seq<u8>,
    a2: Seq<u8>,
    r0: ConnEvent,
    r1: ConnEvent,
    r2: ConnEvent,
)
    requires
        c.wf(),
        a1.len() > 0,
        a2.len() > 0,
        a1.len() + a2.len() <= 256,
        l2cap_post(
            c,
            d1,
            le16((a1.len() + a2.len()) as u16) + le16(L2CAP_ATT_CID) + a1,
            LLID_DATA_START,
            r0,
            r1,
        ),
        l2cap_post(d1, d2, a2, LLID_DATA_CONTINUATION_OR_COMPLETE, r1, r2),
    ensures
        d2.rx_l2cap_len == 0,
        att_post(
            Conn { rx_l2cap: d2.rx_l2cap, rx_l2cap_len: (a1.len() + a2.len()) as usize, ..d1 },
            Conn { rx_l2cap_len: (a1.len() + a2.len()) as usize, ..d2 },
            a1 + a2,
            r1,
            r2,
        ),
{
    reveal(l2cap_post);
    let n = a1.len() + a2.len();
    let p1 = le16(n as u16) + le16(L2CAP_ATT_CID) + a1;
    lemma_le16_roundtrip(n as u16);
    lemma_le16_roundtrip(L2CAP_ATT_CID);
    assert(p1[0] == le16(n as u16)[0] && p1[1] == le16(n as u16)[1]);
    assert(p1[2] == le16(L2CAP_ATT_CID)[0] && p1[3] == le16(L2CAP_ATT_CID)[1]);
    assert(l2_cid(p1) == L2CAP_ATT_CID);
    assert(p1.skip(4) =~= a1);
    assert(l2_head(c, p1).rx_l2cap_msg_len == n);
    assert(d1.rx_l2cap_len == a1.len());
    assert(d1.rx_l2cap@ == splice(c.rx_l2cap@, 0, a1));
    let buf = splice(d1.rx_l2cap@, a1.len() as int, a2);
    assert(l2_buf(d1, a2, LLID_DATA_CONTINUATION_OR_COMPLETE) == buf);
    assert(buf.take(n as int) =~= a1 + a2);
}

proof fn lemma_att_keeps_rx(c: Conn, d: Conn, att: Seq<u8>, r0: ConnEvent, r1: ConnEvent)
    requires
        att.len() > 0,
        att_post(c, d, att, r0, r1),
    ensures
        d.rx_l2cap == c.rx_l2cap,
        d.rx_l2cap_len == c.rx_l2cap_len,
{
    reveal(att_post);
}

} // verus!
