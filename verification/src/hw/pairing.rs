//! Routing of SMP PDUs received on a connection to the pairing state, and
//! the L2CAP frames sent back.
use vstd::prelude::*;

use crate::bytes::splice;
use crate::hw::conn::{cut, Conn, ConnEvent, ConnRole};
use crate::hw::ll_control::{ctrl19, ctrl_view};
use crate::hw::conn::LL_CONTROL_ENCRYPT_REQ;
use crate::hw::smp::{
    c1_spec, confirm_matches, own_random_value, pairing_pdu, s1_spec, smp_c1_inputs, Smp, SmpState,
    L2CAP_SMP_CID, SMP_PAIRING_CONFIRM, SMP_PAIRING_FAILED, SMP_PAIRING_RANDOM,
    SMP_PAIRING_REQUEST, SMP_PAIRING_RESPONSE, SMP_REASON_CONFIRM, SMP_SECURITY_REQUEST,
    TK_JUST_WORKS,
};

verus! {

/// `d` is `c` with the L2CAP frame `frame` queued for channel `cid`.
pub open spec fn l2cap_queued(c: Conn, d: Conn, frame: Seq<u8>, cid: u16) -> bool {
    &&& d.tx_att@ == splice(c.tx_att@, 0, frame)
    &&& d == (Conn {
        tx_att: d.tx_att,
        tx_att_len: frame.len() as usize,
        tx_cid: cid,
        tx_frag_offset: 0,
        tx_pending: true,
        ..c
    })
}

/// What handling SMP PDU `body` (non-empty) does: `c` before, `d` after.
#[verifier::opaque]
pub open spec fn smp_post(c: Conn, d: Conn, body: Seq<u8>) -> bool {
    let op = body[0];
    if op == SMP_PAIRING_FAILED {
        d == (Conn { pairing_in_progress: false, ..c })
    } else if op == SMP_SECURITY_REQUEST {
        smp_security_post(c, d)
    } else if op == SMP_PAIRING_REQUEST {
        smp_request_post(c, d, body)
    } else if op == SMP_PAIRING_RESPONSE {
        smp_response_post(c, d, body)
    } else if op == SMP_PAIRING_CONFIRM {
        smp_confirm_post(c, d, body)
    } else if op == SMP_PAIRING_RANDOM {
        if body.len() < 17 {
            l2cap_queued(
                Conn { pairing_in_progress: false, ..c },
                d,
                seq![SMP_PAIRING_FAILED, c.smp.pairing_failed],
                L2CAP_SMP_CID,
            )
        } else if !confirm_matches(c.smp, d.smp.peer_random) {
            smp_mismatch_post(c, d, body)
        } else {
            smp_random_post(c, d, body)
        }
    } else {
        d == c
    }
}

/// A security request is answered with our pairing request.
#[verifier::opaque]
pub open spec fn smp_security_post(c: Conn, d: Conn) -> bool {
    let s = c.smp;
    let t = d.smp;
    &&& t == (Smp { preq: t.preq, ..s })
    &&& t.preq@ == pairing_pdu(SMP_PAIRING_REQUEST)
    &&& l2cap_queued(
        Conn { smp: t, ..c },
        d,
        pairing_pdu(SMP_PAIRING_REQUEST),
        L2CAP_SMP_CID,
    )
}

/// A pairing request is answered with our pairing response.
#[verifier::opaque]
pub open spec fn smp_request_post(c: Conn, d: Conn, body: Seq<u8>) -> bool {
    let s = c.smp;
    let t = d.smp;
    if body.len() < 7 {
        d == c
    } else {
        &&& t == (Smp {
            preq: t.preq,
            rat: 0,
            responder: true,
            state: SmpState::WaitConfirm,
            pres: t.pres,
            ..s
        })
        &&& t.preq@ == body.take(7)
        &&& t.pres@ == pairing_pdu(SMP_PAIRING_RESPONSE)
        &&& l2cap_queued(
            Conn { smp: t, pairing_in_progress: true, ..c },
            d,
            pairing_pdu(SMP_PAIRING_RESPONSE),
            L2CAP_SMP_CID,
        )
    }
}

/// A pairing response is recorded.
#[verifier::opaque]
pub open spec fn smp_response_post(c: Conn, d: Conn, body: Seq<u8>) -> bool {
    let s = c.smp;
    let t = d.smp;
    if body.len() < 7 {
        d == c
    } else {
        &&& t == (Smp { pres: t.pres, state: SmpState::WaitConfirm, ..s })
        &&& t.pres@ == body.take(7)
        &&& d == (Conn { smp: t, pairing_in_progress: true, ..c })
    }
}

/// A pairing confirm is recorded and answered with ours.
#[verifier::opaque]
pub open spec fn smp_confirm_post(c: Conn, d: Conn, body: Seq<u8>) -> bool {
    let s = c.smp;
    let t = d.smp;
    if body.len() < 17 {
        d == c
    } else {
        &&& t == (Smp {
            peer_confirm: t.peer_confirm,
            state: SmpState::WaitRandom,
            own_random: t.own_random,
            own_confirm: t.own_confirm,
            ..s
        })
        &&& t.peer_confirm@ == body.subrange(1, 17)
        &&& t.own_random@ == own_random_value()
        &&& t.own_confirm@ == c1_spec(TK_JUST_WORKS@, smp_c1_inputs(t, t.own_random))
        &&& l2cap_queued(
            Conn { smp: t, ..c },
            d,
            seq![SMP_PAIRING_CONFIRM] + t.own_confirm@,
            L2CAP_SMP_CID,
        )
    }
}

/// A pairing random whose confirm does not check fails the pairing.
#[verifier::opaque]
pub open spec fn smp_mismatch_post(c: Conn, d: Conn, body: Seq<u8>) -> bool {
    let s = c.smp;
    let t = d.smp;
    &&& t == (Smp { peer_random: t.peer_random, pairing_failed: SMP_REASON_CONFIRM, ..s })
    &&& t.peer_random@ == body.subrange(1, 17)
    &&& l2cap_queued(
        Conn { smp: t, pairing_in_progress: false, ..c },
        d,
        seq![SMP_PAIRING_FAILED, SMP_REASON_CONFIRM],
        L2CAP_SMP_CID,
    )
}

/// A pairing random whose confirm checks completes the pairing: our
/// random is sent, the STK derived, and the initiator asks for link
/// encryption.
#[verifier::opaque]
pub open spec fn smp_random_post(c: Conn, d: Conn, body: Seq<u8>) -> bool {
    let s = c.smp;
    let t = d.smp;
    let frame = seq![SMP_PAIRING_RANDOM] + s.own_random@;
    let base = Conn { smp: t, pairing_in_progress: false, ..c };
    &&& t == (Smp {
        peer_random: t.peer_random,
        stk: t.stk,
        state: SmpState::WaitingStartEnc,
        pairing_failed: 0,
        ..s
    })
    &&& t.peer_random@ == body.subrange(1, 17)
    &&& t.stk@ == s1_spec(TK_JUST_WORKS@, s.own_random@, t.peer_random@)
    &&& if c.role == ConnRole::Master {
        &&& l2cap_queued(
            base,
            Conn { pending_control: c.pending_control, want_encrypt: c.want_encrypt, ..d },
            frame,
            L2CAP_SMP_CID,
        )
        &&& ctrl_view(d.pending_control) == Some(ctrl19(seq![LL_CONTROL_ENCRYPT_REQ]))
        &&& d.want_encrypt
    } else {
        l2cap_queued(base, d, frame, L2CAP_SMP_CID)
    }
}


proof fn smp_random_err_post(c0: Conn, c1: Conn, d: Conn, body: Seq<u8>)
    requires
        body.len() > 0,
        body[0] == SMP_PAIRING_RANDOM,
        body.len() < 17 ==> c1 == c0,
        body.len() >= 17 ==> c1.smp.peer_random@ == body.subrange(1, 17),
        body.len() >= 17 ==> !confirm_matches(c0.smp, c1.smp.peer_random),
        body.len() >= 17 ==> c1.smp == (Smp {
            peer_random: c1.smp.peer_random,
            pairing_failed: SMP_REASON_CONFIRM,
            ..c0.smp
        }),
        c1 == (Conn { smp: c1.smp, ..c0 }),
        l2cap_queued(
            Conn { pairing_in_progress: false, ..c1 },
            d,
            seq![SMP_PAIRING_FAILED, c1.smp.pairing_failed],
            L2CAP_SMP_CID,
        ),
    ensures
        smp_post(c0, d, body),
{
    reveal(smp_mismatch_post);
    reveal(smp_post);
}

proof fn smp_random_ok_post(c0: Conn, c1: Conn, d: Conn, body: Seq<u8>)
    requires
        body.len() >= 17,
        body[0] == SMP_PAIRING_RANDOM,
        c1.smp.peer_random@ == body.subrange(1, 17),
        confirm_matches(c0.smp, c1.smp.peer_random),
        c1.smp.stk@ == s1_spec(TK_JUST_WORKS@, c0.smp.own_random@, c1.smp.peer_random@),
        c1.smp == (Smp {
            peer_random: c1.smp.peer_random,
            stk: c1.smp.stk,
            state: SmpState::WaitingStartEnc,
            pairing_failed: 0,
            ..c0.smp
        }),
        c1 == (Conn { smp: c1.smp, ..c0 }),
        c0.role == ConnRole::Master ==> {
            &&& l2cap_queued(
                Conn { pairing_in_progress: false, ..c1 },
                Conn { pending_control: c1.pending_control, want_encrypt: c1.want_encrypt, ..d },
                seq![SMP_PAIRING_RANDOM] + c0.smp.own_random@,
                L2CAP_SMP_CID,
            )
            &&& ctrl_view(d.pending_control) == Some(ctrl19(seq![LL_CONTROL_ENCRYPT_REQ]))
            &&& d.want_encrypt
        },
        c0.role != ConnRole::Master ==> l2cap_queued(
            Conn { pairing_in_progress: false, ..c1 },
            d,
            seq![SMP_PAIRING_RANDOM] + c0.smp.own_random@,
            L2CAP_SMP_CID,
        ),
    ensures
        smp_post(c0, d, body),
{
    reveal(smp_random_post);
    reveal(smp_post);
}

impl Conn {
    fn queue_smp(&mut self, pdu: &[u8])
        requires
            old(self).wf(),
            pdu@.len() <= 17,
        ensures
            final(self).wf(),
            l2cap_queued(*old(self), *final(self), pdu@, L2CAP_SMP_CID),
    {
        assert(cut(pdu@, 251) =~= pdu@);
        self.queue_l2cap(pdu, L2CAP_SMP_CID);
    }

    /// Route an SMP PDU to the pairing state; answers (or a failure) are
    /// queued on the SMP channel. A completed exchange ends the pairing
    /// procedure and, as initiator, requests link encryption.
    pub fn handle_smp(&mut self, body: &[u8], result: &mut ConnEvent)
        requires
            old(self).wf(),
        ensures
            final(self).wf(),
            *final(result) == *old(result),
            body@.len() == 0 ==> *final(self) == *old(self),
            body@.len() > 0 ==> smp_post(*old(self), *final(self), body@),
    {
        if body.len() == 0 {
            return;
        }
        let op = body[0];
        if op == SMP_PAIRING_FAILED {
            self.pairing_in_progress = false;
            proof {
                reveal(smp_post);
            }
        } else if op == SMP_SECURITY_REQUEST {
            self.smp_security(body);
        } else if op == SMP_PAIRING_REQUEST {
            self.smp_request(body);
        } else if op == SMP_PAIRING_RESPONSE {
            self.smp_response(body);
        } else if op == SMP_PAIRING_CONFIRM {
            self.smp_confirm(body);
        } else if op == SMP_PAIRING_RANDOM {
            self.smp_random(body);
        } else {
            proof {
                reveal(smp_post);
            }
        }
    }

    fn smp_security(&mut self, body: &[u8])
        requires
            old(self).wf(),
            body@.len() > 0,
            body@[0] == SMP_SECURITY_REQUEST,
        ensures
            final(self).wf(),
            smp_post(*old(self), *final(self), body@),
    {
        let req = self.smp.build_pairing_request();
        self.queue_smp(&req);
        proof {
            reveal(smp_security_post);
            reveal(smp_post);
        }
    }

    fn smp_request(&mut self, body: &[u8])
        requires
            old(self).wf(),
            body@.len() > 0,
            body@[0] == SMP_PAIRING_REQUEST,
        ensures
            final(self).wf(),
            smp_post(*old(self), *final(self), body@),
    {
        let n7 = if body.len() < 7 {
            body.len()
        } else {
            7
        };
        match self.smp.handle_pairing_request(&body[0..n7]) {
            Ok(rsp) => {
                self.pairing_in_progress = true;
                self.queue_smp(&rsp);
            },
            Err(_) => {},
        }
        proof {
            if body@.len() >= 7 {
                assert(body@.subrange(0, n7 as int).take(7) =~= body@.take(7));
            }
            reveal(smp_request_post);
            reveal(smp_post);
        }
    }

    fn smp_response(&mut self, body: &[u8])
        requires
            old(self).wf(),
            body@.len() > 0,
            body@[0] == SMP_PAIRING_RESPONSE,
        ensures
            final(self).wf(),
            smp_post(*old(self), *final(self), body@),
    {
        let n7 = if body.len() < 7 {
            body.len()
        } else {
            7
        };
        if self.smp.handle_pairing_response(&body[0..n7]).is_ok() {
            self.pairing_in_progress = true;
        }
        proof {
            if body@.len() >= 7 {
                assert(body@.subrange(0, n7 as int).take(7) =~= body@.take(7));
            }
            reveal(smp_response_post);
            reveal(smp_post);
        }
    }

    fn smp_confirm(&mut self, body: &[u8])
        requires
            old(self).wf(),
            body@.len() > 0,
            body@[0] == SMP_PAIRING_CONFIRM,
        ensures
            final(self).wf(),
            smp_post(*old(self), *final(self), body@),
    {
        let n17 = if body.len() < 17 {
            body.len()
        } else {
            17
        };
        if self.smp.handle_confirm(&body[0..n17]).is_ok() {
            let iat = self.smp.iat;
            let ia = self.smp.ia;
            let ra = self.smp.ra;
            let out = self.smp.build_confirm(iat, &ia, &ra);
            self.queue_smp(&out);
        }
        proof {
            if body@.len() >= 17 {
                assert(body@.subrange(0, n17 as int).subrange(1, 17) =~= body@.subrange(1, 17));
            }
            reveal(smp_confirm_post);
            reveal(smp_post);
        }
    }

    #[verifier::rlimit(40)]
    fn smp_random(&mut self, body: &[u8])
        requires
            old(self).wf(),
            body@.len() > 0,
            body@[0] == SMP_PAIRING_RANDOM,
        ensures
            final(self).wf(),
            smp_post(*old(self), *final(self), body@),
    {
        let n17 = if body.len() < 17 {
            body.len()
        } else {
            17
        };
        proof {
            if body@.len() >= 17 {
                assert(body@.subrange(0, n17 as int).subrange(1, 17) =~= body@.subrange(1, 17));
            }
        }
        let ghost c0 = *self;
        match self.smp.handle_random(&body[0..n17]) {
            Ok(rnd) => {
                let ghost c1 = *self;
                self.smp_random_done(&rnd);
                proof {
                    smp_random_ok_post(c0, c1, *self, body@);
                }
            },
            Err(_) => {
                let ghost c1 = *self;
                let reason = self.smp.pairing_failed;
                let failed = self.smp.build_failed(reason);
                self.queue_smp(&failed);
                self.pairing_in_progress = false;
                proof {
                    smp_random_err_post(c0, c1, *self, body@);
                }
            },
        }
    }

    fn smp_random_done(&mut self, rnd: &[u8; 17])
        requires
            old(self).wf(),
        ensures
            final(self).wf(),
            old(self).role == ConnRole::Master ==> {
                &&& l2cap_queued(
                    Conn { pairing_in_progress: false, ..*old(self) },
                    Conn {
                        pending_control: old(self).pending_control,
                        want_encrypt: old(self).want_encrypt,
                        ..*final(self)
                    },
                    rnd@,
                    L2CAP_SMP_CID,
                )
                &&& ctrl_view(final(self).pending_control) == Some(
                    ctrl19(seq![LL_CONTROL_ENCRYPT_REQ]),
                )
                &&& final(self).want_encrypt
            },
            old(self).role != ConnRole::Master ==> l2cap_queued(
                Conn { pairing_in_progress: false, ..*old(self) },
                *final(self),
                rnd@,
                L2CAP_SMP_CID,
            ),
    {
        self.queue_smp(rnd);
        self.pairing_in_progress = false;
        if self.role == ConnRole::Master {
            self.queue_encrypt_req();
        }
    }
}

} // verus!
