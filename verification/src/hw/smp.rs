//! SMP (LE legacy pairing) cryptographic functions and pairing state machine.
use vstd::prelude::*;

use aes::cipher::{BlockEncrypt, KeyInit};

use crate::bytes::bytes_eq;

verus! {

/// Legacy Just Works TK: all-zero 16 bytes.
pub const TK_JUST_WORKS: [u8; 16] = [0, 0, 0, 0, 0, 0, 0, 0, 0, 0, 0, 0, 0, 0, 0, 0];

/// SMP L2CAP channel ID.
pub const L2CAP_SMP_CID: u16 = 0x0006;

/// SMP opcode: pairing request.
pub const SMP_PAIRING_REQUEST: u8 = 0x01;

/// SMP opcode: pairing response.
pub const SMP_PAIRING_RESPONSE: u8 = 0x02;

/// SMP opcode: pairing confirm.
pub const SMP_PAIRING_CONFIRM: u8 = 0x03;

/// SMP opcode: pairing random.
pub const SMP_PAIRING_RANDOM: u8 = 0x04;

/// SMP opcode: pairing failed.
pub const SMP_PAIRING_FAILED: u8 = 0x05;

/// SMP opcode: encryption information (LTK distribution).
pub const SMP_ENCRYPTION_INFORMATION: u8 = 0x06;

/// SMP opcode: master identification (EDIV + RAND).
pub const SMP_MASTER_IDENTIFICATION: u8 = 0x07;

/// SMP opcode: security request.
pub const SMP_SECURITY_REQUEST: u8 = 0x0B;

/// SMP failure reason: unspecified.
pub const SMP_PAIRING_FAILED_UNSPECIFIED: u8 = 0x08;

/// SMP failure reason: OOB data required.
pub const SMP_REASON_OOB: u8 = 0x02;

/// SMP failure reason: authentication requirements.
pub const SMP_REASON_AUTH: u8 = 0x05;

/// SMP failure reason: confirm value mismatch.
pub const SMP_REASON_CONFIRM: u8 = 0x06;

/// IO capability: NoInputNoOutput.
pub const IO_NO_INPUT_NO_OUTPUT: u8 = 0x03;

/// The AES-128 encryption of a 16-byte block under a 16-byte key.
pub uninterp spec fn aes128(key: Seq<u8>, block: Seq<u8>) -> Seq<u8>;

/// AES-128 block encryption with `aes::Aes128` (`KeyInit::new`, then
/// `BlockEncrypt::encrypt_block`): the block is replaced by its encryption
/// under `key`. The cipher itself is not specified here, only that the
/// result is determined by the key and the block.
#[verifier::external_body]
pub(crate) fn aes_encrypt(key: &[u8; 16], block: &mut [u8; 16])
    ensures
        final(block)@ == aes128(key@, old(block)@),
{
    let cipher = aes::Aes128::new(key.into());
    cipher.encrypt_block(block.into());
}

/// Byte-wise XOR of two 16-byte blocks.
pub open spec fn xor16(a: Seq<u8>, b: Seq<u8>) -> Seq<u8> {
    Seq::new(16, |i: int| a[i] ^ b[i])
}

/// Inputs to the confirm value function c1.
#[derive(Debug, Clone, Copy)]
pub struct C1Inputs {
    /// Random value (16 bytes).
    pub r: [u8; 16],
    /// Pairing request PDU (7 bytes).
    pub preq: [u8; 7],
    /// Pairing response PDU (7 bytes).
    pub pres: [u8; 7],
    /// Initiator address type.
    pub iat: u8,
    /// Responder address type.
    pub rat: u8,
    /// Initiator address.
    pub ia: [u8; 6],
    /// Responder address.
    pub ra: [u8; 6],
}

/// c1's first padding block: iat || rat || preq || pres.
pub open spec fn c1_p1(inputs: C1Inputs) -> Seq<u8> {
    seq![inputs.iat, inputs.rat] + inputs.preq@ + inputs.pres@
}

/// c1's second padding block: ra || ia || four zero bytes.
pub open spec fn c1_p2(inputs: C1Inputs) -> Seq<u8> {
    inputs.ra@ + inputs.ia@ + seq![0u8, 0u8, 0u8, 0u8]
}

/// The confirm value c1(k, r, preq, pres, iat, rat, ia, ra).
pub open spec fn c1_spec(tk: Seq<u8>, inputs: C1Inputs) -> Seq<u8> {
    aes128(tk, xor16(aes128(tk, xor16(inputs.r@, c1_p1(inputs))), c1_p2(inputs)))
}

/// The key s1(k, r1, r2) = e(k, r2[0..8] || r1[0..8]).
pub open spec fn s1_spec(k: Seq<u8>, r1: Seq<u8>, r2: Seq<u8>) -> Seq<u8> {
    aes128(k, r2.take(8) + r1.take(8))
}

fn xor_into(res: &mut [u8; 16], other: &[u8; 16])
    ensures
        final(res)@ == xor16(old(res)@, other@),
{
    let mut i: usize = 0;
    while i < 16
        invariant
            i <= 16,
            forall|j: int| 0 <= j < i ==> res@[j] == old(res)@[j] ^ other@[j],
            forall|j: int| i <= j < 16 ==> res@[j] == old(res)@[j],
        decreases 16 - i,
    {
        res[i] = res[i] ^ other[i];
        i += 1;
    }
    assert(res@ =~= xor16(old(res)@, other@));
}

/// Confirm value function c1 (Bluetooth Core Spec Vol 3, Part H, 2.2.3).
pub fn c1(tk: &[u8; 16], inputs: &C1Inputs) -> (c: [u8; 16])
    ensures
        c@ == c1_spec(tk@, *inputs),
{
    let mut p1 = [0u8; 16];
    p1[0] = inputs.iat;
    p1[1] = inputs.rat;
    let mut i: usize = 0;
    while i < 7
        invariant
            i <= 7,
            p1@[0] == inputs.iat,
            p1@[1] == inputs.rat,
            forall|j: int| 0 <= j < i ==> p1@[2 + j] == inputs.preq@[j] && p1@[9 + j]
                == inputs.pres@[j],
        decreases 7 - i,
    {
        p1[2 + i] = inputs.preq[i];
        p1[9 + i] = inputs.pres[i];
        i += 1;
    }
    assert(p1@ =~= c1_p1(*inputs));
    let mut res = inputs.r;
    xor_into(&mut res, &p1);
    aes_encrypt(tk, &mut res);
    let mut p2 = [0u8; 16];
    let mut k: usize = 0;
    while k < 6
        invariant
            k <= 6,
            forall|j: int| 0 <= j < k ==> p2@[j] == inputs.ra@[j] && p2@[6 + j] == inputs.ia@[j],
            forall|j: int| 12 <= j < 16 ==> p2@[j] == 0,
        decreases 6 - k,
    {
        p2[k] = inputs.ra[k];
        p2[6 + k] = inputs.ia[k];
        k += 1;
    }
    assert(p2@ =~= c1_p2(*inputs));
    xor_into(&mut res, &p2);
    aes_encrypt(tk, &mut res);
    res
}

/// Key generation function s1 (Bluetooth Core Spec Vol 3, Part H, 2.2.4).
pub fn s1(k: &[u8; 16], r1: &[u8; 16], r2: &[u8; 16]) -> (key: [u8; 16])
    ensures
        key@ == s1_spec(k@, r1@, r2@),
{
    let mut block = [0u8; 16];
    let mut i: usize = 0;
    while i < 8
        invariant
            i <= 8,
            forall|j: int| 0 <= j < i ==> block@[j] == r2@[j] && block@[8 + j] == r1@[j],
        decreases 8 - i,
    {
        block[i] = r2[i];
        block[8 + i] = r1[i];
        i += 1;
    }
    assert(block@ =~= r2@.take(8) + r1@.take(8));
    aes_encrypt(k, &mut block);
    block
}

/// SMP protocol error.
#[derive(Debug, Clone, Copy, PartialEq, Eq, Structural)]
pub enum SmpError {
    /// Malformed PDU.
    InvalidPdu,
    /// Confirm value mismatch.
    ConfirmMismatch,
}

/// SMP pairing state machine state.
#[derive(Debug, Clone, Copy, PartialEq, Eq, Structural)]
pub enum SmpState {
    /// No pairing in progress.
    Idle,
    /// Pairing request sent, awaiting the response.
    WaitPairingResponse,
    /// Awaiting the peer confirm.
    WaitConfirm,
    /// Awaiting the peer random.
    WaitRandom,
    /// STK computed, awaiting LL encryption.
    WaitingStartEnc,
    /// Link encryption active.
    Encrypted,
}

impl SmpState {
    /// True while the pairing procedure is in progress.
    pub fn pairing(&self) -> (r: bool)
        ensures
            r == !(*self is Idle || *self is Encrypted),
    {
        !matches!(self, SmpState::Idle | SmpState::Encrypted)
    }
}

/// The pairing request/response PDU this stack sends: Just Works
/// (NoInputNoOutput), no OOB, bonding, 16-byte keys, encryption key
/// distribution.
pub open spec fn pairing_pdu(opcode: u8) -> Seq<u8> {
    seq![opcode, IO_NO_INPUT_NO_OUTPUT, 0u8, 0x01u8, 16u8, 0x01u8, 0x01u8]
}

fn build_pairing_pdu(opcode: u8) -> (p: [u8; 7])
    ensures
        p@ == pairing_pdu(opcode),
{
    let mut p = [0u8; 7];
    p[0] = opcode;
    p[1] = IO_NO_INPUT_NO_OUTPUT;
    p[2] = 0;
    p[3] = 0x01;
    p[4] = 16;
    p[5] = 0x01;
    p[6] = 0x01;
    assert(p@ =~= pairing_pdu(opcode));
    p
}

/// Legacy SMP pairing state.
pub struct Smp {
    /// Current pairing state.
    pub state: SmpState,
    /// Our random value.
    pub own_random: [u8; 16],
    /// Peer random value.
    pub peer_random: [u8; 16],
    /// Our confirm value.
    pub own_confirm: [u8; 16],
    /// Peer confirm value.
    pub peer_confirm: [u8; 16],
    /// Pairing request PDU.
    pub preq: [u8; 7],
    /// Pairing response PDU.
    pub pres: [u8; 7],
    /// Initiator address type.
    pub iat: u8,
    /// Responder address type.
    pub rat: u8,
    /// Initiator address.
    pub ia: [u8; 6],
    /// Responder address.
    pub ra: [u8; 6],
    /// Session temporary key (the LL encryption key after pairing).
    pub stk: [u8; 16],
    /// True when we are the responder.
    pub responder: bool,
    /// Last pairing failure reason.
    pub pairing_failed: u8,
}

/// The c1 inputs of a pairing state for a given random value.
pub open spec fn smp_c1_inputs(s: Smp, r: [u8; 16]) -> C1Inputs {
    C1Inputs { r, preq: s.preq, pres: s.pres, iat: s.iat, rat: s.rat, ia: s.ia, ra: s.ra }
}

/// The peer's confirm value checks against its random value `r`.
#[verifier::opaque]
pub open spec fn confirm_matches(s: Smp, r: [u8; 16]) -> bool {
    c1_spec(TK_JUST_WORKS@, smp_c1_inputs(s, r)) == s.peer_confirm@
}

/// The random value `build_confirm` commits to.
pub open spec fn own_random_value() -> Seq<u8> {
    Seq::new(16, |i: int| 0x5Au8)
}

impl Default for Smp {
    fn default() -> (r: Self)
        ensures
            r.state == SmpState::Idle,
            r.pairing_failed == 0,
            !r.responder,
    {
        Self::new()
    }
}

impl Smp {
    /// Create an idle pairing state.
    pub fn new() -> (r: Self)
        ensures
            r.state == SmpState::Idle,
            r.own_random@ == Seq::new(16, |i: int| 0u8),
            r.peer_random@ == Seq::new(16, |i: int| 0u8),
            r.stk@ == Seq::new(16, |i: int| 0u8),
            r.preq@ == Seq::new(7, |i: int| 0u8),
            r.pres@ == Seq::new(7, |i: int| 0u8),
            r.iat == 0,
            r.rat == 0,
            !r.responder,
            r.pairing_failed == 0,
    {
        let r = Smp {
            state: SmpState::Idle,
            own_random: [0; 16],
            peer_random: [0; 16],
            own_confirm: [0; 16],
            peer_confirm: [0; 16],
            preq: [0; 7],
            pres: [0; 7],
            iat: 0,
            rat: 0,
            ia: [0; 6],
            ra: [0; 6],
            stk: [0; 16],
            responder: false,
            pairing_failed: 0,
        };
        assert(r.own_random@ =~= Seq::new(16, |i: int| 0u8));
        assert(r.preq@ =~= Seq::new(7, |i: int| 0u8));
        r
    }

    /// Build a legacy pairing request (Just Works, bonding, 16-byte key).
    pub fn build_pairing_request(&mut self) -> (p: [u8; 7])
        ensures
            p@ == pairing_pdu(SMP_PAIRING_REQUEST),
            *final(self) == (Smp { preq: p, ..*old(self) }),
    {
        let p = build_pairing_pdu(SMP_PAIRING_REQUEST);
        self.preq = p;
        p
    }

    /// Handle an incoming pairing request; returns the pairing response.
    pub fn handle_pairing_request(&mut self, data: &[u8]) -> (r: Result<[u8; 7], SmpError>)
        ensures
            data@.len() < 7 ==> r == Err::<[u8; 7], SmpError>(SmpError::InvalidPdu) && *final(self) == *old(self),
            data@.len() >= 7 ==> (r matches Ok(rsp) && rsp@ == pairing_pdu(SMP_PAIRING_RESPONSE)
                && *final(self) == (Smp {
                preq: final(self).preq,
                rat: 0,
                responder: true,
                state: SmpState::WaitConfirm,
                pres: rsp,
                ..*old(self)
            }) && final(self).preq@ == data@.take(7)),
    {
        if data.len() < 7 {
            return Err(SmpError::InvalidPdu);
        }
        let preq = [data[0], data[1], data[2], data[3], data[4], data[5], data[6]];
        assert(preq@ =~= data@.take(7));
        self.preq = preq;
        self.rat = 0;
        self.responder = true;
        self.state = SmpState::WaitConfirm;
        let rsp = build_pairing_pdu(SMP_PAIRING_RESPONSE);
        self.pres = rsp;
        Ok(rsp)
    }

    /// Handle an incoming pairing response.
    pub fn handle_pairing_response(&mut self, data: &[u8]) -> (r: Result<(), SmpError>)
        ensures
            data@.len() < 7 ==> r == Err::<(), SmpError>(SmpError::InvalidPdu) && *final(self)
                == *old(self),
            data@.len() >= 7 ==> r is Ok && *final(self) == (Smp {
                pres: final(self).pres,
                state: SmpState::WaitConfirm,
                ..*old(self)
            }) && final(self).pres@ == data@.take(7),
    {
        if data.len() < 7 {
            return Err(SmpError::InvalidPdu);
        }
        let pres = [data[0], data[1], data[2], data[3], data[4], data[5], data[6]];
        assert(pres@ =~= data@.take(7));
        self.pres = pres;
        self.state = SmpState::WaitConfirm;
        Ok(())
    }

    /// Build a SMP_PAIRING_FAILED PDU.
    pub fn build_failed(&self, reason: u8) -> (p: [u8; 2])
        ensures
            p@ == seq![SMP_PAIRING_FAILED, reason],
    {
        let p = [SMP_PAIRING_FAILED, reason];
        assert(p@ =~= seq![SMP_PAIRING_FAILED, reason]);
        p
    }

    /// Fail the pairing with an unspecified reason.
    pub fn fail_unspecified(&mut self) -> (p: [u8; 2])
        ensures
            p@ == seq![SMP_PAIRING_FAILED, SMP_PAIRING_FAILED_UNSPECIFIED],
            *final(self) == (Smp { pairing_failed: SMP_PAIRING_FAILED_UNSPECIFIED, ..*old(self) }),
    {
        self.pairing_failed = SMP_PAIRING_FAILED_UNSPECIFIED;
        self.build_failed(SMP_PAIRING_FAILED_UNSPECIFIED)
    }

    /// Fail the pairing because OOB data is required.
    pub fn fail_oob(&mut self) -> (p: [u8; 2])
        ensures
            p@ == seq![SMP_PAIRING_FAILED, SMP_REASON_OOB],
            *final(self) == (Smp { pairing_failed: SMP_REASON_OOB, ..*old(self) }),
    {
        self.pairing_failed = SMP_REASON_OOB;
        self.build_failed(SMP_REASON_OOB)
    }

    /// Fail the pairing because authentication requirements differ.
    pub fn fail_auth(&mut self) -> (p: [u8; 2])
        ensures
            p@ == seq![SMP_PAIRING_FAILED, SMP_REASON_AUTH],
            *final(self) == (Smp { pairing_failed: SMP_REASON_AUTH, ..*old(self) }),
    {
        self.pairing_failed = SMP_REASON_AUTH;
        self.build_failed(SMP_REASON_AUTH)
    }

    /// Build the pairing confirm PDU (Just Works, TK = 0).
    pub fn build_confirm(&mut self, iat: u8, ia: &[u8; 6], ra: &[u8; 6]) -> (p: [u8; 17])
        ensures
            final(self).own_random@ == own_random_value(),
            final(self).own_confirm@ == c1_spec(
                TK_JUST_WORKS@,
                smp_c1_inputs(*final(self), final(self).own_random),
            ),
            *final(self) == (Smp {
                iat,
                ia: *ia,
                ra: *ra,
                own_random: final(self).own_random,
                own_confirm: final(self).own_confirm,
                ..*old(self)
            }),
            p@ == seq![SMP_PAIRING_CONFIRM] + final(self).own_confirm@,
    {
        self.iat = iat;
        self.ia = *ia;
        self.ra = *ra;
        self.own_random = [0x5A; 16];
        assert(self.own_random@ =~= own_random_value());
        let inputs = C1Inputs {
            r: self.own_random,
            preq: self.preq,
            pres: self.pres,
            iat: self.iat,
            rat: self.rat,
            ia: self.ia,
            ra: self.ra,
        };
        self.own_confirm = c1(&TK_JUST_WORKS, &inputs);
        confirm_pdu(SMP_PAIRING_CONFIRM, &self.own_confirm)
    }

    /// Handle an incoming pairing confirm.
    pub fn handle_confirm(&mut self, data: &[u8]) -> (r: Result<(), SmpError>)
        ensures
            data@.len() < 17 ==> r == Err::<(), SmpError>(SmpError::InvalidPdu) && *final(self)
                == *old(self),
            data@.len() >= 17 ==> r is Ok && *final(self) == (Smp {
                peer_confirm: final(self).peer_confirm,
                state: SmpState::WaitRandom,
                ..*old(self)
            }) && final(self).peer_confirm@ == data@.subrange(1, 17),
    {
        if data.len() < 17 {
            return Err(SmpError::InvalidPdu);
        }
        self.peer_confirm = take16(data, 1);
        self.state = SmpState::WaitRandom;
        Ok(())
    }

    /// Build the pairing random PDU.
    pub fn build_random(&self) -> (p: [u8; 17])
        ensures
            p@ == seq![SMP_PAIRING_RANDOM] + self.own_random@,
    {
        confirm_pdu(SMP_PAIRING_RANDOM, &self.own_random)
    }

    /// Handle an incoming pairing random: verifies the peer confirm and
    /// computes the STK. Returns our random PDU.
    pub fn handle_random(&mut self, data: &[u8]) -> (r: Result<[u8; 17], SmpError>)
        ensures
            data@.len() < 17 ==> r == Err::<[u8; 17], SmpError>(SmpError::InvalidPdu) && *final(self) == *old(self),
            data@.len() >= 17 ==> final(self).peer_random@ == data@.subrange(1, 17),
            data@.len() >= 17 && !confirm_matches(*old(self), final(self).peer_random) ==> r
                == Err::<[u8; 17], SmpError>(
                SmpError::ConfirmMismatch,
            ) && *final(self) == (Smp {
                peer_random: final(self).peer_random,
                pairing_failed: SMP_REASON_CONFIRM,
                ..*old(self)
            }),
            data@.len() >= 17 && confirm_matches(*old(self), final(self).peer_random) ==> (r matches Ok(p) && p@ == seq![SMP_PAIRING_RANDOM]
                + old(self).own_random@) && final(self).stk@ == s1_spec(
                TK_JUST_WORKS@,
                old(self).own_random@,
                final(self).peer_random@,
            ) && *final(self) == (Smp {
                peer_random: final(self).peer_random,
                stk: final(self).stk,
                state: SmpState::WaitingStartEnc,
                pairing_failed: 0,
                ..*old(self)
            }),
    {
        if data.len() < 17 {
            return Err(SmpError::InvalidPdu);
        }
        proof {
            reveal(confirm_matches);
        }
        self.peer_random = take16(data, 1);
        let inputs = C1Inputs {
            r: self.peer_random,
            preq: self.preq,
            pres: self.pres,
            iat: self.iat,
            rat: self.rat,
            ia: self.ia,
            ra: self.ra,
        };
        let expected = c1(&TK_JUST_WORKS, &inputs);
        self.check_random(&expected)
    }

    /// Finish a pairing random exchange given the confirm value `expected`
    /// computed from the peer's random: a mismatch with the peer's confirm
    /// fails the pairing, a match derives the STK and answers with our
    /// random PDU.
    pub fn check_random(&mut self, expected: &[u8; 16]) -> (r: Result<[u8; 17], SmpError>)
        ensures
            expected@ != old(self).peer_confirm@ ==> r == Err::<[u8; 17], SmpError>(
                SmpError::ConfirmMismatch,
            ) && *final(self) == (Smp { pairing_failed: SMP_REASON_CONFIRM, ..*old(self) }),
            expected@ == old(self).peer_confirm@ ==> (r matches Ok(p) && p@ == seq![
                SMP_PAIRING_RANDOM,
            ] + old(self).own_random@) && final(self).stk@ == s1_spec(
                TK_JUST_WORKS@,
                old(self).own_random@,
                old(self).peer_random@,
            ) && *final(self) == (Smp {
                stk: final(self).stk,
                state: SmpState::WaitingStartEnc,
                pairing_failed: 0,
                ..*old(self)
            }),
    {
        if !bytes_eq(expected.as_slice(), self.peer_confirm.as_slice()) {
            self.pairing_failed = SMP_REASON_CONFIRM;
            return Err(SmpError::ConfirmMismatch);
        }
        self.stk = s1(&TK_JUST_WORKS, &self.own_random, &self.peer_random);
        self.state = SmpState::WaitingStartEnc;
        self.pairing_failed = 0;
        Ok(confirm_pdu(SMP_PAIRING_RANDOM, &self.own_random))
    }
}

fn take16(data: &[u8], at: usize) -> (r: [u8; 16])
    requires
        at + 16 <= data@.len(),
    ensures
        r@ == data@.subrange(at as int, at + 16),
{
    let mut r = [0u8; 16];
    let n = data.len();
    let mut i: usize = 0;
    while i < 16
        invariant
            i <= 16,
            n == data@.len(),
            at + 16 <= data@.len(),
            forall|j: int| 0 <= j < i ==> r@[j] == data@[at + j],
        decreases 16 - i,
    {
        r[i] = data[at + i];
        i += 1;
    }
    assert(r@ =~= data@.subrange(at as int, at + 16));
    r
}

fn confirm_pdu(opcode: u8, value: &[u8; 16]) -> (p: [u8; 17])
    ensures
        p@ == seq![opcode] + value@,
{
    let mut out = [0u8; 17];
    out[0] = opcode;
    let mut i: usize = 0;
    while i < 16
        invariant
            i <= 16,
            out@[0] == opcode,
            forall|j: int| 0 <= j < i ==> out@[1 + j] == value@[j],
        decreases 16 - i,
    {
        out[1 + i] = value[i];
        i += 1;
    }
    assert(out@ =~= seq![opcode] + value@);
    out
}

} // verus!
