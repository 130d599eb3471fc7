//! The configuration block of the CCM link cipher (BLE LL payload
//! encryption).
use vstd::prelude::*;

use crate::bytes::{copy_into, splice};

verus! {

/// Nonce direction bit: central to peripheral.
pub const LL_NONCE_MASTER_TO_SLAVE: u8 = 0x01;

/// Nonce direction bit: peripheral to central.
pub const LL_NONCE_SLAVE_TO_MASTER: u8 = 0x00;

/// Length of the message integrity check appended to encrypted PDUs.
pub const LL_MIC_LEN: usize = 4;

/// The eight little-endian bytes of a 64-bit value.
pub open spec fn le64(x: u64) -> Seq<u8> {
    Seq::new(8, |i: int| (x >> (8 * i) as u64) as u8)
}

/// Configuration block and scratch area of the CCM peripheral.
pub struct Ccm {
    /// Key (16 bytes), packet counter (bytes 16..25: direction flag,
    /// 5-byte counter, direction), IV and the packet header bytes.
    pub cfg: [u8; 45],
    /// Scratch area for the peripheral.
    pub scratch: [u8; 32],
}

impl Ccm {
    /// A cleared configuration.
    pub fn new() -> (c: Ccm)
        ensures
            c.cfg@ == Seq::new(45, |i: int| 0u8),
    {
        let c = Ccm { cfg: [0u8; 45], scratch: [0u8; 32] };
        assert(c.cfg@ =~= Seq::new(45, |i: int| 0u8));
        c
    }

    /// Program the session key, packet counter (low 5 bytes) and direction
    /// into the configuration block; the IV and header bytes are cleared.
    pub fn setup(&mut self, key: &[u8; 16], packet_counter: u64, direction: u8)
        ensures
            final(self).cfg@ == key@ + seq![0x01u8] + le64(packet_counter).take(5) + seq![direction]
                + Seq::new(22, |i: int| 0u8),
            final(self).scratch == old(self).scratch,
    {
        copy_into(&mut self.cfg, 0, key);
        self.cfg[16] = 0x01;
        let mut i: usize = 0;
        while i < 5
            invariant
                i <= 5,
                self.cfg@.len() == 45,
                self.cfg@.take(16) == key@,
                self.cfg@[16] == 0x01,
                forall|j: int| 0 <= j < i ==> self.cfg@[17 + j] == #[trigger] le64(packet_counter)[j],
                self.scratch == old(self).scratch,
            decreases 5 - i,
        {
            self.cfg[17 + i] = (packet_counter >> (8 * i as u64)) as u8;
            i += 1;
        }
        self.cfg[22] = direction;
        let mut j: usize = 23;
        while j < 45
            invariant
                23 <= j <= 45,
                self.cfg@.len() == 45,
                self.cfg@.take(16) == key@,
                self.cfg@[16] == 0x01,
                forall|k: int| 0 <= k < 5 ==> self.cfg@[17 + k] == #[trigger] le64(packet_counter)[k],
                self.cfg@[22] == direction,
                forall|k: int| 23 <= k < j ==> self.cfg@[k] == 0,
                self.scratch == old(self).scratch,
            decreases 45 - j,
        {
            self.cfg[j] = 0;
            j += 1;
        }
        assert(self.cfg@ =~= key@ + seq![0x01u8] + le64(packet_counter).take(5) + seq![direction]
            + Seq::new(22, |i: int| 0u8));
    }

    /// Enter the header of the PDU about to be processed (its first two
    /// bytes) and clear the rest of the block after it.
    pub fn set_header(&mut self, pdu: &[u8])
        requires
            pdu@.len() >= 2,
        ensures
            final(self).cfg@ == splice(
                old(self).cfg@,
                29,
                seq![pdu@[0], pdu@[1]] + Seq::new(14, |i: int| 0u8),
            ),
            final(self).scratch == old(self).scratch,
    {
        let mut tail = [0u8; 16];
        tail[0] = pdu[0];
        tail[1] = pdu[1];
        assert(tail@ =~= seq![pdu@[0], pdu@[1]] + Seq::new(14, |i: int| 0u8));
        copy_into(&mut self.cfg, 29, &tail);
    }
}

} // verus!
