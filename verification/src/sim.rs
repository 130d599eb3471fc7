//! Host-side virtual radio for testing the stack without hardware.
//!
//! Emulates the nRF52 RADIO peripheral's BLE-mode data path: the hardware
//! appends the 24-bit CRC and applies data whitening on transmit, and
//! de-whitens and validates the CRC on receive. A wrong channel or a
//! corrupted packet yields a [`Error::CrcMismatch`], exactly like the
//! hardware's CRC error event.
use vstd::prelude::*;

use crate::bytes::{copy_into, splice};
use crate::ll::crc::{self, crc24_spec, crc_bytes, lemma_check_appended, CRC_INIT};
use crate::ll::whiten::{self, lemma_whiten_involution, whiten_spec};
use crate::Error;

verus! {

/// Maximum on-air packet length (PDU + 2-byte header + 3-byte CRC).
pub const MAX_PACKET_LEN: usize = 255 + 2 + 3;

/// An on-air packet as produced by the emulated transmitter.
#[derive(Debug, Clone, Copy, PartialEq, Eq)]
pub struct Packet {
    /// Channel the packet was transmitted on.
    pub channel: u8,
    /// Whitened bytes including the CRC.
    pub bytes: [u8; MAX_PACKET_LEN],
    /// Number of valid bytes.
    pub len: usize,
}

/// A received packet after de-whitening and CRC validation.
#[derive(Debug, Clone, Copy, PartialEq, Eq)]
pub struct RxPacket {
    /// The PDU bytes (header + payload, CRC stripped).
    pub pdu: [u8; MAX_PACKET_LEN],
    /// PDU length.
    pub len: usize,
}

/// A virtual nRF52 radio on a single channel.
#[derive(Debug, Clone, Copy, PartialEq, Eq)]
pub struct VirtualRadio {
    /// The channel this radio listens on.
    pub channel: u8,
}

/// The on-air bytes of `pdu` sent on `channel`: the PDU and its CRC,
/// whitened.
pub open spec fn on_air(pdu: Seq<u8>, channel: u8) -> Seq<u8> {
    whiten_spec(pdu + crc_bytes(crc24_spec(pdu, CRC_INIT)), channel)
}

/// `n` zero bytes.
pub open spec fn zeros(n: nat) -> Seq<u8> {
    Seq::new(n, |i: int| 0u8)
}

fn whiten_prefix(buf: &mut [u8; MAX_PACKET_LEN], len: usize, channel: u8)
    requires
        len <= MAX_PACKET_LEN,
    ensures
        final(buf)@ == whiten_spec(old(buf)@.take(len as int), channel) + old(buf)@.skip(
            len as int,
        ),
{
    let s: &mut [u8] = buf;
    let (head, _tail) = s.split_at_mut(len);
    whiten::whiten(head, channel);
}

impl VirtualRadio {
    /// Create a radio on `channel`.
    pub fn new(channel: u8) -> (r: Self)
        ensures
            r.channel == channel,
    {
        VirtualRadio { channel }
    }

    /// Emulate a transmit: append CRC and whiten, as the hardware would.
    pub fn transmit(&self, pdu: &[u8]) -> (r: Result<Packet, Error>)
        ensures
            pdu@.len() + 3 > MAX_PACKET_LEN ==> r == Err::<Packet, Error>(Error::BufferTooSmall),
            pdu@.len() + 3 <= MAX_PACKET_LEN ==> (r matches Ok(p) && p.channel == self.channel
                && p.len == pdu@.len() + 3 && p.bytes@ == on_air(pdu@, self.channel) + zeros(
                (MAX_PACKET_LEN - p.len) as nat,
            )),
    {
        if pdu.len() > MAX_PACKET_LEN - 3 {
            return Err(Error::BufferTooSmall);
        }
        let mut bytes = [0u8; MAX_PACKET_LEN];
        assert(bytes@ =~= zeros(MAX_PACKET_LEN as nat));
        copy_into(&mut bytes, 0, pdu);
        let mut crc_buf = [0u8; 3];
        match crc::append_crc(pdu, &mut crc_buf) {
            Ok(()) => {},
            Err(e) => return Err(e),
        }
        copy_into(&mut bytes, pdu.len(), &crc_buf);
        let total = pdu.len() + 3;
        let ghost c = crc_bytes(crc24_spec(pdu@, CRC_INIT));
        assert(crc_buf@ =~= c);
        assert(bytes@.take(total as int) =~= pdu@ + c);
        assert(bytes@.skip(total as int) =~= zeros((MAX_PACKET_LEN - total) as nat));
        whiten_prefix(&mut bytes, total, self.channel);
        Ok(Packet { channel: self.channel, bytes, len: total })
    }

    /// Emulate a receive: de-whiten with this radio's channel and validate
    /// the CRC.
    pub fn receive(&self, packet: &Packet) -> (r: Result<RxPacket, Error>)
        requires
            packet.len <= MAX_PACKET_LEN,
        ensures
            packet.len < 3 ==> r == Err::<RxPacket, Error>(Error::InvalidLength),
            packet.len >= 3 && crc24_spec(
                whiten_spec(packet.bytes@.take(packet.len as int), self.channel),
                CRC_INIT,
            ) != 0 ==> r == Err::<RxPacket, Error>(Error::CrcMismatch),
            packet.len >= 3 && crc24_spec(
                whiten_spec(packet.bytes@.take(packet.len as int), self.channel),
                CRC_INIT,
            ) == 0 ==> (r matches Ok(rx) && rx.len == packet.len - 3 && rx.pdu@ == whiten_spec(
                packet.bytes@.take(packet.len as int),
                self.channel,
            ) + zeros((MAX_PACKET_LEN - packet.len) as nat)),
    {
        if packet.len < 3 {
            return Err(Error::InvalidLength);
        }
        let len = packet.len;
        let mut buf = [0u8; MAX_PACKET_LEN];
        let src = &packet.bytes[0..len];
        copy_into(&mut buf, 0, src);
        assert(buf@.take(len as int) =~= packet.bytes@.take(len as int));
        assert(buf@.skip(len as int) =~= zeros((MAX_PACKET_LEN - len) as nat));
        whiten_prefix(&mut buf, len, self.channel);
        let received = &buf[0..len];
        assert(received@ =~= whiten_spec(packet.bytes@.take(len as int), self.channel));
        if !crc::check(received) {
            return Err(Error::CrcMismatch);
        }
        Ok(RxPacket { pdu: buf, len: len - 3 })
    }
}

/// Full transmit/receive loopback of a PDU on one channel.
///
/// Every PDU that fits a packet comes back unchanged.
pub fn loopback(pdu: &[u8], channel: u8) -> (r: Result<RxPacket, Error>)
    ensures
        pdu@.len() + 3 > MAX_PACKET_LEN ==> r == Err::<RxPacket, Error>(Error::BufferTooSmall),
        pdu@.len() + 3 <= MAX_PACKET_LEN ==> (r matches Ok(rx) && rx.len == pdu@.len()
            && rx.pdu@.take(rx.len as int) == pdu@),
{
    let radio = VirtualRadio::new(channel);
    let packet = match radio.transmit(pdu) {
        Ok(p) => p,
        Err(e) => return Err(e),
    };
    proof {
        let framed = pdu@ + crc_bytes(crc24_spec(pdu@, CRC_INIT));
        assert(packet.bytes@.take(packet.len as int) =~= whiten_spec(framed, channel));
        lemma_whiten_involution(framed, channel);
        lemma_check_appended(pdu@);
    }
    let rx = radio.receive(&packet);
    proof {
        let framed = pdu@ + crc_bytes(crc24_spec(pdu@, CRC_INIT));
        assert(framed.take(pdu@.len() as int) =~= pdu@);
    }
    rx
}

} // verus!
