//! HCI (host-controller interface) layer: H4 framing, packets and the event queue.
use vstd::prelude::*;

use crate::bytes::{copy_into, splice};

verus! {

/// H4 packet type: HCI command.
pub const HCI_COMMAND: u8 = 0x01;

/// H4 packet type: ACL data.
pub const HCI_ACL_DATA: u8 = 0x02;

/// H4 packet type: SCO data.
pub const HCI_SCO_DATA: u8 = 0x03;

/// H4 packet type: HCI event.
pub const HCI_EVENT: u8 = 0x04;

/// Capacity of an HCI packet payload.
pub const HCI_PAYLOAD_MAX: usize = 260;

/// `n` zero bytes.
pub open spec fn zeros(n: nat) -> Seq<u8> {
    Seq::new(n, |i: int| 0u8)
}

/// One HCI packet (command, event or ACL data).
#[derive(Debug, Clone, Copy, PartialEq, Eq)]
pub struct HciPacket {
    /// H4 packet type.
    pub packet_type: u8,
    /// Packet payload.
    pub payload: [u8; 260],
    /// Valid payload length.
    pub len: usize,
}

/// Header of a command packet: opcode (OCF in the low 10 bits, OGF in the
/// top 6 bits, little endian) and parameter length.
pub open spec fn command_header(ogf: u8, ocf: u16, plen: nat) -> Seq<u8> {
    seq![ocf as u8, (((ocf >> 8) & 0x03) as u8) | ((ogf & 0x3F) << 2), plen as u8]
}

/// Header of an ACL packet: handle (low 12 bits first byte, then the high
/// byte) and the 16-bit little-endian data length.
pub open spec fn acl_header(handle: u16, dlen: nat) -> Seq<u8> {
    seq![(handle & 0x0FFF) as u8, (handle >> 8) as u8, (dlen % 256) as u8, (dlen / 256) as u8]
}

impl HciPacket {
    /// Build a command packet.
    pub fn command(ogf: u8, ocf: u16, params: &[u8]) -> (p: HciPacket)
        requires
            params@.len() <= 257,
        ensures
            p.packet_type == HCI_COMMAND,
            p.len == 3 + params@.len(),
            p.payload@ == splice(
                zeros(260),
                0,
                command_header(ogf, ocf, params@.len()) + params@,
            ),
    {
        let mut p = HciPacket { packet_type: HCI_COMMAND, payload: [0; 260], len: 0 };
        assert(p.payload@ =~= zeros(260));
        p.payload[0] = (ocf & 0xFF) as u8;
        p.payload[1] = (((ocf >> 8) & 0x03) as u8) | ((ogf & 0x3F) << 2);
        p.payload[2] = params.len() as u8;
        let ghost hdr = p.payload@;
        assert((ocf & 0xFF) as u8 == ocf as u8) by (bit_vector);
        copy_into(&mut p.payload, 3, params);
        p.len = 3 + params.len();
        assert(p.payload@ =~= splice(
            zeros(260),
            0,
            command_header(ogf, ocf, params@.len()) + params@,
        ));
        p
    }

    /// Build an event packet.
    pub fn event(code: u8, payload: &[u8]) -> (p: HciPacket)
        requires
            payload@.len() <= 258,
        ensures
            p.packet_type == HCI_EVENT,
            p.len == 2 + payload@.len(),
            p.payload@ == splice(
                zeros(260),
                0,
                seq![code, payload@.len() as u8] + payload@,
            ),
    {
        let mut p = HciPacket { packet_type: HCI_EVENT, payload: [0; 260], len: 0 };
        assert(p.payload@ =~= zeros(260));
        p.payload[0] = code;
        p.payload[1] = payload.len() as u8;
        copy_into(&mut p.payload, 2, payload);
        p.len = 2 + payload.len();
        assert(p.payload@ =~= splice(zeros(260), 0, seq![code, payload@.len() as u8] + payload@));
        p
    }

    /// Build an ACL data packet.
    pub fn acl(handle: u16, data: &[u8]) -> (p: HciPacket)
        requires
            data@.len() <= 256,
        ensures
            p.packet_type == HCI_ACL_DATA,
            p.len == 4 + data@.len(),
            p.payload@ == splice(zeros(260), 0, acl_header(handle, data@.len()) + data@),
    {
        let mut p = HciPacket { packet_type: HCI_ACL_DATA, payload: [0; 260], len: 0 };
        assert(p.payload@ =~= zeros(260));
        p.payload[0] = (handle & 0x0FFF) as u8;
        p.payload[1] = (handle >> 8) as u8;
        p.payload[2] = (data.len() & 0xFF) as u8;
        p.payload[3] = (data.len() >> 8) as u8;
        let n = data.len();
        assert((n & 0xFF) as u8 == (n % 256) as u8 && (n >> 8) as u8 == (n / 256) as u8)
            by (bit_vector)
            requires
                n <= 256,
        ;
        copy_into(&mut p.payload, 4, data);
        p.len = 4 + data.len();
        assert(p.payload@ =~= splice(zeros(260), 0, acl_header(handle, data@.len()) + data@));
        p
    }
}

/// H4 byte-stream framing: feed bytes, get complete packets.
pub struct H4Framer {
    /// Detected packet type of the current frame.
    pub packet_type: Option<u8>,
    expected: usize,
    buf: [u8; 260],
    buf_len: usize,
}

/// Abstract framer state: the frame type being collected, the announced
/// frame length (0 until its header is complete), and the bytes so far.
pub struct FramerModel {
    pub packet_type: Option<u8>,
    pub expected: nat,
    pub frame: Seq<u8>,
}

/// Offset of the length field of a frame type, and the header size.
pub open spec fn header_len(t: u8) -> nat {
    if t == HCI_COMMAND {
        3
    } else if t == HCI_EVENT {
        2
    } else {
        4
    }
}

/// The frame length announced by a complete header.
pub open spec fn announced_len(t: u8, frame: Seq<u8>) -> nat {
    if t == HCI_COMMAND {
        (3 + frame[2]) as nat
    } else if t == HCI_EVENT {
        (2 + frame[1]) as nat
    } else {
        4 + (frame[2] + 256 * frame[3]) as nat
    }
}

/// A frame type the framer collects.
pub open spec fn is_framed_type(b: u8) -> bool {
    b == HCI_COMMAND || b == HCI_ACL_DATA || b == HCI_EVENT
}

/// The framer's state after byte `b` (see [`H4Framer::feed`]).
pub open spec fn framer_next(m: FramerModel, b: u8) -> FramerModel {
    match m.packet_type {
        None => if is_framed_type(b) {
            FramerModel { packet_type: Some(b), expected: m.expected, frame: Seq::empty() }
        } else {
            m
        },
        Some(t) => if !is_framed_type(t) {
            m
        } else {
            let frame = m.frame.push(b);
            let expected = if frame.len() == header_len(t) {
                announced_len(t, frame)
            } else {
                m.expected
            };
            if frame.len() == expected && expected >= header_len(t) {
                FramerModel { packet_type: None, expected: 0, frame }
            } else {
                FramerModel { packet_type: Some(t), expected, frame }
            }
        },
    }
}

/// The frame (type and bytes) that byte `b` completes, if any.
pub open spec fn framer_out(m: FramerModel, b: u8) -> Option<(u8, Seq<u8>)> {
    match m.packet_type {
        Some(t) => if is_framed_type(t) && framer_next(m, b).packet_type is None {
            Some((t, m.frame.push(b)))
        } else {
            None
        },
        None => None,
    }
}

/// A packet handed out by the framer: its type and bytes.
pub open spec fn packet_frame(r: Option<HciPacket>) -> Option<(u8, Seq<u8>)> {
    match r {
        Some(p) => Some((p.packet_type, p.payload@.take(p.len as int))),
        None => None,
    }
}

/// The framer's state after `bytes`, and the frames completed on the way,
/// in order.
pub open spec fn framer_run(m: FramerModel, bytes: Seq<u8>) -> (FramerModel, Seq<(u8, Seq<u8>)>)
    decreases bytes.len(),
{
    if bytes.len() == 0 {
        (m, Seq::empty())
    } else {
        let prev = framer_run(m, bytes.drop_last());
        let b = bytes.last();
        (
            framer_next(prev.0, b),
            match framer_out(prev.0, b) {
                Some(o) => prev.1.push(o),
                None => prev.1,
            },
        )
    }
}

proof fn lemma_framer_prefix(m: FramerModel, t: u8, f: Seq<u8>, k: int)
    requires
        m.packet_type is None,
        is_framed_type(t),
        f.len() >= header_len(t),
        announced_len(t, f) == f.len(),
        0 <= k < f.len(),
    ensures
        framer_run(m, seq![t] + f.take(k)) == (
            FramerModel {
                packet_type: Some(t),
                expected: if k >= header_len(t) {
                    f.len()
                } else {
                    m.expected
                },
                frame: f.take(k),
            },
            Seq::<(u8, Seq<u8>)>::empty(),
        ),
    decreases k,
{
    let bytes = seq![t] + f.take(k);
    if k == 0 {
        assert(bytes.drop_last() =~= Seq::<u8>::empty());
        assert(f.take(0) =~= Seq::<u8>::empty());
        assert(framer_run(m, Seq::<u8>::empty()) == (m, Seq::<(u8, Seq<u8>)>::empty()));
        assert(bytes.last() == t);
        assert(framer_out(m, t) is None);
    } else {
        lemma_framer_prefix(m, t, f, k - 1);
        assert(bytes.drop_last() =~= seq![t] + f.take(k - 1));
        assert(bytes.last() == f[k - 1]);
        assert(f.take(k - 1).push(f[k - 1]) =~= f.take(k));
        if k == header_len(t) {
            let fr = f.take(k);
            assert(announced_len(t, fr) == announced_len(t, f));
        }
    }
}

/// An idle framer fed the H4 bytes of a frame (its type byte, then a
/// frame whose header announces its length) hands out exactly that frame,
/// once, at its last byte, and is idle again.
pub proof fn lemma_h4_roundtrip(m: FramerModel, t: u8, f: Seq<u8>)
    requires
        m.packet_type is None,
        is_framed_type(t),
        f.len() >= header_len(t),
        announced_len(t, f) == f.len(),
    ensures
        framer_run(m, seq![t] + f).0.packet_type is None,
        framer_run(m, seq![t] + f).1 == seq![(t, f)],
{
    let k = f.len() - 1;
    lemma_framer_prefix(m, t, f, k);
    let bytes = seq![t] + f;
    assert(bytes.drop_last() =~= seq![t] + f.take(k));
    assert(bytes.last() == f[k]);
    assert(f.take(k).push(f[k]) =~= f);
    if k + 1 == header_len(t) {
        assert(announced_len(t, f.take(k).push(f[k])) == announced_len(t, f));
    }
    assert(Seq::<(u8, Seq<u8>)>::empty().push((t, f)) =~= seq![(t, f)]);
}

impl View for H4Framer {
    type V = FramerModel;

    closed spec fn view(&self) -> FramerModel {
        FramerModel {
            packet_type: self.packet_type,
            expected: self.expected as nat,
            frame: self.buf@.take(self.buf_len as int),
        }
    }
}

impl Default for H4Framer {
    fn default() -> (r: Self)
        ensures
            r@.packet_type is None,
            r@.expected == 0,
    {
        Self::new()
    }
}

impl H4Framer {
    /// The framer's fields are consistent: the frame fits the buffer.
    pub closed spec fn wf(&self) -> bool {
        &&& self.buf_len <= 260
        &&& self.expected <= 4 + 65535
    }

    /// Length of the frame being collected.
    pub fn frame_len(&self) -> (n: usize)
        requires
            self.wf(),
        ensures
            n == self@.frame.len(),
    {
        self.buf_len
    }

    /// Create an idle framer.
    pub fn new() -> (r: Self)
        ensures
            r.wf(),
            r@.packet_type is None,
            r@.expected == 0,
            r@.frame.len() == 0,
    {
        H4Framer { packet_type: None, expected: 0, buf: [0; 260], buf_len: 0 }
    }

    /// Feed one byte; returns the decoded packet when a full frame arrived.
    ///
    /// Idle, the framer waits for a command, ACL or event type byte. While
    /// collecting, it appends the byte, reads the frame length once the
    /// header is complete, and hands out the frame (going idle again) when
    /// it has that many bytes.
    pub fn feed(&mut self, byte: u8) -> (r: Option<HciPacket>)
        requires
            old(self).wf(),
            old(self)@.packet_type matches Some(t) && is_framed_type(t) ==> old(self)@.frame.len()
                < 260,
        ensures
            final(self).wf(),
            final(self)@ == framer_next(old(self)@, byte),
            packet_frame(r) == framer_out(old(self)@, byte),
            match old(self)@.packet_type {
                None => r is None && if is_framed_type(byte) {
                    final(self)@.packet_type == Some(byte) && final(self)@.frame.len() == 0
                        && final(self)@.expected == old(self)@.expected
                } else {
                    final(self)@ == old(self)@
                },
                Some(t) => if !is_framed_type(t) {
                    r is None && final(self)@ == old(self)@
                } else {
                    let frame = old(self)@.frame.push(byte);
                    let expected = if frame.len() == header_len(t) {
                        announced_len(t, frame)
                    } else {
                        old(self)@.expected
                    };
                    if frame.len() == expected && expected >= header_len(t) {
                        (r matches Some(p) && p.packet_type == t && p.len == frame.len()
                            && p.payload@.take(p.len as int) == frame) && final(self)@.packet_type
                            is None && final(self)@.expected == 0
                    } else {
                        r is None && final(self)@.packet_type == Some(t) && final(self)@.frame
                            == frame && final(self)@.expected == expected
                    }
                },
            },
    {
        match self.packet_type {
            None => {
                if byte == HCI_COMMAND || byte == HCI_ACL_DATA || byte == HCI_EVENT {
                    self.packet_type = Some(byte);
                    self.buf_len = 0;
                    assert(self@.frame =~= Seq::<u8>::empty());
                }
                None
            },
            Some(t) => {
                if t != HCI_COMMAND && t != HCI_EVENT && t != HCI_ACL_DATA {
                    return None;
                }
                let ghost frame = self@.frame.push(byte);
                self.buf[self.buf_len] = byte;
                self.buf_len += 1;
                assert(self.buf@.take(self.buf_len as int) =~= frame);
                let header = if t == HCI_COMMAND {
                    3
                } else if t == HCI_EVENT {
                    2
                } else {
                    4
                };
                if self.buf_len == header {
                    self.expected = if t == HCI_COMMAND {
                        3 + self.buf[2] as usize
                    } else if t == HCI_EVENT {
                        2 + self.buf[1] as usize
                    } else {
                        4 + ((self.buf[2] as u16) | ((self.buf[3] as u16) << 8)) as usize
                    };
                    proof {
                        let b2 = self.buf@[2];
                        let b3 = self.buf@[3];
                        assert(((b2 as u16) | ((b3 as u16) << 8)) as int == b2 + 256 * b3)
                            by (bit_vector);
                    }
                }
                if self.buf_len == self.expected && self.expected >= header {
                    self.reset();
                    Some(HciPacket { packet_type: t, payload: self.buf, len: self.buf_len })
                } else {
                    None
                }
            },
        }
    }

    fn reset(&mut self)
        ensures
            *final(self) == (H4Framer { packet_type: None, expected: 0, ..*old(self) }),
    {
        self.packet_type = None;
        self.expected = 0;
    }
}


/// Number of slots of the controller's event ring.
pub const HCI_EVENT_SLOTS: usize = 16;

/// HCI controller layer bridging a host (over UART H4) to the BLE stack.
pub struct Hci {
    /// Framer collecting host bytes.
    pub framer: H4Framer,
    /// Event ring.
    pub events: [Option<HciPacket>; 16],
    /// Ring write index.
    pub event_head: usize,
    /// Ring read index.
    pub event_tail: usize,
    /// BD_ADDR reported to the host.
    pub own_addr: [u8; 6],
    /// Advertising enabled by the host.
    pub adv_enabled: bool,
    /// Scanning enabled by the host.
    pub scan_enabled: bool,
    /// Active connection handle.
    pub conn_handle: u16,
    /// True while a connection is open.
    pub connection_open: bool,
}

/// Abstract event ring: the slots, the write index and the read index.
pub struct EventRing {
    pub slots: Seq<Option<HciPacket>>,
    pub head: int,
    pub tail: int,
}

/// Distance from ring index `from` forward to ring index `to`.
pub open spec fn ring_dist(from: int, to: int) -> int {
    if to >= from {
        to - from
    } else {
        to - from + 16
    }
}

/// The ring index `k` slots after `from`.
pub open spec fn ring_add(from: int, k: int) -> int {
    if from + k < 16 {
        from + k
    } else {
        from + k - 16
    }
}

/// Number of events between the read and the write index.
pub open spec fn ring_count(r: EventRing) -> int {
    ring_dist(r.tail, r.head)
}

/// The ring holds exactly the events between its read and write index.
pub open spec fn ring_fifo(r: EventRing) -> bool {
    &&& r.slots.len() == 16
    &&& 0 <= r.head < 16
    &&& 0 <= r.tail < 16
    &&& forall|i: int|
        0 <= i < 16 ==> (#[trigger] r.slots[i] is Some <==> ring_dist(r.tail, i) < ring_count(r))
}

/// The ring after packet `p` is pushed: `p` goes into the write slot, the
/// write index advances, and when the ring was full the read index
/// advances past the oldest event.
pub open spec fn ring_push(r: EventRing, p: HciPacket) -> EventRing {
    let next = (r.head + 1) % 16;
    EventRing {
        slots: r.slots.update(r.head, Some(p)),
        head: next,
        tail: if next == r.tail {
            (r.tail + 1) % 16
        } else {
            r.tail
        },
    }
}

/// The ring after packets `ps` are pushed in order.
pub open spec fn ring_push_all(r: EventRing, ps: Seq<HciPacket>) -> EventRing
    decreases ps.len(),
{
    if ps.len() == 0 {
        r
    } else {
        ring_push(ring_push_all(r, ps.drop_last()), ps.last())
    }
}

/// The queued events, oldest first.
pub open spec fn ring_queue(r: EventRing) -> Seq<HciPacket> {
    Seq::new(ring_count(r) as nat, |k: int| r.slots[ring_add(r.tail, k)]->0)
}

impl Hci {
    /// The event ring's indices are in range.
    pub open spec fn wf(&self) -> bool {
        &&& self.event_head < 16
        &&& self.event_tail < 16
        &&& self.framer.wf()
    }

    /// The event ring.
    pub open spec fn ring(&self) -> EventRing {
        EventRing {
            slots: self.events@,
            head: self.event_head as int,
            tail: self.event_tail as int,
        }
    }

    /// The framer collecting host bytes.
    pub open spec fn framer_state(&self) -> FramerModel {
        self.framer@
    }

    /// Create an idle HCI controller.
    pub fn new() -> (r: Self)
        ensures
            r.wf(),
            ring_fifo(r.ring()),
            ring_queue(r.ring()).len() == 0,
            r.framer_state().packet_type is None,
            r.own_addr@ == seq![0u8, 0u8, 0u8, 0u8, 0u8, 0u8],
            r.conn_handle == 0,
            !r.connection_open,
    {
        let r = Hci {
            framer: H4Framer::new(),
            events: [None; 16],
            event_head: 0,
            event_tail: 0,
            own_addr: [0; 6],
            adv_enabled: false,
            scan_enabled: false,
            conn_handle: 0,
            connection_open: false,
        };
        assert(r.own_addr@ =~= seq![0u8, 0u8, 0u8, 0u8, 0u8, 0u8]);
        r
    }

    /// Length of the frame the framer is collecting.
    pub fn frame_len(&self) -> (n: usize)
        requires
            self.wf(),
        ensures
            n == self.framer_state().frame.len(),
    {
        self.framer.buf_len
    }

    /// Feed one byte from the transport; returns a decoded packet when a
    /// full one arrived.
    pub fn feed(&mut self, byte: u8) -> (r: Option<HciPacket>)
        requires
            old(self).wf(),
            old(self).framer_state().packet_type matches Some(t) && is_framed_type(t)
                ==> old(self).framer_state().frame.len() < 260,
        ensures
            final(self).wf(),
            final(self).ring() == old(self).ring(),
            final(self).framer_state() == framer_next(old(self).framer_state(), byte),
            packet_frame(r) == framer_out(old(self).framer_state(), byte),
            *final(self) == (Hci { framer: final(self).framer, ..*old(self) }),
            match old(self).framer_state().packet_type {
                None => r is None && if is_framed_type(byte) {
                    final(self).framer_state().packet_type == Some(byte)
                        && final(self).framer_state().frame.len() == 0
                } else {
                    final(self).framer_state() == old(self).framer_state()
                },
                Some(t) => if !is_framed_type(t) {
                    r is None && final(self).framer_state() == old(self).framer_state()
                } else {
                    let frame = old(self).framer_state().frame.push(byte);
                    let expected = if frame.len() == header_len(t) {
                        announced_len(t, frame)
                    } else {
                        old(self).framer_state().expected
                    };
                    if frame.len() == expected && expected >= header_len(t) {
                        (r matches Some(p) && p.packet_type == t && p.len == frame.len()
                            && p.payload@.take(p.len as int) == frame)
                            && final(self).framer_state().packet_type is None
                    } else {
                        r is None && final(self).framer_state().frame == frame
                    }
                },
            },
    {
        self.framer.feed(byte)
    }

    /// Pop the next pending event for the transport.
    pub fn next_event(&mut self) -> (r: Option<HciPacket>)
        requires
            old(self).wf(),
        ensures
            final(self).wf(),
            final(self).framer_state() == old(self).framer_state(),
            r == old(self).ring().slots[old(self).ring().tail],
            final(self).ring().slots == old(self).ring().slots.update(
                old(self).ring().tail,
                None,
            ),
            final(self).ring().head == old(self).ring().head,
            final(self).ring().tail == if r is Some {
                (old(self).ring().tail + 1) % 16
            } else {
                old(self).ring().tail
            },
            ring_fifo(old(self).ring()) ==> ring_fifo(final(self).ring()) && if ring_queue(
                old(self).ring(),
            ).len() == 0 {
                r is None && ring_queue(final(self).ring()) == ring_queue(old(self).ring())
            } else {
                r == Some(ring_queue(old(self).ring())[0]) && ring_queue(final(self).ring())
                    == ring_queue(old(self).ring()).drop_first()
            },
    {
        let t = self.event_tail;
        let evt = self.events[t];
        self.events[t] = None;
        if evt.is_some() {
            self.event_tail = (t + 1) % 16;
        }
        proof {
            let o = old(self).ring();
            let n = self.ring();
            if ring_fifo(o) {
                if ring_count(o) == 0 {
                    assert(o.slots[o.tail] is None);
                    assert(n.slots =~= o.slots);
                    assert(ring_queue(n) =~= ring_queue(o));
                } else {
                    assert(o.slots[o.tail] is Some);
                    assert(ring_count(n) == ring_count(o) - 1);
                    assert forall|i: int| 0 <= i < 16 implies (#[trigger] n.slots[i] is Some
                        <==> ring_dist(n.tail, i) < ring_count(n)) by {
                        assert(o.slots[i] is Some <==> ring_dist(o.tail, i) < ring_count(o));
                    }
                    assert(ring_queue(n) =~= ring_queue(o).drop_first());
                }
            }
        }
        evt
    }

    /// Queue an event for the host. When the ring is full the oldest slot
    /// is given up.
    pub fn push_event(&mut self, evt: HciPacket)
        requires
            old(self).wf(),
        ensures
            final(self).wf(),
            final(self).framer_state() == old(self).framer_state(),
            final(self).ring().slots == old(self).ring().slots.update(
                old(self).ring().head,
                Some(evt),
            ),
            final(self).ring().head == (old(self).ring().head + 1) % 16,
            final(self).ring() == ring_push(old(self).ring(), evt),
            final(self).ring().tail == if (old(self).ring().head + 1) % 16 == old(
                self,
            ).ring().tail {
                (old(self).ring().tail + 1) % 16
            } else {
                old(self).ring().tail
            },
            ring_fifo(old(self).ring()) && ring_queue(old(self).ring()).len() < 15 ==> ring_fifo(
                final(self).ring(),
            ) && ring_queue(final(self).ring()) == ring_queue(old(self).ring()).push(evt),
            *final(self) == (Hci {
                events: final(self).events,
                event_head: final(self).event_head,
                event_tail: final(self).event_tail,
                ..*old(self)
            }),
    {
        let next = (self.event_head + 1) % 16;
        if next == self.event_tail {
            self.event_tail = (self.event_tail + 1) % 16;
        }
        let h = self.event_head;
        self.events[h] = Some(evt);
        self.event_head = next;
        proof {
            let o = old(self).ring();
            let n = self.ring();
            if ring_fifo(o) && ring_count(o) < 15 {
                assert(ring_count(n) == ring_count(o) + 1);
                assert forall|i: int| 0 <= i < 16 implies (#[trigger] n.slots[i] is Some
                    <==> ring_dist(n.tail, i) < ring_count(n)) by {
                    assert(o.slots[i] is Some <==> ring_dist(o.tail, i) < ring_count(o));
                }
                assert(ring_queue(n) =~= ring_queue(o).push(evt));
            }
        }
    }
}

} // verus!
