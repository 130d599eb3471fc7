//! SoftDevice-style BLE API: advertising, scanning, connections and the
//! application event queue. The radio and timer work between the steps of
//! the advertising, scanning and connection state machines belongs to the
//! caller, which hands in the time and the received packets.
use vstd::prelude::*;

use crate::hw::conn::{
    bond_find_spec, bond_save_spec, conn_fresh, cut, BondInfo, BondStore, Conn, ConnEvent, ConnRole,
};
use crate::hw::smp::{pairing_pdu, SmpState, L2CAP_SMP_CID, SMP_PAIRING_REQUEST};
use crate::hw::pairing::l2cap_queued;
use crate::bytes::le16;
use crate::hw::timers::IntervalAccum;
use crate::ll::accept_list::AcceptList;
use crate::ll::addr::AddrType;
use crate::ll::channels::ADV_CHANNELS;
use crate::ll::addr::{random_subtype, BtAddr};
use crate::ll::pdu::{
    adv_decode_spec, adv_encode_result, adv_pdu_bytes, adv_pdu_type, conn_req_bytes,
    conn_req_fields, AdvPdu, AdvPduModel, ConnectReqData, PDU_SCAN_RSP,
};
use crate::hw::timers::window_ticks;
use crate::hw::conn::DisconnectReason;
use crate::bytes::splice;
use crate::Error;

verus! {

/// Number of slots of the application event queue.
pub const EVENT_QUEUE_LEN: usize = 8;

/// Size of the advertising channel PDU buffers.
pub const RX_PDU_MAX: usize = 257;

/// Listen window for a SCAN_REQ after advertising, in microseconds.
pub const SCAN_REQ_WINDOW_MICROS: u32 = 300;

/// Listen window for a SCAN_REQ or CONNECT_REQ after connectable
/// advertising, in microseconds.
pub const CONNECT_REQ_WINDOW_MICROS: u32 = 90_000;

/// Advertising type (legacy advertising PDU).
#[derive(Debug, Clone, Copy, PartialEq, Eq, Structural)]
pub enum AdvType {
    /// ADV_IND: connectable and scannable undirected.
    ConnectableUndirected,
    /// ADV_DIRECT_IND: connectable directed.
    ConnectableDirected,
    /// ADV_SCAN_IND: scannable, non-connectable.
    ScannableUndirected,
    /// ADV_NONCONN_IND: non-connectable, non-scannable.
    NonConnectableUndirected,
}

/// Advertising/scanning filter policy.
#[derive(Debug, Clone, Copy, PartialEq, Eq, Structural)]
pub enum FilterPolicy {
    /// Accept all devices (no accept-list filtering).
    AcceptAll,
    /// Only accept devices present in the accept list.
    AcceptList,
}

/// Advertising parameters.
#[derive(Debug, Clone, Copy, PartialEq, Eq)]
pub struct AdvParams {
    /// Minimum advertising interval in 0.625 ms units (32-16384).
    pub interval_min: u16,
    /// Maximum advertising interval in 0.625 ms units.
    pub interval_max: u16,
    /// Advertising type.
    pub adv_type: AdvType,
    /// Own address type.
    pub own_addr_type: AddrType,
    /// Peer address, required for directed advertising.
    pub peer_addr: Option<[u8; 6]>,
    /// Channel map: bit 0 = channel 37, bit 1 = 38, bit 2 = 39.
    pub channel_map: u8,
    /// Extended advertising requested. Not acted on: the stack sends
    /// legacy advertising PDUs only (extended advertising would need the
    /// ADV_EXT_IND / AUX_PTR PDU formats, which the PDU codec does not
    /// have).
    pub extended: bool,
    /// Periodic advertising requested. Not acted on, like `extended`.
    pub periodic: bool,
    /// Periodic advertising interval in 1.25 ms units. Not acted on, like
    /// `extended`.
    pub periodic_interval: u16,
}

/// The default advertising parameters: 100 ms connectable undirected
/// advertising on all three channels from the public address.
pub open spec fn adv_params_default() -> AdvParams {
    AdvParams {
        interval_min: 160,
        interval_max: 160,
        adv_type: AdvType::ConnectableUndirected,
        own_addr_type: AddrType::Public,
        peer_addr: None,
        channel_map: 0b111,
        extended: false,
        periodic: false,
        periodic_interval: 100,
    }
}

impl Default for AdvParams {
    fn default() -> (r: Self)
        ensures
            r == adv_params_default(),
    {
        AdvParams {
            interval_min: 160,
            interval_max: 160,
            adv_type: AdvType::ConnectableUndirected,
            own_addr_type: AddrType::Public,
            peer_addr: None,
            channel_map: 0b111,
            extended: false,
            periodic: false,
            periodic_interval: 100,
        }
    }
}

/// Scanning parameters.
#[derive(Debug, Clone, Copy, PartialEq, Eq)]
pub struct ScanParams {
    /// Active scanning: send SCAN_REQ and report SCAN_RSP.
    pub active: bool,
    /// Scan interval in 0.625 ms units (4-16384).
    pub interval: u16,
    /// Scan window in 0.625 ms units (4-16384, <= interval).
    pub window: u16,
    /// Own address type.
    pub own_addr_type: AddrType,
    /// Filter policy.
    pub filter_policy: FilterPolicy,
}

/// The default scanning parameters: passive, 50 ms interval, 25 ms window.
pub open spec fn scan_params_default() -> ScanParams {
    ScanParams {
        active: false,
        interval: 80,
        window: 40,
        own_addr_type: AddrType::Public,
        filter_policy: FilterPolicy::AcceptAll,
    }
}

impl Default for ScanParams {
    fn default() -> (r: Self)
        ensures
            r == scan_params_default(),
    {
        ScanParams {
            active: false,
            interval: 80,
            window: 40,
            own_addr_type: AddrType::Public,
            filter_policy: FilterPolicy::AcceptAll,
        }
    }
}

/// Events reported by the stack to the application.
#[derive(Debug, Clone, Copy, PartialEq, Eq)]
pub enum BleEvent {
    /// Advertising started.
    AdvStarted,
    /// Advertising stopped.
    AdvStopped,
    /// Scanning started.
    ScanStarted,
    /// Scanning stopped.
    ScanStopped,
    /// A scanner requested our scan response data.
    ScanReqReceived {
        /// Scanner address.
        addr: [u8; 6],
    },
    /// A connection request was received while advertising.
    ConnectReqReceived {
        /// Initiator address.
        init_addr: [u8; 6],
        /// Parsed connection parameters.
        conn: ConnectReqData,
    },
    /// A connection was established.
    Connected {
        /// Connection parameters from the CONNECT_REQ.
        conn: ConnectReqData,
    },
    /// The connection was closed.
    Disconnected {
        /// Why the connection ended.
        reason: DisconnectReason,
    },
    /// The peer wrote data to the NUS RX characteristic.
    ConnData,
    /// The peer sent an LL control PDU (opcode).
    LlControl(u8),
    /// The peer sent an L2CAP PDU on a non-ATT channel (channel ID).
    L2cap(u16),
    /// An advertising or scan response packet was received while scanning.
    ScanReport {
        /// Advertiser address.
        addr: [u8; 6],
        /// Derived address type.
        addr_type: AddrType,
        /// PDU type of the received packet.
        adv_type: u8,
        /// Received signal strength in dBm.
        rssi: i8,
        /// Advertising data (31-byte max, legacy).
        data: [u8; 31],
        /// Number of valid data bytes.
        data_len: usize,
    },
}

/// Advertising state.
#[derive(Debug, Clone, Copy, PartialEq, Eq, Structural)]
pub enum AdvState {
    /// Not advertising.
    Idle,
    /// Advertising.
    Running,
    /// Advertising stops at the next event.
    StopPending,
}

/// Scanning state.
#[derive(Debug, Clone, Copy, PartialEq, Eq, Structural)]
pub enum ScanState {
    /// Not scanning.
    Idle,
    /// Scanning.
    Running,
    /// Scanning stops at the next listen.
    StopPending,
}

/// The BLE stack's state (the radio and timer are driven by the caller).
pub struct Ble {
    /// Advertising interval accumulator.
    pub adv_accum: IntervalAccum,
    /// Scan interval accumulator.
    pub scan_accum: IntervalAccum,
    /// Advertising state.
    pub adv_state: AdvState,
    /// Scanning state.
    pub scan_state: ScanState,
    /// Advertising parameters in use.
    pub adv_params: AdvParams,
    /// Scanning parameters in use.
    pub scan_params: ScanParams,
    /// Advertising data.
    pub adv_data: [u8; 31],
    /// Length of the advertising data.
    pub adv_data_len: usize,
    /// Scan response data.
    pub scan_rsp: [u8; 31],
    /// Length of the scan response data.
    pub scan_rsp_len: usize,
    /// Own address.
    pub own_addr: [u8; 6],
    /// Own address type.
    pub own_addr_type: AddrType,
    /// Next advertising channel index (0-2).
    pub adv_channel_idx: usize,
    /// Next scanning channel index (0-3; 3 ends a scan cycle).
    pub scan_channel_idx: usize,
    /// Start of the current scan cycle (timer ticks).
    pub scan_cycle_start: u32,
    /// The connection, if any.
    pub conn: Option<Conn>,
    /// Advertiser to connect to when seen while scanning.
    pub connect_target: Option<[u8; 6]>,
    /// Address type of the connection target.
    pub connect_target_type: AddrType,
    /// Channel of the last scan listen.
    pub last_radio_channel: Option<u8>,
    /// Accept list for filtering.
    pub accept_list: AcceptList,
    /// Identity resolving key for address rotation.
    pub irk: Option<[u8; 16]>,
    /// Outgoing advertising channel PDU.
    pub tx_buf: [u8; 257],
    /// Outgoing scan response, scan request or connection request (kept
    /// apart from the advertising PDU in `tx_buf`).
    pub reply_buf: [u8; 39],
    /// Length of the outgoing PDU.
    pub tx_pdu_len: usize,
    /// Application event queue.
    pub events: [Option<BleEvent>; 8],
    /// Queue write index.
    pub event_head: usize,
    /// Queue read index.
    pub event_tail: usize,
}

/// Abstract event queue: the slots, the write index and the read index.
pub struct BleQueue {
    pub slots: Seq<Option<BleEvent>>,
    pub head: int,
    pub tail: int,
}

/// Distance from queue index `from` forward to `to`.
pub open spec fn q_dist(from: int, to: int) -> int {
    if to >= from {
        to - from
    } else {
        to - from + 8
    }
}

/// The queue index `k` slots after `from`.
pub open spec fn q_add(from: int, k: int) -> int {
    if from + k < 8 {
        from + k
    } else {
        from + k - 8
    }
}

/// Number of occupied slots among the first `n`.
pub open spec fn some_count(slots: Seq<Option<BleEvent>>, n: int) -> nat
    decreases n,
{
    if n <= 0 {
        0
    } else {
        some_count(slots, n - 1) + if slots[n - 1] is Some {
            1nat
        } else {
            0nat
        }
    }
}

/// With all three advertising channels enabled, advertising events use
/// the channels in order (37, 38, 39, then 37 again): the channel picked
/// at index `idx` is `idx` itself, and the next index is `idx + 1` (mod 3).
pub proof fn lemma_adv_channels_in_order(map: u8, idx: int)
    requires
        map & 0b111 == 0b111,
        0 <= idx < 3,
    ensures
        adv_pick(map, idx) == idx,
        adv_pick(map, (idx + 1) % 3) == (idx + 1) % 3,
{
    assert(map & 0b111 == 0b111 ==> map & (1u8 << 0u8) != 0 && map & (1u8 << 1u8) != 0 && map & (
    1u8 << 2u8) != 0) by (bit_vector);
}

/// At most `n` of the first `n` slots are occupied, and an occupied one
/// among them counts.
pub proof fn lemma_some_count_bounds(slots: Seq<Option<BleEvent>>, t: int, n: int)
    requires
        0 <= n,
    ensures
        some_count(slots, n) <= n,
        0 <= t < n && slots[t] is Some ==> some_count(slots, n) >= 1,
    decreases n,
{
    if n > 0 {
        lemma_some_count_bounds(slots, t, n - 1);
    }
}

/// Emptying an occupied slot lowers the occupied count.
pub proof fn lemma_some_count_take(slots: Seq<Option<BleEvent>>, t: int, n: int)
    requires
        0 <= t < n <= slots.len(),
        slots[t] is Some,
    ensures
        some_count(slots.update(t, None), n) < some_count(slots, n),
    decreases n,
{
    if t < n - 1 {
        lemma_some_count_take(slots, t, n - 1);
    } else {
        let u = slots.update(t, None);
        assert forall|i: int| 0 <= i < n - 1 implies slots[i] == u[i] by {}
        lemma_some_count_same(slots, u, n - 1);
    }
}

proof fn lemma_some_count_same(a: Seq<Option<BleEvent>>, b: Seq<Option<BleEvent>>, n: int)
    requires
        forall|i: int| 0 <= i < n ==> a[i] == b[i],
    ensures
        some_count(a, n) == some_count(b, n),
    decreases n,
{
    if n > 0 {
        lemma_some_count_same(a, b, n - 1);
    }
}

/// Number of queued events.
pub open spec fn q_count(q: BleQueue) -> int {
    q_dist(q.tail, q.head)
}

/// The queue holds exactly the events between its read and write index.
pub open spec fn q_fifo(q: BleQueue) -> bool {
    &&& q.slots.len() == 8
    &&& 0 <= q.head < 8
    &&& 0 <= q.tail < 8
    &&& forall|i: int| 0 <= i < 8 ==> (#[trigger] q.slots[i] is Some <==> q_dist(q.tail, i) < q_count(q))
}

/// The queued events, oldest first.
pub open spec fn q_events(q: BleQueue) -> Seq<BleEvent> {
    Seq::new(q_count(q) as nat, |k: int| q.slots[q_add(q.tail, k)]->0)
}

/// What the advertising event does after sending the advertising PDU.
#[derive(Debug, Clone, Copy, PartialEq, Eq, Structural)]
pub enum AdvListen {
    /// Listen for a SCAN_REQ or CONNECT_REQ (connectable advertising).
    ScanAndConnect,
    /// Listen for a SCAN_REQ (scannable advertising).
    ScanReq,
    /// Nothing (non-connectable, non-scannable advertising).
    Nothing,
}

/// One step of the advertising state machine.
#[derive(Debug, Clone, Copy, PartialEq, Eq, Structural)]
pub enum AdvStep {
    /// Not advertising.
    Idle,
    /// Advertising stopped now (`AdvStopped` was queued).
    Stopped,
    /// Send `tx_buf[..len]` on `channel`, then listen as told.
    Send {
        /// Advertising channel (37-39).
        channel: u8,
        /// PDU length.
        len: usize,
        /// What to listen for afterwards.
        listen: AdvListen,
    },
}

/// The advertising PDU the stack sends.
pub open spec fn adv_model(b: Ble) -> AdvPduModel {
    let data = b.adv_data@.take(b.adv_data_len as int);
    match b.adv_params.adv_type {
        AdvType::ConnectableDirected => AdvPduModel::AdvDirectInd {
            adv_addr: b.own_addr@,
            init_addr: b.adv_params.peer_addr.unwrap()@,
        },
        AdvType::ConnectableUndirected => AdvPduModel::AdvInd { adv_addr: b.own_addr@, data },
        AdvType::ScannableUndirected => AdvPduModel::AdvScanInd { adv_addr: b.own_addr@, data },
        AdvType::NonConnectableUndirected => AdvPduModel::AdvNonconnInd {
            adv_addr: b.own_addr@,
            data,
        },
    }
}

/// Channel map bit of advertising channel index `idx` is set.
pub open spec fn adv_bit(map: u8, idx: int) -> bool {
    map & (1u8 << (idx as u8)) != 0
}

/// The advertising channel index used next: the first enabled one from
/// `idx` on (cyclically), or `idx` when none is enabled.
pub open spec fn adv_pick(map: u8, idx: int) -> int {
    if adv_bit(map, idx) {
        idx
    } else if adv_bit(map, (idx + 1) % 3) {
        (idx + 1) % 3
    } else if adv_bit(map, (idx + 2) % 3) {
        (idx + 2) % 3
    } else {
        idx
    }
}

/// Timer ticks of `units` 0.625 ms units from a fresh accumulator.
pub open spec fn first_ticks(units: u16) -> u32 {
    ((units * 625) / 32) as u32
}

/// One step of the scanning state machine.
#[derive(Debug, Clone, Copy, PartialEq, Eq, Structural)]
pub enum ScanStep {
    /// Not scanning.
    Idle,
    /// Scanning stopped now (`ScanStopped` was queued).
    Stopped,
    /// A scan cycle ended; set the timer compare to this value.
    Rescheduled(u32),
    /// Listen on `channel` until the timer reaches `deadline`.
    Listen {
        /// Advertising channel (37-39).
        channel: u8,
        /// End of the listen window (timer ticks).
        deadline: u32,
    },
}

/// What to send after a packet was received while scanning.
#[derive(Debug, Clone, Copy, PartialEq, Eq, Structural)]
pub enum ScanAction {
    /// Nothing.
    Nothing,
    /// Send the CONNECT_REQ in `reply_buf[..len]`, then report it sent.
    ConnectReq(usize),
    /// Send the SCAN_REQ in `reply_buf[..len]`, then listen for the response.
    ScanReq(usize),
}

/// The SCAN_RSP addressed as `adv_addr` carrying our scan response data.
pub open spec fn scan_rsp_bytes(b: Ble, adv_addr: Seq<u8>) -> Seq<u8> {
    adv_pdu_bytes(
        AdvPduModel::ScanRsp { adv_addr, data: b.scan_rsp@.take(b.scan_rsp_len as int) },
        !(b.own_addr_type is Public),
        false,
    )
}

/// The SCAN_REQ to the advertiser of `pkt` (address at bytes 2..8).
pub open spec fn scan_req_bytes(b: Ble, pkt: Seq<u8>) -> Seq<u8> {
    adv_pdu_bytes(
        AdvPduModel::ScanReq { scan_addr: b.own_addr@, adv_addr: pkt.subrange(2, 8) },
        !(b.own_addr_type is Public),
        !(random_subtype(pkt[7]) is Public),
    )
}

/// Connection parameters this stack proposes as initiator.
pub open spec fn initiator_params() -> ConnectReqData {
    ConnectReqData {
        access_addr: 0x8E89_BED6u32 ^ 0x1234_5678u32,
        crc_init: 0x65_4321,
        win_size: 1,
        win_offset: 0,
        interval: 24,
        latency: 0,
        timeout: 2000,
        channel_map: [0xFF, 0xFF, 0xFF, 0xFF, 0x1F],
        hop: 13,
        sca: 2,
    }
}

/// The CONNECT_REQ sent to `target`.
pub open spec fn connect_req_model(b: Ble, target: [u8; 6]) -> AdvPduModel {
    AdvPduModel::ConnectReq {
        init_addr: b.own_addr@,
        adv_addr: target@,
        ll_data: conn_req_bytes(initiator_params()),
    }
}

/// A scan report for advertiser `addr`.
pub open spec fn scan_report(addr: Seq<u8>, adv_type: u8, rssi: i8, data: Seq<u8>, r: BleEvent) -> bool {
    let n = if data.len() < 31 { data.len() as int } else { 31 };
    r matches BleEvent::ScanReport { addr: a, addr_type, adv_type: t, rssi: s, data: d, data_len } && a@
        == addr && addr_type == random_subtype(addr[5]) && t == adv_type && s == rssi && data_len
        == n && d@.take(n) == data.take(n)
}

/// `c2` is `c` with GATT client request `req` queued and awaiting its
/// response.
pub open spec fn gatt_requested(c: Conn, c2: Conn, req: Seq<u8>) -> bool {
    &&& c2.tx_att@ == splice(c.tx_att@, 0, req)
    &&& c2 == (Conn {
        tx_att: c2.tx_att,
        tx_att_len: req.len() as usize,
        tx_pending: true,
        pending_request: true,
        ..c
    })
}

/// The queue after `e` is pushed: `e` goes into the write slot, the write
/// index advances, and when the queue was full the read index advances
/// past the oldest event.
pub open spec fn q_push(q: BleQueue, e: BleEvent) -> BleQueue {
    let next = (q.head + 1) % 8;
    BleQueue {
        slots: q.slots.update(q.head, Some(e)),
        head: next,
        tail: if next == q.tail {
            (q.tail + 1) % 8
        } else {
            q.tail
        },
    }
}

/// The queue after its read slot is taken: the slot is emptied, and the
/// read index advances when the slot held an event.
pub open spec fn q_take(q: BleQueue) -> BleQueue {
    BleQueue {
        slots: q.slots.update(q.tail, None),
        head: q.head,
        tail: if q.slots[q.tail] is Some {
            (q.tail + 1) % 8
        } else {
            q.tail
        },
    }
}

/// The events taken from the queue, in order, by at most `n` reads that
/// stop at the first empty read slot.
pub open spec fn q_drain(q: BleQueue, n: nat) -> Seq<BleEvent>
    decreases n,
{
    if n == 0 || !(q.slots[q.tail] is Some) {
        Seq::empty()
    } else {
        seq![q.slots[q.tail]->0] + q_drain(q_take(q), (n - 1) as nat)
    }
}

/// The queue after pushing `e` when there is one.
pub open spec fn q_push_opt(q: BleQueue, e: Option<BleEvent>) -> BleQueue {
    match e {
        Some(x) => q_push(q, x),
        None => q,
    }
}

/// The application event that reports a connection event outcome, if any.
pub open spec fn conn_report(e: ConnEvent) -> Option<BleEvent> {
    match e {
        ConnEvent::Control(op) => Some(BleEvent::LlControl(op)),
        ConnEvent::L2cap(cid) => Some(BleEvent::L2cap(cid)),
        _ => None,
    }
}

/// `d` is `b` with its connection replaced by `c2`.
pub open spec fn with_conn(b: Ble, d: Ble, c2: Conn) -> bool {
    d == Ble { conn: Some(c2), ..b }
}

/// `d` is `b` after the connection closed for `reason`: the connection
/// is dropped and `Disconnected` queued.
pub open spec fn conn_closed(b: Ble, d: Ble, reason: DisconnectReason) -> bool {
    &&& d.conn is None
    &&& d.queue() == q_push(b.queue(), BleEvent::Disconnected { reason })
    &&& q_fifo(b.queue()) && b.pending_events().len() < 7 ==> q_fifo(d.queue())
        && d.pending_events() == b.pending_events().push(BleEvent::Disconnected { reason })
    &&& d == (Ble {
        conn: None,
        events: d.events,
        event_head: d.event_head,
        event_tail: d.event_tail,
        ..b
    })
}

impl Ble {
    /// Buffer lengths and indices are in range and the connection is
    /// well formed.
    pub open spec fn wf(&self) -> bool {
        &&& self.adv_data_len <= 31
        &&& self.scan_rsp_len <= 31
        &&& self.tx_pdu_len <= 257
        &&& self.adv_channel_idx < 3
        &&& self.scan_channel_idx <= 3
        &&& self.event_head < 8
        &&& self.event_tail < 8
        &&& self.conn matches Some(c) ==> c.wf()
        &&& self.adv_params.adv_type == AdvType::ConnectableDirected
            ==> self.adv_params.peer_addr is Some
    }

    /// The application event queue.
    pub open spec fn queue(&self) -> BleQueue {
        BleQueue { slots: self.events@, head: self.event_head as int, tail: self.event_tail as int }
    }

    /// The queued application events, oldest first.
    pub open spec fn pending_events(&self) -> Seq<BleEvent> {
        q_events(self.queue())
    }

    /// Create an idle stack (not advertising, not scanning, no connection,
    /// default parameters, public all-zero address).
    pub fn new() -> (r: Self)
        ensures
            r.wf(),
            q_fifo(r.queue()),
            r.pending_events().len() == 0,
            r.adv_state == AdvState::Idle,
            r.scan_state == ScanState::Idle,
            r.adv_params == adv_params_default(),
            r.scan_params == scan_params_default(),
            r.adv_data_len == 0,
            r.scan_rsp_len == 0,
            r.own_addr@ == seq![0u8, 0u8, 0u8, 0u8, 0u8, 0u8],
            r.own_addr_type == AddrType::Public,
            r.conn is None,
            r.connect_target is None,
            r.last_radio_channel is None,
            r.accept_list@.len() == 0,
            r.irk is None,
            r.tx_pdu_len == 0,
    {
        let r = Ble {
            adv_accum: IntervalAccum::new(),
            scan_accum: IntervalAccum::new(),
            adv_state: AdvState::Idle,
            scan_state: ScanState::Idle,
            adv_params: AdvParams::default(),
            scan_params: ScanParams::default(),
            adv_data: [0; 31],
            adv_data_len: 0,
            scan_rsp: [0; 31],
            scan_rsp_len: 0,
            own_addr: [0; 6],
            own_addr_type: AddrType::Public,
            adv_channel_idx: 0,
            scan_channel_idx: 0,
            scan_cycle_start: 0,
            conn: None,
            connect_target: None,
            connect_target_type: AddrType::Public,
            last_radio_channel: None,
            accept_list: AcceptList::new(),
            irk: None,
            tx_buf: [0; 257],
            reply_buf: [0; 39],
            tx_pdu_len: 0,
            events: [None; 8],
            event_head: 0,
            event_tail: 0,
        };
        assert(r.own_addr@ =~= seq![0u8, 0u8, 0u8, 0u8, 0u8, 0u8]);
        assert(r.pending_events() =~= Seq::<BleEvent>::empty());
        r
    }

    /// Queue an event for the application. When the queue is full the
    /// oldest event is given up.
    pub fn push_event(&mut self, evt: BleEvent)
        requires
            old(self).wf(),
        ensures
            final(self).wf(),
            final(self).queue().slots == old(self).queue().slots.update(
                old(self).queue().head,
                Some(evt),
            ),
            final(self).queue().head == (old(self).queue().head + 1) % 8,
            final(self).queue().tail == if (old(self).queue().head + 1) % 8 == old(self).queue().tail {
                (old(self).queue().tail + 1) % 8
            } else {
                old(self).queue().tail
            },
            final(self).queue() == q_push(old(self).queue(), evt),
            q_fifo(old(self).queue()) && old(self).pending_events().len() < 7 ==> q_fifo(
                final(self).queue(),
            ) && final(self).pending_events() == old(self).pending_events().push(evt),
            *final(self) == (Ble {
                events: final(self).events,
                event_head: final(self).event_head,
                event_tail: final(self).event_tail,
                ..*old(self)
            }),
    {
        let next = (self.event_head + 1) % 8;
        if next == self.event_tail {
            self.event_tail = (self.event_tail + 1) % 8;
        }
        let h = self.event_head;
        self.events[h] = Some(evt);
        self.event_head = next;
        proof {
            let o = old(self).queue();
            let n = self.queue();
            if q_fifo(o) && q_count(o) < 7 {
                assert(q_count(n) == q_count(o) + 1);
                assert forall|i: int| 0 <= i < 8 implies (#[trigger] n.slots[i] is Some <==> q_dist(
                    n.tail,
                    i,
                ) < q_count(n)) by {
                    assert(o.slots[i] is Some <==> q_dist(o.tail, i) < q_count(o));
                }
                assert(q_events(n) =~= q_events(o).push(evt));
            }
        }
    }

    /// Pop the oldest pending event, if any.
    pub fn next_event(&mut self) -> (r: Option<BleEvent>)
        requires
            old(self).wf(),
        ensures
            final(self).wf(),
            r == old(self).queue().slots[old(self).queue().tail],
            final(self).queue() == q_take(old(self).queue()),
            final(self).events@ == old(self).events@.update(old(self).event_tail as int, None),
            final(self).event_tail == if r is Some {
                ((old(self).event_tail + 1) % 8) as usize
            } else {
                old(self).event_tail
            },
            q_fifo(old(self).queue()) ==> q_fifo(final(self).queue()) && if old(self).pending_events().len() == 0 {
                r is None && final(self).pending_events() == old(self).pending_events()
            } else {
                r == Some(old(self).pending_events()[0]) && final(self).pending_events() == old(self).pending_events().drop_first()
            },
            *final(self) == (Ble {
                events: final(self).events,
                event_tail: final(self).event_tail,
                ..*old(self)
            }),
    {
        let t = self.event_tail;
        let evt = self.events[t];
        self.events[t] = None;
        if evt.is_some() {
            self.event_tail = (t + 1) % 8;
        }
        proof {
            let o = old(self).queue();
            let n = self.queue();
            if q_fifo(o) {
                if q_count(o) == 0 {
                    assert(o.slots[o.tail] is None);
                    assert(n.slots =~= o.slots);
                    assert(q_events(n) =~= q_events(o));
                } else {
                    assert(o.slots[o.tail] is Some);
                    assert(q_count(n) == q_count(o) - 1);
                    assert forall|i: int| 0 <= i < 8 implies (#[trigger] n.slots[i] is Some
                        <==> q_dist(n.tail, i) < q_count(n)) by {
                        assert(o.slots[i] is Some <==> q_dist(o.tail, i) < q_count(o));
                    }
                    assert(q_events(n) =~= q_events(o).drop_first());
                }
            }
        }
        evt
    }

    /// Set the device's own address.
    pub fn gap_address_set(&mut self, addr: [u8; 6], addr_type: AddrType)
        ensures
            *final(self) == (Ble { own_addr: addr, own_addr_type: addr_type, ..*old(self) }),
    {
        self.own_addr = addr;
        self.own_addr_type = addr_type;
    }

    /// Configure advertising data and scan response data (31 bytes max
    /// each).
    pub fn gap_adv_set_configure(&mut self, adv_data: &[u8], scan_rsp_data: &[u8]) -> (r: Result<
        (),
        Error,
    >)
        requires
            old(self).wf(),
        ensures
            final(self).wf(),
            (adv_data@.len() > 31 || scan_rsp_data@.len() > 31) ==> r == Err::<(), Error>(
                Error::InvalidLength,
            ) && *final(self) == *old(self),
            !(adv_data@.len() > 31 || scan_rsp_data@.len() > 31) ==> {
                &&& r is Ok
                &&& final(self).adv_data@.take(adv_data@.len() as int) == adv_data@
                &&& final(self).scan_rsp@.take(scan_rsp_data@.len() as int) == scan_rsp_data@
                &&& *final(self) == (Ble {
                    adv_data: final(self).adv_data,
                    adv_data_len: adv_data@.len() as usize,
                    scan_rsp: final(self).scan_rsp,
                    scan_rsp_len: scan_rsp_data@.len() as usize,
                    ..*old(self)
                })
            },
    {
        if adv_data.len() > 31 || scan_rsp_data.len() > 31 {
            return Err(Error::InvalidLength);
        }
        crate::bytes::copy_into(&mut self.adv_data, 0, adv_data);
        self.adv_data_len = adv_data.len();
        crate::bytes::copy_into(&mut self.scan_rsp, 0, scan_rsp_data);
        self.scan_rsp_len = scan_rsp_data.len();
        assert(self.adv_data@.take(adv_data@.len() as int) =~= adv_data@);
        assert(self.scan_rsp@.take(scan_rsp_data@.len() as int) =~= scan_rsp_data@);
        Ok(())
    }

    /// Request advertising to stop at the next event boundary.
    pub fn gap_adv_stop(&mut self) -> (r: Result<(), Error>)
        ensures
            old(self).adv_state == AdvState::Running ==> r is Ok && *final(self) == (Ble {
                adv_state: AdvState::StopPending,
                ..*old(self)
            }),
            old(self).adv_state == AdvState::StopPending ==> r is Ok && *final(self) == *old(self),
            old(self).adv_state == AdvState::Idle ==> r == Err::<(), Error>(Error::NotRunning)
                && *final(self) == *old(self),
    {
        match self.adv_state {
            AdvState::Running => {
                self.adv_state = AdvState::StopPending;
                Ok(())
            },
            AdvState::StopPending => Ok(()),
            AdvState::Idle => Err(Error::NotRunning),
        }
    }

    /// Request scanning to stop at the next listen.
    pub fn gap_scan_stop(&mut self) -> (r: Result<(), Error>)
        ensures
            old(self).scan_state == ScanState::Running ==> r is Ok && *final(self) == (Ble {
                scan_state: ScanState::StopPending,
                ..*old(self)
            }),
            old(self).scan_state == ScanState::StopPending ==> r is Ok && *final(self) == *old(self),
            old(self).scan_state == ScanState::Idle ==> r == Err::<(), Error>(Error::NotRunning)
                && *final(self) == *old(self),
    {
        match self.scan_state {
            ScanState::Running => {
                self.scan_state = ScanState::StopPending;
                Ok(())
            },
            ScanState::StopPending => Ok(()),
            ScanState::Idle => Err(Error::NotRunning),
        }
    }

    /// Add a device to the accept list (max 8 entries); false when it is
    /// already there or the list is full.
    pub fn gap_accept_list_add(&mut self, addr: [u8; 6], addr_type: AddrType) -> (added: bool)
        ensures
            added == (old(self).accept_list@.len() < 8 && !old(self).accept_list@.contains(
                (addr_type, addr@),
            )),
            final(self).accept_list@ == if added {
                old(self).accept_list@.push((addr_type, addr@))
            } else {
                old(self).accept_list@
            },
            *final(self) == (Ble { accept_list: final(self).accept_list, ..*old(self) }),
    {
        self.accept_list.add(addr, addr_type)
    }

    /// Clear the accept list.
    pub fn gap_accept_list_clear(&mut self)
        ensures
            final(self).accept_list@.len() == 0,
            *final(self) == (Ble { accept_list: final(self).accept_list, ..*old(self) }),
    {
        self.accept_list.clear();
    }

    /// Number of entries in the accept list.
    pub fn gap_accept_list_len(&self) -> (n: usize)
        ensures
            n == self.accept_list@.len(),
    {
        self.accept_list.len()
    }

    /// Set the IRK used for resolvable private address rotation.
    pub fn gap_privacy_set(&mut self, irk: [u8; 16])
        ensures
            *final(self) == (Ble { irk: Some(irk), ..*old(self) }),
    {
        self.irk = Some(irk);
    }

    /// Rotate the own address to a fresh resolvable private address
    /// derived from the IRK, with the low 24 bits of `now` (the timer) as
    /// the prand; false without an IRK.
    pub fn gap_rotate_rpa(&mut self, now: u32) -> (rotated: bool)
        ensures
            rotated == old(self).irk is Some,
            !rotated ==> *final(self) == *old(self),
            rotated ==> final(self).own_addr@ == crate::ll::priv_::generate_rpa_spec(
                old(self).irk.unwrap()@,
                now & 0x00FF_FFFF,
            ) && *final(self) == (Ble {
                own_addr: final(self).own_addr,
                own_addr_type: AddrType::RandomPrivateResolvable,
                ..*old(self)
            }),
    {
        let irk = match self.irk {
            Some(k) => k,
            None => {
                return false;
            },
        };
        let prand = now & 0x00FF_FFFF;
        let rpa = crate::ll::priv_::generate_rpa(&irk, prand);
        self.own_addr = rpa;
        self.own_addr_type = AddrType::RandomPrivateResolvable;
        true
    }

    /// The last advertising channel PDU built for transmission.
    pub fn adv_pdu_snapshot(&self) -> (r: &[u8])
        requires
            self.wf(),
        ensures
            r@ == self.tx_buf@.take(self.tx_pdu_len as int),
    {
        let r = &self.tx_buf[0..self.tx_pdu_len];
        assert(r@ =~= self.tx_buf@.take(self.tx_pdu_len as int));
        r
    }

    /// Start advertising; returns the timer compare value of the first
    /// advertising event (`now` plus one minimum interval).
    pub fn gap_adv_start(&mut self, params: &AdvParams, now: u32) -> (r: Result<u32, Error>)
        requires
            old(self).wf(),
        ensures
            final(self).wf(),
            old(self).adv_state != AdvState::Idle ==> r == Err::<u32, Error>(Error::AlreadyRunning)
                && *final(self) == *old(self),
            old(self).adv_state == AdvState::Idle && (params.interval_min < 32
                || params.interval_min > 16384 || params.interval_max < params.interval_min
                || params.channel_map & 0b111 == 0 || (params.adv_type
                == AdvType::ConnectableDirected && params.peer_addr is None)) ==> r == Err::<
                u32,
                Error,
            >(Error::InvalidParam) && *final(self) == *old(self),
            r is Ok ==> {
                &&& r == Ok::<u32, Error>(now.wrapping_add(first_ticks(params.interval_min)))
                &&& final(self).adv_accum@ == (625nat, ((params.interval_min * 625) % 32) as nat)
                &&& final(self).queue() == q_push(old(self).queue(), BleEvent::AdvStarted)
                &&& q_fifo(old(self).queue()) && old(self).pending_events().len() < 7 ==> q_fifo(
                    final(self).queue(),
                ) && final(self).pending_events() == old(self).pending_events().push(
                    BleEvent::AdvStarted,
                )
                &&& *final(self) == (Ble {
                    adv_params: *params,
                    own_addr_type: params.own_addr_type,
                    adv_channel_idx: 0,
                    adv_accum: final(self).adv_accum,
                    adv_state: AdvState::Running,
                    events: final(self).events,
                    event_head: final(self).event_head,
                    event_tail: final(self).event_tail,
                    ..*old(self)
                })
            },
            r is Ok <==> (old(self).adv_state == AdvState::Idle && !(params.interval_min < 32
                || params.interval_min > 16384 || params.interval_max < params.interval_min
                || params.channel_map & 0b111 == 0 || (params.adv_type
                == AdvType::ConnectableDirected && params.peer_addr is None))),
    {
        if self.adv_state != AdvState::Idle {
            return Err(Error::AlreadyRunning);
        }
        if params.interval_min < 32 || params.interval_min > 16384 {
            return Err(Error::InvalidParam);
        }
        if params.interval_max < params.interval_min {
            return Err(Error::InvalidParam);
        }
        if params.channel_map & 0b111 == 0 {
            return Err(Error::InvalidParam);
        }
        if params.adv_type == AdvType::ConnectableDirected && params.peer_addr.is_none() {
            return Err(Error::InvalidParam);
        }
        self.adv_params = *params;
        self.own_addr_type = params.own_addr_type;
        self.adv_channel_idx = 0;
        self.adv_accum = IntervalAccum::new();
        let ticks = self.adv_accum.next(params.interval_min);
        self.adv_state = AdvState::Running;
        self.push_event(BleEvent::AdvStarted);
        Ok(now.wrapping_add(ticks))
    }

    /// Start scanning; returns the timer compare value of the first scan
    /// cycle (`now` plus one scan interval).
    pub fn gap_scan_start(&mut self, params: &ScanParams, now: u32) -> (r: Result<u32, Error>)
        requires
            old(self).wf(),
        ensures
            final(self).wf(),
            old(self).scan_state != ScanState::Idle ==> r == Err::<u32, Error>(
                Error::AlreadyRunning,
            ) && *final(self) == *old(self),
            old(self).scan_state == ScanState::Idle && (params.interval < 4 || params.interval
                > 16384 || params.window < 4 || params.window > 16384 || params.window
                > params.interval) ==> r == Err::<u32, Error>(Error::InvalidParam) && *final(self)
                == *old(self),
            r is Ok ==> {
                &&& r == Ok::<u32, Error>(now.wrapping_add(first_ticks(params.interval)))
                &&& final(self).scan_accum@ == (625nat, ((params.interval * 625) % 32) as nat)
                &&& final(self).queue() == q_push(old(self).queue(), BleEvent::ScanStarted)
                &&& q_fifo(old(self).queue()) && old(self).pending_events().len() < 7 ==> q_fifo(
                    final(self).queue(),
                ) && final(self).pending_events() == old(self).pending_events().push(
                    BleEvent::ScanStarted,
                )
                &&& *final(self) == (Ble {
                    scan_params: *params,
                    own_addr_type: params.own_addr_type,
                    scan_channel_idx: 0,
                    scan_accum: final(self).scan_accum,
                    scan_state: ScanState::Running,
                    events: final(self).events,
                    event_head: final(self).event_head,
                    event_tail: final(self).event_tail,
                    ..*old(self)
                })
            },
            r is Ok <==> (old(self).scan_state == ScanState::Idle && !(params.interval < 4
                || params.interval > 16384 || params.window < 4 || params.window > 16384
                || params.window > params.interval)),
    {
        if self.scan_state != ScanState::Idle {
            return Err(Error::AlreadyRunning);
        }
        if params.interval < 4 || params.interval > 16384 {
            return Err(Error::InvalidParam);
        }
        if params.window < 4 || params.window > 16384 {
            return Err(Error::InvalidParam);
        }
        if params.window > params.interval {
            return Err(Error::InvalidParam);
        }
        self.scan_params = *params;
        self.own_addr_type = params.own_addr_type;
        self.scan_channel_idx = 0;
        self.scan_accum = IntervalAccum::new();
        let ticks = self.scan_accum.next(params.interval);
        self.scan_state = ScanState::Running;
        self.push_event(BleEvent::ScanStarted);
        Ok(now.wrapping_add(ticks))
    }

    /// Connect to an advertiser (initiator role): scan (passive, 62.5 ms
    /// interval, 56.25 ms window) until it is seen, then send CONNECT_REQ.
    /// Returns the timer compare value of the first scan cycle.
    pub fn gap_connect(&mut self, target: [u8; 6], target_type: AddrType, now: u32) -> (r: Result<
        u32,
        Error,
    >)
        requires
            old(self).wf(),
        ensures
            final(self).wf(),
            old(self).scan_state != ScanState::Idle ==> r == Err::<u32, Error>(
                Error::AlreadyRunning,
            ) && *final(self) == *old(self),
            old(self).scan_state == ScanState::Idle ==> {
                &&& r == Ok::<u32, Error>(now.wrapping_add(first_ticks(100)))
                &&& final(self).connect_target == Some(target)
                &&& final(self).connect_target_type == target_type
                &&& final(self).scan_state == ScanState::Running
                &&& final(self).scan_params == (ScanParams {
                    active: false,
                    interval: 100,
                    window: 90,
                    ..scan_params_default()
                })
                &&& final(self).queue() == q_push(old(self).queue(), BleEvent::ScanStarted)
                &&& *final(self) == (Ble {
                    connect_target: Some(target),
                    connect_target_type: target_type,
                    scan_params: final(self).scan_params,
                    own_addr_type: AddrType::Public,
                    scan_channel_idx: 0,
                    scan_accum: final(self).scan_accum,
                    scan_state: ScanState::Running,
                    events: final(self).events,
                    event_head: final(self).event_head,
                    event_tail: final(self).event_tail,
                    ..*old(self)
                })
            },
    {
        if self.scan_state != ScanState::Idle {
            return Err(Error::AlreadyRunning);
        }
        self.connect_target = Some(target);
        self.connect_target_type = target_type;
        let params = ScanParams {
            active: false,
            interval: 100,
            window: 90,
            ..ScanParams::default()
        };
        self.gap_scan_start(&params, now)
    }

    /// Build the advertising PDU into `tx_buf`.
    pub fn build_adv_pdu(&mut self)
        requires
            old(self).wf(),
        ensures
            final(self).wf(),
            final(self).tx_buf@ == splice(
                old(self).tx_buf@,
                0,
                adv_pdu_bytes(adv_model(*old(self)), !(old(self).own_addr_type is Public), false),
            ),
            final(self).tx_pdu_len == adv_pdu_bytes(
                adv_model(*old(self)),
                !(old(self).own_addr_type is Public),
                false,
            ).len(),
            *final(self) == (Ble {
                tx_buf: final(self).tx_buf,
                tx_pdu_len: final(self).tx_pdu_len,
                ..*old(self)
            }),
    {
        let tx_add = self.own_addr_type.is_random();
        let data = &self.adv_data[0..self.adv_data_len];
        let pdu = match self.adv_params.adv_type {
            AdvType::ConnectableDirected => {
                let peer = match self.adv_params.peer_addr {
                    Some(p) => p,
                    None => [0u8; 6],
                };
                AdvPdu::AdvDirectInd { adv_addr: self.own_addr, init_addr: peer }
            },
            AdvType::ConnectableUndirected => AdvPdu::AdvInd { adv_addr: self.own_addr, data },
            AdvType::ScannableUndirected => AdvPdu::AdvScanInd { adv_addr: self.own_addr, data },
            AdvType::NonConnectableUndirected => AdvPdu::AdvNonconnInd {
                adv_addr: self.own_addr,
                data,
            },
        };
        assert(pdu@ == adv_model(*old(self)));
        let mut buf = self.tx_buf;
        let r = pdu.encode_typed(&mut buf, tx_add, false);
        let len = match r {
            Ok(n) => n,
            Err(_) => 0,
        };
        self.tx_buf = buf;
        self.tx_pdu_len = len;
    }

    /// Begin an advertising event (timer compare fired): finish a pending
    /// stop, or pick the next enabled channel and build the advertising
    /// PDU.
    pub fn adv_tick_begin(&mut self) -> (r: AdvStep)
        requires
            old(self).wf(),
        ensures
            final(self).wf(),
            old(self).adv_state == AdvState::Idle ==> r == AdvStep::Idle && *final(self) == *old(self),
            old(self).adv_state == AdvState::StopPending ==> r == AdvStep::Stopped && final(self).adv_state == AdvState::Idle && final(self).queue() == q_push(old(self).queue(), BleEvent::AdvStopped) && *final(self) == (Ble { adv_state: AdvState::Idle, events: final(self).events, event_head: final(self).event_head, event_tail: final(self).event_tail, ..*old(self) }) && (q_fifo(old(self).queue()) && old(self).pending_events().len() < 7 ==> q_fifo(final(self).queue()) && final(self).pending_events() == old(self).pending_events().push(BleEvent::AdvStopped)),
            old(self).adv_state == AdvState::Running ==> {
                let idx = adv_pick(old(self).adv_params.channel_map, old(self).adv_channel_idx as int);
                let mid = Ble { adv_channel_idx: ((idx + 1) % 3) as usize, ..*old(self) };
                let bytes = adv_pdu_bytes(adv_model(mid), !(mid.own_addr_type is Public), false);
                &&& r == AdvStep::Send {
                    channel: ADV_CHANNELS@[idx],
                    len: bytes.len() as usize,
                    listen: match old(self).adv_params.adv_type {
                        AdvType::ConnectableUndirected | AdvType::ConnectableDirected => AdvListen::ScanAndConnect,
                        AdvType::ScannableUndirected => AdvListen::ScanReq,
                        AdvType::NonConnectableUndirected => AdvListen::Nothing,
                    },
                }
                &&& final(self).tx_buf@ == splice(old(self).tx_buf@, 0, bytes)
                &&& *final(self) == (Ble {
                    tx_buf: final(self).tx_buf,
                    tx_pdu_len: bytes.len() as usize,
                    ..mid
                })
            },
    {
        if self.adv_state == AdvState::Idle {
            return AdvStep::Idle;
        }
        if self.adv_state == AdvState::StopPending {
            self.adv_state = AdvState::Idle;
            self.push_event(BleEvent::AdvStopped);
            return AdvStep::Stopped;
        }
        let map = self.adv_params.channel_map;
        let i0 = self.adv_channel_idx;
        let ch_idx = if map & (1u8 << (i0 as u8)) != 0 {
            i0
        } else if map & (1u8 << (((i0 + 1) % 3) as u8)) != 0 {
            (i0 + 1) % 3
        } else if map & (1u8 << (((i0 + 2) % 3) as u8)) != 0 {
            (i0 + 2) % 3
        } else {
            i0
        };
        self.adv_channel_idx = (ch_idx + 1) % 3;
        let channel = ADV_CHANNELS[ch_idx];
        self.build_adv_pdu();
        let listen = match self.adv_params.adv_type {
            AdvType::ConnectableUndirected | AdvType::ConnectableDirected => AdvListen::ScanAndConnect,
            AdvType::ScannableUndirected => AdvListen::ScanReq,
            AdvType::NonConnectableUndirected => AdvListen::Nothing,
        };
        AdvStep::Send { channel, len: self.tx_pdu_len, listen }
    }

    /// End an advertising event: the timer compare value of the next one
    /// (`now` plus one minimum interval, fractions carried over).
    pub fn adv_tick_end(&mut self, now: u32) -> (deadline: u32)
        ensures
            deadline == now.wrapping_add(
                ((old(self).adv_accum@.1 + old(self).adv_params.interval_min * old(self).adv_accum@.0) / 32) as u32,
            ),
            final(self).adv_accum@ == (old(self).adv_accum@.0, ((old(self).adv_accum@.1 + old(self).adv_params.interval_min * old(self).adv_accum@.0) % 32) as nat),
            *final(self) == (Ble { adv_accum: final(self).adv_accum, ..*old(self) }),
    {
        let ticks = self.adv_accum.next(self.adv_params.interval_min);
        now.wrapping_add(ticks)
    }

    /// A listen window accepts a received packet whose PDU type is in
    /// `mask` (bit per type).
    pub fn window_accepts(mask: u32, pkt: &[u8]) -> (r: bool)
        ensures
            r == (pkt@.len() >= 2 && mask & (1u32 << ((pkt@[0] & 0x0F) as u32)) != 0),
    {
        if pkt.len() >= 2 {
            let b = pkt[0];
            let t = (b & 0x0F) as u32;
            assert((b & 0x0F) as u32 <= 15) by (bit_vector);
            mask & (1u32 << t) != 0
        } else {
            false
        }
    }

    /// Build the SCAN_RSP to `adv_addr` into `reply_buf`; its length, or
    /// `None` without scan response data.
    fn build_scan_rsp(&mut self, adv_addr: [u8; 6]) -> (r: Option<usize>)
        requires
            old(self).wf(),
        ensures
            final(self).wf(),
            old(self).scan_rsp_len == 0 ==> r is None && *final(self) == *old(self),
            old(self).scan_rsp_len > 0 ==> {
                let bytes = scan_rsp_bytes(*old(self), adv_addr@);
                &&& r == Some(bytes.len() as usize)
                &&& final(self).reply_buf@ == splice(old(self).reply_buf@, 0, bytes)
                &&& *final(self) == (Ble { reply_buf: final(self).reply_buf, ..*old(self) })
            },
    {
        if self.scan_rsp_len == 0 {
            return None;
        }
        let tx_add = self.own_addr_type.is_random();
        let pdu = AdvPdu::ScanRsp { adv_addr, data: &self.scan_rsp[0..self.scan_rsp_len] };
        let mut buf = self.reply_buf;
        let r = pdu.encode_typed(&mut buf, tx_add, false);
        self.reply_buf = buf;
        match r {
            Ok(n) => Some(n),
            Err(_) => None,
        }
    }

    /// After scannable advertising a SCAN_REQ arrived: build the scan
    /// response (from our address) into `reply_buf`; its length, or `None`
    /// without scan response data.
    pub fn adv_on_scan_req(&mut self) -> (r: Option<usize>)
        requires
            old(self).wf(),
        ensures
            final(self).wf(),
            old(self).scan_rsp_len == 0 ==> r is None && *final(self) == *old(self),
            old(self).scan_rsp_len > 0 ==> {
                let bytes = scan_rsp_bytes(*old(self), old(self).own_addr@);
                &&& r == Some(bytes.len() as usize)
                &&& final(self).reply_buf@ == splice(old(self).reply_buf@, 0, bytes)
                &&& *final(self) == (Ble { reply_buf: final(self).reply_buf, ..*old(self) })
            },
    {
        let a = self.own_addr;
        self.build_scan_rsp(a)
    }

    /// After connectable advertising on `channel` a SCAN_REQ or
    /// CONNECT_REQ arrived (`pkt`, at time `now`): a SCAN_REQ is answered
    /// (the scan response, addressed as the request was, is built into
    /// `reply_buf` and its length returned); a valid CONNECT_REQ starts a
    /// connection as peripheral and ends advertising.
    pub fn adv_on_scan_or_connect(&mut self, channel: u8, pkt: &[u8], now: u32) -> (r: Option<
        usize,
    >)
        requires
            old(self).wf(),
        ensures
            final(self).wf(),
            match adv_decode_spec(pkt@) {
                Ok(AdvPduModel::ScanReq { adv_addr, .. }) => {
                    &&& old(self).scan_rsp_len == 0 ==> r is None && *final(self) == *old(self)
                    &&& old(self).scan_rsp_len > 0 ==> {
                        let bytes = scan_rsp_bytes(*old(self), adv_addr);
                        &&& r == Some(bytes.len() as usize)
                        &&& final(self).reply_buf@ == splice(old(self).reply_buf@, 0, bytes)
                        &&& *final(self) == (Ble { reply_buf: final(self).reply_buf, ..*old(self) })
                    }
                },
                Ok(AdvPduModel::ConnectReq { init_addr, ll_data, .. }) => {
                    &&& r is None
                    &&& ll_data.len() != 22 ==> *final(self) == *old(self)
                    &&& ll_data.len() == 22 ==> exists|p: ConnectReqData, ia: [u8; 6]|
                        #![trigger conn_req_fields(p, ll_data), ia@]
                        {
                            &&& conn_req_fields(p, ll_data)
                            &&& ia@ == init_addr
                            &&& final(self).conn matches Some(c) && conn_fresh(
                                c,
                                p,
                                channel,
                                now,
                                ConnRole::Slave,
                            )
                            &&& final(self).adv_state == AdvState::Idle
                            &&& final(self).queue() == q_push(
                                q_push(old(self).queue(), BleEvent::Connected { conn: p }),
                                BleEvent::ConnectReqReceived { init_addr: ia, conn: p },
                            )
                            &&& q_fifo(old(self).queue()) && old(self).pending_events().len() < 6
                                ==> q_fifo(final(self).queue()) && final(self).pending_events()
                                == old(self).pending_events().push(
                                BleEvent::Connected { conn: p },
                            ).push(BleEvent::ConnectReqReceived { init_addr: ia, conn: p })
                        }
                },
                _ => r is None && *final(self) == *old(self),
            },
    {
        let pdu = match AdvPdu::decode(pkt) {
            Ok(p) => p,
            Err(_) => {
                return None;
            },
        };
        match pdu {
            AdvPdu::ScanReq { adv_addr, .. } => self.build_scan_rsp(adv_addr),
            AdvPdu::ConnectReq { init_addr, ll_data, .. } => {
                match ConnectReqData::decode(ll_data) {
                    Ok(params) => {
                        self.conn = Some(Conn::new(&params, channel, now, ConnRole::Slave));
                        self.adv_state = AdvState::Idle;
                        self.push_event(BleEvent::Connected { conn: params });
                        self.push_event(BleEvent::ConnectReqReceived { init_addr, conn: params });
                    },
                    Err(_) => {},
                }
                None
            },
            _ => None,
        }
    }

    /// Begin a scan listen (timer compare fired): finish a pending stop,
    /// end a scan cycle after the third channel (returning the compare
    /// value of the next cycle), or move to the next advertising channel
    /// and listen a third of the scan window.
    pub fn scan_tick_begin(&mut self, now: u32) -> (r: ScanStep)
        requires
            old(self).wf(),
        ensures
            final(self).wf(),
            old(self).scan_state == ScanState::Idle ==> r == ScanStep::Idle && *final(self)
                == *old(self),
            old(self).scan_state == ScanState::StopPending ==> r == ScanStep::Stopped && final(self).scan_state == ScanState::Idle && final(self).queue() == q_push(old(self).queue(), BleEvent::ScanStopped) && *final(self) == (Ble { scan_state: ScanState::Idle, events: final(self).events, event_head: final(self).event_head, event_tail: final(self).event_tail, ..*old(self) }) && (q_fifo(old(self).queue()) && old(self).pending_events().len() < 7 ==> q_fifo(final(self).queue()) && final(self).pending_events() == old(self).pending_events().push(BleEvent::ScanStopped)),
            old(self).scan_state == ScanState::Running && old(self).scan_channel_idx >= 3 ==> {
                let acc = old(self).scan_accum@;
                let x = acc.1 + old(self).scan_params.interval * acc.0;
                &&& r == ScanStep::Rescheduled(
                    old(self).scan_cycle_start.wrapping_add((x / 32) as u32),
                )
                &&& final(self).scan_accum@ == (acc.0, (x % 32) as nat)
                &&& *final(self) == (Ble {
                    scan_channel_idx: 0,
                    scan_accum: final(self).scan_accum,
                    ..*old(self)
                })
            },
            old(self).scan_state == ScanState::Running && old(self).scan_channel_idx < 3 ==> {
                let ch = ADV_CHANNELS@[old(self).scan_channel_idx as int];
                &&& r == ScanStep::Listen {
                    channel: ch,
                    deadline: now.wrapping_add((((old(self).scan_params.window * 625 + 31) / 32) / 3) as u32),
                }
                &&& *final(self) == (Ble {
                    scan_cycle_start: if old(self).scan_channel_idx == 0 {
                        now
                    } else {
                        old(self).scan_cycle_start
                    },
                    scan_channel_idx: (old(self).scan_channel_idx + 1) as usize,
                    last_radio_channel: Some(ch),
                    ..*old(self)
                })
            },
    {
        if self.scan_state == ScanState::Idle {
            return ScanStep::Idle;
        }
        if self.scan_state == ScanState::StopPending {
            self.scan_state = ScanState::Idle;
            self.push_event(BleEvent::ScanStopped);
            return ScanStep::Stopped;
        }
        if self.scan_channel_idx >= 3 {
            self.scan_channel_idx = 0;
            let ticks = self.scan_accum.next(self.scan_params.interval);
            return ScanStep::Rescheduled(self.scan_cycle_start.wrapping_add(ticks));
        }
        if self.scan_channel_idx == 0 {
            self.scan_cycle_start = now;
        }
        let channel = ADV_CHANNELS[self.scan_channel_idx];
        self.scan_channel_idx = self.scan_channel_idx + 1;
        self.last_radio_channel = Some(channel);
        let per_channel = window_ticks(self.scan_params.window) / 3;
        ScanStep::Listen { channel, deadline: now.wrapping_add(per_channel) }
    }

    /// Build the CONNECT_REQ to the connection target into `reply_buf`
    /// (our proposed parameters); its length, or `None` without a target.
    pub fn build_connect_req(&mut self) -> (r: Option<usize>)
        requires
            old(self).wf(),
        ensures
            final(self).wf(),
            old(self).connect_target is None ==> r is None && *final(self) == *old(self),
            old(self).connect_target matches Some(t) ==> {
                let bytes = adv_pdu_bytes(
                    connect_req_model(*old(self), t),
                    !(old(self).own_addr_type is Public),
                    !(old(self).connect_target_type is Public),
                );
                &&& r == Some(bytes.len() as usize)
                &&& final(self).reply_buf@ == splice(old(self).reply_buf@, 0, bytes)
                &&& *final(self) == (Ble { reply_buf: final(self).reply_buf, ..*old(self) })
            },
    {
        let target = match self.connect_target {
            Some(t) => t,
            None => {
                return None;
            },
        };
        let ll = ConnectReqData {
            access_addr: 0x8E89_BED6 ^ 0x1234_5678,
            crc_init: 0x65_4321,
            win_size: 1,
            win_offset: 0,
            interval: 24,
            latency: 0,
            timeout: 2000,
            channel_map: [0xFF, 0xFF, 0xFF, 0xFF, 0x1F],
            hop: 13,
            sca: 2,
        };
        let mut llbuf = [0u8; 22];
        let _ = ll.encode_typed(&mut llbuf, false, false);
        assert(llbuf@ =~= conn_req_bytes(initiator_params()));
        let rx_add = self.connect_target_type.is_random();
        let tx_add = self.own_addr_type.is_random();
        let pdu = AdvPdu::ConnectReq { init_addr: self.own_addr, adv_addr: target, ll_data: &llbuf };
        let mut buf = self.reply_buf;
        let r = pdu.encode_typed(&mut buf, tx_add, rx_add);
        self.reply_buf = buf;
        match r {
            Ok(n) => Some(n),
            Err(_) => None,
        }
    }

    /// The CONNECT_REQ went out at time `now`: start the connection as
    /// central on the channel last listened on (37 by default) and end
    /// scanning.
    pub fn connect_req_sent(&mut self, now: u32)
        requires
            old(self).wf(),
        ensures
            final(self).wf(),
            final(self).conn matches Some(c) && conn_fresh(
                c,
                initiator_params(),
                match old(self).last_radio_channel {
                    Some(ch) => ch,
                    None => 37u8,
                },
                now,
                ConnRole::Master,
            ),
            final(self).connect_target is None,
            final(self).scan_state == ScanState::Idle,
            final(self).queue() == q_push(
                old(self).queue(),
                BleEvent::Connected { conn: initiator_params() },
            ),
            q_fifo(old(self).queue()) && old(self).pending_events().len() < 7 ==> q_fifo(
                final(self).queue(),
            ) && final(self).pending_events() == old(self).pending_events().push(
                BleEvent::Connected { conn: initiator_params() },
            ),
            *final(self) == (Ble {
                conn: final(self).conn,
                connect_target: None,
                scan_state: ScanState::Idle,
                events: final(self).events,
                event_head: final(self).event_head,
                event_tail: final(self).event_tail,
                ..*old(self)
            }),
    {
        let ll = ConnectReqData {
            access_addr: 0x8E89_BED6 ^ 0x1234_5678,
            crc_init: 0x65_4321,
            win_size: 1,
            win_offset: 0,
            interval: 24,
            latency: 0,
            timeout: 2000,
            channel_map: [0xFF, 0xFF, 0xFF, 0xFF, 0x1F],
            hop: 13,
            sca: 2,
        };
        self.connect_target = None;
        let channel = match self.last_radio_channel {
            Some(ch) => ch,
            None => 37,
        };
        self.conn = Some(Conn::new(&ll, channel, now, ConnRole::Master));
        self.scan_state = ScanState::Idle;
        self.push_event(BleEvent::Connected { conn: ll });
    }

    /// Handle a packet received while scanning (`rssi` its signal
    /// strength): the connection target's advertisement is answered with a
    /// CONNECT_REQ; other ADV_IND / ADV_SCAN_IND packets (filtered by the
    /// accept list under that policy) are reported, and when scanning
    /// actively a SCAN_REQ is built.
    pub fn handle_scan_pdu(&mut self, pkt: &[u8], rssi: i8) -> (r: ScanAction)
        requires
            old(self).wf(),
        ensures
            final(self).wf(),
            match adv_decode_spec(pkt@) {
                Ok(m) => if (m is AdvInd || m is AdvScanInd) {
                    let addr = if m is AdvInd {
                        m->AdvInd_adv_addr
                    } else {
                        m->AdvScanInd_adv_addr
                    };
                    let data = if m is AdvInd {
                        m->AdvInd_data
                    } else {
                        m->AdvScanInd_data
                    };
                    if old(self).connect_target is Some && old(self).connect_target.unwrap()@
                        == addr {
                        let bytes = adv_pdu_bytes(
                            connect_req_model(*old(self), old(self).connect_target.unwrap()),
                            !(old(self).own_addr_type is Public),
                            !(old(self).connect_target_type is Public),
                        );
                        &&& r == ScanAction::ConnectReq(bytes.len() as usize)
                        &&& final(self).reply_buf@ == splice(old(self).reply_buf@, 0, bytes)
                        &&& *final(self) == (Ble { reply_buf: final(self).reply_buf, ..*old(self) })
                    } else if old(self).scan_params.filter_policy == FilterPolicy::AcceptList
                        && !old(self).accept_list@.contains((random_subtype(addr[5]), addr)) {
                        r == ScanAction::Nothing && *final(self) == *old(self)
                    } else {
                        &&& final(self).queue() == q_push(
                            old(self).queue(),
                            final(self).queue().slots[old(self).queue().head]->0,
                        )
                        &&& scan_report(
                            pkt@.subrange(2, 8),
                            adv_pdu_type(m),
                            rssi,
                            data,
                            final(self).queue().slots[old(self).queue().head]->0,
                        )
                        &&& q_fifo(old(self).queue()) && old(self).pending_events().len() < 7
                            ==> q_fifo(final(self).queue()) && final(self).pending_events().len()
                            == old(self).pending_events().len() + 1 && final(self).pending_events().take(old(self).pending_events().len() as int) == old(self).pending_events() && scan_report(
                            pkt@.subrange(2, 8),
                            adv_pdu_type(m),
                            rssi,
                            data,
                            final(self).pending_events().last(),
                        )
                        &&& !old(self).scan_params.active ==> r == ScanAction::Nothing
                        &&& old(self).scan_params.active ==> r == ScanAction::ScanReq(
                            scan_req_bytes(*old(self), pkt@).len() as usize,
                        ) && final(self).reply_buf@ == splice(
                            old(self).reply_buf@,
                            0,
                            scan_req_bytes(*old(self), pkt@),
                        )
                        &&& !old(self).scan_params.active ==> final(self).reply_buf == old(self).reply_buf
                    }
                } else {
                    r == ScanAction::Nothing && *final(self) == *old(self)
                },
                Err(_) => r == ScanAction::Nothing && *final(self) == *old(self),
            },
    {
        let pdu = match AdvPdu::decode(pkt) {
            Ok(p) => p,
            Err(_) => {
                return ScanAction::Nothing;
            },
        };
        let (addr, data) = match pdu {
            AdvPdu::AdvInd { adv_addr, data } => (adv_addr, data),
            AdvPdu::AdvScanInd { adv_addr, data } => (adv_addr, data),
            _ => {
                return ScanAction::Nothing;
            },
        };
        match self.connect_target {
            Some(target) => {
                if crate::bytes::bytes_eq(addr.as_slice(), target.as_slice()) {
                    assert(target == addr);
                    return match self.build_connect_req() {
                        Some(n) => ScanAction::ConnectReq(n),
                        None => ScanAction::Nothing,
                    };
                }
            },
            None => {},
        }
        let addr_type = BtAddr::parse(addr).addr_type;
        if self.scan_params.filter_policy == FilterPolicy::AcceptList && !self.accept_list.contains(
            addr,
            addr_type,
        ) {
            return ScanAction::Nothing;
        }
        let mut buf = [0u8; 31];
        let data_len = if data.len() < 31 {
            data.len()
        } else {
            31
        };
        crate::bytes::copy_into(&mut buf, 0, &data[0..data_len]);
        assert(buf@.take(data_len as int) =~= data@.take(data_len as int));
        let adv_type = pdu.pdu_type();
        proof {
            assert(addr@ == pkt@.subrange(2, 8));
        }
        self.push_event(
            BleEvent::ScanReport { addr, addr_type, adv_type, rssi, data: buf, data_len },
        );
        if self.scan_params.active {
            let n = self.build_scan_req(pkt);
            ScanAction::ScanReq(n)
        } else {
            ScanAction::Nothing
        }
    }

    /// Build the SCAN_REQ to the advertiser of `pkt` (address at bytes
    /// 2..8) into `reply_buf`; its length.
    fn build_scan_req(&mut self, pkt: &[u8]) -> (n: usize)
        requires
            old(self).wf(),
            pkt@.len() >= 8,
        ensures
            final(self).wf(),
            ({
                let bytes = scan_req_bytes(*old(self), pkt@);
                &&& n == bytes.len()
                &&& final(self).reply_buf@ == splice(old(self).reply_buf@, 0, bytes)
                &&& final(self).pending_events() == old(self).pending_events()
                &&& *final(self) == (Ble { reply_buf: final(self).reply_buf, ..*old(self) })
            }),
    {
        let adv_addr = crate::bytes::addr_at(pkt, 2);
        let tx_add = self.own_addr_type.is_random();
        let rx_add = BtAddr::parse(adv_addr).addr_type.is_random();
        let pdu = AdvPdu::ScanReq { scan_addr: self.own_addr, adv_addr };
        let mut buf = self.reply_buf;
        let r = pdu.encode_typed(&mut buf, tx_add, rx_add);
        self.reply_buf = buf;
        match r {
            Ok(n) => n,
            Err(_) => 0,
        }
    }

    /// A packet (`pkt`, signal strength `rssi`) was received after our
    /// SCAN_REQ: a SCAN_RSP is reported.
    pub fn on_scan_rsp(&mut self, pkt: &[u8], rssi: i8)
        requires
            old(self).wf(),
        ensures
            final(self).wf(),
            match adv_decode_spec(pkt@) {
                Ok(AdvPduModel::ScanRsp { adv_addr, data }) => {
                    &&& final(self).queue() == q_push(
                        old(self).queue(),
                        final(self).queue().slots[old(self).queue().head]->0,
                    )
                    &&& scan_report(
                        pkt@.subrange(2, 8),
                        PDU_SCAN_RSP,
                        rssi,
                        data,
                        final(self).queue().slots[old(self).queue().head]->0,
                    )
                    &&& q_fifo(old(self).queue()) && old(self).pending_events().len() < 7 ==> q_fifo(
                        final(self).queue(),
                    ) && final(self).pending_events().len() == old(self).pending_events().len() + 1
                        && final(self).pending_events().take(old(self).pending_events().len() as int)
                        == old(self).pending_events() && scan_report(
                        pkt@.subrange(2, 8),
                        PDU_SCAN_RSP,
                        rssi,
                        data,
                        final(self).pending_events().last(),
                    )
                    &&& *final(self) == (Ble {
                        events: final(self).events,
                        event_head: final(self).event_head,
                        event_tail: final(self).event_tail,
                        ..*old(self)
                    })
                },
                _ => *final(self) == *old(self),
            },
    {
        match AdvPdu::decode(pkt) {
            Ok(AdvPdu::ScanRsp { adv_addr, data }) => {
                let mut report = [0u8; 31];
                let data_len = if data.len() < 31 {
                    data.len()
                } else {
                    31
                };
                crate::bytes::copy_into(&mut report, 0, &data[0..data_len]);
                assert(report@.take(data_len as int) =~= data@.take(data_len as int));
                proof {
                    assert(adv_addr@ == pkt@.subrange(2, 8));
                }
                let addr_type = BtAddr::parse(adv_addr).addr_type;
                self.push_event(
                    BleEvent::ScanReport {
                        addr: adv_addr,
                        addr_type,
                        adv_type: PDU_SCAN_RSP,
                        rssi,
                        data: report,
                        data_len,
                    },
                );
            },
            _ => {},
        }
    }

    fn close_conn(&mut self, reason: DisconnectReason)
        requires
            old(self).wf(),
        ensures
            final(self).wf(),
            conn_closed(*old(self), *final(self), reason),
    {
        self.conn = None;
        self.push_event(BleEvent::Disconnected { reason });
    }

    /// Begin a connection event at time `now`: without a connection, or
    /// when nothing was received within the supervision timeout (timeout
    /// x 313 ticks), the link is closed and false returned; otherwise the
    /// data announced after the previous event is cleared and the event is
    /// to be run.
    pub fn conn_tick_begin(&mut self, now: u32) -> (run: bool)
        requires
            old(self).wf(),
        ensures
            final(self).wf(),
            old(self).conn is None ==> !run && conn_closed(
                *old(self),
                *final(self),
                DisconnectReason::LocalError,
            ),
            old(self).conn matches Some(c) ==> {
                let expired = now.wrapping_sub(c.last_rx) >= (c.timeout as u32) * 313;
                &&& run == !expired
                &&& expired ==> conn_closed(
                    *old(self),
                    *final(self),
                    DisconnectReason::SupervisionTimeout,
                )
                &&& !expired ==> *final(self) == (Ble {
                    conn: Some(Conn { rx_data_len: 0, ..c }),
                    ..*old(self)
                })
            },
    {
        let (last_rx, timeout) = match &self.conn {
            Some(c) => (c.last_rx, c.timeout),
            None => {
                self.close_conn(DisconnectReason::LocalError);
                return false;
            },
        };
        let elapsed = now.wrapping_sub(last_rx);
        let limit = (timeout as u32) * 313;
        if elapsed >= limit {
            self.close_conn(DisconnectReason::SupervisionTimeout);
            return false;
        }
        match &mut self.conn {
            Some(c) => {
                c.rx_data_len = 0;
            },
            None => {},
        }
        true
    }

    /// End a connection event with its outcome: an ended link or an error
    /// closes the connection (false); control and L2CAP reports are
    /// queued, and received data is announced (`ConnData`; the data stays
    /// readable through [`Ble::conn_rx_data`] until the next event begins).
    pub fn conn_tick_finish(&mut self, outcome: Result<ConnEvent, Error>) -> (open: bool)
        requires
            old(self).wf(),
        ensures
            final(self).wf(),
            outcome matches Ok(ConnEvent::Disconnected(reason)) ==> !open && conn_closed(
                *old(self),
                *final(self),
                reason,
            ),
            outcome is Err ==> !open && conn_closed(
                *old(self),
                *final(self),
                DisconnectReason::LocalError,
            ),
            outcome is Ok && !(outcome.unwrap() is Disconnected) ==> {
                let e = outcome.unwrap();
                let reported = match e {
                    ConnEvent::Control(op) => seq![BleEvent::LlControl(op)],
                    ConnEvent::L2cap(cid) => seq![BleEvent::L2cap(cid)],
                    _ => Seq::<BleEvent>::empty(),
                };
                let data = old(self).conn matches Some(c) && c.rx_data_len > 0;
                &&& open
                &&& final(self).queue() == q_push_opt(
                    q_push_opt(old(self).queue(), conn_report(e)),
                    if data {
                        Some(BleEvent::ConnData)
                    } else {
                        None
                    },
                )
                &&& q_fifo(old(self).queue()) && old(self).pending_events().len() < 6 ==> q_fifo(
                    final(self).queue(),
                ) && final(self).pending_events() == old(self).pending_events() + reported + if data {
                    seq![BleEvent::ConnData]
                } else {
                    Seq::<BleEvent>::empty()
                }
                &&& *final(self) == (Ble {
                    events: final(self).events,
                    event_head: final(self).event_head,
                    event_tail: final(self).event_tail,
                    ..*old(self)
                })
            },
    {
        match outcome {
            Ok(ConnEvent::Disconnected(reason)) => {
                self.close_conn(reason);
                false
            },
            Err(_) => {
                self.close_conn(DisconnectReason::LocalError);
                false
            },
            Ok(e) => {
                self.report_conn_event(e);
                self.announce_conn_data();
                true
            },
        }
    }

    fn report_conn_event(&mut self, e: ConnEvent)
        requires
            old(self).wf(),
            !(e is Disconnected),
        ensures
            final(self).wf(),
            final(self).queue() == q_push_opt(old(self).queue(), conn_report(e)),
            q_fifo(old(self).queue()) && old(self).pending_events().len() < 6 ==> q_fifo(
                final(self).queue(),
            ) && final(self).pending_events().len() < 7 && final(self).pending_events() == old(self).pending_events() + match e {
                ConnEvent::Control(op) => seq![BleEvent::LlControl(op)],
                ConnEvent::L2cap(cid) => seq![BleEvent::L2cap(cid)],
                _ => Seq::<BleEvent>::empty(),
            },
            *final(self) == (Ble {
                events: final(self).events,
                event_head: final(self).event_head,
                event_tail: final(self).event_tail,
                ..*old(self)
            }),
    {
        match e {
            ConnEvent::Control(op) => {
                self.push_event(BleEvent::LlControl(op));
            },
            ConnEvent::L2cap(cid) => {
                self.push_event(BleEvent::L2cap(cid));
            },
            _ => {
                assert(old(self).pending_events() + Seq::<BleEvent>::empty() =~= old(self).pending_events());
            },
        }
    }

    fn announce_conn_data(&mut self)
        requires
            old(self).wf(),
        ensures
            final(self).wf(),
            ({
                let data = old(self).conn matches Some(c) && c.rx_data_len > 0;
                &&& final(self).queue() == q_push_opt(
                    old(self).queue(),
                    if data {
                        Some(BleEvent::ConnData)
                    } else {
                        None
                    },
                )
                &&& q_fifo(old(self).queue()) && old(self).pending_events().len() < 7 ==> q_fifo(
                    final(self).queue(),
                ) && final(self).pending_events() == old(self).pending_events() + if data {
                    seq![BleEvent::ConnData]
                } else {
                    Seq::<BleEvent>::empty()
                }
                &&& *final(self) == (Ble {
                    events: final(self).events,
                    event_head: final(self).event_head,
                    event_tail: final(self).event_tail,
                    ..*old(self)
                })
            }),
    {
        let has_data = match &self.conn {
            Some(c) => c.rx_data_len > 0,
            None => false,
        };
        if has_data {
            self.push_event(BleEvent::ConnData);
            assert(old(self).pending_events() + seq![BleEvent::ConnData] =~= old(self).pending_events().push(BleEvent::ConnData));
        } else {
            assert(old(self).pending_events() + Seq::<BleEvent>::empty() =~= old(self).pending_events());
        }
    }

    /// True when the current connection was initiated by us.
    pub fn conn_is_master(&self) -> (r: bool)
        ensures
            r == (self.conn matches Some(c) && c.role == ConnRole::Master),
    {
        match &self.conn {
            Some(c) => c.role == ConnRole::Master,
            None => false,
        }
    }

    /// Data written by the peer to the NUS RX characteristic.
    pub fn conn_rx_data(&self) -> (r: &[u8])
        requires
            self.wf(),
        ensures
            match self.conn {
                Some(c) => r@ == c.rx_data@.take(c.rx_data_len as int),
                None => r@.len() == 0,
            },
    {
        match &self.conn {
            Some(c) => {
                let r = &c.rx_data[0..c.rx_data_len];
                assert(r@ =~= c.rx_data@.take(c.rx_data_len as int));
                r
            },
            None => &[],
        }
    }

    /// Queue a notification on the NUS TX characteristic.
    pub fn conn_send(&mut self, data: &[u8]) -> (r: Result<(), Error>)
        requires
            old(self).wf(),
        ensures
            final(self).wf(),
            old(self).conn is None ==> r == Err::<(), Error>(Error::NotRunning) && *final(self)
                == *old(self),
            old(self).conn matches Some(c) ==> {
                let n = if data@.len() < 244 {
                    data@.len() as int
                } else {
                    244
                };
                &&& r is Ok
                &&& final(self).conn matches Some(c2) && with_conn(*old(self), *final(self), c2)
                    && c2.tx_att@ == splice(
                    c.tx_att@,
                    0,
                    seq![0x1Bu8] + le16(crate::hw::conn::HANDLE_TX_VALUE) + data@.take(n),
                ) && c2 == (Conn {
                    tx_att: c2.tx_att,
                    tx_att_len: (3 + n) as usize,
                    tx_pending: true,
                    ..c
                })
            },
    {
        match &mut self.conn {
            Some(c) => c.queue_notify(data),
            None => Err(Error::NotRunning),
        }
    }

    /// Request termination (LL_TERMINATE_IND) at the next connection
    /// event.
    pub fn gap_terminate(&mut self) -> (r: Result<(), Error>)
        requires
            old(self).wf(),
        ensures
            final(self).wf(),
            old(self).conn is None ==> r == Err::<(), Error>(Error::NotRunning) && *final(self)
                == *old(self),
            old(self).conn matches Some(c) ==> r is Ok && with_conn(
                *old(self),
                *final(self),
                Conn { terminate_pending: true, ..c },
            ),
    {
        match &mut self.conn {
            Some(c) => {
                c.terminate();
                Ok(())
            },
            None => Err(Error::NotRunning),
        }
    }

    /// L2CAP: open a credit-based connection-oriented channel (initiator).
    pub fn l2cap_connect(&mut self, psm: u16) -> (r: Result<(), Error>)
        requires
            old(self).wf(),
        ensures
            final(self).wf(),
            old(self).conn is None ==> r == Err::<(), Error>(Error::NotRunning) && *final(self)
                == *old(self),
            old(self).conn matches Some(c) ==> r is Ok && (final(self).conn matches Some(c2)
                && with_conn(*old(self), *final(self), c2) && (c.coc is Some ==> c2 == c) && (
            c.coc is None ==> (c2.coc matches Some(k) && crate::hw::l2cap::coc_opened(
                k,
                psm,
                0,
                crate::hw::conn::COC_MTU,
                crate::hw::conn::COC_MPS,
                0,
            )) && crate::hw::l2cap::signaling_queued(
                Conn { coc: c2.coc, ..c },
                c2,
                crate::hw::l2cap::coc_connect_req(psm),
            ))),
    {
        match &mut self.conn {
            Some(c) => {
                c.l2cap_connect(psm);
                Ok(())
            },
            None => Err(Error::NotRunning),
        }
    }

    /// L2CAP: send data on the open connection-oriented channel.
    pub fn l2cap_send(&mut self, data: &[u8]) -> (r: Result<(), Error>)
        requires
            old(self).wf(),
        ensures
            final(self).wf(),
            old(self).conn is None ==> r == Err::<(), Error>(Error::NotRunning) && *final(self)
                == *old(self),
            old(self).conn matches Some(c) ==> final(self).conn matches Some(c2) && with_conn(
                *old(self),
                *final(self),
                c2,
            ) && (c.coc is None ==> r == Err::<(), Error>(Error::NotRunning) && c2 == c) && (
            c.coc matches Some(k) ==> {
                &&& (data@.len() > k.mtu || data@.len() + 2 > 251) ==> r == Err::<(), Error>(
                    Error::InvalidLength,
                ) && c2 == c
                &&& !(data@.len() > k.mtu || data@.len() + 2 > 251) && k.credits == 0 ==> r
                    == Err::<(), Error>(Error::NotRunning) && c2 == c
                &&& !(data@.len() > k.mtu || data@.len() + 2 > 251) && k.credits > 0 ==> {
                    &&& r is Ok
                    &&& c2.tx_att@ == splice(c.tx_att@, 0, le16(data@.len() as u16) + data@)
                    &&& c2 == (Conn {
                        coc: Some(crate::hw::conn::Coc { credits: (k.credits - 1) as u16, ..k }),
                        tx_att: c2.tx_att,
                        tx_att_len: (data@.len() + 2) as usize,
                        tx_cid: k.local_cid,
                        tx_frag_offset: 0,
                        tx_pending: true,
                        ..c
                    })
                }
            }),
    {
        match &mut self.conn {
            Some(c) => c.l2cap_send(data),
            None => Err(Error::NotRunning),
        }
    }

    /// Start legacy Just Works pairing: as central, send the SMP pairing
    /// request; as peripheral, reset the pairing state to await the peer's
    /// request.
    pub fn gap_pair(&mut self) -> (r: Result<(), Error>)
        requires
            old(self).wf(),
        ensures
            final(self).wf(),
            old(self).conn is None ==> r == Err::<(), Error>(Error::NotRunning) && *final(self)
                == *old(self),
            old(self).conn matches Some(c) ==> r is Ok && (final(self).conn matches Some(c2)
                && with_conn(*old(self), *final(self), c2) && if c.role == ConnRole::Master {
                &&& c2.smp.preq@ == pairing_pdu(SMP_PAIRING_REQUEST)
                &&& l2cap_queued(
                    Conn { smp: crate::hw::smp::Smp { preq: c2.smp.preq, ..c.smp }, ..c },
                    c2,
                    pairing_pdu(SMP_PAIRING_REQUEST),
                    L2CAP_SMP_CID,
                )
            } else {
                c2 == Conn { smp: crate::hw::smp::Smp { state: SmpState::Idle, ..c.smp }, ..c }
            }),
    {
        match &mut self.conn {
            Some(c) => {
                if c.role == ConnRole::Master {
                    let req = c.smp.build_pairing_request();
                    assert(cut(req@, 251) =~= pairing_pdu(SMP_PAIRING_REQUEST));
                    c.queue_l2cap(&req, L2CAP_SMP_CID);
                } else {
                    c.smp.state = SmpState::Idle;
                }
                Ok(())
            },
            None => Err(Error::NotRunning),
        }
    }

    fn gatt_request(&mut self, req: &[u8]) -> (r: Result<(), Error>)
        requires
            old(self).wf(),
            req@.len() <= 251,
        ensures
            final(self).wf(),
            old(self).conn is None ==> r == Err::<(), Error>(Error::NotRunning) && *final(self)
                == *old(self),
            old(self).conn matches Some(c) ==> r is Ok && (final(self).conn matches Some(c2)
                && with_conn(*old(self), *final(self), c2) && gatt_requested(c, c2, req@)),
    {
        match &mut self.conn {
            Some(c) => {
                assert(cut(req@, 251) =~= req@);
                c.gatt_send_request(req);
                Ok(())
            },
            None => Err(Error::NotRunning),
        }
    }

    /// GATT client: discover primary services (READ_BY_GROUP_TYPE, 0x2800).
    pub fn gatt_discover_primary_services(&mut self) -> (r: Result<(), Error>)
        requires
            old(self).wf(),
        ensures
            final(self).wf(),
            old(self).conn is None ==> r == Err::<(), Error>(Error::NotRunning) && *final(self)
                == *old(self),
            old(self).conn matches Some(c) ==> r is Ok && (final(self).conn matches Some(c2)
                && with_conn(*old(self), *final(self), c2) && gatt_requested(
                c,
                c2,
                seq![0x10u8] + le16(0x2800) + le16(0x0001) + le16(0xFFFF),
            )),
    {
        let mut req = [0u8; 7];
        req[0] = 0x10;
        req[1] = 0x00;
        req[2] = 0x28;
        req[3] = 0x01;
        req[4] = 0x00;
        req[5] = 0xFF;
        req[6] = 0xFF;
        assert(0x2800u16 as u8 == 0u8 && (0x2800u16 >> 8u16) as u8 == 0x28u8) by (bit_vector);
        assert(0xFFFFu16 as u8 == 0xFFu8 && (0xFFFFu16 >> 8u16) as u8 == 0xFFu8) by (bit_vector);
        proof {
            crate::bytes::lemma_le16_small(1);
        }
        assert(req@ =~= seq![0x10u8] + le16(0x2800) + le16(0x0001) + le16(0xFFFF));
        self.gatt_request(&req)
    }

    /// GATT client: discover characteristics within a handle range.
    pub fn gatt_discover_characteristics(&mut self, start: u16, end: u16) -> (r: Result<
        (),
        Error,
    >)
        requires
            old(self).wf(),
        ensures
            final(self).wf(),
            old(self).conn is None ==> r == Err::<(), Error>(Error::NotRunning) && *final(self)
                == *old(self),
            old(self).conn matches Some(c) ==> r is Ok && (final(self).conn matches Some(c2)
                && with_conn(*old(self), *final(self), c2) && gatt_requested(
                c,
                c2,
                seq![0x08u8] + le16(0x2803) + le16(start) + le16(end),
            )),
    {
        let mut req = [0u8; 7];
        req[0] = 0x08;
        req[1] = 0x03;
        req[2] = 0x28;
        req[3] = start as u8;
        req[4] = (start >> 8) as u8;
        req[5] = end as u8;
        req[6] = (end >> 8) as u8;
        assert(0x2803u16 as u8 == 0x03u8 && (0x2803u16 >> 8u16) as u8 == 0x28u8) by (bit_vector);
        assert(req@ =~= seq![0x08u8] + le16(0x2803) + le16(start) + le16(end));
        self.gatt_request(&req)
    }

    /// GATT client: read an attribute value.
    pub fn gatt_read(&mut self, handle: u16) -> (r: Result<(), Error>)
        requires
            old(self).wf(),
        ensures
            final(self).wf(),
            old(self).conn is None ==> r == Err::<(), Error>(Error::NotRunning) && *final(self)
                == *old(self),
            old(self).conn matches Some(c) ==> r is Ok && (final(self).conn matches Some(c2)
                && with_conn(*old(self), *final(self), c2) && gatt_requested(
                c,
                c2,
                seq![0x0Au8] + le16(handle),
            )),
    {
        let req = [0x0Au8, handle as u8, (handle >> 8) as u8];
        assert(req@ =~= seq![0x0Au8] + le16(handle));
        self.gatt_request(&req)
    }

    /// GATT client: write an attribute value (with response); at most 20
    /// bytes of `data` are sent.
    pub fn gatt_write(&mut self, handle: u16, data: &[u8]) -> (r: Result<(), Error>)
        requires
            old(self).wf(),
        ensures
            final(self).wf(),
            old(self).conn is None ==> r == Err::<(), Error>(Error::NotRunning) && *final(self)
                == *old(self),
            old(self).conn matches Some(c) ==> r is Ok && (final(self).conn matches Some(c2)
                && with_conn(*old(self), *final(self), c2) && gatt_requested(
                c,
                c2,
                seq![0x12u8] + le16(handle) + data@.take(
                    if data@.len() < 20 {
                        data@.len() as int
                    } else {
                        20
                    },
                ),
            )),
    {
        let mut req = [0u8; 23];
        req[0] = 0x12;
        req[1] = handle as u8;
        req[2] = (handle >> 8) as u8;
        let n = if data.len() < 20 {
            data.len()
        } else {
            20
        };
        crate::bytes::copy_into(&mut req, 3, &data[0..n]);
        assert(req@.take(3 + n as int) =~= seq![0x12u8] + le16(handle) + data@.take(n as int));
        self.gatt_request(&req[0..3 + n])
    }

    /// GATT client: enable notifications on a CCCD (value 0x0001).
    pub fn gatt_subscribe(&mut self, cccd_handle: u16) -> (r: Result<(), Error>)
        requires
            old(self).wf(),
        ensures
            final(self).wf(),
            old(self).conn is None ==> r == Err::<(), Error>(Error::NotRunning) && *final(self)
                == *old(self),
            old(self).conn matches Some(c) ==> r is Ok && (final(self).conn matches Some(c2)
                && with_conn(*old(self), *final(self), c2) && gatt_requested(
                c,
                c2,
                seq![0x12u8] + le16(cccd_handle) + le16(0x0001),
            )),
    {
        let req = [0x12u8, cccd_handle as u8, (cccd_handle >> 8) as u8, 0x01, 0x00];
        proof {
            crate::bytes::lemma_le16_small(1);
        }
        assert(req@ =~= seq![0x12u8] + le16(cccd_handle) + le16(0x0001));
        self.gatt_request(&req)
    }

    /// GATT client: poll for a completed request response: (opcode,
    /// bytes, length) when one arrived (the stored response is then
    /// cleared).
    pub fn gatt_poll(&mut self) -> (r: Option<(u8, [u8; 64], usize)>)
        requires
            old(self).wf(),
        ensures
            final(self).wf(),
            old(self).conn is None ==> r is None && *final(self) == *old(self),
            old(self).conn matches Some(c) ==> {
                &&& final(self).conn matches Some(c2) && with_conn(*old(self), *final(self), c2)
                    && c2.gatt_result@ == c.gatt_result@.update(0, 0u8) && c2 == (Conn {
                    gatt_result: c2.gatt_result,
                    gatt_result_len: 0,
                    ..c
                })
                &&& c.gatt_result_len == 0 ==> r is None
                &&& c.gatt_result_len > 0 ==> r == Some(
                    (c.gatt_result@[0], c.gatt_result, c.gatt_result_len),
                )
            },
    {
        match &mut self.conn {
            Some(c) => {
                let (op, buf, len) = c.gatt_take_result();
                if len > 0 {
                    Some((op, buf, len))
                } else {
                    None
                }
            },
            None => None,
        }
    }

    /// Save a bond (LTK/IRK keyed by peer address) to the connection's
    /// store; nothing happens without a connection.
    pub fn gap_bond_save(&mut self, peer: [u8; 6], ltk: [u8; 16], irk: Option<[u8; 16]>)
        requires
            old(self).wf(),
        ensures
            final(self).wf(),
            old(self).conn is None ==> *final(self) == *old(self),
            old(self).conn matches Some(c) ==> final(self).conn matches Some(c2) && with_conn(
                *old(self),
                *final(self),
                c2,
            ) && c2.bond_store.bonds@ == bond_save_spec(
                c.bond_store.bonds@,
                BondInfo { addr: peer, ltk, irk },
            ) && c2 == (Conn { bond_store: c2.bond_store, ..c }),
    {
        match &mut self.conn {
            Some(c) => {
                c.bond_store.save(peer, ltk, irk);
            },
            None => {},
        }
    }

    /// Look up a bond by peer address in the connection's store (`None`
    /// without a connection).
    pub fn gap_bond_find(&mut self, peer: &[u8; 6]) -> (r: Option<BondInfo>)
        ensures
            *final(self) == *old(self),
            r == match old(self).conn {
                Some(c) => bond_find_spec(c.bond_store.bonds@, peer@),
                None => None,
            },
    {
        match &self.conn {
            Some(c) => c.bond_store.find(peer),
            None => None,
        }
    }
}

/// The advertising PDU the stack sends (the bytes [`Ble::build_adv_pdu`]
/// writes) has the PDU type its advertising type names: ADV_IND (0x0) when
/// connectable undirected, ADV_DIRECT_IND (0x1) when connectable directed,
/// ADV_SCAN_IND (0x6) when scannable undirected, ADV_NONCONN_IND (0x2) when
/// non-connectable. Its TxAdd bit is set exactly when our address is
/// random, its RxAdd bit is clear on every undirected type, and its
/// payload starts with our address.
pub proof fn lemma_adv_pdu_type(b: Ble)
    ensures
        ({
            let bytes = adv_pdu_bytes(adv_model(b), !(b.own_addr_type is Public), false);
            &&& bytes.len() >= 8
            &&& bytes[0] & 0x0F == match b.adv_params.adv_type {
                AdvType::ConnectableUndirected => 0x00u8,
                AdvType::ConnectableDirected => 0x01u8,
                AdvType::ScannableUndirected => 0x06u8,
                AdvType::NonConnectableUndirected => 0x02u8,
            }
            &&& (bytes[0] & 0x80 != 0) == !(b.own_addr_type is Public)
            &&& !(b.adv_params.adv_type is ConnectableDirected) ==> bytes[1] & 0x01 == 0
            &&& bytes.subrange(2, 8) == b.own_addr@
        }),
{
    let m = adv_model(b);
    let bytes = adv_pdu_bytes(m, !(b.own_addr_type is Public), false);
    let t = adv_pdu_type(m);
    let x = crate::ll::pdu::flag(!(b.own_addr_type is Public));
    let c = crate::ll::pdu::flag(false);
    let r = crate::ll::pdu::flag(crate::ll::pdu::adv_rx_flag(m, false));
    let l = crate::ll::pdu::adv_payload_len(m) as u8;
    let b0 = (t & 0x0F) | (c << 6) | (x << 7);
    let b1 = r | ((l & 0x3F) << 1);
    assert(bytes[0] == b0 && bytes[1] == b1);
    assert(t <= 7 && c == 0 && x <= 1 && b0 == (t & 0x0F) | (c << 6) | (x << 7) ==> b0 & 0x0F == t
        && (b0 & 0x80 != 0) == (x == 1)) by (bit_vector);
    assert(r == 0 && b1 == r | ((l & 0x3F) << 1) ==> b1 & 0x01 == 0) by (bit_vector);
    assert(bytes.subrange(2, 8) =~= b.own_addr@);
}

} // verus!
