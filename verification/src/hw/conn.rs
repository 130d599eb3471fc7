//! LE connection protocol state: link-layer control, L2CAP-lite with
//! credit-based channels, SMP routing and a minimal GATT/ATT server
//! (Nordic UART Service) and client.
use vstd::prelude::*;

use crate::bytes::{copy_into, le16, splice, u16_le};
use crate::hw::smp::Smp;
use crate::hw::timers::{timeout_ticks, IntervalAccum};
use crate::ll::pdu::{
    ConnectReqData, LLID_CONTROL, LLID_DATA_COMPLETE, LLID_DATA_CONTINUATION_OR_COMPLETE,
    LLID_DATA_START,
};
use crate::Error;

verus! {

/// LL Control PDU opcode: LL_CONNECTION_UPDATE_REQ.
pub const LL_CONTROL_CONNECTION_UPDATE_REQ: u8 = 0x00;

/// LL Control PDU opcode: LL_TERMINATE_IND.
pub const LL_CONTROL_TERMINATE_IND: u8 = 0x02;

/// LL Control PDU opcode: LL_ENC_REQ.
pub const LL_CONTROL_ENCRYPT_REQ: u8 = 0x03;

/// LL Control PDU opcode: LL_ENC_RSP.
pub const LL_CONTROL_ENCRYPT_RSP: u8 = 0x04;

/// LL Control PDU opcode: LL_START_ENC_REQ.
pub const LL_CONTROL_START_ENC_REQ: u8 = 0x05;

/// LL Control PDU opcode: LL_START_ENC_RSP.
pub const LL_CONTROL_START_ENC_RSP: u8 = 0x06;

/// LL Control PDU opcode: LL_UNKNOWN_RSP.
pub const LL_CONTROL_UNKNOWN_RSP: u8 = 0x07;

/// LL Control PDU opcode: LL_FEATURE_REQ.
pub const LL_CONTROL_FEATURE_REQ: u8 = 0x08;

/// LL Control PDU opcode: LL_FEATURE_RSP.
pub const LL_CONTROL_FEATURE_RSP: u8 = 0x09;

/// LL Control PDU opcode: LL_VERSION_IND.
pub const LL_CONTROL_VERSION_IND: u8 = 0x0C;

/// LL Control PDU opcode: LL_PING_REQ.
pub const LL_CONTROL_PING_REQ: u8 = 0x12;

/// LL Control PDU opcode: LL_PING_RSP.
pub const LL_CONTROL_PING_RSP: u8 = 0x13;

/// LL Control PDU opcode: LL_LENGTH_REQ.
pub const LL_CONTROL_LENGTH_REQ: u8 = 0x14;

/// LL Control PDU opcode: LL_LENGTH_RSP.
pub const LL_CONTROL_LENGTH_RSP: u8 = 0x15;

/// LL Control PDU opcode: LL_PHY_REQ.
pub const LL_CONTROL_PHY_REQ: u8 = 0x16;

/// LL Control PDU opcode: LL_PHY_RSP.
pub const LL_CONTROL_PHY_RSP: u8 = 0x17;

/// L2CAP channel ID for the ATT protocol.
pub const L2CAP_ATT_CID: u16 = 0x0004;

/// L2CAP channel ID for LE signaling.
pub const L2CAP_SIGNALING_CID: u16 = 0x0005;

/// L2CAP channel ID for SMP.
pub const L2CAP_SMP_CID_LOCAL: u16 = 0x0006;

/// LE signaling: credit-based connection request.
pub const LE_CREDIT_BASED_CONNECTION_REQ: u8 = 0x14;

/// LE signaling: credit-based connection response.
pub const LE_CREDIT_BASED_CONNECTION_RSP: u8 = 0x15;

/// LE signaling: flow control credit.
pub const LE_FLOW_CONTROL_CREDIT: u8 = 0x16;

/// LE signaling: disconnection of a credit-based channel.
pub const LE_CREDIT_BASED_CONNECTION_END: u8 = 0x17;

/// Local source CID used for our connection-oriented channels.
pub const COC_LOCAL_CID: u16 = 0x0040;

/// Credits granted to the peer when a channel opens.
pub const COC_CREDITS: u16 = 8;

/// Channel MTU (SDU size) offered for connection-oriented channels.
pub const COC_MTU: u16 = 247;

/// Maximum PDU payload size offered for connection-oriented channels.
pub const COC_MPS: u16 = 251;

/// ATT MTU of the server.
pub const ATT_MTU_DEFAULT: usize = 23;

/// Maximum supported ATT MTU.
pub const ATT_MTU_MAX: usize = 247;

/// Maximum ATT payload (MTU minus ATT header).
pub const ATT_PAYLOAD_MAX: usize = 244;

/// Maximum L2CAP payload (ATT + 4-byte L2CAP header).
pub const L2CAP_PAYLOAD_MAX: usize = 251;

/// Default maximum LL data PDU payload before DLE.
pub const LL_PDU_PAYLOAD_DEFAULT: usize = 27;

/// Maximum LL data PDU payload after DLE.
pub const LL_PDU_PAYLOAD_MAX: usize = 251;

/// GATT attribute type: primary service declaration.
pub const GATT_UUID_PRIMARY_SERVICE: u16 = 0x2800;

/// GATT attribute type: characteristic declaration.
pub const GATT_UUID_CHARACTERISTIC: u16 = 0x2803;

/// GATT attribute type: client characteristic configuration.
pub const GATT_UUID_CLIENT_CHAR_CFG: u16 = 0x2902;

/// Nordic UART Service UUID (little endian).
pub const NUS_SERVICE_UUID: [u8; 16] = [
    0x9E, 0xCA, 0xDC, 0x24, 0x0E, 0xE5, 0xA9, 0xE0, 0x93, 0xF3, 0xA3, 0xB5, 0x01, 0x00, 0x40, 0x6E,
];

/// NUS TX characteristic UUID (little endian).
pub const NUS_TX_CHAR_UUID: [u8; 16] = [
    0x9E, 0xCA, 0xDC, 0x24, 0x0E, 0xE5, 0xA9, 0xE0, 0x93, 0xF3, 0xA3, 0xB5, 0x03, 0x00, 0x40, 0x6E,
];

/// NUS RX characteristic UUID (little endian).
pub const NUS_RX_CHAR_UUID: [u8; 16] = [
    0x9E, 0xCA, 0xDC, 0x24, 0x0E, 0xE5, 0xA9, 0xE0, 0x93, 0xF3, 0xA3, 0xB5, 0x02, 0x00, 0x40, 0x6E,
];

/// Handle of the NUS primary service declaration.
pub const HANDLE_PRIMARY_SERVICE: u16 = 0x0001;

/// Handle of the RX characteristic declaration.
pub const HANDLE_RX_CHAR_DECL: u16 = 0x0002;

/// Handle of the RX characteristic value.
pub const HANDLE_RX_VALUE: u16 = 0x0003;

/// Handle of the TX characteristic declaration.
pub const HANDLE_TX_CHAR_DECL: u16 = 0x0004;

/// Handle of the TX characteristic value.
pub const HANDLE_TX_VALUE: u16 = 0x0005;

/// Handle of the TX client characteristic configuration descriptor.
pub const HANDLE_TX_CCCD: u16 = 0x0006;

/// A stored bond: the LTK (and optional IRK) for a peer address.
#[derive(Debug, Clone, Copy, PartialEq, Eq)]
pub struct BondInfo {
    /// Peer address.
    pub addr: [u8; 6],
    /// Long term key.
    pub ltk: [u8; 16],
    /// Optional identity resolving key.
    pub irk: Option<[u8; 16]>,
}

/// Persistent storage for bonds (LTK/IRK per peer address).
pub trait BondStore {
    /// Store or replace the bond for a peer address.
    fn save(&mut self, peer: [u8; 6], ltk: [u8; 16], irk: Option<[u8; 16]>);

    /// Look up a bond by peer address.
    fn find(&self, peer: &[u8; 6]) -> Option<BondInfo>;
}

/// A slot holds a bond for `peer`.
pub open spec fn holds_peer(slot: Option<BondInfo>, peer: Seq<u8>) -> bool {
    slot matches Some(b) && b.addr@ == peer
}

/// The first stored bond for `peer`.
pub open spec fn bond_find_spec(slots: Seq<Option<BondInfo>>, peer: Seq<u8>) -> Option<BondInfo>
    decreases slots.len(),
{
    if slots.len() == 0 {
        None
    } else if holds_peer(slots[0], peer) {
        slots[0]
    } else {
        bond_find_spec(slots.drop_first(), peer)
    }
}

/// Index of the first slot holding a bond for `peer`, if any.
pub open spec fn first_peer_slot(slots: Seq<Option<BondInfo>>, peer: Seq<u8>, i: int) -> bool {
    &&& 0 <= i < slots.len()
    &&& holds_peer(slots[i], peer)
    &&& forall|j: int| 0 <= j < i ==> !#[trigger] holds_peer(slots[j], peer)
}

/// Index of the first empty slot, if any.
pub open spec fn first_free_slot(slots: Seq<Option<BondInfo>>, i: int) -> bool {
    &&& 0 <= i < slots.len()
    &&& slots[i] is None
    &&& forall|j: int| 0 <= j < i ==> slots[j] is Some
}

/// Slots after saving `info`: it replaces the first bond of the same peer,
/// or fills the first empty slot, or (all slots held by other peers) is
/// dropped.
pub open spec fn bond_save_spec(slots: Seq<Option<BondInfo>>, info: BondInfo) -> Seq<
    Option<BondInfo>,
> {
    if exists|i: int| first_peer_slot(slots, info.addr@, i) {
        slots.update(choose|i: int| first_peer_slot(slots, info.addr@, i), Some(info))
    } else if exists|i: int| first_free_slot(slots, i) {
        slots.update(choose|i: int| first_free_slot(slots, i), Some(info))
    } else {
        slots
    }
}

proof fn lemma_bond_find_first(slots: Seq<Option<BondInfo>>, peer: Seq<u8>, i: int)
    requires
        first_peer_slot(slots, peer, i),
    ensures
        bond_find_spec(slots, peer) == slots[i],
    decreases slots.len(),
{
    if i > 0 {
        assert(!holds_peer(slots[0], peer));
        let rest = slots.drop_first();
        assert forall|j: int| 0 <= j < i - 1 implies !#[trigger] holds_peer(rest[j], peer) by {
            assert(rest[j] == slots[j + 1]);
        }
        lemma_bond_find_first(rest, peer, i - 1);
    }
}

proof fn lemma_bond_find_none(slots: Seq<Option<BondInfo>>, peer: Seq<u8>)
    requires
        forall|j: int| 0 <= j < slots.len() ==> !#[trigger] holds_peer(slots[j], peer),
    ensures
        bond_find_spec(slots, peer) is None,
    decreases slots.len(),
{
    if slots.len() > 0 {
        let rest = slots.drop_first();
        assert forall|j: int| 0 <= j < rest.len() implies !#[trigger] holds_peer(rest[j], peer) by {
            assert(rest[j] == slots[j + 1]);
        }
        lemma_bond_find_none(rest, peer);
    }
}

/// Look up `peer` in bond slots.
pub fn bond_slots_find(slots: &[Option<BondInfo>; 8], peer: &[u8; 6]) -> (r: Option<BondInfo>)
    ensures
        r == bond_find_spec(slots@, peer@),
{
    let mut i: usize = 0;
    while i < 8
        invariant
            i <= 8,
            forall|j: int| 0 <= j < i ==> !#[trigger] holds_peer(slots@[j], peer@),
        decreases 8 - i,
    {
        if let Some(b) = slots[i] {
            if crate::bytes::bytes_eq(b.addr.as_slice(), peer.as_slice()) {
                proof {
                    lemma_bond_find_first(slots@, peer@, i as int);
                }
                return Some(b);
            }
        }
        i += 1;
    }
    proof {
        lemma_bond_find_none(slots@, peer@);
    }
    None
}

/// Save a bond into bond slots; true when a slot was written.
pub fn bond_slots_save(slots: &mut [Option<BondInfo>; 8], info: BondInfo) -> (written: bool)
    ensures
        final(slots)@ == bond_save_spec(old(slots)@, info),
        written == ((exists|i: int| first_peer_slot(old(slots)@, info.addr@, i)) || (exists|i: int|
            first_free_slot(old(slots)@, i))),
{
    let mut i: usize = 0;
    while i < 8
        invariant
            i <= 8,
            *slots == *old(slots),
            forall|j: int| 0 <= j < i ==> !#[trigger] holds_peer(slots@[j], info.addr@),
        decreases 8 - i,
    {
        if let Some(b) = slots[i] {
            if crate::bytes::bytes_eq(b.addr.as_slice(), info.addr.as_slice()) {
                proof {
                    assert(first_peer_slot(old(slots)@, info.addr@, i as int));
                    let k = choose|k: int| first_peer_slot(old(slots)@, info.addr@, k);
                    assert(k == i) by {
                        if k < i {
                        } else if k > i {
                        }
                    }
                }
                slots[i] = Some(info);
                return true;
            }
        }
        i += 1;
    }
    assert(!exists|k: int| first_peer_slot(old(slots)@, info.addr@, k));
    let mut j: usize = 0;
    while j < 8
        invariant
            j <= 8,
            *slots == *old(slots),
            !exists|k: int| first_peer_slot(old(slots)@, info.addr@, k),
            forall|k: int| 0 <= k < j ==> slots@[k] is Some,
        decreases 8 - j,
    {
        if slots[j].is_none() {
            proof {
                assert(first_free_slot(old(slots)@, j as int));
                let k = choose|k: int| first_free_slot(old(slots)@, k);
                assert(k == j) by {
                    if k < j {
                    } else if k > j {
                    }
                }
            }
            slots[j] = Some(info);
            return true;
        }
        j += 1;
    }
    assert(!exists|k: int| first_free_slot(old(slots)@, k));
    false
}

/// After saving a bond, looking up its peer finds it, unless every slot
/// already held another peer's bond.
pub proof fn lemma_bond_save_find(slots: Seq<Option<BondInfo>>, info: BondInfo)
    requires
        exists|i: int|
            0 <= i < slots.len() && (#[trigger] slots[i] is None || holds_peer(slots[i], info.addr@)),
    ensures
        bond_find_spec(bond_save_spec(slots, info), info.addr@) == Some(info),
{
    let peer = info.addr@;
    if exists|i: int| first_peer_slot(slots, peer, i) {
        let i = choose|i: int| first_peer_slot(slots, peer, i);
        let s2 = slots.update(i, Some(info));
        assert(first_peer_slot(s2, peer, i));
        lemma_bond_find_first(s2, peer, i);
    } else {
        let w = choose|i: int|
            0 <= i < slots.len() && (#[trigger] slots[i] is None || holds_peer(slots[i], peer));
        assert(slots[w] is None) by {
            if slots[w] is Some {
                lemma_first_exists(slots, peer, w);
            }
        }
        lemma_first_free_exists(slots, w);
        let i = choose|i: int| first_free_slot(slots, i);
        let s2 = slots.update(i, Some(info));
        assert forall|j: int| 0 <= j < i implies !#[trigger] holds_peer(s2[j], peer) by {
            if holds_peer(s2[j], peer) {
                lemma_first_exists(slots, peer, j);
            }
        }
        assert(first_peer_slot(s2, peer, i));
        lemma_bond_find_first(s2, peer, i);
    }
}

proof fn lemma_first_exists(slots: Seq<Option<BondInfo>>, peer: Seq<u8>, w: int)
    requires
        0 <= w < slots.len(),
        holds_peer(slots[w], peer),
    ensures
        exists|i: int| first_peer_slot(slots, peer, i),
    decreases w,
{
    if exists|j: int| 0 <= j < w && #[trigger] holds_peer(slots[j], peer) {
        let j = choose|j: int| 0 <= j < w && #[trigger] holds_peer(slots[j], peer);
        lemma_first_exists(slots, peer, j);
    } else {
        assert(first_peer_slot(slots, peer, w));
    }
}

proof fn lemma_first_free_exists(slots: Seq<Option<BondInfo>>, w: int)
    requires
        0 <= w < slots.len(),
        slots[w] is None,
    ensures
        exists|i: int| first_free_slot(slots, i),
    decreases w,
{
    if exists|j: int| 0 <= j < w && #[trigger] slots[j] is None {
        let j = choose|j: int| 0 <= j < w && #[trigger] slots[j] is None;
        lemma_first_free_exists(slots, j);
    } else {
        assert(first_free_slot(slots, w));
    }
}

/// Default in-RAM bond store (max 8 bonds).
#[derive(Debug, Clone, Copy)]
pub struct RamBondStore {
    /// Bond slots.
    pub bonds: [Option<BondInfo>; 8],
}

impl Default for RamBondStore {
    fn default() -> (r: Self)
        ensures
            forall|i: int| 0 <= i < 8 ==> r.bonds@[i] is None,
    {
        Self::new()
    }
}

impl RamBondStore {
    /// Create an empty bond store.
    pub fn new() -> (r: Self)
        ensures
            forall|i: int| 0 <= i < 8 ==> r.bonds@[i] is None,
    {
        RamBondStore { bonds: [None; 8] }
    }
}

impl BondStore for RamBondStore {
    fn save(&mut self, peer: [u8; 6], ltk: [u8; 16], irk: Option<[u8; 16]>)
        ensures
            final(self).bonds@ == bond_save_spec(
                old(self).bonds@,
                (BondInfo { addr: peer, ltk, irk }),
            ),
    {
        let info = BondInfo { addr: peer, ltk, irk };
        bond_slots_save(&mut self.bonds, info);
    }

    fn find(&self, peer: &[u8; 6]) -> (r: Option<BondInfo>)
        ensures
            r == bond_find_spec(self.bonds@, peer@),
    {
        bond_slots_find(&self.bonds, peer)
    }
}


/// A credit-based connection-oriented L2CAP channel.
#[derive(Debug, Clone, Copy, PartialEq, Eq)]
pub struct Coc {
    /// Peer PSM.
    pub psm: u16,
    /// Local channel ID.
    pub local_cid: u16,
    /// Peer channel ID.
    pub peer_cid: u16,
    /// Credits we can use to send.
    pub credits: u16,
    /// Credits the peer has granted.
    pub peer_credits: u16,
    /// Channel MTU (SDU size).
    pub mtu: u16,
    /// Maximum PDU payload size.
    pub mps: u16,
    /// RX SDU buffer.
    pub rx_sdu: [u8; 256],
    /// RX SDU length so far.
    pub rx_sdu_len: usize,
    /// Expected SDU length.
    pub rx_sdu_total: usize,
    /// SDU being sent.
    pub tx_sdu: [u8; 256],
    /// Length of the SDU being sent.
    pub tx_sdu_len: usize,
    /// Bytes of the SDU already sent.
    pub tx_sdu_offset: usize,
}

impl Coc {
    /// A closed channel for `psm` with our default parameters.
    pub fn new(psm: u16) -> (c: Coc)
        ensures
            c.psm == psm,
            c.local_cid == COC_LOCAL_CID,
            c.peer_cid == 0,
            c.credits == 0,
            c.peer_credits == 0,
            c.mtu == COC_MTU,
            c.mps == COC_MPS,
            c.rx_sdu_len == 0,
            c.rx_sdu_total == 0,
            c.tx_sdu_len == 0,
            c.tx_sdu_offset == 0,
            c.rx_sdu@ == Seq::new(256, |i: int| 0u8),
            c.tx_sdu@ == Seq::new(256, |i: int| 0u8),
    {
        let c = Coc {
            psm,
            local_cid: COC_LOCAL_CID,
            peer_cid: 0,
            credits: 0,
            peer_credits: 0,
            mtu: COC_MTU,
            mps: COC_MPS,
            rx_sdu: [0; 256],
            rx_sdu_len: 0,
            rx_sdu_total: 0,
            tx_sdu: [0; 256],
            tx_sdu_len: 0,
            tx_sdu_offset: 0,
        };
        assert(c.rx_sdu@ =~= Seq::new(256, |i: int| 0u8));
        assert(c.tx_sdu@ =~= Seq::new(256, |i: int| 0u8));
        c
    }
}

/// Role in the connection.
#[derive(Debug, Clone, Copy, PartialEq, Eq, Structural)]
pub enum ConnRole {
    /// We initiated the connection.
    Master,
    /// We are the advertiser that accepted the connection.
    Slave,
}

/// Why a connection ended.
#[derive(Debug, Clone, Copy, PartialEq, Eq, Structural)]
pub enum DisconnectReason {
    /// The peer sent LL_TERMINATE_IND.
    RemoteTerminate,
    /// We sent LL_TERMINATE_IND.
    HostTerminate,
    /// No packets within the supervision timeout.
    SupervisionTimeout,
    /// Internal error.
    LocalError,
}

/// Outcome of one connection event.
#[derive(Debug, Clone, Copy, PartialEq, Eq, Structural)]
pub enum ConnEvent {
    /// Nothing to report.
    Idle,
    /// The peer wrote data (see `rx_data`).
    Data,
    /// The peer sent an LL control PDU (opcode).
    Control(u8),
    /// The peer sent an L2CAP PDU on a non-ATT channel.
    L2cap(u16),
    /// The link ended.
    Disconnected(DisconnectReason),
}

/// Data channel `ch` is marked used in the channel map.
pub open spec fn channel_used(map: Seq<u8>, ch: int) -> bool {
    map[ch / 8] & (1u8 << ((ch % 8) as u8)) != 0
}

/// Forward distance from data channel `from` to data channel `to` (mod 37).
pub open spec fn dist37(from: int, to: int) -> int {
    if to >= from {
        to - from
    } else {
        to - from + 37
    }
}

/// The data channel `k` channels after `from` (mod 37).
pub open spec fn add37(from: int, k: int) -> int {
    if from + k < 37 {
        from + k
    } else {
        from + k - 37
    }
}

/// Next data channel: advance by `hop` (mod 37), then move forward to the
/// first channel marked used in `map`; when the map marks none, the
/// unmapped channel is kept.
pub fn next_channel(current: u8, hop: u8, map: &[u8; 5]) -> (ch: u8)
    requires
        current + hop <= u8::MAX,
    ensures
        ch < 37,
        forall|k: int|
            0 <= k < dist37((current + hop) % 37, ch as int) ==> !#[trigger] channel_used(
                map@,
                add37((current + hop) % 37, k),
            ),
        channel_used(map@, ch as int) || (ch == (current + hop) % 37 && forall|c: int|
            0 <= c < 37 ==> !#[trigger] channel_used(map@, c)),
{
    let start = (current + hop) % 37;
    let mut ch = start;
    let mut guard: u8 = 0;
    while (map[(ch / 8) as usize] & (1u8 << (ch % 8))) == 0 && guard < 37
        invariant
            start < 37,
            ch < 37,
            guard <= 37,
            ch as int == if guard == 37 {
                start as int
            } else {
                add37(start as int, guard as int)
            },
            forall|k: int| 0 <= k < guard ==> !#[trigger] channel_used(map@, add37(start as int, k)),
        decreases 37 - guard,
    {
        ch = (ch + 1) % 37;
        guard += 1;
    }
    proof {
        if guard == 37 {
            assert forall|c: int| 0 <= c < 37 implies !#[trigger] channel_used(map@, c) by {
                let k = dist37(start as int, c);
                assert(add37(start as int, k) == c);
            }
        } else {
            assert(dist37(start as int, ch as int) == guard);
        }
    }
    ch
}

/// A GATT attribute type: 16-bit SIG UUID or full 128-bit UUID.
#[derive(Debug, Clone, Copy)]
pub enum GattUuid {
    /// Short SIG-assigned UUID.
    Uuid16(u16),
    /// Full UUID (little endian).
    Uuid128([u8; 16]),
}

impl GattUuid {
    /// The short form, when the UUID has one.
    pub fn as_u16(&self) -> (r: Option<u16>)
        ensures
            r == match *self {
                GattUuid::Uuid16(u) => Some(u),
                _ => None::<u16>,
            },
    {
        match self {
            GattUuid::Uuid16(u) => Some(*u),
            _ => None,
        }
    }

    /// The full form of a 128-bit UUID (all zero for a short one).
    pub fn to_128(self) -> (r: [u8; 16])
        ensures
            match self {
                GattUuid::Uuid128(u) => r == u,
                _ => r@ == Seq::new(16, |i: int| 0u8),
            },
    {
        match self {
            GattUuid::Uuid128(u) => u,
            _ => {
                let z = [0u8; 16];
                assert(z@ =~= Seq::new(16, |i: int| 0u8));
                z
            },
        }
    }
}

/// One connection's protocol state (peripheral or central role).
pub struct Conn {
    /// Our role.
    pub role: ConnRole,
    /// Connection access address.
    pub access_addr: u32,
    /// Connection CRC initial value.
    pub crc_init: u32,
    /// Connection interval in 1.25 ms units.
    pub interval: u16,
    /// Supervision timeout in 10 ms units.
    pub timeout: u16,
    /// Data channel map.
    pub channel_map: [u8; 5],
    /// Hop increment.
    pub hop: u8,
    /// Current data channel.
    pub channel: u8,
    /// Our sequence number.
    pub sn: bool,
    /// Next expected sequence number.
    pub nesn: bool,
    /// Anchor point of the current connection event (timer ticks).
    pub anchor: u32,
    /// Interval tick accumulator.
    pub accum: IntervalAccum,
    /// L2CAP reassembly buffer.
    pub rx_l2cap: [u8; 256],
    /// Bytes reassembled so far.
    pub rx_l2cap_len: usize,
    /// Announced L2CAP PDU length.
    pub rx_l2cap_msg_len: usize,
    /// Channel of the PDU being reassembled.
    pub rx_l2cap_cid: u16,
    /// Outgoing L2CAP payload.
    pub tx_att: [u8; 251],
    /// Outgoing L2CAP payload length.
    pub tx_att_len: usize,
    /// Bytes of the outgoing payload already fragmented.
    pub tx_frag_offset: usize,
    /// An outgoing payload is queued.
    pub tx_pending: bool,
    /// Channel of the outgoing payload.
    pub tx_cid: u16,
    /// Negotiated ATT MTU.
    pub att_mtu: u16,
    /// Maximum LL payload we may send.
    pub tx_pdu_max: usize,
    /// Maximum LL payload we accept.
    pub rx_pdu_max: usize,
    /// Open connection-oriented channel.
    pub coc: Option<Coc>,
    /// Bonds.
    pub bond_store: RamBondStore,
    /// The peer's version has been exchanged.
    pub peer_version_ok: bool,
    /// Time of the last received packet (timer ticks).
    pub last_rx: u32,
    /// Termination requested by the host.
    pub terminate_pending: bool,
    /// NUS TX CCCD value.
    pub nus_cccd: u8,
    /// Data received from the peer.
    pub rx_data: [u8; 244],
    /// Length of `rx_data`.
    pub rx_data_len: usize,
    /// Outgoing LL packet.
    pub tx_buf: [u8; 64],
    /// Incoming LL packet.
    pub rx_buf: [u8; 64],
    /// Connection event counter.
    pub event_counter: u16,
    /// Pending connection update (interval, timeout).
    pub pending_update: Option<(u16, u16)>,
    /// Event counter at which the update applies.
    pub pending_update_instant: u16,
    /// A GATT client request awaits its response.
    pub pending_request: bool,
    /// Pairing state.
    pub smp: Smp,
    /// Link encryption active.
    pub encrypted: bool,
    /// Packet counter for the CCM nonce.
    pub packet_counter: u64,
    /// Encryption requested.
    pub want_encrypt: bool,
    /// Pairing in progress.
    pub pairing_in_progress: bool,
    /// LL control PDU to send at the next opportunity.
    pub pending_control: Option<[u8; 19]>,
    /// Last GATT client response.
    pub gatt_result: [u8; 64],
    /// Length of `gatt_result`.
    pub gatt_result_len: usize,
}

/// `c` is a connection just started from CONNECT_REQ parameters `params`
/// on `first_channel` at time `now` in role `role`.
pub open spec fn conn_fresh(c: Conn, params: ConnectReqData, first_channel: u8, now: u32, role: ConnRole) -> bool {
    &&& c.wf()
    &&& c.role == role
    &&& c.access_addr == params.access_addr
    &&& c.crc_init == params.crc_init
    &&& c.interval == params.interval
    &&& c.timeout == params.timeout
    &&& c.channel_map == params.channel_map
    &&& c.hop == params.hop
    &&& c.channel == first_channel
    &&& !c.sn && !c.nesn
    &&& c.anchor == if role == ConnRole::Master {
        now.wrapping_add(7)
    } else {
        now
    }
    &&& c.accum@ == (1250nat, 0nat)
    &&& c.rx_l2cap_len == 0
    &&& c.rx_l2cap_cid == L2CAP_ATT_CID
    &&& c.tx_att_len == 0
    &&& c.tx_frag_offset == 0
    &&& !c.tx_pending
    &&& c.tx_cid == L2CAP_ATT_CID
    &&& c.att_mtu == ATT_MTU_DEFAULT
    &&& c.tx_pdu_max == LL_PDU_PAYLOAD_DEFAULT
    &&& c.rx_pdu_max == LL_PDU_PAYLOAD_DEFAULT
    &&& c.coc is None
    &&& forall|i: int| 0 <= i < 8 ==> c.bond_store.bonds@[i] is None
    &&& !c.peer_version_ok
    &&& c.last_rx == now
    &&& !c.terminate_pending
    &&& c.nus_cccd == 0
    &&& c.rx_data_len == 0
    &&& c.event_counter == 0
    &&& c.pending_update is None
    &&& !c.pending_request
    &&& c.smp.state == crate::hw::smp::SmpState::Idle
    &&& !c.encrypted
    &&& c.packet_counter == 0
    &&& !c.want_encrypt
    &&& !c.pairing_in_progress
    &&& c.pending_control is None
    &&& c.gatt_result_len == 0
}

impl Conn {
    /// Buffer lengths and offsets are within their buffers.
    pub open spec fn wf(&self) -> bool {
        &&& self.tx_att_len <= L2CAP_PAYLOAD_MAX
        &&& self.rx_l2cap_len <= 256
        &&& self.rx_data_len <= ATT_PAYLOAD_MAX
        &&& self.gatt_result_len <= 64
        &&& self.tx_pdu_max <= LL_PDU_PAYLOAD_MAX
        &&& self.rx_pdu_max <= LL_PDU_PAYLOAD_MAX
        &&& self.coc matches Some(c) ==> c.rx_sdu_len <= 256
    }

    /// Start a connection from CONNECT_REQ parameters. The central's first
    /// anchor is 200 us after `now`; the peripheral's is `now`.
    pub fn new(params: &ConnectReqData, first_channel: u8, now: u32, role: ConnRole) -> (c: Conn)
        ensures
            conn_fresh(c, *params, first_channel, now, role),
    {
        let anchor = match role {
            ConnRole::Master => now.wrapping_add(timeout_ticks(200)),
            ConnRole::Slave => now,
        };
        Conn {
            role,
            access_addr: params.access_addr,
            crc_init: params.crc_init,
            interval: params.interval,
            timeout: params.timeout,
            channel_map: params.channel_map,
            hop: params.hop,
            channel: first_channel,
            sn: false,
            nesn: false,
            anchor,
            accum: IntervalAccum::new_125ms(),
            rx_l2cap: [0; 256],
            rx_l2cap_len: 0,
            rx_l2cap_msg_len: 0,
            rx_l2cap_cid: L2CAP_ATT_CID,
            tx_att: [0; 251],
            tx_att_len: 0,
            tx_frag_offset: 0,
            tx_pending: false,
            tx_cid: L2CAP_ATT_CID,
            att_mtu: ATT_MTU_DEFAULT as u16,
            tx_pdu_max: LL_PDU_PAYLOAD_DEFAULT,
            rx_pdu_max: LL_PDU_PAYLOAD_DEFAULT,
            coc: None,
            bond_store: RamBondStore::new(),
            peer_version_ok: false,
            last_rx: now,
            terminate_pending: false,
            nus_cccd: 0,
            rx_data: [0; 244],
            rx_data_len: 0,
            tx_buf: [0; 64],
            rx_buf: [0; 64],
            event_counter: 0,
            pending_update: None,
            pending_update_instant: 0,
            pending_request: false,
            smp: Smp::new(),
            encrypted: false,
            packet_counter: 0,
            want_encrypt: false,
            pairing_in_progress: false,
            pending_control: None,
            gatt_result: [0; 64],
            gatt_result_len: 0,
        }
    }

    /// Queue a notification of the NUS TX value carrying `data` (cut to the
    /// maximum ATT payload).
    pub fn queue_notify(&mut self, data: &[u8]) -> (r: Result<(), Error>)
        requires
            old(self).wf(),
        ensures
            r is Ok,
            final(self).wf(),
            final(self).tx_att@ == splice(
                old(self).tx_att@,
                0,
                seq![0x1Bu8] + le16(HANDLE_TX_VALUE) + data@.take(
                    if data@.len() < 244 {
                        data@.len() as int
                    } else {
                        244
                    },
                ),
            ),
            final(self).tx_att_len == 3 + if data@.len() < 244 {
                data@.len() as int
            } else {
                244
            },
            *final(self) == (Conn {
                tx_att: final(self).tx_att,
                tx_att_len: final(self).tx_att_len,
                tx_pending: true,
                ..*old(self)
            }),
    {
        let len = if data.len() < ATT_PAYLOAD_MAX {
            data.len()
        } else {
            ATT_PAYLOAD_MAX
        };
        let ghost cut = data@.take(len as int);
        self.tx_att[0] = 0x1B;
        self.tx_att[1] = HANDLE_TX_VALUE as u8;
        self.tx_att[2] = (HANDLE_TX_VALUE >> 8) as u8;
        let head = &data[0..len];
        copy_into(&mut self.tx_att, 3, head);
        self.tx_att_len = 3 + len;
        self.tx_pending = true;
        assert(self.tx_att@ =~= splice(
            old(self).tx_att@,
            0,
            seq![0x1Bu8] + le16(HANDLE_TX_VALUE) + cut,
        ));
        Ok(())
    }

    /// Request termination at the next connection event.
    pub fn terminate(&mut self)
        ensures
            *final(self) == (Conn { terminate_pending: true, ..*old(self) }),
    {
        self.terminate_pending = true;
    }
}


/// `msg` cut to at most `cap` bytes.
pub open spec fn cut(msg: Seq<u8>, cap: int) -> Seq<u8> {
    msg.take(if msg.len() < cap { msg.len() as int } else { cap })
}

/// The LL payload room of the next fragment (the first one also carries the
/// 4-byte L2CAP header).
pub open spec fn frag_room(c: Conn) -> int {
    if c.tx_frag_offset == 0 {
        if c.tx_pdu_max >= 4 {
            c.tx_pdu_max - 4
        } else {
            0
        }
    } else {
        c.tx_pdu_max as int
    }
}

/// Number of L2CAP payload bytes in the next fragment.
pub open spec fn frag_chunk(c: Conn) -> int {
    let remaining = c.tx_att_len - c.tx_frag_offset;
    if remaining < frag_room(c) {
        remaining
    } else {
        frag_room(c)
    }
}

/// LLID of the next fragment.
pub open spec fn frag_llid(c: Conn) -> u8 {
    if c.tx_frag_offset == 0 && frag_chunk(c) == c.tx_att_len {
        LLID_DATA_COMPLETE
    } else if c.tx_frag_offset == 0 {
        LLID_DATA_START
    } else {
        LLID_DATA_CONTINUATION_OR_COMPLETE
    }
}

/// LL payload length of the next fragment.
pub open spec fn frag_payload_len(c: Conn) -> int {
    if c.tx_frag_offset == 0 {
        4 + frag_chunk(c)
    } else {
        frag_chunk(c)
    }
}

/// The next fragment: LL header, the L2CAP header on the first fragment,
/// then the payload bytes.
pub open spec fn frag_bytes(c: Conn) -> Seq<u8> {
    seq![
        crate::ll::pdu::data_hdr0(frag_llid(c), !c.nesn, c.sn, false),
        frag_payload_len(c) as u8,
    ] + (if c.tx_frag_offset == 0 {
        le16(c.tx_att_len as u16) + le16(c.tx_cid)
    } else {
        Seq::<u8>::empty()
    }) + c.tx_att@.subrange(c.tx_frag_offset as int, c.tx_frag_offset + frag_chunk(c))
}

/// The connection after its next fragment went out (see
/// [`Conn::tx_fragment`]): the fragment offset advanced, or reset and the
/// frame done after its last fragment.
pub open spec fn frag_advance(c: Conn) -> Conn {
    let end = c.tx_frag_offset + frag_chunk(c);
    Conn {
        tx_frag_offset: if end >= c.tx_att_len {
            0
        } else {
            end as usize
        },
        tx_pending: c.tx_pending && end < c.tx_att_len,
        ..c
    }
}

/// The LL payloads of the fragments sent from `c` on, concatenated (at
/// most `steps` fragments, until the frame is done).
pub open spec fn frag_stream(c: Conn, steps: nat) -> Seq<u8>
    decreases steps,
{
    if steps == 0 || !c.tx_pending {
        Seq::empty()
    } else {
        frag_bytes(c).skip(2) + frag_stream(frag_advance(c), (steps - 1) as nat)
    }
}

proof fn lemma_frag_stream_rest(c: Conn, steps: nat)
    requires
        c.wf(),
        c.tx_pending,
        0 < c.tx_frag_offset < c.tx_att_len,
        c.tx_pdu_max >= 1,
        steps >= c.tx_att_len - c.tx_frag_offset,
    ensures
        frag_stream(c, steps) == c.tx_att@.subrange(c.tx_frag_offset as int, c.tx_att_len as int),
    decreases c.tx_att_len - c.tx_frag_offset,
{
    let o = c.tx_frag_offset as int;
    let k = frag_chunk(c);
    let d = frag_advance(c);
    assert(frag_bytes(c).skip(2) =~= c.tx_att@.subrange(o, o + k));
    if o + k >= c.tx_att_len {
        assert(frag_stream(d, (steps - 1) as nat) =~= Seq::<u8>::empty());
    } else {
        lemma_frag_stream_rest(d, (steps - 1) as nat);
    }
    assert(c.tx_att@.subrange(o, o + k) + (if o + k >= c.tx_att_len {
        Seq::<u8>::empty()
    } else {
        c.tx_att@.subrange(o + k, c.tx_att_len as int)
    }) =~= c.tx_att@.subrange(o, c.tx_att_len as int));
}

/// A queued L2CAP frame goes out whole: the fragments sent from its start
/// carry, in order, its 4-byte header (length and channel) and then its
/// payload, and there are at most `tx_att_len + 1` of them. (The first
/// fragment must have room for a payload byte after the header.)
pub proof fn lemma_fragments_carry_frame(c: Conn)
    requires
        c.wf(),
        c.tx_pending,
        c.tx_frag_offset == 0,
        c.tx_pdu_max >= 5,
    ensures
        frag_stream(c, (c.tx_att_len + 1) as nat) == le16(c.tx_att_len as u16) + le16(c.tx_cid)
            + c.tx_att@.take(c.tx_att_len as int),
{
    let n = c.tx_att_len as int;
    let k = frag_chunk(c);
    let d = frag_advance(c);
    let hdr = le16(c.tx_att_len as u16) + le16(c.tx_cid);
    assert(frag_bytes(c).skip(2) =~= hdr + c.tx_att@.subrange(0, k));
    if k >= n {
        assert(frag_stream(d, n as nat) =~= Seq::<u8>::empty());
        assert(c.tx_att@.subrange(0, k) =~= c.tx_att@.take(n));
    } else {
        lemma_frag_stream_rest(d, n as nat);
        assert(c.tx_att@.subrange(0, k) + c.tx_att@.subrange(k, n) =~= c.tx_att@.take(n));
    }
}

/// The next fragment fits the 64-byte LL buffer.
pub open spec fn frag_fits(c: Conn) -> bool {
    &&& c.tx_frag_offset <= c.tx_att_len
    &&& 2 + frag_payload_len(c) <= 64
}

/// The last entry's handle of a discovery response whose second byte is
/// the entry width.
pub open spec fn last_handle_spec(buf: Seq<u8>) -> Option<u16> {
    if buf.len() < 2 || buf[1] < 2 || (buf.len() - 2) / (buf[1] as int) == 0 {
        None
    } else {
        let pos = 2 + ((buf.len() - 2) / (buf[1] as int) - 1) * buf[1];
        Some(u16_le(buf[pos], buf[pos + 1]))
    }
}

/// First LL data header byte (MD clear).
pub fn header_byte(llid: u8, nesn: bool, sn: bool) -> (b: u8)
    ensures
        b == crate::ll::pdu::data_hdr0(llid, nesn, sn, false),
{
    let n: u8 = if nesn {
        1
    } else {
        0
    };
    let s: u8 = if sn {
        1
    } else {
        0
    };
    (llid & 0b11) | (n << 2) | (s << 3) | (0u8 << 4)
}

/// Write one LL data fragment into `buf`: the two header bytes, the L2CAP
/// header (length, channel) when `first`, then `body`.
fn write_fragment(
    buf: &mut [u8; 64],
    hdr0: u8,
    plen: u8,
    first: bool,
    l2_len: u16,
    cid: u16,
    body: &[u8],
)
    requires
        2 + (if first { 4int } else { 0int }) + body@.len() <= 64,
    ensures
        final(buf)@ == splice(
            old(buf)@,
            0,
            seq![hdr0, plen] + (if first {
                le16(l2_len) + le16(cid)
            } else {
                Seq::<u8>::empty()
            }) + body@,
        ),
{
    buf[0] = hdr0;
    buf[1] = plen;
    if first {
        buf[2] = l2_len as u8;
        buf[3] = (l2_len >> 8) as u8;
        buf[4] = cid as u8;
        buf[5] = (cid >> 8) as u8;
        copy_into(buf, 6, body);
    } else {
        copy_into(buf, 2, body);
    }
    let ghost hdr = if first {
        le16(l2_len) + le16(cid)
    } else {
        Seq::<u8>::empty()
    };
    assert(buf@ =~= splice(old(buf)@, 0, seq![hdr0, plen] + hdr + body@));
}

impl Conn {
    /// The next fragment of the queued L2CAP frame fits the 64-byte LL
    /// buffer (it may not after the data length was raised).
    pub fn next_fragment_fits(&self) -> (r: bool)
        requires
            self.wf(),
        ensures
            r == frag_fits(*self),
    {
        if self.tx_frag_offset > self.tx_att_len {
            return false;
        }
        let remaining = self.tx_att_len - self.tx_frag_offset;
        let first = self.tx_frag_offset == 0;
        let room = if first {
            if self.tx_pdu_max >= 4 {
                self.tx_pdu_max - 4
            } else {
                0
            }
        } else {
            self.tx_pdu_max
        };
        let chunk = if remaining < room {
            remaining
        } else {
            room
        };
        let payload = if first {
            4 + chunk
        } else {
            chunk
        };
        2 + payload <= 64
    }

    /// Build the next data channel fragment of the pending L2CAP PDU into
    /// `tx_buf`, returning the total packet length (2 + payload). Advances
    /// the fragment offset and clears the pending flag on the final
    /// fragment.
    #[verifier::rlimit(60)]
    pub fn tx_fragment(&mut self) -> (n: usize)
        requires
            old(self).wf(),
            frag_fits(*old(self)),
        ensures
            final(self).wf(),
            n == 2 + frag_payload_len(*old(self)),
            final(self).tx_buf@ == splice(old(self).tx_buf@, 0, frag_bytes(*old(self))),
            final(self).tx_frag_offset == if old(self).tx_frag_offset + frag_chunk(*old(self))
                >= old(self).tx_att_len {
                0
            } else {
                old(self).tx_frag_offset + frag_chunk(*old(self))
            },
            final(self).tx_pending == (old(self).tx_pending && old(self).tx_frag_offset
                + frag_chunk(*old(self)) < old(self).tx_att_len),
            *final(self) == (Conn {
                tx_buf: final(self).tx_buf,
                tx_frag_offset: final(self).tx_frag_offset,
                tx_pending: final(self).tx_pending,
                ..*old(self)
            }),
    {
        let att_len = self.tx_att_len;
        let off = self.tx_frag_offset;
        let remaining = att_len - off;
        let first = off == 0;
        let avail = if first {
            self.tx_pdu_max.saturating_sub(4)
        } else {
            self.tx_pdu_max
        };
        let chunk = if remaining < avail {
            remaining
        } else {
            avail
        };
        let complete = first && chunk == att_len;
        let llid = if complete {
            LLID_DATA_COMPLETE
        } else if first {
            LLID_DATA_START
        } else {
            LLID_DATA_CONTINUATION_OR_COMPLETE
        };
        let payload_len = if first {
            4 + chunk
        } else {
            chunk
        };
        let hdr0 = header_byte(llid, !self.nesn, self.sn);
        let cid = self.tx_cid;
        let body = &self.tx_att[off..off + chunk];
        assert(body@ == old(self).tx_att@.subrange(off as int, off + frag_chunk(*old(self))));
        write_fragment(&mut self.tx_buf, hdr0, payload_len as u8, first, att_len as u16, cid, body);
        let next = off + chunk;
        if next >= att_len {
            self.tx_pending = false;
            self.tx_frag_offset = 0;
        } else {
            self.tx_frag_offset = next;
        }
        2 + payload_len
    }

    /// Queue an ATT PDU (cut to the buffer) on the current channel.
    pub fn queue_att(&mut self, att: &[u8])
        requires
            old(self).wf(),
        ensures
            final(self).wf(),
            final(self).tx_att@ == splice(old(self).tx_att@, 0, cut(att@, 251)),
            final(self).tx_att_len == cut(att@, 251).len(),
            *final(self) == (Conn {
                tx_att: final(self).tx_att,
                tx_att_len: final(self).tx_att_len,
                tx_pending: true,
                ..*old(self)
            }),
    {
        let len = if att.len() < L2CAP_PAYLOAD_MAX {
            att.len()
        } else {
            L2CAP_PAYLOAD_MAX
        };
        copy_into(&mut self.tx_att, 0, &att[0..len]);
        self.tx_att_len = len;
        self.tx_pending = true;
    }

    /// Queue an LE signaling message (cut to leave room for the L2CAP
    /// header).
    pub fn queue_signaling(&mut self, msg: &[u8])
        requires
            old(self).wf(),
        ensures
            final(self).wf(),
            final(self).tx_att@ == splice(old(self).tx_att@, 0, cut(msg@, 247)),
            final(self).tx_att_len == cut(msg@, 247).len(),
            *final(self) == (Conn {
                tx_att: final(self).tx_att,
                tx_att_len: final(self).tx_att_len,
                tx_cid: L2CAP_SIGNALING_CID,
                tx_frag_offset: 0,
                tx_pending: true,
                ..*old(self)
            }),
    {
        let n = if msg.len() < L2CAP_PAYLOAD_MAX - 4 {
            msg.len()
        } else {
            L2CAP_PAYLOAD_MAX - 4
        };
        copy_into(&mut self.tx_att, 0, &msg[0..n]);
        self.tx_att_len = n;
        self.tx_cid = L2CAP_SIGNALING_CID;
        self.tx_frag_offset = 0;
        self.tx_pending = true;
    }

    /// Queue a whole L2CAP frame `l2` (cut to the buffer) for channel `cid`.
    pub fn queue_l2cap(&mut self, l2: &[u8], cid: u16)
        requires
            old(self).wf(),
        ensures
            final(self).wf(),
            final(self).tx_att@ == splice(old(self).tx_att@, 0, cut(l2@, 251)),
            final(self).tx_att_len == cut(l2@, 251).len(),
            *final(self) == (Conn {
                tx_att: final(self).tx_att,
                tx_att_len: final(self).tx_att_len,
                tx_cid: cid,
                tx_frag_offset: 0,
                tx_pending: true,
                ..*old(self)
            }),
    {
        let n = if l2.len() < L2CAP_PAYLOAD_MAX {
            l2.len()
        } else {
            L2CAP_PAYLOAD_MAX
        };
        copy_into(&mut self.tx_att, 0, &l2[0..n]);
        self.tx_att_len = n;
        self.tx_cid = cid;
        self.tx_frag_offset = 0;
        self.tx_pending = true;
    }

    /// GATT client: queue a request and wait for its response.
    pub fn gatt_send_request(&mut self, att: &[u8])
        requires
            old(self).wf(),
        ensures
            final(self).wf(),
            final(self).tx_att@ == splice(old(self).tx_att@, 0, cut(att@, 251)),
            final(self).tx_att_len == cut(att@, 251).len(),
            *final(self) == (Conn {
                tx_att: final(self).tx_att,
                tx_att_len: final(self).tx_att_len,
                tx_pending: true,
                pending_request: true,
                ..*old(self)
            }),
    {
        self.queue_att(att);
        self.pending_request = true;
    }

    /// Parse the last (handle, ...) entry of a discovery response, for
    /// multi-range continuation. Returns `None` for malformed responses.
    pub fn att_response_last_handle(buf: &[u8]) -> (r: Option<u16>)
        ensures
            r == last_handle_spec(buf@),
    {
        if buf.len() < 2 {
            return None;
        }
        let width = buf[1] as usize;
        if width < 2 {
            return None;
        }
        let entries = (buf.len() - 2) / width;
        if entries == 0 {
            return None;
        }
        let ghost l = buf@.len() - 2;
        assert((entries - 1) * width + width <= l) by (nonlinear_arith)
            requires
                entries == l / (width as int),
                width >= 2,
                l >= 0,
        ;
        let pos = 2 + (entries - 1) * width;
        Some((buf[pos] as u16) | ((buf[pos + 1] as u16) << 8))
    }

    /// Take the last GATT client response: (opcode, bytes, length); the
    /// stored response is cleared.
    pub fn gatt_take_result(&mut self) -> (r: (u8, [u8; 64], usize))
        requires
            old(self).wf(),
        ensures
            final(self).wf(),
            r.0 == old(self).gatt_result@[0],
            r.1 == old(self).gatt_result,
            r.2 == old(self).gatt_result_len,
            final(self).gatt_result@ == old(self).gatt_result@.update(0, 0u8),
            *final(self) == (Conn {
                gatt_result: final(self).gatt_result,
                gatt_result_len: 0,
                ..*old(self)
            }),
    {
        let op = self.gatt_result[0];
        let len = self.gatt_result_len;
        let mut buf = self.gatt_result;
        self.gatt_result_len = 0;
        self.gatt_result[0] = 0;
        buf[0] = op;
        assert(buf@ =~= old(self).gatt_result@);
        (op, buf, len)
    }
}

} // verus!
