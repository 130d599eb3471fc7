//! HCI command handling and event reporting: host commands drive the BLE
//! stack, stack events are reported to the host.
use vstd::prelude::*;

use crate::bytes::{copy_into, le16, splice};
use crate::hci::{
    ring_push, ring_push_all, ring_fifo, ring_queue, zeros, Hci, HciPacket, HCI_ACL_DATA, HCI_COMMAND, HCI_EVENT,
};
use crate::hw::ble::{
    q_drain, q_push, adv_params_default, first_ticks, q_fifo, scan_params_default, AdvParams, AdvState, Ble,
    BleEvent, ScanParams, ScanState,
};
use crate::hw::conn::{ConnRole, DisconnectReason};
use crate::ll::addr::AddrType;

verus! {

/// HCI event: command complete.
pub const HCI_EVT_COMMAND_COMPLETE: u8 = 0x0E;

/// HCI event: command status.
pub const HCI_EVT_COMMAND_STATUS: u8 = 0x0F;

/// HCI event: disconnection complete.
pub const HCI_EVT_DISCONNECTION_COMPLETE: u8 = 0x05;

/// HCI event: LE meta.
pub const HCI_EVT_LE_META: u8 = 0x3E;

/// LE meta subevent: advertising report.
pub const HCI_LE_ADVERTISING_REPORT: u8 = 0x02;

/// LE meta subevent: connection complete.
pub const HCI_LE_CONNECTION_COMPLETE: u8 = 0x01;

/// LE meta subevent: connection update complete.
pub const HCI_LE_CONNECTION_UPDATE_COMPLETE: u8 = 0x03;

/// OGF of host controller and baseband / informational commands handled.
pub const OGF_HOST: u8 = 0x03;

/// OGF of LE controller commands.
pub const OGF_LE: u8 = 0x08;

/// OCF: read local version information.
pub const OCF_READ_LOCAL_VERSION: u16 = 0x0001;

/// OCF: read BD_ADDR.
pub const OCF_READ_BD_ADDR: u16 = 0x0009;

/// OCF: read buffer size.
pub const OCF_READ_BUFFER_SIZE: u16 = 0x0005;

/// OCF: LE set advertising parameters.
pub const OCF_LE_SET_ADV_PARAMS: u16 = 0x0006;

/// OCF: LE set advertising data.
pub const OCF_LE_SET_ADV_DATA: u16 = 0x0008;

/// OCF: LE set advertising enable.
pub const OCF_LE_SET_ADV_ENABLE: u16 = 0x000A;

/// OCF: LE set scan parameters.
pub const OCF_LE_SET_SCAN_PARAMS: u16 = 0x000B;

/// OCF: LE set scan enable.
pub const OCF_LE_SET_SCAN_ENABLE: u16 = 0x000C;

/// OCF: LE create connection.
pub const OCF_LE_CREATE_CONNECTION: u16 = 0x000D;

/// OCF: LE set random address.
pub const OCF_LE_SET_RANDOM_ADDRESS: u16 = 0x0005;

/// What a host command asks of the BLE stack.
#[derive(Debug, Clone, Copy, PartialEq, Eq)]
pub enum HostRequest {
    /// Nothing.
    Nothing,
    /// Set the advertising data (`len` bytes of `data`) and clear the scan
    /// response.
    AdvData {
        /// Advertising data.
        data: [u8; 31],
        /// Its length.
        len: usize,
    },
    /// Start (true) or stop (false) advertising.
    AdvEnable(bool),
    /// Start (true) or stop (false) scanning.
    ScanEnable(bool),
    /// Connect to a (public) advertiser.
    Connect([u8; 6]),
}

/// `p` is the event packet with `code` and `payload`.
pub open spec fn is_event(p: HciPacket, code: u8, payload: Seq<u8>) -> bool {
    &&& p.packet_type == HCI_EVENT
    &&& p.len == 2 + payload.len()
    &&& p.payload@ == splice(zeros(260), 0, seq![code, payload.len() as u8] + payload)
}

/// The 16-bit opcode of a command packet.
pub open spec fn opcode_of(p: HciPacket) -> u16 {
    ((p.payload@[0] as u16) | ((p.payload@[1] as u16) << 8)) as u16
}

/// OCF of a command packet.
pub open spec fn ocf_of(p: HciPacket) -> u16 {
    opcode_of(p) & 0x03FF
}

/// OGF of a command packet.
pub open spec fn ogf_of(p: HciPacket) -> u8 {
    ((opcode_of(p) >> 10) & 0x3F) as u8
}

/// Parameters of a command packet.
pub open spec fn params_of(p: HciPacket) -> Seq<u8> {
    p.payload@.subrange(3, p.len as int)
}

/// Command Complete payload for the command in `p`.
pub open spec fn complete_payload(p: HciPacket, params: Seq<u8>) -> Seq<u8> {
    seq![1u8, p.payload@[0], p.payload@[1], 0u8] + params
}

/// The event the controller answers command `p` with (Command Status for
/// create connection, Command Complete otherwise): code and payload.
pub open spec fn command_reply(h: Hci, p: HciPacket) -> (u8, Seq<u8>) {
    let ogf = ogf_of(p);
    let ocf = ocf_of(p);
    if ogf == OGF_LE && ocf == OCF_LE_CREATE_CONNECTION {
        (HCI_EVT_COMMAND_STATUS, seq![0u8, 1u8, p.payload@[0], p.payload@[1], 0u8])
    } else if ogf == OGF_HOST && ocf == OCF_READ_LOCAL_VERSION {
        (
            HCI_EVT_COMMAND_COMPLETE,
            complete_payload(p, seq![0x0Cu8, 0u8, 0u8, 0u8, 0u8, 0u8, 0u8, 0u8]),
        )
    } else if ogf == OGF_HOST && ocf == OCF_READ_BD_ADDR {
        (HCI_EVT_COMMAND_COMPLETE, complete_payload(p, h.own_addr@))
    } else if ogf == OGF_HOST && ocf == OCF_READ_BUFFER_SIZE {
        (HCI_EVT_COMMAND_COMPLETE, complete_payload(p, zeros(8)))
    } else {
        (HCI_EVT_COMMAND_COMPLETE, complete_payload(p, Seq::empty()))
    }
}

/// What command `p` asks of the stack.
pub open spec fn command_request(p: HciPacket) -> HostRequest {
    let params = params_of(p);
    if ogf_of(p) != OGF_LE {
        HostRequest::Nothing
    } else if ocf_of(p) == OCF_LE_SET_ADV_DATA {
        if params.len() >= 32 {
            let n = if params[0] < 31 {
                params[0] as int
            } else {
                31
            };
            HostRequest::AdvData {
                data: choose|d: [u8; 31]| d@.take(n) == params.subrange(1, 1 + n),
                len: n as usize,
            }
        } else {
            HostRequest::Nothing
        }
    } else if ocf_of(p) == OCF_LE_SET_ADV_ENABLE {
        HostRequest::AdvEnable(params.len() > 0 && params[0] == 1)
    } else if ocf_of(p) == OCF_LE_SET_SCAN_ENABLE {
        HostRequest::ScanEnable(params.len() > 0 && params[0] == 1)
    } else if ocf_of(p) == OCF_LE_CREATE_CONNECTION && params.len() >= 25 {
        HostRequest::Connect(choose|a: [u8; 6]| a@ == params.subrange(14, 20))
    } else {
        HostRequest::Nothing
    }
}

/// Two requests ask the same of the stack.
pub open spec fn same_request(a: HostRequest, b: HostRequest) -> bool {
    match (a, b) {
        (HostRequest::AdvData { data: d1, len: n1 }, HostRequest::AdvData { data: d2, len: n2 }) => n1
            == n2 && d1@.take(n1 as int) == d2@.take(n2 as int),
        (HostRequest::Connect(a1), HostRequest::Connect(a2)) => a1@ == a2@,
        _ => a == b,
    }
}

/// The controller state after command `p` (besides the event queued).
pub open spec fn command_state(h: Hci, p: HciPacket) -> Hci {
    let params = params_of(p);
    if ogf_of(p) == OGF_LE && ocf_of(p) == OCF_LE_SET_ADV_ENABLE {
        Hci { adv_enabled: params.len() > 0 && params[0] == 1, ..h }
    } else if ogf_of(p) == OGF_LE && ocf_of(p) == OCF_LE_SET_SCAN_ENABLE {
        Hci { scan_enabled: params.len() > 0 && params[0] == 1, ..h }
    } else {
        h
    }
}

/// The report of a stack event to the host (code and payload), if it is
/// reported; `master` tells whether the connection was initiated by us.
pub open spec fn ble_report(evt: BleEvent, master: bool) -> Option<(u8, Seq<u8>)> {
    match evt {
        BleEvent::ScanReport { addr, addr_type, adv_type, rssi, data, data_len } => {
            let n = if data_len < 27 {
                data_len as int
            } else {
                27
            };
            Some(
                (
                    HCI_EVT_LE_META,
                    seq![
                        HCI_LE_ADVERTISING_REPORT,
                        1u8,
                        adv_type,
                        if addr_type is Public { 0u8 } else { 1u8 },
                    ] + addr@ + seq![n as u8] + data@.take(n) + seq![rssi as u8],
                ),
            )
        },
        BleEvent::Connected { conn } => Some(
            (
                HCI_EVT_LE_META,
                seq![HCI_LE_CONNECTION_COMPLETE, 0u8, 0u8, 0u8, 0u8, if master { 1u8 } else { 0u8 }]
                    + zeros(7) + le16(conn.interval) + seq![0u8, 0u8] + le16(conn.timeout) + seq![
                    0u8,
                    0u8,
                ],
            ),
        ),
        BleEvent::Disconnected { reason } => Some(
            (
                HCI_EVT_DISCONNECTION_COMPLETE,
                seq![0u8, 0u8, 0u8, reason_code(reason)],
            ),
        ),
        _ => None,
    }
}

/// The HCI reason byte of a disconnection reason.
pub open spec fn reason_code(r: DisconnectReason) -> u8 {
    match r {
        DisconnectReason::RemoteTerminate => 0,
        DisconnectReason::HostTerminate => 1,
        DisconnectReason::SupervisionTimeout => 2,
        DisconnectReason::LocalError => 3,
    }
}

/// The controller connection flags after reporting `evt`.
pub open spec fn report_state(h: Hci, evt: BleEvent) -> Hci {
    match evt {
        BleEvent::Connected { .. } => Hci { connection_open: true, conn_handle: 0, ..h },
        BleEvent::Disconnected { .. } => Hci { connection_open: false, ..h },
        _ => h,
    }
}

/// `d` is `h` with one more event (code and payload) queued for the host.
pub open spec fn event_queued(h: Hci, d: Hci, code: u8, payload: Seq<u8>) -> bool {
    let p = d.ring().slots[h.ring().head]->0;
    &&& d.wf()
    &&& d.ring() == ring_push(h.ring(), p)
    &&& is_event(p, code, payload)
    &&& ring_fifo(h.ring()) && ring_queue(h.ring()).len() < 15 ==> ring_fifo(d.ring())
        && ring_queue(d.ring()).len() == ring_queue(h.ring()).len() + 1 && ring_queue(
        d.ring(),
    ).take(ring_queue(h.ring()).len() as int) == ring_queue(h.ring()) && is_event(
        ring_queue(d.ring()).last(),
        code,
        payload,
    )
    &&& d.framer_state() == h.framer_state()
    &&& d == (Hci { events: d.events, event_head: d.event_head, event_tail: d.event_tail, ..h })
}

/// The connection was initiated by us.
pub open spec fn conn_master(b: Ble) -> bool {
    b.conn matches Some(c) && c.role == ConnRole::Master
}

/// The host reports (code and payload) of stack events `es`, in order;
/// events that are not reported are skipped.
pub open spec fn host_reports(es: Seq<BleEvent>, master: bool) -> Seq<(u8, Seq<u8>)>
    decreases es.len(),
{
    if es.len() == 0 {
        Seq::empty()
    } else {
        let prev = host_reports(es.drop_last(), master);
        match ble_report(es.last(), master) {
            Some(r) => prev.push(r),
            None => prev,
        }
    }
}

/// The controller flags after reporting events `es`.
pub open spec fn report_states(h: Hci, es: Seq<BleEvent>) -> Hci
    decreases es.len(),
{
    if es.len() == 0 {
        h
    } else {
        report_state(report_states(h, es.drop_last()), es.last())
    }
}

/// `d`'s event ring holds `h`'s events followed by the reports `rs`.
pub open spec fn reports_queued(h: Hci, d: Hci, rs: Seq<(u8, Seq<u8>)>) -> bool {
    let before = ring_queue(h.ring());
    let after = ring_queue(d.ring());
    &&& ring_fifo(d.ring())
    &&& after.len() == before.len() + rs.len()
    &&& after.take(before.len() as int) == before
    &&& forall|i: int|
        0 <= i < rs.len() ==> is_event(#[trigger] after[before.len() + i], rs[i].0, rs[i].1)
}

/// `ps` are event packets carrying reports `rs`, one for one.
pub open spec fn reports_packets(ps: Seq<HciPacket>, rs: Seq<(u8, Seq<u8>)>) -> bool {
    &&& ps.len() == rs.len()
    &&& forall|i: int| 0 <= i < rs.len() ==> is_event(#[trigger] ps[i], rs[i].0, rs[i].1)
}

proof fn lemma_tick_step(
    h: Hci,
    h0: Hci,
    h1: Hci,
    taken: Seq<BleEvent>,
    evt: BleEvent,
    ps: Seq<HciPacket>,
    master: bool,
)
    requires
        h0 == (Hci {
            events: h0.events,
            event_head: h0.event_head,
            event_tail: h0.event_tail,
            ..report_states(h, taken)
        }),
        reports_packets(ps, host_reports(taken, master)),
        h0.ring() == ring_push_all(h.ring(), ps),
        match ble_report(evt, master) {
            Some((code, payload)) => event_queued(report_state(h0, evt), h1, code, payload),
            None => h1 == h0,
        },
    ensures
        h1 == (Hci {
            events: h1.events,
            event_head: h1.event_head,
            event_tail: h1.event_tail,
            ..report_states(h, taken.push(evt))
        }),
        ({
            let ps1 = if ble_report(evt, master) is Some {
                ps.push(h1.ring().slots[h0.ring().head]->0)
            } else {
                ps
            };
            &&& reports_packets(ps1, host_reports(taken.push(evt), master))
            &&& h1.ring() == ring_push_all(h.ring(), ps1)
        }),
{
    let t1 = taken.push(evt);
    assert(t1.drop_last() =~= taken);
    assert(t1.last() == evt);
    match ble_report(evt, master) {
        Some((code, payload)) => {
            let p = h1.ring().slots[h0.ring().head]->0;
            let ps1 = ps.push(p);
            assert(ps1.drop_last() =~= ps);
            assert(report_state(h0, evt).ring() == h0.ring());
            let rs1 = host_reports(t1, master);
            assert(rs1 == host_reports(taken, master).push((code, payload)));
            assert forall|i: int| 0 <= i < rs1.len() implies is_event(
                #[trigger] ps1[i],
                rs1[i].0,
                rs1[i].1,
            ) by {
                if i < ps.len() {
                    assert(ps1[i] == ps[i]);
                }
            }
        },
        None => {},
    }
}

proof fn lemma_report_step(h: Hci, h0: Hci, h1: Hci, es: Seq<BleEvent>, j: int, master: bool)
    requires
        0 <= j < es.len(),
        h0 == (Hci {
            events: h0.events,
            event_head: h0.event_head,
            event_tail: h0.event_tail,
            ..report_states(h, es.take(j))
        }),
        ring_fifo(h.ring()) && ring_queue(h.ring()).len() + host_reports(es, master).len() < 16
            ==> reports_queued(h, h0, host_reports(es.take(j), master)),
        match ble_report(es[j], master) {
            Some((code, payload)) => event_queued(report_state(h0, es[j]), h1, code, payload),
            None => h1 == h0,
        },
    ensures
        h1 == (Hci {
            events: h1.events,
            event_head: h1.event_head,
            event_tail: h1.event_tail,
            ..report_states(h, es.take(j + 1))
        }),
        ring_fifo(h.ring()) && ring_queue(h.ring()).len() + host_reports(es, master).len() < 16
            ==> reports_queued(h, h1, host_reports(es.take(j + 1), master)),
{
    let t1 = es.take(j + 1);
    assert(t1.drop_last() =~= es.take(j));
    assert(t1.last() == es[j]);
    lemma_host_reports_prefix(es, j + 1, master);
    if ring_fifo(h.ring()) && ring_queue(h.ring()).len() + host_reports(es, master).len() < 16 {
        let before = ring_queue(h.ring());
        let rs0 = host_reports(es.take(j), master);
        let mid = ring_queue(h0.ring());
        match ble_report(es[j], master) {
            Some((code, payload)) => {
                let after = ring_queue(h1.ring());
                assert(host_reports(t1, master) == rs0.push((code, payload)));
                assert(mid.len() < 15);
                assert(after.take(mid.len() as int) == mid);
                assert(after.take(before.len() as int) =~= before) by {
                    assert(mid.take(before.len() as int) == before);
                    assert forall|k: int| 0 <= k < before.len() implies after[k] == before[k] by {
                        assert(after.take(mid.len() as int)[k] == mid[k]);
                    }
                }
                assert forall|i: int| 0 <= i < rs0.len() + 1 implies is_event(
                    #[trigger] after[before.len() + i],
                    rs0.push((code, payload))[i].0,
                    rs0.push((code, payload))[i].1,
                ) by {
                    if i < rs0.len() {
                        assert(after.take(mid.len() as int)[before.len() + i] == mid[before.len() + i]);
                    } else {
                        assert(after.last() == after[before.len() + i]);
                    }
                }
            },
            None => {
                assert(host_reports(t1, master) == rs0);
            },
        }
    }
}

/// The reports of a prefix of `es` are no more than those of `es`.
proof fn lemma_host_reports_prefix(es: Seq<BleEvent>, n: int, master: bool)
    requires
        0 <= n <= es.len(),
    ensures
        host_reports(es.take(n), master).len() <= host_reports(es, master).len(),
    decreases es.len() - n,
{
    if n < es.len() {
        lemma_host_reports_prefix(es, n + 1, master);
        let t1 = es.take(n + 1);
        assert(t1.drop_last() =~= es.take(n));
    } else {
        assert(es.take(n) =~= es);
    }
}

impl Hci {
    fn push_report(&mut self, code: u8, payload: &[u8])
        requires
            old(self).wf(),
            payload@.len() <= 258,
        ensures
            event_queued(*old(self), *final(self), code, payload@),
    {
        let evt = HciPacket::event(code, payload);
        self.push_event(evt);
        proof {
            let o = old(self).ring();
            let n = self.ring();
            if ring_fifo(o) && ring_queue(o).len() < 15 {
                assert(ring_queue(n).take(ring_queue(o).len() as int) =~= ring_queue(o));
            }
        }
    }

    /// Queue a Command Complete event for `opcode` with `status` and
    /// return parameters `params`.
    pub fn command_complete(&mut self, opcode: [u8; 2], status: u8, params: &[u8])
        requires
            old(self).wf(),
            params@.len() <= 254,
        ensures
            event_queued(
                *old(self),
                *final(self),
                HCI_EVT_COMMAND_COMPLETE,
                seq![1u8, opcode@[0], opcode@[1], status] + params@,
            ),
    {
        let mut payload = [0u8; 260];
        payload[0] = 1;
        payload[1] = opcode[0];
        payload[2] = opcode[1];
        payload[3] = status;
        copy_into(&mut payload, 4, params);
        let n = 4 + params.len();
        assert(payload@.subrange(0, n as int) =~= seq![1u8, opcode@[0], opcode@[1], status]
            + params@);
        self.push_report(HCI_EVT_COMMAND_COMPLETE, &payload[0..n]);
    }

    /// Queue a Command Status event for `opcode` with `status`.
    pub fn command_status(&mut self, opcode: [u8; 2], status: u8)
        requires
            old(self).wf(),
        ensures
            event_queued(
                *old(self),
                *final(self),
                HCI_EVT_COMMAND_STATUS,
                seq![status, 1u8, opcode@[0], opcode@[1], 0u8],
            ),
    {
        let payload = [status, 1, opcode[0], opcode[1], 0];
        assert(payload@ =~= seq![status, 1u8, opcode@[0], opcode@[1], 0u8]);
        self.push_report(HCI_EVT_COMMAND_STATUS, &payload);
    }

    /// Answer a host command (Command Complete, or Command Status for
    /// create connection) and return what it asks of the stack.
    pub fn handle_command(&mut self, packet: &HciPacket) -> (r: HostRequest)
        requires
            old(self).wf(),
            3 <= packet.len <= 260,
        ensures
            same_request(r, command_request(*packet)),
            final(self).own_addr@ == if ogf_of(*packet) == OGF_LE && ocf_of(*packet)
                == OCF_LE_SET_RANDOM_ADDRESS && params_of(*packet).len() >= 6 {
                params_of(*packet).take(6)
            } else {
                old(self).own_addr@
            },
            event_queued(
                Hci { own_addr: final(self).own_addr, ..command_state(*old(self), *packet) },
                *final(self),
                command_reply(*old(self), *packet).0,
                command_reply(*old(self), *packet).1,
            ),
    {
        let opcode = (packet.payload[0] as u16) | ((packet.payload[1] as u16) << 8);
        let ocf = opcode & 0x03FF;
        let ogf = ((opcode >> 10) & 0x3F) as u8;
        let params = &packet.payload[3..packet.len];
        assert(params@ == params_of(*packet));
        let op = [packet.payload[0], packet.payload[1]];
        assert(op@[0] == packet.payload@[0] && op@[1] == packet.payload@[1]);
        if ogf == OGF_HOST {
            if ocf == OCF_READ_LOCAL_VERSION {
                let v = [0x0Cu8, 0x00, 0x00, 0x00, 0x00, 0x00, 0x00, 0x00];
                assert(v@ =~= seq![0x0Cu8, 0u8, 0u8, 0u8, 0u8, 0u8, 0u8, 0u8]);
                self.command_complete(op, 0, &v);
            } else if ocf == OCF_READ_BD_ADDR {
                let a = self.own_addr;
                self.command_complete(op, 0, &a);
            } else if ocf == OCF_READ_BUFFER_SIZE {
                let z = [0u8; 8];
                assert(z@ =~= zeros(8));
                self.command_complete(op, 0, &z);
            } else {
                self.command_complete(op, 0, &[]);
            }
            HostRequest::Nothing
        } else if ogf == OGF_LE {
            if ocf == OCF_LE_SET_ADV_DATA {
                let mut req = HostRequest::Nothing;
                if params.len() >= 32 {
                    let n = if (params[0] as usize) < 31 {
                        params[0] as usize
                    } else {
                        31
                    };
                    let mut buf = [0u8; 31];
                    copy_into(&mut buf, 0, &params[1..1 + n]);
                    assert(buf@.take(n as int) =~= params@.subrange(1, 1 + n as int));
                    req = HostRequest::AdvData { data: buf, len: n };
                    proof {
                        let d = choose|d: [u8; 31]|
                            d@.take(n as int) == params_of(*packet).subrange(1, 1 + n as int);
                        assert(exists|d: [u8; 31]|
                            d@.take(n as int) == params_of(*packet).subrange(1, 1 + n as int));
                    }
                }
                self.command_complete(op, 0, &[]);
                req
            } else if ocf == OCF_LE_SET_ADV_ENABLE {
                let on = params.len() > 0 && params[0] == 1;
                self.adv_enabled = on;
                self.command_complete(op, 0, &[]);
                HostRequest::AdvEnable(on)
            } else if ocf == OCF_LE_SET_SCAN_ENABLE {
                let on = params.len() > 0 && params[0] == 1;
                self.scan_enabled = on;
                self.command_complete(op, 0, &[]);
                HostRequest::ScanEnable(on)
            } else if ocf == OCF_LE_CREATE_CONNECTION {
                let mut req = HostRequest::Nothing;
                if params.len() >= 25 {
                    let target = crate::bytes::addr_at(params, 14);
                    req = HostRequest::Connect(target);
                    proof {
                        let a = choose|a: [u8; 6]| a@ == params_of(*packet).subrange(14, 20);
                        assert(exists|a: [u8; 6]| a@ == params_of(*packet).subrange(14, 20));
                    }
                }
                self.command_status(op, 0);
                req
            } else if ocf == OCF_LE_SET_RANDOM_ADDRESS {
                if params.len() >= 6 {
                    self.own_addr = crate::bytes::addr_at(params, 0);
                    assert(params@.subrange(0, 6) =~= params@.take(6));
                }
                self.command_complete(op, 0, &[]);
                HostRequest::Nothing
            } else {
                self.command_complete(op, 0, &[]);
                HostRequest::Nothing
            }
        } else {
            self.command_complete(op, 0, &[]);
            HostRequest::Nothing
        }
    }

    /// Report one stack event to the host (advertising reports, connection
    /// complete, disconnection complete; other events are not reported).
    pub fn report_event(&mut self, evt: BleEvent, master: bool)
        requires
            old(self).wf(),
        ensures
            match ble_report(evt, master) {
                Some((code, payload)) => event_queued(
                    report_state(*old(self), evt),
                    *final(self),
                    code,
                    payload,
                ),
                None => *final(self) == *old(self),
            },
    {
        match evt {
            BleEvent::ScanReport { addr, addr_type, adv_type, rssi, data, data_len } => {
                let n = if data_len < 27 {
                    data_len
                } else {
                    27
                };
                let total = 11 + n + 1;
                let mut payload = [0u8; 260];
                payload[0] = HCI_LE_ADVERTISING_REPORT;
                payload[1] = 1;
                payload[2] = adv_type;
                payload[3] = if addr_type.is_random() {
                    0x01
                } else {
                    0x00
                };
                copy_into(&mut payload, 4, &addr);
                payload[10] = n as u8;
                copy_into(&mut payload, 11, &data[0..n]);
                payload[11 + n] = rssi as u8;
                assert(payload@.subrange(0, total as int) =~= ble_report(evt, master).unwrap().1);
                self.push_report(HCI_EVT_LE_META, &payload[0..total]);
            },
            BleEvent::Connected { conn } => {
                self.connection_open = true;
                self.conn_handle = 0;
                let mut payload = [0u8; 21];
                payload[0] = HCI_LE_CONNECTION_COMPLETE;
                payload[5] = if master {
                    0x01
                } else {
                    0x00
                };
                payload[13] = conn.interval as u8;
                payload[14] = (conn.interval >> 8) as u8;
                payload[17] = conn.timeout as u8;
                payload[18] = (conn.timeout >> 8) as u8;
                assert(payload@ =~= ble_report(evt, master).unwrap().1);
                self.push_report(HCI_EVT_LE_META, &payload);
            },
            BleEvent::Disconnected { reason } => {
                let code: u8 = match reason {
                    DisconnectReason::RemoteTerminate => 0,
                    DisconnectReason::HostTerminate => 1,
                    DisconnectReason::SupervisionTimeout => 2,
                    DisconnectReason::LocalError => 3,
                };
                let p = [0u8, 0, 0, code];
                assert(p@ =~= ble_report(evt, master).unwrap().1);
                self.push_report(HCI_EVT_DISCONNECTION_COMPLETE, &p);
                self.connection_open = false;
            },
            _ => {},
        }
    }

    /// Drive the stack's event queue: every pending stack event is taken
    /// and reported to the host, in order.
    pub fn tick(&mut self, ble: &mut Ble)
        requires
            old(self).wf(),
            old(ble).wf(),
        ensures
            final(self).wf(),
            final(ble).wf(),
            final(ble).queue().slots[final(ble).queue().tail] is None,
            final(ble).conn == old(ble).conn,
            ({
                let es = q_drain(old(ble).queue(), 8);
                let rs = host_reports(es, conn_master(*old(ble)));
                &&& *final(self) == (Hci {
                    events: final(self).events,
                    event_head: final(self).event_head,
                    event_tail: final(self).event_tail,
                    ..report_states(*old(self), es)
                })
                &&& exists|ps: Seq<HciPacket>|
                    #![trigger ring_push_all(old(self).ring(), ps)]
                    reports_packets(ps, rs) && final(self).ring() == ring_push_all(
                        old(self).ring(),
                        ps,
                    )
            }),
            q_fifo(old(ble).queue()) ==> {
                let es = old(ble).pending_events();
                let master = conn_master(*old(ble));
                &&& q_drain(old(ble).queue(), 8) == es
                &&& q_fifo(final(ble).queue())
                &&& final(ble).pending_events().len() == 0
                &&& ring_fifo(old(self).ring()) && ring_queue(old(self).ring()).len() + host_reports(
                    es,
                    master,
                ).len() < 16 ==> reports_queued(*old(self), *final(self), host_reports(es, master))
            },
    {
        let master = ble.conn_is_master();
        let ghost es = ble.pending_events();
        let ghost q0 = ble.queue();
        let ghost es8 = q_drain(q0, 8);
        let ghost fifo0 = q_fifo(ble.queue());
        let ghost room0 = ring_fifo(self.ring()) && ring_queue(self.ring()).len() + host_reports(
            es,
            master,
        ).len() < 16;
        let ghost mut j: int = 0;
        let ghost mut taken: Seq<BleEvent> = Seq::empty();
        let ghost mut ps: Seq<HciPacket> = Seq::empty();
        proof {
            assert(es.take(0) =~= Seq::<BleEvent>::empty());
            assert(ble.pending_events() =~= es.skip(0));
            assert(ring_queue(self.ring()).take(ring_queue(self.ring()).len() as int) =~= ring_queue(
                self.ring(),
            ));
            crate::hw::ble::lemma_some_count_bounds(ble.events@, 0, 8);
            assert(es8 =~= taken + q_drain(ble.queue(), 8));
        }
        loop
            invariant_except_break
                taken.len() + crate::hw::ble::some_count(ble.events@, 8) <= 8,
            invariant
                self.wf(),
                ble.wf(),
                ble.conn == old(ble).conn,
                master == conn_master(*ble),
                master == conn_master(*old(ble)),
                es == old(ble).pending_events(),
                es8 == q_drain(old(ble).queue(), 8),
                fifo0 == q_fifo(old(ble).queue()),
                room0 == (ring_fifo(old(self).ring()) && ring_queue(old(self).ring()).len()
                    + host_reports(es, master).len() < 16),
                es8 == taken + q_drain(ble.queue(), (8 - taken.len()) as nat),
                *self == (Hci {
                    events: self.events,
                    event_head: self.event_head,
                    event_tail: self.event_tail,
                    ..report_states(*old(self), taken)
                }),
                reports_packets(ps, host_reports(taken, master)),
                self.ring() == ring_push_all(old(self).ring(), ps),
                fifo0 ==> {
                    &&& q_fifo(ble.queue())
                    &&& 0 <= j <= es.len()
                    &&& taken == es.take(j)
                    &&& ble.pending_events() == es.skip(j)
                    &&& room0 ==> reports_queued(*old(self), *self, host_reports(es.take(j), master))
                },
            ensures
                self.wf(),
                ble.wf(),
                ble.conn == old(ble).conn,
                ble.queue().slots[ble.queue().tail] is None,
                es8 == taken,
                *self == (Hci {
                    events: self.events,
                    event_head: self.event_head,
                    event_tail: self.event_tail,
                    ..report_states(*old(self), taken)
                }),
                reports_packets(ps, host_reports(taken, master)),
                self.ring() == ring_push_all(old(self).ring(), ps),
                fifo0 ==> {
                    &&& q_fifo(ble.queue())
                    &&& ble.pending_events().len() == 0
                    &&& j == es.len()
                    &&& taken == es.take(j)
                    &&& room0 ==> reports_queued(*old(self), *self, host_reports(es.take(j), master))
                },
            decreases crate::hw::ble::some_count(ble.events@, 8),
        {
            let ghost before = ble.events@;
            let ghost qb = ble.queue();
            let ghost t = ble.event_tail as int;
            let ghost h0 = *self;
            match ble.next_event() {
                Some(evt) => {
                    proof {
                        crate::hw::ble::lemma_some_count_take(before, t, 8);
                        crate::hw::ble::lemma_some_count_bounds(before, t, 8);
                        let m = (8 - taken.len()) as nat;
                        assert(m >= 1);
                        assert(q_drain(qb, m) == seq![evt] + q_drain(ble.queue(), (m - 1) as nat));
                    }
                    let m = ble.conn_is_master();
                    self.report_event(evt, m);
                    proof {
                        let ghost p = self.ring().slots[h0.ring().head]->0;
                        lemma_tick_step(*old(self), h0, *self, taken, evt, ps, master);
                        if ble_report(evt, master) is Some {
                            ps = ps.push(p);
                        }
                        let m0 = (8 - taken.len()) as nat;
                        assert(es8 =~= taken.push(evt) + q_drain(ble.queue(), (m0 - 1) as nat));
                        if fifo0 {
                            lemma_report_step(*old(self), h0, *self, es, j, master);
                            assert(es.take(j + 1) =~= taken.push(evt));
                            j = j + 1;
                            assert(ble.pending_events() =~= es.skip(j));
                        }
                        taken = taken.push(evt);
                    }
                },
                None => {
                    proof {
                        assert(q_drain(qb, (8 - taken.len()) as nat) =~= Seq::<BleEvent>::empty());
                        assert(es8 =~= taken);
                        if fifo0 {
                            assert(es.skip(j).len() == 0);
                        }
                    }
                    break;
                },
            }
        }
        proof {
            if fifo0 {
                assert(es.take(j) =~= es);
            }
        }
    }

    /// Handle one ACL data packet from the host (ignored).
    pub fn handle_acl(&mut self, packet: &HciPacket)
        ensures
            *final(self) == *old(self),
    {
    }

    /// Handle one decoded HCI packet from the host at time `now`: commands
    /// are answered and drive the stack (see [`apply_request`]), ACL data
    /// is ignored. Returns the timer compare value when advertising or
    /// scanning was started.
    pub fn on_packet(&mut self, ble: &mut Ble, packet: &HciPacket, now: u32) -> (r: Option<u32>)
        requires
            old(self).wf(),
            old(ble).wf(),
            packet.packet_type == HCI_COMMAND ==> 3 <= packet.len <= 260,
        ensures
            final(self).wf(),
            final(ble).wf(),
            packet.packet_type != HCI_COMMAND ==> r is None && *final(self) == *old(self)
                && *final(ble) == *old(ble),
            packet.packet_type == HCI_COMMAND ==> {
                &&& final(self).own_addr@ == if ogf_of(*packet) == OGF_LE && ocf_of(*packet)
                    == OCF_LE_SET_RANDOM_ADDRESS && params_of(*packet).len() >= 6 {
                    params_of(*packet).take(6)
                } else {
                    old(self).own_addr@
                }
                &&& event_queued(
                    Hci { own_addr: final(self).own_addr, ..command_state(*old(self), *packet) },
                    *final(self),
                    command_reply(*old(self), *packet).0,
                    command_reply(*old(self), *packet).1,
                )
                &&& request_applied(*old(ble), *final(ble), command_request(*packet), now, r)
            },
    {
        if packet.packet_type == HCI_COMMAND {
            let req = self.handle_command(packet);
            apply_request(ble, &req, now)
        } else {
            if packet.packet_type == HCI_ACL_DATA {
                self.handle_acl(packet);
            }
            None
        }
    }
}


/// What carrying out request `req` at time `now` did to the stack: `b`
/// before, `d` after, `r` the timer compare value returned.
pub open spec fn request_applied(b: Ble, d: Ble, req: HostRequest, now: u32, r: Option<u32>) -> bool {
    match req {
        HostRequest::Nothing => d == b && r is None,
        HostRequest::AdvData { data, len } => {
            &&& r is None
            &&& d.adv_data@.take(len as int) == data@.take(len as int)
            &&& d == (Ble {
                adv_data: d.adv_data,
                adv_data_len: len,
                scan_rsp: d.scan_rsp,
                scan_rsp_len: 0,
                ..b
            })
        },
        HostRequest::AdvEnable(true) => if b.adv_state == AdvState::Idle {
            &&& r == Some(now.wrapping_add(first_ticks(160)))
            &&& d.adv_state == AdvState::Running
            &&& d.queue() == q_push(b.queue(), BleEvent::AdvStarted)
            &&& d.adv_params == adv_params_default()
            &&& d.adv_channel_idx == 0
        } else {
            r is None && d == b
        },
        HostRequest::AdvEnable(false) => r is None && d == if b.adv_state == AdvState::Running {
            Ble { adv_state: AdvState::StopPending, ..b }
        } else {
            b
        },
        HostRequest::ScanEnable(true) => if b.scan_state == ScanState::Idle {
            &&& r == Some(now.wrapping_add(first_ticks(80)))
            &&& d.scan_state == ScanState::Running
            &&& d.queue() == q_push(b.queue(), BleEvent::ScanStarted)
            &&& d.scan_params == scan_params_default()
            &&& d.scan_channel_idx == 0
        } else {
            r is None && d == b
        },
        HostRequest::ScanEnable(false) => r is None && d == if b.scan_state == ScanState::Running {
            Ble { scan_state: ScanState::StopPending, ..b }
        } else {
            b
        },
        HostRequest::Connect(target) => if b.scan_state == ScanState::Idle {
            &&& r == Some(now.wrapping_add(first_ticks(100)))
            &&& d.queue() == q_push(b.queue(), BleEvent::ScanStarted)
            &&& d.connect_target matches Some(t) && t@ == target@
            &&& d.connect_target_type == AddrType::Public
            &&& d.scan_state == ScanState::Running
        } else {
            r is None && d == b
        },
    }
}

/// Carry out what a host command asked of the stack at time `now`;
/// failures of the stack operation are ignored. Returns the timer compare
/// value when advertising or scanning was started.
pub fn apply_request(ble: &mut Ble, req: &HostRequest, now: u32) -> (r: Option<u32>)
    requires
        old(ble).wf(),
        req matches HostRequest::AdvData { len, .. } ==> len <= 31,
    ensures
        final(ble).wf(),
        forall|q: HostRequest| same_request(*req, q) ==> request_applied(
            *old(ble),
            *final(ble),
            q,
            now,
            r,
        ),
{
    match *req {
        HostRequest::Nothing => None,
        HostRequest::AdvData { data, len } => {
            let n = if len < 31 {
                len
            } else {
                31
            };
            let empty: [u8; 0] = [];
            let _ = ble.gap_adv_set_configure(&data[0..n], &empty);
            None
        },
        HostRequest::AdvEnable(on) => {
            if on {
                let params = AdvParams::default();
                assert(0b111u8 & 0b111u8 == 0b111u8) by (bit_vector);
                match ble.gap_adv_start(&params, now) {
                    Ok(t) => Some(t),
                    Err(_) => None,
                }
            } else {
                let _ = ble.gap_adv_stop();
                None
            }
        },
        HostRequest::ScanEnable(on) => {
            if on {
                let params = ScanParams::default();
                match ble.gap_scan_start(&params, now) {
                    Ok(t) => Some(t),
                    Err(_) => None,
                }
            } else {
                let _ = ble.gap_scan_stop();
                None
            }
        },
        HostRequest::Connect(target) => {
            match ble.gap_connect(target, AddrType::Public, now) {
                Ok(t) => Some(t),
                Err(_) => None,
            }
        },
    }
}

/// A scan report reaches the host as an LE Meta event (0x3E) carrying one
/// LE Advertising Report (subevent 0x02, one report): the advertising
/// type; Address_Type 0x01 when the advertiser's address is random and
/// 0x00 when it is public; the six address bytes; the data length, the
/// received length capped at 27; that many data bytes; and the RSSI.
pub proof fn lemma_scan_report_fields(
    addr: [u8; 6],
    addr_type: AddrType,
    adv_type: u8,
    rssi: i8,
    data: [u8; 31],
    data_len: usize,
    master: bool,
)
    ensures
        ({
            let evt = BleEvent::ScanReport { addr, addr_type, adv_type, rssi, data, data_len };
            let n: int = if data_len <= 27 {
                data_len as int
            } else {
                27
            };
            let rep = ble_report(evt, master);
            &&& rep is Some
            &&& rep.unwrap().0 == 0x3E
            &&& rep.unwrap().1.len() == 12 + n
            &&& rep.unwrap().1[0] == 0x02
            &&& rep.unwrap().1[1] == 1
            &&& rep.unwrap().1[2] == adv_type
            &&& (rep.unwrap().1[3] == 1) == !(addr_type is Public)
            &&& (rep.unwrap().1[3] == 0) == (addr_type is Public)
            &&& rep.unwrap().1.subrange(4, 10) == addr@
            &&& rep.unwrap().1[10] as int == n
            &&& rep.unwrap().1.subrange(11, 11 + n) == data@.take(n)
            &&& rep.unwrap().1[11 + n] == rssi as u8
        }),
{
    let evt = BleEvent::ScanReport { addr, addr_type, adv_type, rssi, data, data_len };
    let n: int = if data_len <= 27 {
        data_len as int
    } else {
        27
    };
    let p = ble_report(evt, master).unwrap().1;
    assert(p.subrange(4, 10) =~= addr@);
    assert(p.subrange(11, 11 + n) =~= data@.take(n));
}

} // verus!
