use nrf_ble::hci::{Hci, HciPacket, HCI_ACL_DATA, HCI_EVENT};
use nrf_ble::hci_host::{
    apply_request, HostRequest, HCI_EVT_COMMAND_COMPLETE, HCI_EVT_COMMAND_STATUS,
    HCI_EVT_DISCONNECTION_COMPLETE, HCI_EVT_LE_META, HCI_LE_ADVERTISING_REPORT, OCF_LE_CREATE_CONNECTION,
    OCF_LE_SET_ADV_DATA, OCF_LE_SET_ADV_ENABLE, OCF_LE_SET_RANDOM_ADDRESS, OCF_READ_BD_ADDR,
    OGF_HOST, OGF_LE,
};
use nrf_ble::hw::ble::{
    AdvListen, AdvParams, AdvState, AdvStep, AdvType, Ble, BleEvent, FilterPolicy, ScanAction,
    ScanParams, ScanState,
};
use nrf_ble::hw::conn::{ConnEvent, ConnRole, DisconnectReason};
use nrf_ble::ll::addr::AddrType;
use nrf_ble::ll::pdu::{AdvPdu, ConnectReqData};
use nrf_ble::Error;

const PEER: [u8; 6] = [0x11, 0x22, 0x33, 0x44, 0x55, 0x66];

fn ll_data() -> [u8; 22] {
    let ll = ConnectReqData {
        access_addr: 0xAF9A_9CDE,
        crc_init: 0x12_3456,
        win_size: 2,
        win_offset: 0,
        interval: 40,
        latency: 0,
        timeout: 400,
        channel_map: [0xFF, 0xFF, 0xFF, 0xFF, 0x1F],
        hop: 7,
        sca: 0,
    };
    let mut buf = [0u8; 22];
    ll.encode(&mut buf).unwrap();
    buf
}

fn drain(ble: &mut Ble) -> Vec<BleEvent> {
    let mut v = Vec::new();
    while let Some(e) = ble.next_event() {
        v.push(e);
    }
    v
}

// ---- event queue ----

#[test]
fn fresh_stack_is_idle() {
    let mut ble = Ble::new();
    assert_eq!(ble.adv_state, AdvState::Idle);
    assert_eq!(ble.scan_state, ScanState::Idle);
    assert!(ble.conn.is_none());
    assert!(ble.next_event().is_none());
}

#[test]
fn events_come_out_in_order() {
    let mut ble = Ble::new();
    ble.push_event(BleEvent::AdvStarted);
    ble.push_event(BleEvent::ConnData);
    ble.push_event(BleEvent::LlControl(3));
    assert_eq!(drain(&mut ble), vec![BleEvent::AdvStarted, BleEvent::ConnData, BleEvent::LlControl(3)]);
}

#[test]
fn overflowing_queue_keeps_the_newest_events() {
    let mut ble = Ble::new();
    for i in 0..10u8 {
        ble.push_event(BleEvent::LlControl(i));
    }
    let got = drain(&mut ble);
    let expected: Vec<BleEvent> = [3u8, 4, 5, 6, 7, 8, 9, 2].iter().map(|&i| BleEvent::LlControl(i)).collect();
    assert_eq!(got, expected);
}

// ---- advertising ----

#[test]
fn advertising_start_reports_and_schedules() {
    let mut ble = Ble::new();
    assert_eq!(ble.gap_adv_start(&AdvParams::default(), 1000), Ok(1000 + 3125));
    assert_eq!(ble.adv_state, AdvState::Running);
    assert_eq!(drain(&mut ble), vec![BleEvent::AdvStarted]);
    assert_eq!(ble.gap_adv_start(&AdvParams::default(), 1000), Err(Error::AlreadyRunning));
}

#[test]
fn advertising_parameters_are_checked() {
    let mut ble = Ble::new();
    let mut p = AdvParams::default();
    p.interval_min = 20;
    assert_eq!(ble.gap_adv_start(&p, 0), Err(Error::InvalidParam));
    let mut p = AdvParams::default();
    p.adv_type = AdvType::ConnectableDirected;
    assert_eq!(ble.gap_adv_start(&p, 0), Err(Error::InvalidParam));
    assert_eq!(ble.adv_state, AdvState::Idle);
}

#[test]
fn advertising_cycles_through_enabled_channels() {
    let mut ble = Ble::new();
    ble.gap_adv_set_configure(&[0x02, 0x01, 0x06], &[]).unwrap();
    ble.gap_adv_start(&AdvParams::default(), 0).unwrap();
    let mut channels = Vec::new();
    for _ in 0..4 {
        match ble.adv_tick_begin() {
            AdvStep::Send { channel, len, listen } => {
                assert_eq!(len, 2 + 6 + 3);
                assert_eq!(listen, AdvListen::ScanAndConnect);
                channels.push(channel);
            }
            other => panic!("expected a send, got {:?}", other),
        }
    }
    assert_eq!(channels, vec![37, 38, 39, 37]);
    assert_eq!(&ble.tx_buf[..11], &[0x00, 9 << 1, 0, 0, 0, 0, 0, 0, 0x02, 0x01, 0x06]);
}

#[test]
fn channel_map_restricts_advertising() {
    let mut ble = Ble::new();
    let mut p = AdvParams::default();
    p.channel_map = 0b100;
    ble.gap_adv_start(&p, 0).unwrap();
    for _ in 0..3 {
        match ble.adv_tick_begin() {
            AdvStep::Send { channel, .. } => assert_eq!(channel, 39),
            other => panic!("expected a send, got {:?}", other),
        }
    }
}

#[test]
fn stopping_advertising_takes_effect_at_the_next_event() {
    let mut ble = Ble::new();
    assert_eq!(ble.gap_adv_stop(), Err(Error::NotRunning));
    ble.gap_adv_start(&AdvParams::default(), 0).unwrap();
    drain(&mut ble);
    ble.gap_adv_stop().unwrap();
    assert_eq!(ble.adv_state, AdvState::StopPending);
    assert_eq!(ble.adv_tick_begin(), AdvStep::Stopped);
    assert_eq!(ble.adv_state, AdvState::Idle);
    assert_eq!(drain(&mut ble), vec![BleEvent::AdvStopped]);
    assert_eq!(ble.adv_tick_begin(), AdvStep::Idle);
}

#[test]
fn advertising_data_is_limited_to_31_bytes() {
    let mut ble = Ble::new();
    assert_eq!(ble.gap_adv_set_configure(&[0u8; 32], &[]), Err(Error::InvalidLength));
    assert_eq!(ble.gap_adv_set_configure(&[], &[0u8; 32]), Err(Error::InvalidLength));
    assert!(ble.gap_adv_set_configure(&[0u8; 31], &[1, 2]).is_ok());
    assert_eq!(ble.adv_data_len, 31);
    assert_eq!(ble.scan_rsp_len, 2);
}

#[test]
fn next_advertising_event_is_one_interval_later() {
    let mut ble = Ble::new();
    let mut p = AdvParams::default();
    p.interval_min = 33;
    ble.gap_adv_start(&p, 0).unwrap();
    assert_eq!(ble.adv_tick_end(100), 100 + 645);
    assert_eq!(ble.adv_tick_end(200), 200 + 644);
}

#[test]
fn scan_request_is_answered_with_scan_response() {
    let mut ble = Ble::new();
    ble.gap_address_set([1, 2, 3, 4, 5, 6], AddrType::Public);
    ble.gap_adv_set_configure(&[], &[0x03, 0x09, b'h', b'i']).unwrap();
    ble.gap_adv_start(&AdvParams::default(), 0).unwrap();
    let req = AdvPdu::ScanReq { scan_addr: PEER, adv_addr: [1, 2, 3, 4, 5, 6] };
    let mut buf = [0u8; 39];
    let n = req.encode(&mut buf).unwrap();
    let len = ble.adv_on_scan_or_connect(37, &buf[..n], 0).unwrap();
    assert_eq!(len, 2 + 6 + 4);
    let rsp = AdvPdu::decode(&ble.reply_buf[..len]).unwrap();
    assert_eq!(rsp, AdvPdu::ScanRsp { adv_addr: [1, 2, 3, 4, 5, 6], data: &[0x03, 0x09, b'h', b'i'] });
}

#[test]
fn connect_request_starts_a_peripheral_connection() {
    let mut ble = Ble::new();
    ble.gap_adv_start(&AdvParams::default(), 0).unwrap();
    drain(&mut ble);
    let ll = ll_data();
    let req = AdvPdu::ConnectReq { init_addr: PEER, adv_addr: [0; 6], ll_data: &ll };
    let mut buf = [0u8; 39];
    let n = req.encode(&mut buf).unwrap();
    assert_eq!(ble.adv_on_scan_or_connect(38, &buf[..n], 500), None);
    assert_eq!(ble.adv_state, AdvState::Idle);
    let c = ble.conn.as_ref().unwrap();
    assert_eq!(c.role, ConnRole::Slave);
    assert_eq!(c.channel, 38);
    assert_eq!(c.access_addr, 0xAF9A_9CDE);
    assert!(!ble.conn_is_master());
    let params = ConnectReqData::decode(&ll).unwrap();
    assert_eq!(
        drain(&mut ble),
        vec![
            BleEvent::Connected { conn: params },
            BleEvent::ConnectReqReceived { init_addr: PEER, conn: params }
        ]
    );
}

#[test]
fn other_packets_are_ignored_while_advertising() {
    let mut ble = Ble::new();
    ble.gap_adv_start(&AdvParams::default(), 0).unwrap();
    assert_eq!(ble.adv_on_scan_or_connect(37, &[0x00, 0x00], 0), None);
    assert!(ble.conn.is_none());
    assert_eq!(ble.adv_state, AdvState::Running);
}

#[test]
fn listen_window_filters_by_pdu_type() {
    assert!(Ble::window_accepts(1 << 3, &[0x03, 0x0C]));
    assert!(!Ble::window_accepts(1 << 3, &[0x05, 0x22]));
    assert!(!Ble::window_accepts(0xFFFF, &[0x03]));
}

// ---- scanning and initiating ----

fn adv_ind_from(addr: [u8; 6], data: &[u8]) -> ([u8; 39], usize) {
    let mut buf = [0u8; 39];
    let n = AdvPdu::AdvInd { adv_addr: addr, data }.encode(&mut buf).unwrap();
    (buf, n)
}

#[test]
fn passive_scan_reports_advertisers() {
    let mut ble = Ble::new();
    assert_eq!(ble.gap_scan_start(&ScanParams::default(), 0), Ok(1562));
    assert_eq!(drain(&mut ble), vec![BleEvent::ScanStarted]);
    let (pkt, n) = adv_ind_from(PEER, &[0x02, 0x01, 0x06]);
    assert_eq!(ble.handle_scan_pdu(&pkt[..n], -40), ScanAction::Nothing);
    match drain(&mut ble).as_slice() {
        [BleEvent::ScanReport { addr, adv_type, rssi, data, data_len, .. }] => {
            assert_eq!(*addr, PEER);
            assert_eq!(*adv_type, 0);
            assert_eq!(*rssi, -40);
            assert_eq!(&data[..*data_len], &[0x02, 0x01, 0x06]);
        }
        other => panic!("expected one report, got {:?}", other),
    }
}

#[test]
fn accept_list_policy_filters_reports() {
    let mut ble = Ble::new();
    let mut p = ScanParams::default();
    p.filter_policy = FilterPolicy::AcceptList;
    ble.gap_scan_start(&p, 0).unwrap();
    drain(&mut ble);
    let (pkt, n) = adv_ind_from(PEER, &[]);
    ble.handle_scan_pdu(&pkt[..n], -50);
    assert!(drain(&mut ble).is_empty());
    assert!(ble.gap_accept_list_add(PEER, AddrType::RandomPrivateResolvable));
    assert_eq!(ble.gap_accept_list_len(), 1);
    ble.handle_scan_pdu(&pkt[..n], -50);
    assert_eq!(drain(&mut ble).len(), 1);
    ble.gap_accept_list_clear();
    assert_eq!(ble.gap_accept_list_len(), 0);
}

#[test]
fn active_scan_sends_scan_request() {
    let mut ble = Ble::new();
    let mut p = ScanParams::default();
    p.active = true;
    ble.gap_scan_start(&p, 0).unwrap();
    let (pkt, n) = adv_ind_from(PEER, &[]);
    match ble.handle_scan_pdu(&pkt[..n], -30) {
        ScanAction::ScanReq(len) => {
            assert_eq!(len, 14);
            assert_eq!(
                AdvPdu::decode(&ble.reply_buf[..len]).unwrap(),
                AdvPdu::ScanReq { scan_addr: [0; 6], adv_addr: PEER }
            );
        }
        other => panic!("expected a scan request, got {:?}", other),
    }
}

#[test]
fn scanning_parameters_are_checked() {
    let mut ble = Ble::new();
    let mut p = ScanParams::default();
    p.window = p.interval + 1;
    assert_eq!(ble.gap_scan_start(&p, 0), Err(Error::InvalidParam));
    assert_eq!(ble.gap_scan_stop(), Err(Error::NotRunning));
}

#[test]
fn connecting_to_a_target_sends_connect_request() {
    let mut ble = Ble::new();
    assert_eq!(ble.gap_connect(PEER, AddrType::Public, 0), Ok(1953));
    drain(&mut ble);
    let (pkt, n) = adv_ind_from(PEER, &[]);
    match ble.handle_scan_pdu(&pkt[..n], -30) {
        ScanAction::ConnectReq(len) => {
            assert_eq!(len, 36);
            match AdvPdu::decode(&ble.reply_buf[..len]).unwrap() {
                AdvPdu::ConnectReq { adv_addr, ll_data, .. } => {
                    assert_eq!(adv_addr, PEER);
                    let d = ConnectReqData::decode(ll_data).unwrap();
                    assert_eq!(d.interval, 24);
                    assert_eq!(d.hop, 13);
                }
                other => panic!("expected a connect request, got {:?}", other),
            }
        }
        other => panic!("expected a connect request, got {:?}", other),
    }
    ble.connect_req_sent(100);
    assert_eq!(ble.scan_state, ScanState::Idle);
    assert!(ble.connect_target.is_none());
    assert!(ble.conn_is_master());
    assert_eq!(ble.conn.as_ref().unwrap().channel, 37);
    assert!(matches!(drain(&mut ble).as_slice(), [BleEvent::Connected { .. }]));
    assert_eq!(ble.gap_connect(PEER, AddrType::Public, 0).is_ok(), true);
}

// ---- connection management ----

fn connected() -> Ble {
    let mut ble = Ble::new();
    ble.gap_connect(PEER, AddrType::Public, 0).unwrap();
    ble.connect_req_sent(0);
    drain(&mut ble);
    ble
}

#[test]
fn supervision_timeout_closes_the_link() {
    let mut ble = connected();
    assert!(ble.conn_tick_begin(1000));
    assert!(!ble.conn_tick_begin(2000 * 313));
    assert!(ble.conn.is_none());
    assert_eq!(drain(&mut ble), vec![BleEvent::Disconnected { reason: DisconnectReason::SupervisionTimeout }]);
}

#[test]
fn connection_event_outcomes_are_reported() {
    let mut ble = connected();
    assert!(ble.conn_tick_finish(Ok(ConnEvent::Control(0x0C))));
    assert!(ble.conn_tick_finish(Ok(ConnEvent::L2cap(0x0041))));
    assert_eq!(drain(&mut ble), vec![BleEvent::LlControl(0x0C), BleEvent::L2cap(0x0041)]);
    assert!(!ble.conn_tick_finish(Err(Error::CrcMismatch)));
    assert_eq!(drain(&mut ble), vec![BleEvent::Disconnected { reason: DisconnectReason::LocalError }]);
}

#[test]
fn connection_operations_need_a_connection() {
    let mut ble = Ble::new();
    assert_eq!(ble.conn_send(b"x"), Err(Error::NotRunning));
    assert_eq!(ble.gap_terminate(), Err(Error::NotRunning));
    assert_eq!(ble.gatt_read(3), Err(Error::NotRunning));
    assert!(ble.gatt_poll().is_none());
    assert!(!ble.conn_tick_begin(0));
}

#[test]
fn gatt_client_requests_are_queued() {
    let mut ble = connected();
    ble.gatt_read(0x0005).unwrap();
    let c = ble.conn.as_ref().unwrap();
    assert_eq!(&c.tx_att[..c.tx_att_len], &[0x0A, 0x05, 0x00]);
    assert!(c.pending_request);
    ble.gatt_write(0x0003, b"hi").unwrap();
    let c = ble.conn.as_ref().unwrap();
    assert_eq!(&c.tx_att[..c.tx_att_len], &[0x12, 0x03, 0x00, b'h', b'i']);
    ble.gatt_subscribe(0x0006).unwrap();
    let c = ble.conn.as_ref().unwrap();
    assert_eq!(&c.tx_att[..c.tx_att_len], &[0x12, 0x06, 0x00, 0x01, 0x00]);
    ble.gatt_discover_primary_services().unwrap();
    let c = ble.conn.as_ref().unwrap();
    assert_eq!(&c.tx_att[..c.tx_att_len], &[0x10, 0x00, 0x28, 0x01, 0x00, 0xFF, 0xFF]);
}

#[test]
fn termination_is_requested_on_the_connection() {
    let mut ble = connected();
    ble.gap_terminate().unwrap();
    assert!(ble.conn.as_ref().unwrap().terminate_pending);
}

#[test]
fn bonds_are_kept_by_the_connection() {
    let mut ble = connected();
    ble.gap_bond_save(PEER, [9; 16], None);
    assert_eq!(ble.gap_bond_find(&PEER).unwrap().ltk, [9; 16]);
    assert!(ble.gap_bond_find(&[0; 6]).is_none());
}

#[test]
fn privacy_rotates_to_a_resolvable_address() {
    let mut ble = Ble::new();
    assert!(!ble.gap_rotate_rpa(0x123456));
    ble.gap_privacy_set([0x11; 16]);
    assert!(ble.gap_rotate_rpa(0x123456));
    assert_eq!(ble.own_addr[5] >> 6, 0b01);
    assert!(nrf_ble::ll::priv_::resolve_rpa(&[0x11; 16], &ble.own_addr));
}

// ---- HCI host side ----

fn command(ogf: u8, ocf: u16, params: &[u8]) -> HciPacket {
    HciPacket::command(ogf, ocf, params)
}

#[test]
fn read_bd_addr_is_answered_with_command_complete() {
    let mut hci = Hci::new();
    let mut ble = Ble::new();
    hci.own_addr = [1, 2, 3, 4, 5, 6];
    assert_eq!(hci.on_packet(&mut ble, &command(OGF_HOST, OCF_READ_BD_ADDR, &[]), 0), None);
    let evt = hci.next_event().unwrap();
    assert_eq!(evt.packet_type, HCI_EVENT);
    assert_eq!(&evt.payload[..evt.len], &[HCI_EVT_COMMAND_COMPLETE, 10, 1, 0x09, 0x0C, 0, 1, 2, 3, 4, 5, 6]);
}

#[test]
fn adv_enable_command_starts_advertising() {
    let mut hci = Hci::new();
    let mut ble = Ble::new();
    let r = hci.on_packet(&mut ble, &command(OGF_LE, OCF_LE_SET_ADV_ENABLE, &[1]), 10);
    assert_eq!(r, Some(10 + 3125));
    assert_eq!(ble.adv_state, AdvState::Running);
    assert!(hci.adv_enabled);
    let r = hci.on_packet(&mut ble, &command(OGF_LE, OCF_LE_SET_ADV_ENABLE, &[0]), 10);
    assert_eq!(r, None);
    assert_eq!(ble.adv_state, AdvState::StopPending);
}

#[test]
fn adv_data_command_sets_the_data() {
    let mut hci = Hci::new();
    let mut ble = Ble::new();
    let mut params = [0u8; 32];
    params[0] = 3;
    params[1..4].copy_from_slice(&[0x02, 0x01, 0x06]);
    hci.on_packet(&mut ble, &command(OGF_LE, OCF_LE_SET_ADV_DATA, &params), 0);
    assert_eq!(ble.adv_data_len, 3);
    assert_eq!(&ble.adv_data[..3], &[0x02, 0x01, 0x06]);
}

#[test]
fn create_connection_is_answered_with_command_status() {
    let mut hci = Hci::new();
    let mut ble = Ble::new();
    let mut params = [0u8; 25];
    params[14..20].copy_from_slice(&PEER);
    let r = hci.on_packet(&mut ble, &command(OGF_LE, OCF_LE_CREATE_CONNECTION, &params), 0);
    assert_eq!(r, Some(1953));
    assert_eq!(ble.connect_target, Some(PEER));
    let evt = hci.next_event().unwrap();
    assert_eq!(evt.payload[0], HCI_EVT_COMMAND_STATUS);
}

#[test]
fn set_random_address_updates_the_controller_address() {
    let mut hci = Hci::new();
    let mut ble = Ble::new();
    hci.on_packet(&mut ble, &command(OGF_LE, OCF_LE_SET_RANDOM_ADDRESS, &[6, 5, 4, 3, 2, 1]), 0);
    assert_eq!(hci.own_addr, [6, 5, 4, 3, 2, 1]);
}

#[test]
fn acl_packets_change_nothing() {
    let mut hci = Hci::new();
    let mut ble = Ble::new();
    let pkt = HciPacket::acl(0, &[1, 2, 3]);
    assert_eq!(pkt.packet_type, HCI_ACL_DATA);
    assert_eq!(hci.on_packet(&mut ble, &pkt, 0), None);
    assert!(hci.next_event().is_none());
}

#[test]
fn stack_events_are_reported_to_the_host() {
    let mut hci = Hci::new();
    let mut ble = Ble::new();
    ble.push_event(BleEvent::AdvStarted);
    ble.push_event(BleEvent::ScanReport {
        addr: PEER,
        addr_type: AddrType::Public,
        adv_type: 0,
        rssi: -20,
        data: [7; 31],
        data_len: 2,
    });
    ble.push_event(BleEvent::Disconnected { reason: DisconnectReason::SupervisionTimeout });
    hci.tick(&mut ble);
    assert!(ble.next_event().is_none());
    let report = hci.next_event().unwrap();
    assert_eq!(
        &report.payload[..report.len],
        &[HCI_EVT_LE_META, 14, HCI_LE_ADVERTISING_REPORT, 1, 0, 0, 0x11, 0x22, 0x33, 0x44, 0x55, 0x66, 2, 7, 7, 0xEC]
    );
    let disc = hci.next_event().unwrap();
    assert_eq!(&disc.payload[..disc.len], &[HCI_EVT_DISCONNECTION_COMPLETE, 4, 0, 0, 0, 2]);
    assert!(hci.next_event().is_none());
}

#[test]
fn requests_apply_to_the_stack() {
    let mut ble = Ble::new();
    assert_eq!(apply_request(&mut ble, &HostRequest::ScanEnable(true), 0), Some(1562));
    assert_eq!(ble.scan_state, ScanState::Running);
    assert_eq!(apply_request(&mut ble, &HostRequest::ScanEnable(false), 0), None);
    assert_eq!(ble.scan_state, ScanState::StopPending);
    assert_eq!(apply_request(&mut ble, &HostRequest::Nothing, 0), None);
}

#[test]
fn pairing_request_goes_out_as_one_smp_pdu() {
    let mut ble = connected();
    ble.gap_pair().unwrap();
    let c = ble.conn.as_mut().unwrap();
    assert_eq!(c.tx_cid, 0x0006);
    assert_eq!(&c.tx_att[..c.tx_att_len], &[0x01, 0x03, 0x00, 0x01, 0x10, 0x01, 0x01]);
    let n = c.tx_fragment();
    assert_eq!(&c.tx_buf[1..n], &[11, 7, 0, 6, 0, 0x01, 0x03, 0x00, 0x01, 0x10, 0x01, 0x01]);
}

#[test]
fn written_data_stays_readable_after_the_event() {
    let mut ble = connected();
    let mut result = ConnEvent::Idle;
    ble.conn.as_mut().unwrap().handle_att(&[0x12, 0x03, 0x00, b'h', b'i'], &mut result);
    assert!(ble.conn_tick_finish(Ok(result)));
    assert_eq!(drain(&mut ble), vec![BleEvent::ConnData]);
    assert_eq!(ble.conn_rx_data(), b"hi");
    assert!(ble.conn_tick_begin(10));
    assert_eq!(ble.conn_rx_data(), b"");
}

#[test]
fn scan_response_leaves_the_advertising_pdu() {
    let mut ble = Ble::new();
    ble.gap_address_set([1, 2, 3, 4, 5, 6], AddrType::Public);
    ble.gap_adv_set_configure(&[0x02, 0x01, 0x06], &[0x03, 0x09, b'h', b'i']).unwrap();
    ble.gap_adv_start(&AdvParams::default(), 0).unwrap();
    ble.adv_tick_begin();
    let snapshot: Vec<u8> = ble.adv_pdu_snapshot().to_vec();
    let req = AdvPdu::ScanReq { scan_addr: PEER, adv_addr: [1, 2, 3, 4, 5, 6] };
    let mut buf = [0u8; 39];
    let n = req.encode(&mut buf).unwrap();
    assert!(ble.adv_on_scan_or_connect(37, &buf[..n], 0).is_some());
    assert!(ble.adv_on_scan_req().is_some());
    assert_eq!(ble.adv_pdu_snapshot(), snapshot.as_slice());
    assert_eq!(
        AdvPdu::decode(ble.adv_pdu_snapshot()).unwrap(),
        AdvPdu::AdvInd { adv_addr: [1, 2, 3, 4, 5, 6], data: &[0x02, 0x01, 0x06] }
    );
}

#[test]
fn events_are_queued_even_when_the_queue_is_full() {
    let mut ble = Ble::new();
    for i in 0..7u8 {
        ble.push_event(BleEvent::LlControl(i));
    }
    ble.gap_adv_start(&AdvParams::default(), 0).unwrap();
    let got = drain(&mut ble);
    let mut expected: Vec<BleEvent> = (1..7u8).map(BleEvent::LlControl).collect();
    expected.push(BleEvent::AdvStarted);
    expected.push(BleEvent::LlControl(0));
    assert_eq!(got, expected);
}

#[test]
fn host_ring_takes_replies_when_full() {
    let mut hci = Hci::new();
    let mut ble = Ble::new();
    for _ in 0..20 {
        hci.on_packet(&mut ble, &command(OGF_HOST, OCF_READ_BD_ADDR, &[]), 0);
    }
    let mut count = 0;
    while let Some(evt) = hci.next_event() {
        assert_eq!(evt.payload[0], HCI_EVT_COMMAND_COMPLETE);
        count += 1;
    }
    assert_eq!(count, 16);
}

#[test]
fn tick_reports_connection_events_in_order() {
    let mut hci = Hci::new();
    let mut ble = connected();
    ble.push_event(BleEvent::Connected { conn: ConnectReqData::decode(&ll_data()).unwrap() });
    ble.push_event(BleEvent::Disconnected { reason: DisconnectReason::RemoteTerminate });
    hci.tick(&mut ble);
    let first = hci.next_event().unwrap();
    assert_eq!(&first.payload[..4], &[HCI_EVT_LE_META, 21, 0x01, 0x00]);
    assert_eq!(first.payload[7], 1);
    let second = hci.next_event().unwrap();
    assert_eq!(&second.payload[..second.len], &[HCI_EVT_DISCONNECTION_COMPLETE, 4, 0, 0, 0, 0]);
    assert!(!hci.connection_open);
}
