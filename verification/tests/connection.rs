use nrf_ble::hw::conn::{
    header_byte, next_channel, BondStore, Conn, ConnEvent, ConnRole, DisconnectReason, RamBondStore,
    COC_LOCAL_CID, COC_MTU, LE_CREDIT_BASED_CONNECTION_REQ, LE_CREDIT_BASED_CONNECTION_RSP,
    L2CAP_ATT_CID, L2CAP_SIGNALING_CID, LL_CONTROL_CONNECTION_UPDATE_REQ, LL_CONTROL_ENCRYPT_REQ,
    LL_CONTROL_ENCRYPT_RSP, LL_CONTROL_FEATURE_REQ, LL_CONTROL_FEATURE_RSP, LL_CONTROL_LENGTH_REQ,
    LL_CONTROL_LENGTH_RSP, LL_CONTROL_PHY_REQ, LL_CONTROL_PHY_RSP, LL_CONTROL_PING_REQ,
    LL_CONTROL_PING_RSP, LL_CONTROL_START_ENC_REQ, LL_CONTROL_START_ENC_RSP,
    LL_CONTROL_TERMINATE_IND, LL_CONTROL_UNKNOWN_RSP, LL_CONTROL_VERSION_IND, NUS_RX_CHAR_UUID,
    NUS_SERVICE_UUID,
};
use nrf_ble::hw::ll_control::LlTx;
use nrf_ble::ll::pdu::{
    ConnectReqData, LLID_CONTROL, LLID_DATA_COMPLETE, LLID_DATA_CONTINUATION_OR_COMPLETE,
    LLID_DATA_START,
};
use nrf_ble::Error;

fn params() -> ConnectReqData {
    ConnectReqData {
        access_addr: 0x1234_ABCD,
        crc_init: 0x654321,
        win_size: 1,
        win_offset: 0,
        interval: 24,
        latency: 0,
        timeout: 2000,
        channel_map: [0xFF, 0xFF, 0xFF, 0xFF, 0x1F],
        hop: 13,
        sca: 2,
    }
}

fn conn() -> Conn {
    Conn::new(&params(), 37, 0, ConnRole::Slave)
}

fn master_conn() -> Conn {
    Conn::new(&params(), 37, 0, ConnRole::Master)
}

fn run_att(conn: &mut Conn, request: &[u8]) -> [u8; 256] {
    let mut result = ConnEvent::Idle;
    let mut out = [0u8; 256];
    let mut att = [0u8; 64];
    att[..request.len()].copy_from_slice(request);
    conn.handle_att(&att[..request.len()], &mut result);
    let n = conn.tx_att_len;
    out[..n].copy_from_slice(&conn.tx_att[..n]);
    out
}

fn client_request(conn: &mut Conn, f: impl FnOnce(&mut Conn)) -> [u8; 32] {
    f(conn);
    let mut out = [0u8; 32];
    let n = conn.tx_att_len;
    out[..n].copy_from_slice(&conn.tx_att[..n]);
    out
}

fn feed_response(conn: &mut Conn, rsp: &[u8]) {
    let mut result = ConnEvent::Idle;
    conn.handle_att(rsp, &mut result);
}

fn open_coc(c: &mut Conn, credits: u8) {
    let req = [0x14u8, 0x00, 0x34, 0x12, 0x41, 0x00, 0xF7, 0x00, 0xFB, 0x00, credits, 0x00];
    c.handle_le_signaling(&req);
}

// ---- ATT server ----

#[test]
fn exchange_mtu() {
    let mut c = conn();
    let rsp = run_att(&mut c, &[0x02, 0x27, 0x00]);
    assert_eq!(&rsp[..5], &[0x03, 23, 0, 0, 0]);
    assert_eq!(rsp[0], 0x03);
}

#[test]
fn find_information_lists_handles() {
    let mut c = conn();
    let rsp = run_att(&mut c, &[0x04, 0x01, 0x00, 0xFF, 0xFF]);
    assert_eq!(rsp[0], 0x05);
    assert_eq!(rsp[1], 0x02);
    assert_eq!(&rsp[2..4], &[0x01, 0x00]);
    assert_eq!(&rsp[4..20], &NUS_SERVICE_UUID);
}

#[test]
fn read_by_group_type_primary_service() {
    let mut c = conn();
    let rsp = run_att(&mut c, &[0x10, 0x00, 0x28, 0x01, 0x00, 0xFF, 0xFF]);
    assert_eq!(rsp[0], 0x11);
    assert_eq!(rsp[1], 18);
    assert_eq!(&rsp[2..4], &[0x01, 0x00]);
    assert_eq!(&rsp[4..20], &NUS_SERVICE_UUID);
}

#[test]
fn read_by_type_characteristics() {
    let mut c = conn();
    let rsp = run_att(&mut c, &[0x08, 0x03, 0x28, 0x01, 0x00, 0xFF, 0xFF]);
    assert_eq!(rsp[0], 0x09);
    assert_eq!(rsp[1], 21);
    assert_eq!(&rsp[2..4], &[0x02, 0x00]);
    assert_eq!(rsp[4], 0x08);
    assert_eq!(&rsp[5..7], &[0x03, 0x00]);
    assert_eq!(&rsp[7..23], &NUS_RX_CHAR_UUID);
}

#[test]
fn write_rx_characteristic_reports_data() {
    let mut c = conn();
    let mut result = ConnEvent::Idle;
    let mut att = [0u8; 64];
    let req = [0x12u8, 0x03, 0x00, b'h', b'i'];
    att[..req.len()].copy_from_slice(&req);
    c.handle_att(&att[..req.len()], &mut result);
    assert_eq!(result, ConnEvent::Data);
    assert_eq!(&c.rx_data[..2], b"hi");
    assert_eq!(c.tx_att[0], 0x13);
}

#[test]
fn write_cccd_enables_notifications() {
    let mut c = conn();
    let mut result = ConnEvent::Idle;
    let mut att = [0u8; 64];
    let req = [0x12u8, 0x06, 0x00, 0x01, 0x00];
    att[..req.len()].copy_from_slice(&req);
    c.handle_att(&att[..req.len()], &mut result);
    assert_eq!(c.nus_cccd, 0x01);
}

#[test]
fn read_cccd() {
    let mut c = conn();
    c.nus_cccd = 1;
    let rsp = run_att(&mut c, &[0x0A, 0x06, 0x00]);
    assert_eq!(&rsp[..3], &[0x0B, 0x01, 0x00]);
}

#[test]
fn queue_notify_builds_att_pdu() {
    let mut c = conn();
    c.queue_notify(b"ping").unwrap();
    assert_eq!(c.tx_att[0], 0x1B);
    assert_eq!(&c.tx_att[1..3], &[0x05, 0x00]);
    assert_eq!(&c.tx_att[3..7], b"ping");
}

#[test]
fn channel_hopping_skips_unused_channels() {
    let mut map = [0xFFu8; 5];
    map[0] = 0xFC;
    let ch = next_channel(0, 1, &map);
    assert_eq!(ch, 2);
}

#[test]
fn terminate_flag_sends_control_pdu() {
    let mut c = conn();
    c.terminate();
    assert!(c.terminate_pending);
}

#[test]
fn read_blob_serves_offset() {
    let mut c = conn();
    c.nus_cccd = 0;
    let mut out = [0u8; 256];
    let req = [0x0Cu8, 0x05, 0x00, 0x00, 0x00];
    let mut result = ConnEvent::Idle;
    c.handle_att(&req, &mut result);
    let n = c.tx_att_len;
    out[..n].copy_from_slice(&c.tx_att[..n]);
    assert_eq!(out[0], 0x01);
}

#[test]
fn unknown_att_request_gets_error_response() {
    let mut c = conn();
    let rsp = run_att(&mut c, &[0x30, 0x01, 0x00]);
    assert_eq!(&rsp[..5], &[0x01, 0x30, 0x00, 0x00, 0x06]);
}

#[test]
fn read_of_missing_handle_is_an_error() {
    let mut c = conn();
    let rsp = run_att(&mut c, &[0x0A, 0x40, 0x00]);
    assert_eq!(&rsp[..5], &[0x01, 0x0A, 0x00, 0x00, 0x0A]);
}

#[test]
fn notify_payload_is_capped() {
    let mut c = conn();
    assert!(c.queue_notify(&[0u8; 300]).is_ok());
    assert_eq!(c.tx_att_len, 3 + 244);
    assert!(c.tx_pending);
}

// ---- GATT client ----

#[test]
fn discover_primary_services_request() {
    let mut c = master_conn();
    let req = client_request(&mut c, |c| c.gatt_send_request(&[0x10, 0x00, 0x28, 0x01, 0x00, 0xFF, 0xFF]));
    assert_eq!(&req[..7], &[0x10, 0x00, 0x28, 0x01, 0x00, 0xFF, 0xFF]);
}

#[test]
fn read_request_format() {
    let mut c = master_conn();
    let req = client_request(&mut c, |c| c.gatt_send_request(&[0x0A, 0x05, 0x00]));
    assert_eq!(&req[..3], &[0x0A, 0x05, 0x00]);
}

#[test]
fn write_request_format() {
    let mut c = master_conn();
    let req = client_request(&mut c, |c| {
        let mut r = [0u8; 23];
        r[0] = 0x12;
        r[1..3].copy_from_slice(&0x0003u16.to_le_bytes());
        r[3..5].copy_from_slice(b"hi");
        c.gatt_send_request(&r[..5]);
    });
    assert_eq!(&req[..5], &[0x12, 0x03, 0x00, b'h', b'i']);
}

#[test]
fn response_routing_stores_result() {
    let mut c = master_conn();
    c.gatt_send_request(&[0x10, 0x00, 0x28, 0x01, 0x00, 0xFF, 0xFF]);
    feed_response(&mut c, &[0x11, 18, 0x01, 0x00, 0x9E, 0xCA, 0xDC, 0x24]);
    let (op, buf, len) = c.gatt_take_result();
    assert_eq!(op, 0x11);
    assert_eq!(&buf[..len], &[0x11, 18, 0x01, 0x00, 0x9E, 0xCA, 0xDC, 0x24]);
}

#[test]
fn notification_routed_as_data() {
    let mut c = master_conn();
    let mut result = ConnEvent::Idle;
    c.handle_att(&[0x1B, 0x05, 0x00, b'n', b'o', b't'], &mut result);
    assert_eq!(result, ConnEvent::Data);
    assert_eq!(&c.rx_data[..3], b"not");
}

#[test]
fn response_clears_pending() {
    let mut c = master_conn();
    c.gatt_send_request(&[0x0A, 0x05, 0x00]);
    assert!(c.pending_request);
    feed_response(&mut c, &[0x0B, 0x01, 0x02, 0x03]);
    assert!(!c.pending_request);
}

#[test]
fn discovery_last_handle_parsing() {
    let rsp = [0x11u8, 18, 0x01, 0x00, 1, 2, 3, 4, 5, 6, 7, 8, 9, 10, 11, 12, 13, 14, 15, 16];
    assert_eq!(Conn::att_response_last_handle(&rsp), Some(0x0001));
    let rsp2 = [0x09u8, 7, 0x02, 0x00, 1, 2, 3, 4, 5, 0x05, 0x00, 6, 7, 8, 9, 10];
    assert_eq!(Conn::att_response_last_handle(&rsp2), Some(0x0005));
    assert_eq!(Conn::att_response_last_handle(&[0x09]), None);
}

#[test]
fn error_response_routed() {
    let mut c = master_conn();
    c.gatt_send_request(&[0x0A, 0x05, 0x00]);
    feed_response(&mut c, &[0x01, 0x0A, 0x05, 0x00, 0x0A]);
    let (op, _, _) = c.gatt_take_result();
    assert_eq!(op, 0x01);
}

#[test]
fn taking_a_result_clears_it() {
    let mut c = master_conn();
    c.gatt_send_request(&[0x0A, 0x05, 0x00]);
    feed_response(&mut c, &[0x0B, 0x01]);
    let (_, _, len) = c.gatt_take_result();
    assert_eq!(len, 2);
    let (op, _, len) = c.gatt_take_result();
    assert_eq!((op, len), (0, 0));
}

// ---- data path ----

#[test]
fn mtu_exchange_negotiates_min() {
    let mut c = conn();
    c.gatt_send_request(&[0x02, 0x10, 0x00]);
    c.handle_att(&[0x03, 0x17, 0x00], &mut ConnEvent::Idle);
    assert_eq!(c.att_mtu, 23);
    c.att_mtu = 247;
    c.gatt_send_request(&[0x02, 0xF7, 0x00]);
    c.handle_att(&[0x03, 0x27, 0x00], &mut ConnEvent::Idle);
    assert_eq!(c.att_mtu, 39);
}

#[test]
fn long_att_pdu_fragments_across_events() {
    let mut c = conn();
    let big = [0x42u8; 60];
    c.queue_att(&big);
    c.tx_fragment();
    let buf = c.tx_buf;
    assert_eq!(buf[0] & 0b11, LLID_DATA_START);
    assert_eq!(buf[1] as usize, 4 + 23);
    assert!(c.tx_pending);
    c.tx_fragment();
    let buf = c.tx_buf;
    assert_eq!(buf[0] & 0b11, LLID_DATA_CONTINUATION_OR_COMPLETE);
    assert_eq!(buf[1] as usize, 27);
    c.tx_fragment();
    let buf = c.tx_buf;
    assert_eq!(buf[0] & 0b11, LLID_DATA_CONTINUATION_OR_COMPLETE);
    assert_eq!(buf[1] as usize, 10);
    assert!(!c.tx_pending);
}

#[test]
fn single_pdu_uses_complete_llid() {
    let mut c = conn();
    c.queue_att(&[0x42u8; 10]);
    c.tx_fragment();
    let buf = c.tx_buf;
    assert_eq!(buf[0] & 0b11, LLID_DATA_COMPLETE);
    assert!(!c.tx_pending);
}

#[test]
fn rx_reassembly_across_fragments() {
    let mut c = conn();
    let mut result = ConnEvent::Idle;
    let mut f1 = [0u8; 7];
    f1[0..2].copy_from_slice(&5u16.to_le_bytes());
    f1[2..4].copy_from_slice(&L2CAP_ATT_CID.to_le_bytes());
    f1[4..7].copy_from_slice(&[0x0A, 0x06, 0x00]);
    c.handle_l2cap(&f1, LLID_DATA_START, &mut result);
    assert_eq!(c.rx_l2cap_len, 3);
    let f2 = [0x01u8, 0x02];
    c.handle_l2cap(&f2, LLID_DATA_CONTINUATION_OR_COMPLETE, &mut result);
    assert_eq!(c.rx_l2cap_len, 0);
    assert!(c.tx_pending);
}

#[test]
fn fragment_header_carries_l2cap_length_and_cid() {
    let mut c = conn();
    c.queue_att(&[0x42u8; 10]);
    let n = c.tx_fragment();
    assert_eq!(n, 2 + 4 + 10);
    assert_eq!(&c.tx_buf[2..6], &[10, 0, 0x04, 0x00]);
    assert_eq!(&c.tx_buf[6..16], &[0x42u8; 10]);
}

#[test]
fn header_byte_layout() {
    assert_eq!(header_byte(LLID_CONTROL, true, false), 0b0000_0110);
    assert_eq!(header_byte(LLID_DATA_START, false, true), 0b0000_1001);
}

// ---- LL control ----

#[test]
fn dle_negotiation_updates_pdu_max() {
    let mut c = conn();
    let mut req = [0u8; 9];
    req[0] = LL_CONTROL_LENGTH_REQ;
    req[1..3].copy_from_slice(&251u16.to_le_bytes());
    req[3..5].copy_from_slice(&2120u16.to_le_bytes());
    req[5..7].copy_from_slice(&251u16.to_le_bytes());
    req[7..9].copy_from_slice(&2120u16.to_le_bytes());
    c.handle_ll_control(&req).unwrap();
    assert_eq!(c.tx_pdu_max, 251);
    assert!(c.pending_control.is_some());
}

#[test]
fn ll_control_opcodes_match_spec() {
    assert_eq!(LL_CONTROL_CONNECTION_UPDATE_REQ, 0x00);
    assert_eq!(LL_CONTROL_TERMINATE_IND, 0x02);
    assert_eq!(LL_CONTROL_ENCRYPT_REQ, 0x03);
    assert_eq!(LL_CONTROL_ENCRYPT_RSP, 0x04);
    assert_eq!(LL_CONTROL_START_ENC_REQ, 0x05);
    assert_eq!(LL_CONTROL_START_ENC_RSP, 0x06);
    assert_eq!(LL_CONTROL_UNKNOWN_RSP, 0x07);
    assert_eq!(LL_CONTROL_FEATURE_REQ, 0x08);
    assert_eq!(LL_CONTROL_FEATURE_RSP, 0x09);
    assert_eq!(LL_CONTROL_VERSION_IND, 0x0C);
    assert_eq!(LL_CONTROL_PING_REQ, 0x12);
    assert_eq!(LL_CONTROL_PING_RSP, 0x13);
    assert_eq!(LL_CONTROL_LENGTH_REQ, 0x14);
    assert_eq!(LL_CONTROL_LENGTH_RSP, 0x15);
    assert_eq!(LL_CONTROL_PHY_REQ, 0x16);
    assert_eq!(LL_CONTROL_PHY_RSP, 0x17);
}

#[test]
fn ping_is_answered_with_ping_rsp() {
    let mut c = conn();
    let payload = [LL_CONTROL_PING_REQ];
    c.handle_ll_control(&payload).unwrap();
    let rsp = c.pending_control.unwrap();
    assert_eq!(rsp[0], LL_CONTROL_PING_RSP);
}

#[test]
fn unknown_opcode_gets_unknown_rsp() {
    let mut c = conn();
    c.handle_ll_control(&[0x7F]).unwrap();
    let rsp = c.pending_control.unwrap();
    assert_eq!(rsp[0], LL_CONTROL_UNKNOWN_RSP);
    assert_eq!(rsp[1], 0x7F);
}

#[test]
fn terminate_ind_ends_the_link() {
    let mut c = conn();
    assert_eq!(c.handle_ll_control(&[LL_CONTROL_TERMINATE_IND, 0x13]), Err(DisconnectReason::RemoteTerminate));
}

#[test]
fn version_ind_is_answered_at_once() {
    let mut c = conn();
    let tx = c.handle_ll_control(&[LL_CONTROL_VERSION_IND, 0x09, 0x59, 0x00, 0x01, 0x00]).unwrap();
    assert_eq!(tx, LlTx::Send { len: 8, encrypt: false });
    assert_eq!(&c.tx_buf[1..8], &[4, LL_CONTROL_VERSION_IND, 0x0C, 0xFF, 0xFF, 0x00, 0x00]);
    assert!(c.peer_version_ok);
}

#[test]
fn connection_update_is_scheduled() {
    let mut c = conn();
    let req = [LL_CONTROL_CONNECTION_UPDATE_REQ, 1, 0, 40, 0, 0, 0, 100, 0, 5, 0];
    assert_eq!(c.handle_ll_control(&req), Ok(LlTx::Nothing));
    assert_eq!(c.pending_update, Some((40, 100)));
    assert_eq!(c.pending_update_instant, 5);
}

// ---- L2CAP credit-based channels ----

#[test]
fn open_request_builds_correct_message() {
    let mut c = conn();
    c.l2cap_connect(0x1234);
    let msg = &c.tx_att[..c.tx_att_len];
    assert_eq!(msg[0], LE_CREDIT_BASED_CONNECTION_REQ);
    assert_eq!(u16::from_le_bytes([msg[2], msg[3]]), 0x1234);
    assert_eq!(u16::from_le_bytes([msg[4], msg[5]]), COC_LOCAL_CID);
    assert_eq!(c.tx_cid, L2CAP_SIGNALING_CID);
}

#[test]
fn peer_open_request_responds_and_opens() {
    let mut c = conn();
    let req = [0x14u8, 0x00, 0x34, 0x12, 0x41, 0x00, 0xF7, 0x00, 0xFB, 0x00, 0x08, 0x00];
    c.handle_le_signaling(&req);
    let coc = c.coc.unwrap();
    assert_eq!(coc.psm, 0x1234);
    assert_eq!(coc.peer_cid, 0x0041);
    assert_eq!(coc.credits, 8);
    let rsp = &c.tx_att[..c.tx_att_len];
    assert_eq!(rsp[0], LE_CREDIT_BASED_CONNECTION_RSP);
    assert_eq!(u16::from_le_bytes([rsp[4], rsp[5]]), COC_MTU);
}

#[test]
fn credit_flow_limits_sending() {
    let mut c = conn();
    open_coc(&mut c, 1);
    assert!(c.l2cap_send(b"hello").is_ok());
    assert!(c.l2cap_send(b"world").is_err());
    let credit = [0x16u8, 0x00, 0x40, 0x00, 0x01, 0x00];
    c.handle_le_signaling(&credit);
    assert!(c.l2cap_send(b"again").is_ok());
}

#[test]
fn sdu_framing_and_reassembly() {
    let mut c = conn();
    open_coc(&mut c, 8);
    let mut result = ConnEvent::Idle;
    let mut frame = [0u8; 10];
    frame[0..2].copy_from_slice(&5u16.to_le_bytes());
    frame[2..7].copy_from_slice(b"hello");
    c.rx_coc_sdu(&frame, &mut result);
    assert_eq!(result, ConnEvent::Data);
    assert_eq!(&c.rx_data[..5], b"hello");
}

#[test]
fn multi_frame_sdu_assembled() {
    let mut c = conn();
    open_coc(&mut c, 8);
    let mut result = ConnEvent::Idle;
    let mut frame = [0u8; 7];
    frame[0..2].copy_from_slice(&6u16.to_le_bytes());
    frame[2..7].copy_from_slice(b"hello");
    c.rx_coc_sdu(&frame, &mut result);
    assert_eq!(result, ConnEvent::Idle);
    c.rx_coc_sdu(b"!", &mut result);
    assert_eq!(result, ConnEvent::Data);
    assert_eq!(&c.rx_data[..6], b"hello!");
}

#[test]
fn send_without_channel_is_refused() {
    let mut c = conn();
    assert_eq!(c.l2cap_send(b"x"), Err(Error::NotRunning));
    open_coc(&mut c, 1);
    assert_eq!(c.l2cap_send(&[0u8; 248]), Err(Error::InvalidLength));
}

#[test]
fn sent_sdu_is_framed_with_its_length() {
    let mut c = conn();
    open_coc(&mut c, 2);
    c.l2cap_send(b"abc").unwrap();
    assert_eq!(c.tx_cid, COC_LOCAL_CID);
    assert_eq!(&c.tx_att[..c.tx_att_len], &[3, 0, b'a', b'b', b'c']);
    assert_eq!(c.coc.unwrap().credits, 1);
}

// ---- connection events ----

#[test]
fn fresh_connection_state() {
    let c = conn();
    assert_eq!(c.channel, 37);
    assert_eq!(c.access_addr, 0x1234_ABCD);
    assert_eq!(c.role, ConnRole::Slave);
    assert!(!c.sn && !c.nesn);
    assert_eq!(c.att_mtu, 23);
    assert_eq!(master_conn().anchor, 7);
}

#[test]
fn event_start_hops_and_advances_the_anchor() {
    let mut c = conn();
    c.channel = 0;
    let ch = c.event_start();
    assert_eq!(ch, 13);
    assert_eq!(c.channel, 13);
    assert_eq!(c.event_counter, 1);
    assert_eq!(c.anchor, 24 * 1250 / 32);
}

#[test]
fn empty_reply_acknowledges() {
    let mut c = conn();
    let n = c.respond();
    assert_eq!(n, 2);
    assert_eq!(&c.tx_buf[..2], &[header_byte(LLID_DATA_COMPLETE, true, false), 0]);
}

#[test]
fn queued_control_pdu_is_sent_first() {
    let mut c = conn();
    c.handle_ll_control(&[LL_CONTROL_PING_REQ]).unwrap();
    let n = c.respond();
    assert_eq!(n, 20);
    assert_eq!(&c.tx_buf[1..3], &[18, LL_CONTROL_PING_RSP]);
    assert!(c.pending_control.is_none());
}

#[test]
fn host_termination_is_sent_in_the_reply() {
    let mut c = conn();
    c.terminate();
    let (end, n) = c.event_reply();
    assert_eq!(end, Some(DisconnectReason::HostTerminate));
    assert_eq!(n, 4);
    assert_eq!(&c.tx_buf[1..4], &[2, LL_CONTROL_TERMINATE_IND, 0x13]);
}

#[test]
fn received_ping_is_reported_and_queued() {
    let mut c = conn();
    let pkt = [header_byte(LLID_CONTROL, false, true), 1, LL_CONTROL_PING_REQ];
    let r = c.event_receive(&pkt, 500).unwrap();
    assert_eq!(r, (ConnEvent::Control(LL_CONTROL_PING_REQ), LlTx::Nothing));
    assert_eq!(c.last_rx, 500);
    assert!(c.nesn);
    assert_eq!(c.pending_control.unwrap()[0], LL_CONTROL_PING_RSP);
}

#[test]
fn undecodable_packet_is_refused() {
    let mut c = conn();
    assert_eq!(c.event_receive(&[0x01], 10), Err(Error::InvalidPdu));
    assert_eq!(c.last_rx, 0);
}

#[test]
fn master_reports_remote_termination() {
    let mut c = master_conn();
    let pkt = [header_byte(LLID_CONTROL, false, false), 2, LL_CONTROL_TERMINATE_IND, 0x13];
    assert_eq!(c.event_master_receive(&pkt, 9), ConnEvent::Disconnected(DisconnectReason::RemoteTerminate));
    assert_eq!(c.last_rx, 9);
}

// ---- bonds ----

#[test]
fn bond_store_saves_and_finds() {
    let mut s = RamBondStore::new();
    s.save([1; 6], [2; 16], None);
    s.save([3; 6], [4; 16], Some([5; 16]));
    assert_eq!(s.find(&[1; 6]).unwrap().ltk, [2; 16]);
    assert_eq!(s.find(&[3; 6]).unwrap().irk, Some([5; 16]));
    assert!(s.find(&[9; 6]).is_none());
    s.save([1; 6], [7; 16], None);
    assert_eq!(s.find(&[1; 6]).unwrap().ltk, [7; 16]);
}

#[test]
fn fragments_carry_the_whole_frame() {
    let mut c = conn();
    let mut att = [0u8; 60];
    for (i, b) in att.iter_mut().enumerate() {
        *b = i as u8;
    }
    c.queue_att(&att);
    let mut stream = Vec::new();
    let mut count = 0;
    while c.tx_pending {
        let n = c.tx_fragment();
        stream.extend_from_slice(&c.tx_buf[2..n]);
        count += 1;
    }
    let mut expected = vec![60u8, 0, 0x04, 0x00];
    expected.extend_from_slice(&att);
    assert_eq!(stream, expected);
    assert_eq!(count, 3);
}

#[test]
fn write_split_over_two_fragments_is_handled_whole() {
    let mut c = conn();
    let mut result = ConnEvent::Idle;
    c.handle_l2cap(&[5, 0, 0x04, 0x00, 0x12, 0x03], LLID_DATA_START, &mut result);
    assert_eq!(result, ConnEvent::Idle);
    assert_eq!(c.rx_l2cap_len, 2);
    c.handle_l2cap(&[0x00, b'h', b'i'], LLID_DATA_CONTINUATION_OR_COMPLETE, &mut result);
    assert_eq!(result, ConnEvent::Data);
    assert_eq!(&c.rx_data[..c.rx_data_len], b"hi");
    assert_eq!(c.rx_l2cap_len, 0);
    assert_eq!(&c.tx_att[..c.tx_att_len], &[0x13]);
}

#[test]
fn pairing_request_is_answered_with_a_bare_smp_pdu() {
    let mut c = conn();
    let mut result = ConnEvent::Idle;
    c.handle_smp(&[0x01, 0x03, 0x00, 0x01, 0x10, 0x01, 0x01], &mut result);
    assert_eq!(c.tx_cid, 0x0006);
    assert_eq!(&c.tx_att[..c.tx_att_len], &[0x02, 0x03, 0x00, 0x01, 0x10, 0x01, 0x01]);
}
