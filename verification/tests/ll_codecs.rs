use nrf_ble::ll::accept_list::{AcceptList, ACCEPT_LIST_MAX};
use nrf_ble::ll::addr::{AddrType, BtAddr};
use nrf_ble::ll::channels::{
    access_address_to_base_prefix, channel_frequency, next_data_channel,
    preamble_for_access_address, ADV_ACCESS_ADDRESS, HOP_INCREMENTS,
};
use nrf_ble::ll::crc::{append_crc, check, crc24, crc24_with_init};
use nrf_ble::ll::pdu::{
    AdvHdr, AdvPdu, ConnectReqData, DataPdu, LLID_CONTROL, PDU_ADV_IND, PDU_SCAN_REQ,
};
use nrf_ble::ll::priv_::{ah, generate_rpa, resolve_rpa, rpa_hash_matches};
use nrf_ble::ll::whiten::{whiten, whitening_init};
use nrf_ble::Error;

const A1: [u8; 6] = [0x01, 0x02, 0x03, 0x04, 0x05, 0x06];
const A2: [u8; 6] = [0x06, 0x05, 0x04, 0x03, 0x02, 0x01];
const A3: [u8; 6] = [0xAA, 0xBB, 0xCC, 0xDD, 0xEE, 0xFF];
const A4: [u8; 6] = [0x11, 0x22, 0x33, 0x44, 0x55, 0x66];
const A5: [u8; 6] = [0x77, 0x88, 0x99, 0xAA, 0xBB, 0xCC];

fn pdu_with_crc() -> [u8; 11] {
    let pdu = [0x00, 0x0C, 0x01, 0x02, 0x03, 0x04, 0x05, 0x06];
    let mut buf = [0u8; 3];
    append_crc(&pdu, &mut buf).unwrap();
    let mut full = [0u8; 11];
    full[..8].copy_from_slice(&pdu);
    full[8..].copy_from_slice(&buf);
    full
}

// ---- CRC-24 ----

#[test]
fn known_check_value() {
    assert_eq!(crc24(b"123456789"), 0xC2_5A_56);
}

#[test]
fn residue_is_zero_when_crc_appended() {
    let full = pdu_with_crc();
    assert!(check(&full));
}

#[test]
fn crc_detects_single_bit_flip() {
    let mut full = pdu_with_crc();
    full[3] ^= 0x80;
    assert!(!check(&full));
}

#[test]
fn crc_detects_burst_errors() {
    let mut full = pdu_with_crc();
    full[4] ^= 0x3C;
    assert!(!check(&full));
}

#[test]
fn crc_differs_per_payload() {
    assert_ne!(crc24(b"aaaa"), crc24(b"aaab"));
}

#[test]
fn crc_with_init_matches_connect_req_semantics() {
    let crc = crc24_with_init(b"\x00\x0C\x01", 0x654321);
    assert_eq!(crc, crc24_with_init(b"\x00\x0C\x01", 0x654321));
}

#[test]
fn crc_of_empty_input_is_the_reflected_init_value() {
    assert_eq!(crc24(&[]), 0xAA_AA_AA);
    assert_eq!(crc24_with_init(&[], 0x12_34_56), 0x6A_2C_48);
}

#[test]
fn append_crc_needs_three_bytes() {
    let mut small = [0u8; 2];
    assert_eq!(append_crc(&[1, 2, 3], &mut small), Err(Error::BufferTooSmall));
}

#[test]
fn check_rejects_short_input() {
    assert!(!check(&[0x00, 0x00]));
}

#[test]
fn appended_crc_is_little_endian_crc24() {
    let pdu = [0x00u8, 0x0C, 0x01, 0x02, 0x03, 0x04, 0x05, 0x06];
    let mut buf = [0u8; 3];
    append_crc(&pdu, &mut buf).unwrap();
    let c = crc24(&pdu);
    assert_eq!(buf, [c as u8, (c >> 8) as u8, (c >> 16) as u8]);
}

// ---- whitening ----

#[test]
fn init_follows_ble_scheme() {
    assert_eq!(whitening_init(37), 0x65);
    assert_eq!(whitening_init(0), 0x40);
    assert_eq!(whitening_init(39), 0x67);
}

#[test]
fn whiten_is_an_involution_for_all_adv_channels() {
    for ch in [0u8, 17, 36, 37, 38, 39] {
        let mut data = [0x00u8, 0x0C, 0xAA, 0x55, 0xFF, 0x01, 0x80, 0x7E];
        let original = data;
        whiten(&mut data, ch);
        whiten(&mut data, ch);
        assert_eq!(data, original);
    }
}

#[test]
fn different_channels_produce_different_output() {
    let mut a = [0x42u8, 0x13, 0x00, 0xFF];
    let mut b = a;
    whiten(&mut a, 37);
    whiten(&mut b, 38);
    assert_ne!(a, b);
}

#[test]
fn whitening_init_has_msb_set() {
    for ch in 0..40u8 {
        assert!(whitening_init(ch) & 0x40 != 0);
        assert!(whitening_init(ch) & 0x80 == 0);
    }
}

#[test]
fn whitening_changes_the_data() {
    let mut data = [0u8; 4];
    whiten(&mut data, 37);
    assert_ne!(data, [0u8; 4]);
}

// ---- addresses ----

#[test]
fn parse_private_non_resolvable() {
    let a = BtAddr::parse([0x01, 0x02, 0x03, 0x04, 0x05, 0x06]);
    assert_eq!(a.addr_type, AddrType::RandomPrivateNonResolvable);
}

#[test]
fn parse_random_static() {
    let a = BtAddr::parse([0x01, 0x02, 0x03, 0x04, 0x05, 0xC1]);
    assert_eq!(a.addr_type, AddrType::RandomStatic);
}

#[test]
fn parse_random_private_resolvable() {
    let a = BtAddr::parse([0x01, 0x02, 0x03, 0x04, 0x05, 0x40]);
    assert_eq!(a.addr_type, AddrType::RandomPrivateResolvable);
}

#[test]
fn tx_add_bit_reflects_type() {
    assert!(!BtAddr::from_bytes([0; 6], AddrType::Public).tx_add_bit());
    assert!(BtAddr::from_bytes([0; 6], AddrType::RandomStatic).tx_add_bit());
}

#[test]
fn parse_keeps_bytes_and_type_is_random() {
    let a = BtAddr::parse(A3);
    assert_eq!(*a.as_bytes(), A3);
    assert!(a.addr_type.is_random());
    assert!(!AddrType::Public.is_random());
}

// ---- channels ----

#[test]
fn adv_channel_frequencies() {
    assert_eq!(channel_frequency(37).unwrap(), 2402);
    assert_eq!(channel_frequency(38).unwrap(), 2426);
    assert_eq!(channel_frequency(39).unwrap(), 2480);
}

#[test]
fn data_channel_frequencies() {
    assert_eq!(channel_frequency(0).unwrap(), 2404);
    assert_eq!(channel_frequency(36).unwrap(), 2476);
    assert_eq!(channel_frequency(10).unwrap(), 2424);
}

#[test]
fn invalid_channel_rejected() {
    assert!(channel_frequency(40).is_err());
    assert!(channel_frequency(255).is_err());
    assert_eq!(channel_frequency(40), Err(Error::InvalidChannel));
}

#[test]
fn fixed_hop_cycles_all_channels() {
    let mut seen = [false; 37];
    let mut ch = 0u8;
    for _ in 0..37 {
        ch = next_data_channel(ch, 13);
        seen[ch as usize] = true;
    }
    assert!(seen.iter().all(|&s| s));
}

#[test]
fn hop_table_entries_are_valid() {
    assert_eq!(HOP_INCREMENTS.len(), 20);
    for &hop in &HOP_INCREMENTS {
        assert!(hop < 37);
    }
}

#[test]
fn preamble_for_adv_access_address() {
    assert_eq!(preamble_for_access_address(ADV_ACCESS_ADDRESS), 0x55);
    assert_eq!(preamble_for_access_address(0x8E89BED7), 0xAA);
}

#[test]
fn base_prefix_split_matches_nrf52_layout() {
    let (base, prefix) = access_address_to_base_prefix(ADV_ACCESS_ADDRESS);
    assert_eq!(base, 0x89BE_D600);
    assert_eq!(prefix, 0x8E);
}

#[test]
fn next_data_channel_wraps_modulo_37() {
    assert_eq!(next_data_channel(30, 10), 3);
    assert_eq!(next_data_channel(0, 5), 5);
}

// ---- PDUs ----

#[test]
fn adv_header_bit_layout() {
    let h = AdvHdr { pdu_type: PDU_ADV_IND, ch_sel: false, tx_add: false, rx_add: false, len: 6 };
    assert_eq!(h.encode(), [0x00, 0x0C]);
    let h = AdvHdr { pdu_type: PDU_SCAN_REQ, ch_sel: false, tx_add: true, rx_add: false, len: 12 };
    assert_eq!(h.encode(), [0x83, 0x18]);
    assert_eq!(AdvHdr::decode([0x83, 0x18]).unwrap(), h);
}

#[test]
fn adv_ind_roundtrip() {
    let data = [0x02, 0x01, 0x06, 0x03, 0x19, 0xC1, 0x03];
    let pdu = AdvPdu::AdvInd { adv_addr: A1, data: &data };
    let mut buf = [0u8; 64];
    let n = pdu.encode(&mut buf).unwrap();
    assert_eq!(n, 2 + 6 + 7);
    let decoded = AdvPdu::decode(&buf[..n]).unwrap();
    assert_eq!(decoded, pdu);
}

#[test]
fn adv_ind_canonical_bytes() {
    let pdu = AdvPdu::AdvInd { adv_addr: A2, data: &[0x00, 0x01, 0x02] };
    let mut buf = [0u8; 64];
    let n = pdu.encode(&mut buf).unwrap();
    assert_eq!(&buf[..n], &[0x00, 0x12, 0x06, 0x05, 0x04, 0x03, 0x02, 0x01, 0x00, 0x01, 0x02]);
}

#[test]
fn scan_req_roundtrip() {
    let pdu = AdvPdu::ScanReq { scan_addr: A3, adv_addr: A1 };
    let mut buf = [0u8; 64];
    let n = pdu.encode(&mut buf).unwrap();
    assert_eq!(n, 14);
    assert_eq!(AdvPdu::decode(&buf[..n]).unwrap(), pdu);
    assert_eq!(pdu.pdu_type(), PDU_SCAN_REQ);
}

#[test]
fn connect_req_roundtrip() {
    let ll = ConnectReqData {
        access_addr: 0x1234_ABCD,
        crc_init: 0x654321,
        win_size: 2,
        win_offset: 1,
        interval: 24,
        latency: 4,
        timeout: 2000,
        channel_map: [0xFF, 0xFF, 0xFF, 0xFF, 0x1F],
        hop: 13,
        sca: 2,
    };
    let mut llbuf = [0u8; 22];
    ll.encode(&mut llbuf).unwrap();
    assert_eq!(ConnectReqData::decode(&llbuf).unwrap(), ll);
    let pdu = AdvPdu::ConnectReq { init_addr: A4, adv_addr: A5, ll_data: &llbuf };
    let mut buf = [0u8; 64];
    let n = pdu.encode(&mut buf).unwrap();
    assert_eq!(n, 36);
    match AdvPdu::decode(&buf[..n]).unwrap() {
        AdvPdu::ConnectReq { ll_data, .. } => {
            assert_eq!(ConnectReqData::decode(ll_data).unwrap(), ll)
        }
        _ => panic!("wrong pdu type"),
    }
}

#[test]
fn data_pdu_roundtrip() {
    let pdu = DataPdu { llid: LLID_CONTROL, nesn: true, sn: false, md: true, payload: &[0x01, 0x02, 0x03] };
    let mut buf = [0u8; 64];
    let n = pdu.encode(&mut buf).unwrap();
    assert_eq!(&buf[..n], &[0b0001_0110, 0b0000_0011, 0x01, 0x02, 0x03]);
    assert_eq!(DataPdu::decode(&buf[..n]).unwrap(), pdu);
}

#[test]
fn truncated_pdu_rejected() {
    assert!(AdvPdu::decode(&[0x00]).is_err());
    assert!(AdvPdu::decode(&[0x00, 0x0C, 0x01]).is_err());
    assert!(DataPdu::decode(&[0x00]).is_err());
}

#[test]
fn length_mismatch_rejected() {
    assert!(AdvPdu::decode(&[0x00, 0x0C, 0x01, 0x02, 0x03, 0x04, 0x05]).is_err());
}

#[test]
fn reserved_pdu_type_rejected() {
    assert!(AdvPdu::decode(&[0x08, 0x00]).is_err());
}

#[test]
fn encode_into_small_buffer_fails() {
    let pdu = AdvPdu::ScanReq { scan_addr: A3, adv_addr: A1 };
    let mut buf = [0u8; 10];
    assert_eq!(pdu.encode(&mut buf), Err(Error::BufferTooSmall));
}

#[test]
fn connect_req_data_needs_22_bytes() {
    assert!(ConnectReqData::decode(&[0u8; 21]).is_err());
}

// ---- privacy ----

#[test]
fn ah_matches_reference() {
    let irk = [0u8; 16];
    let prand = [0x01, 0x02, 0x03];
    let h = ah(&irk, prand);
    assert_eq!(h, [0x96, 0x3C, 0xCC]);
}

#[test]
fn generate_and_resolve_roundtrip() {
    let irk = [0x11u8; 16];
    for prand in [0u32, 1, 0x123456, 0xFFFFFF] {
        let addr = generate_rpa(&irk, prand);
        assert!(resolve_rpa(&irk, &addr));
    }
}

#[test]
fn wrong_irk_does_not_resolve() {
    let irk = [0x11u8; 16];
    let other = [0x22u8; 16];
    let addr = generate_rpa(&irk, 0xABCDEF);
    assert!(!resolve_rpa(&other, &addr));
}

#[test]
fn rpa_has_random_type_bits() {
    let irk = [0x11u8; 16];
    let addr = generate_rpa(&irk, 42);
    assert_eq!(addr[5] >> 6, 0b01);
}

#[test]
fn rpa_hash_part_is_ah_of_prand_part() {
    let irk = [0x33u8; 16];
    let addr = generate_rpa(&irk, 0x00_12_34_56);
    assert_eq!(&addr[3..], &[0x56, 0x34, 0x52]);
    assert_eq!(ah(&irk, [addr[3], addr[4], addr[5]]), [addr[0], addr[1], addr[2]]);
}

// ---- accept list ----

#[test]
fn add_and_contains() {
    let mut list = AcceptList::new();
    assert!(list.add([1; 6], AddrType::Public));
    assert!(list.contains([1; 6], AddrType::Public));
    assert!(!list.contains([1; 6], AddrType::RandomStatic));
    assert!(!list.contains([2; 6], AddrType::Public));
}

#[test]
fn duplicates_rejected() {
    let mut list = AcceptList::new();
    assert!(list.add([1; 6], AddrType::Public));
    assert!(!list.add([1; 6], AddrType::Public));
    assert_eq!(list.len(), 1);
}

#[test]
fn capacity_limited() {
    let mut list = AcceptList::new();
    for i in 0..ACCEPT_LIST_MAX {
        assert!(list.add([i as u8; 6], AddrType::Public));
    }
    assert!(!list.add([0xFF; 6], AddrType::Public));
    assert_eq!(list.len(), ACCEPT_LIST_MAX);
}

#[test]
fn clear_empties() {
    let mut list = AcceptList::new();
    list.add([1; 6], AddrType::Public);
    list.clear();
    assert!(list.is_empty());
}

#[test]
fn entries_keep_insertion_order() {
    let mut list = AcceptList::new();
    list.add([2; 6], AddrType::RandomStatic);
    list.add([1; 6], AddrType::Public);
    assert_eq!(list.entries(), &[(AddrType::RandomStatic, [2; 6]), (AddrType::Public, [1; 6])]);
}

#[test]
fn hash_part_comparison() {
    assert!(rpa_hash_matches(&[1, 2, 3, 4, 5, 6], [1, 2, 3]));
    assert!(!rpa_hash_matches(&[1, 2, 3, 4, 5, 6], [1, 2, 4]));
}

#[test]
fn address_type_bits_are_written_as_passed() {
    let mut buf = [0u8; 64];
    AdvPdu::AdvNonconnInd { adv_addr: A1, data: &[] }.encode_typed(&mut buf, true, false).unwrap();
    assert_eq!(buf[0] & 0x80, 0x80);
    assert_eq!(buf[1] & 0x01, 0x00);
    AdvPdu::AdvDirectInd { adv_addr: A1, init_addr: A2 }.encode_typed(&mut buf, false, true).unwrap();
    assert_eq!(buf[0] & 0x80, 0x00);
    assert_eq!(buf[1] & 0x01, 0x01);
    assert_eq!(buf[1] >> 1, 12);
    AdvPdu::ScanReq { scan_addr: A3, adv_addr: A1 }.encode_typed(&mut buf, true, true).unwrap();
    assert_eq!(buf[0] & 0x80, 0x80);
    assert_eq!(buf[1] & 0x01, 0x01);
}

#[test]
fn undirected_pdus_never_carry_rx_add() {
    let mut buf = [0u8; 64];
    AdvPdu::AdvInd { adv_addr: A1, data: &[0x02, 0x01, 0x06] }.encode_typed(&mut buf, false, true).unwrap();
    assert_eq!(buf[1] & 0x01, 0x00);
    assert_eq!(buf[0] & 0x0F, 0x00);
    AdvPdu::AdvScanInd { adv_addr: A1, data: &[] }.encode_typed(&mut buf, true, true).unwrap();
    assert_eq!(buf[0] & 0x80, 0x80);
    assert_eq!(buf[1] & 0x01, 0x00);
    AdvPdu::AdvNonconnInd { adv_addr: A2, data: &[] }.encode_typed(&mut buf, false, true).unwrap();
    assert_eq!(buf[1] & 0x01, 0x00);
    AdvPdu::ScanRsp { adv_addr: A2, data: &[0x01] }.encode_typed(&mut buf, false, true).unwrap();
    assert_eq!(buf[1] & 0x01, 0x00);
    assert_eq!(buf[1] >> 1, 7);
}
