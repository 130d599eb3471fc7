use nrf_ble::gap::ad::{build, iter, AdEntry, AD_TYPE_COMPLETE_NAME, AD_TYPE_FLAGS};
use nrf_ble::ll::addr::{AddrType, BtAddr};
use nrf_ble::ll::pdu::AdvPdu;
use nrf_ble::sim::{loopback, VirtualRadio};
use nrf_ble::Error;

const ADV_ADDR: [u8; 6] = [0xAA, 0xBB, 0xCC, 0xDD, 0xEE, 0xFF];
const SCAN_ADDR: [u8; 6] = [0x11, 0x22, 0x33, 0x44, 0x55, 0x66];

fn make_advertising_data() -> ([u8; 31], usize) {
    let entries = [
        AdEntry {
            ad_type: AD_TYPE_FLAGS,
            data: &[0x06],
        },
        AdEntry {
            ad_type: AD_TYPE_COMPLETE_NAME,
            data: b"nrf-ble",
        },
    ];
    let mut buf = [0u8; 31];
    let n = build(&entries, &mut buf).unwrap();
    (buf, n)
}

#[test]
fn advertiser_to_scanner_adv_ind_loopback() {
    let (adv_data, adv_len) = make_advertising_data();
    let pdu = AdvPdu::AdvInd {
        adv_addr: ADV_ADDR,
        data: &adv_data[..adv_len],
    };
    let mut tx = [0u8; 39];
    let n = pdu.encode(&mut tx).unwrap();

    let rx = loopback(&tx[..n], 37).unwrap();
    let decoded = AdvPdu::decode(&rx.pdu[..rx.len]).unwrap();
    match decoded {
        AdvPdu::AdvInd { adv_addr, data } => {
            assert_eq!(adv_addr, ADV_ADDR);
            assert_eq!(data, &adv_data[..adv_len]);
            let mut entries = 0;
            let mut it = iter(data);
            while let Some(ad) = it.next() {
                let ad = ad.unwrap();
                entries += 1;
                match ad.ad_type {
                    AD_TYPE_FLAGS => assert_eq!(ad.data, &[0x06]),
                    AD_TYPE_COMPLETE_NAME => assert_eq!(ad.data, b"nrf-ble"),
                    _ => panic!("unexpected AD type"),
                }
            }
            assert_eq!(entries, 2);
        }
        other => panic!("expected AdvInd, got {:?}", other),
    }
}

#[test]
fn scan_req_scan_rsp_exchange() {
    let tx_radio = VirtualRadio::new(38);
    let rx_radio = VirtualRadio::new(38);

    let req = AdvPdu::ScanReq {
        scan_addr: SCAN_ADDR,
        adv_addr: ADV_ADDR,
    };
    let mut buf = [0u8; 39];
    let n = req.encode(&mut buf).unwrap();
    let packet = tx_radio.transmit(&buf[..n]).unwrap();
    let rx = rx_radio.receive(&packet).unwrap();
    match AdvPdu::decode(&rx.pdu[..rx.len]).unwrap() {
        AdvPdu::ScanReq {
            scan_addr,
            adv_addr,
        } => {
            assert_eq!(scan_addr, SCAN_ADDR);
            assert_eq!(adv_addr, ADV_ADDR);
        }
        other => panic!("expected ScanReq, got {:?}", other),
    }

    let rsp = AdvPdu::ScanRsp {
        adv_addr: ADV_ADDR,
        data: b"rsp",
    };
    let n = rsp.encode(&mut buf).unwrap();
    let packet = tx_radio.transmit(&buf[..n]).unwrap();
    let rx = rx_radio.receive(&packet).unwrap();
    match AdvPdu::decode(&rx.pdu[..rx.len]).unwrap() {
        AdvPdu::ScanRsp { adv_addr, data } => {
            assert_eq!(adv_addr, ADV_ADDR);
            assert_eq!(data, b"rsp");
        }
        other => panic!("expected ScanRsp, got {:?}", other),
    }
}

#[test]
fn pdu_type_and_address_derivation() {
    let addr = BtAddr::parse(ADV_ADDR);
    assert_eq!(addr.addr_type, AddrType::RandomStatic);
    assert!(addr.tx_add_bit());
}

#[test]
fn loopback_roundtrip_preserves_pdu() {
    let pdu = [0x00u8, 0x12, 0x01, 0x02, 0x03, 0x04, 0x05, 0x06, 0x07, 0x08, 0x09, 0x0A];
    let rx = loopback(&pdu, 37).unwrap();
    assert_eq!(&rx.pdu[..rx.len], &pdu);
}

#[test]
fn wrong_channel_fails_crc() {
    let pdu = [0x00u8, 0x0C, 0x01, 0x02, 0x03, 0x04, 0x05, 0x06];
    let radio_tx = VirtualRadio::new(37);
    let packet = radio_tx.transmit(&pdu).unwrap();
    let radio_rx = VirtualRadio::new(38);
    assert_eq!(radio_rx.receive(&packet), Err(Error::CrcMismatch));
}

#[test]
fn bit_flip_in_air_fails_crc() {
    let pdu = [0x00u8, 0x0C, 0x01, 0x02, 0x03, 0x04, 0x05, 0x06];
    let radio = VirtualRadio::new(39);
    let mut packet = radio.transmit(&pdu).unwrap();
    packet.bytes[2] ^= 0x01;
    assert!(radio.receive(&packet).is_err());
}

#[test]
fn oversized_pdu_is_refused() {
    let pdu = [0u8; 258];
    assert_eq!(VirtualRadio::new(37).transmit(&pdu), Err(Error::BufferTooSmall));
}

#[test]
fn short_packet_is_refused() {
    let radio = VirtualRadio::new(37);
    let mut packet = radio.transmit(&[0x00, 0x00]).unwrap();
    packet.len = 2;
    assert_eq!(radio.receive(&packet), Err(Error::InvalidLength));
}

#[test]
fn transmitted_bytes_are_whitened() {
    let pdu = [0x00u8, 0x00];
    let packet = VirtualRadio::new(37).transmit(&pdu).unwrap();
    assert_eq!(packet.len, 5);
    assert_eq!(packet.channel, 37);
    assert_ne!(&packet.bytes[..2], &pdu);
}
