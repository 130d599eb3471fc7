use nrf_ble::hci::{H4Framer, Hci, HciPacket, HCI_ACL_DATA, HCI_COMMAND, HCI_EVENT};

fn h4_bytes(packet_type: u8, pkt: &HciPacket) -> [u8; 261] {
    let mut bytes = [0u8; 261];
    bytes[0] = packet_type;
    bytes[1..1 + pkt.len].copy_from_slice(&pkt.payload[..pkt.len]);
    bytes
}

fn frame_all(packet_type: u8, pkt: &HciPacket) -> Option<HciPacket> {
    let mut f = H4Framer::new();
    let mut out = None;
    for b in h4_bytes(packet_type, pkt) {
        if let Some(p) = f.feed(b) {
            out = Some(p);
        }
    }
    out
}

#[test]
fn h4_frames_command_packets() {
    let pkt = HciPacket::command(0x08, 0x000A, &[1]);
    let p = frame_all(HCI_COMMAND, &pkt).unwrap();
    assert_eq!(p.packet_type, HCI_COMMAND);
    assert_eq!(p.payload[0] as u16 | ((p.payload[1] as u16) << 8), 0x200A);
    assert_eq!(p.payload[2], 1);
}

#[test]
fn h4_frames_event_packets() {
    let pkt = HciPacket::event(0x0E, &[1, 2, 3]);
    let p = frame_all(HCI_EVENT, &pkt).unwrap();
    assert_eq!(p.payload[0], 0x0E);
    assert_eq!(p.payload[2], 1);
}

#[test]
fn h4_frames_acl_packets() {
    let pkt = HciPacket::acl(0, &[0x04, 0x00, 0x04, 0x00, 1, 2, 3]);
    let p = frame_all(HCI_ACL_DATA, &pkt).unwrap();
    assert_eq!(p.packet_type, HCI_ACL_DATA);
    assert_eq!(p.len, 4 + 7);
}

#[test]
fn hci_rejects_garbage_bytes() {
    let mut f = H4Framer::new();
    assert!(f.feed(0x00).is_none());
    assert!(f.feed(0xAA).is_none());
    assert!(f.feed(0xFF).is_none());
}

#[test]
fn event_queue_roundtrip() {
    let mut hci = Hci::new();
    for i in 0..15 {
        hci.push_event(HciPacket::event(i as u8, &[i as u8]));
    }
    for i in 0..15 {
        let evt = hci.next_event().unwrap();
        assert_eq!(evt.payload[0], i as u8);
    }
    assert!(hci.next_event().is_none());
}

#[test]
fn event_queue_never_exceeds_capacity() {
    let mut hci = Hci::new();
    for i in 0..40 {
        hci.push_event(HciPacket::event(0xEE, &[i as u8]));
    }
    let mut count = 0;
    while hci.next_event().is_some() {
        count += 1;
    }
    assert_eq!(count, 16);
}

#[test]
fn acl_packet_roundtrip() {
    let pkt = HciPacket::acl(0x0042, &[0x04, 0x00, 0x04, 0x00, 0x0A, 0x06, 0x00]);
    assert_eq!(pkt.packet_type, HCI_ACL_DATA);
    assert_eq!(pkt.payload[0] as u16 | ((pkt.payload[1] as u16) << 8), 0x0042);
    assert_eq!(pkt.len, 11);
}

#[test]
fn command_header_layout() {
    let pkt = HciPacket::command(0x03, 0x0003, &[]);
    assert_eq!(pkt.len, 3);
    assert_eq!(&pkt.payload[..3], &[0x03, 0x0C, 0x00]);
}

#[test]
fn framed_packet_keeps_every_byte() {
    let pkt = HciPacket::event(0x3E, &[9, 8, 7, 6]);
    let p = frame_all(HCI_EVENT, &pkt).unwrap();
    assert_eq!(p.len, pkt.len);
    assert_eq!(&p.payload[..p.len], &pkt.payload[..pkt.len]);
}

#[test]
fn framer_is_idle_between_packets() {
    let mut f = H4Framer::new();
    assert!(f.feed(HCI_EVENT).is_none());
    assert!(f.feed(0x0E).is_none());
    let p = f.feed(0x00).unwrap();
    assert_eq!(p.len, 2);
    assert_eq!(f.packet_type, None);
    assert!(f.feed(0x77).is_none());
    assert_eq!(f.packet_type, None);
}

#[test]
fn hci_feed_delegates_to_framer() {
    let mut hci = Hci::new();
    assert!(hci.feed(HCI_EVENT).is_none());
    assert!(hci.feed(0x05).is_none());
    let p = hci.feed(0x00).unwrap();
    assert_eq!(p.packet_type, HCI_EVENT);
    assert_eq!(p.payload[0], 0x05);
}

#[test]
fn framer_hands_out_each_frame_once() {
    let mut f = H4Framer::new();
    let mut frames = 0;
    for b in [HCI_EVENT, 0x13, 0x01, 0x07, HCI_COMMAND, 0x03, 0x0C, 0x00] {
        if let Some(p) = f.feed(b) {
            frames += 1;
            assert_eq!(p.len, 3);
        }
    }
    assert_eq!(frames, 2);
}
