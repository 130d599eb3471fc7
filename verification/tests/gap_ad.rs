use nrf_ble::gap::ad::{
    ad_flags_value, build, iter, AdEntry, AD_TYPE_COMPLETE_NAME, AD_TYPE_FLAGS,
    AD_TYPE_MANUFACTURER_SPECIFIC, AD_TYPE_TX_POWER_LEVEL, AD_TYPE_UUID16_COMPLETE,
};
use nrf_ble::Error;

#[test]
fn build_and_parse_roundtrip() {
    let flags = [ad_flags_value(true, false, true)];
    let entries = [
        AdEntry { ad_type: AD_TYPE_FLAGS, data: &flags },
        AdEntry { ad_type: AD_TYPE_TX_POWER_LEVEL, data: &[0] },
        AdEntry { ad_type: AD_TYPE_COMPLETE_NAME, data: b"nrf-ble" },
        AdEntry { ad_type: AD_TYPE_MANUFACTURER_SPECIFIC, data: &[0x59, 0x00, 0x01, 0x02] },
    ];
    let mut buf = [0u8; 31];
    let n = build(&entries, &mut buf).unwrap();
    assert!(n <= 31);
    let mut parsed: [Option<AdEntry>; 4] = [None; 4];
    let mut count = 0;
    let mut it = iter(&buf[..n]);
    while let Some(entry) = it.next() {
        parsed[count] = Some(entry.unwrap());
        count += 1;
    }
    assert_eq!(count, 4);
    let parsed0 = parsed[0].unwrap();
    let parsed2 = parsed[2].unwrap();
    assert_eq!(parsed0.ad_type, AD_TYPE_FLAGS);
    assert_eq!(parsed0.data, &[0x06]);
    assert_eq!(parsed2.ad_type, AD_TYPE_COMPLETE_NAME);
    assert_eq!(parsed2.data, b"nrf-ble");
}

#[test]
fn truncated_entry_rejected() {
    let buf = [0x05, 0x09, b'n', b'r', b'f'];
    let mut it = iter(&buf);
    assert!(it.next().unwrap().is_err());
}

#[test]
fn zero_length_entry_rejected() {
    let buf = [0x00, 0x01, 0x06];
    let mut it = iter(&buf);
    assert!(it.next().unwrap().is_err());
}

#[test]
fn build_reports_buffer_too_small() {
    let entries = [AdEntry { ad_type: AD_TYPE_COMPLETE_NAME, data: b"a-very-long-name-that-does-not-fit" }];
    let mut buf = [0u8; 5];
    assert!(build(&entries, &mut buf).is_err());
}

#[test]
fn empty_ad_is_valid() {
    let n = build(&[], &mut [0u8; 4]).unwrap();
    assert_eq!(n, 0);
}

#[test]
fn uuid16_entries_pack_le() {
    let entries = [AdEntry { ad_type: AD_TYPE_UUID16_COMPLETE, data: &[0x0D, 0x18] }];
    let mut buf = [0u8; 8];
    let n = build(&entries, &mut buf).unwrap();
    assert_eq!(&buf[..n], &[0x03, 0x03, 0x0D, 0x18]);
}

#[test]
fn iterator_ends_after_last_entry() {
    let buf = [0x02, 0x01, 0x06];
    let mut it = iter(&buf);
    let e = it.next().unwrap().unwrap();
    assert_eq!(e.ad_type, 0x01);
    assert_eq!(e.data, &[0x06]);
    assert!(it.next().is_none());
}

#[test]
fn malformed_ad_reports_invalid_ad() {
    let buf = [0x05, 0x09, b'n'];
    let mut it = iter(&buf);
    assert_eq!(it.next().unwrap(), Err(Error::InvalidAd));
}

#[test]
fn flags_value_combines_bits() {
    assert_eq!(ad_flags_value(true, false, true), 0x06);
    assert_eq!(ad_flags_value(false, true, false), 0x01);
    assert_eq!(ad_flags_value(false, false, false), 0x00);
}

#[test]
fn build_writes_the_prefix_before_failing() {
    let entries = [
        AdEntry { ad_type: AD_TYPE_FLAGS, data: &[0x06] },
        AdEntry { ad_type: AD_TYPE_COMPLETE_NAME, data: b"too-long" },
    ];
    let mut buf = [0u8; 6];
    assert_eq!(build(&entries, &mut buf), Err(Error::BufferTooSmall));
    assert_eq!(&buf[..3], &[0x02, 0x01, 0x06]);
}

#[test]
fn error_messages() {
    assert_eq!(Error::BufferTooSmall.message(), "output buffer too small");
    assert_eq!(Error::CrcMismatch.message(), "CRC check failed");
    assert_eq!(Error::InvalidAd.message(), "invalid advertising data");
}
