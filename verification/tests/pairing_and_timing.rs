use nrf_ble::hw::bond_flash::{decode_record, encode_record, BOND_RECORD_LEN};
use nrf_ble::hw::conn::BondInfo;
use nrf_ble::hw::smp::{c1, s1, C1Inputs, Smp, SmpError, SmpState, SMP_PAIRING_FAILED};
use nrf_ble::hw::timers::{timeout_ticks, window_ticks, IntervalAccum};

// ---- SMP ----

#[test]
fn c1_matches_reference() {
    let tk = [0u8; 16];
    let c = c1(
        &tk,
        &C1Inputs {
            r: [0x01u8; 16],
            preq: [0x02u8; 7],
            pres: [0x03u8; 7],
            iat: 1,
            rat: 0,
            ia: [0x04u8; 6],
            ra: [0x05u8; 6],
        },
    );
    assert_eq!(
        c,
        [
            0xBD, 0xA1, 0xF6, 0xB0, 0xDE, 0x5F, 0x28, 0xB0, 0xD6, 0x6E, 0x05, 0x32, 0xB9, 0xBA, 0xDE,
            0xBA
        ]
    );
}

#[test]
fn s1_matches_reference() {
    let k = [0u8; 16];
    let r1 = [0x01u8; 16];
    let r2 = [0x02u8; 16];
    let s = s1(&k, &r1, &r2);
    assert_eq!(
        s,
        [
            0x97, 0x4B, 0xC0, 0x47, 0xDE, 0x83, 0x0A, 0x80, 0x1A, 0x01, 0x4D, 0x94, 0x90, 0x9E, 0xE9,
            0x85
        ]
    );
}

#[test]
fn pairing_exchange_roundtrip() {
    let mut a = Smp::new();
    let mut b = Smp::new();
    let req = a.build_pairing_request();
    let rsp = b.handle_pairing_request(&req).unwrap();
    a.handle_pairing_response(&rsp).unwrap();

    let ia = [0xAA; 6];
    let ra = [0xBB; 6];
    let conf_a = a.build_confirm(1, &ia, &ra);
    b.iat = 1;
    b.ia = ia;
    b.ra = ra;
    b.handle_confirm(&conf_a).unwrap();
    let conf_b = b.build_confirm(1, &ia, &ra);
    a.handle_confirm(&conf_b).unwrap();

    let rnd_a = a.build_random();
    let rnd_b = b.handle_random(&rnd_a).unwrap();
    a.handle_random(&rnd_b).unwrap();
    assert_eq!(a.stk, b.stk);
    assert!(!a.stk.iter().all(|&x| x == 0));
}

#[test]
fn tampered_random_is_a_confirm_mismatch() {
    let mut a = Smp::new();
    let mut b = Smp::new();
    let req = a.build_pairing_request();
    let rsp = b.handle_pairing_request(&req).unwrap();
    a.handle_pairing_response(&rsp).unwrap();
    let ia = [0xAA; 6];
    let ra = [0xBB; 6];
    let conf_a = a.build_confirm(1, &ia, &ra);
    b.iat = 1;
    b.ia = ia;
    b.ra = ra;
    b.handle_confirm(&conf_a).unwrap();
    let mut rnd_a = a.build_random();
    rnd_a[5] ^= 0x01;
    assert_eq!(b.handle_random(&rnd_a), Err(SmpError::ConfirmMismatch));
}

#[test]
fn short_pairing_request_is_invalid() {
    let mut b = Smp::new();
    assert_eq!(b.handle_pairing_request(&[0x01, 0x03]), Err(SmpError::InvalidPdu));
}

#[test]
fn responder_state_after_request() {
    let mut a = Smp::new();
    let mut b = Smp::new();
    let req = a.build_pairing_request();
    b.handle_pairing_request(&req).unwrap();
    assert!(b.responder);
    assert_eq!(b.state, SmpState::WaitConfirm);
    assert!(b.state.pairing());
    assert!(!SmpState::Idle.pairing());
}

#[test]
fn failure_pdu_layout() {
    let s = Smp::new();
    assert_eq!(s.build_failed(0x05), [SMP_PAIRING_FAILED, 0x05]);
}

// ---- interval timing ----

#[test]
fn interval_ticks_are_exact() {
    let mut acc = IntervalAccum::new();
    assert_eq!(acc.next(32), 625);
    assert_eq!(acc.next(32), 625);
}

#[test]
fn interval_ticks_follow_fractional_accumulation() {
    let mut acc = IntervalAccum::new();
    let mut total = 0u64;
    for _ in 0..1000 {
        total += acc.next(33) as u64;
    }
    assert_eq!(total, (1000 * 33 * 625) / 32);
}

#[test]
fn max_interval_fits_timer() {
    let mut acc = IntervalAccum::new();
    let ticks = acc.next(16384);
    assert_eq!(ticks, 320_000);
    assert!(ticks < (1 << 24));
}

#[test]
fn window_ticks_round_up() {
    assert_eq!(window_ticks(4), 79);
    assert_eq!(window_ticks(32), 625);
}

#[test]
fn timeout_ticks_round_up() {
    assert_eq!(timeout_ticks(150), 5);
    assert_eq!(timeout_ticks(160), 5);
    assert_eq!(timeout_ticks(0), 0);
}

#[test]
fn one_unit_carries_its_remainder() {
    let mut acc = IntervalAccum::new();
    let ticks: Vec<u32> = (0..32).map(|_| acc.next(1)).collect();
    assert_eq!(ticks.iter().sum::<u32>(), 625);
    assert_eq!(ticks[0], 19);
}

// ---- bond records ----

#[test]
fn record_roundtrip() {
    let bond = BondInfo { addr: [0xAA; 6], ltk: [0x11; 16], irk: Some([0x22; 16]) };
    let rec = encode_record(&bond);
    assert_eq!(rec.len(), BOND_RECORD_LEN);
    assert_eq!(decode_record(&rec), Some(bond));
}

#[test]
fn record_without_irk() {
    let bond = BondInfo { addr: [1, 2, 3, 4, 5, 6], ltk: [7; 16], irk: None };
    let rec = encode_record(&bond);
    assert_eq!(decode_record(&rec), Some(bond));
}

#[test]
fn empty_slot_decodes_to_none() {
    let rec = [0u8; BOND_RECORD_LEN];
    assert_eq!(decode_record(&rec), None);
}

#[test]
fn corrupted_trailer_decodes_to_none() {
    let bond = BondInfo { addr: [0xAA; 6], ltk: [0x11; 16], irk: None };
    let mut rec = encode_record(&bond);
    rec[40] ^= 0xFF;
    assert_eq!(decode_record(&rec), None);
}

#[test]
fn erased_flash_decodes_to_none() {
    let rec = [0xFFu8; BOND_RECORD_LEN];
    assert_eq!(decode_record(&rec), None);
}

#[test]
fn record_layout() {
    let bond = BondInfo { addr: [1, 2, 3, 4, 5, 6], ltk: [7; 16], irk: None };
    let rec = encode_record(&bond);
    assert_eq!(&rec[..6], &[1, 2, 3, 4, 5, 6]);
    assert_eq!(rec[6], 0);
    assert_eq!(&rec[7..23], &[7; 16]);
    assert_eq!(rec[23], 0);
    assert_eq!(&rec[40..44], &[0x5A, 0x5A, 0xA5, 0xA5]);
}

#[test]
fn confirm_check_decides_the_pairing() {
    let mut s = Smp::new();
    assert_eq!(s.check_random(&[1; 16]), Err(SmpError::ConfirmMismatch));
    assert_eq!(s.pairing_failed, nrf_ble::hw::smp::SMP_REASON_CONFIRM);
    let mut s = Smp::new();
    let rsp = s.check_random(&[0; 16]).unwrap();
    assert_eq!(rsp[0], nrf_ble::hw::smp::SMP_PAIRING_RANDOM);
    assert_eq!(s.stk, s1(&[0; 16], &[0; 16], &[0; 16]));
    assert_eq!(s.state, SmpState::WaitingStartEnc);
}
