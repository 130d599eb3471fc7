//! Radio settings shared with the radio driver.
use vstd::prelude::*;

verus! {

/// Radio TX power in dBm (the levels of the nRF52832).
#[derive(Debug, Clone, Copy, PartialEq, Eq, Structural)]
pub enum TxPower {
    /// -40 dBm
    Neg40Dbm,
    /// -30 dBm
    Neg30Dbm,
    /// -20 dBm
    Neg20Dbm,
    /// -16 dBm
    Neg16Dbm,
    /// -12 dBm
    Neg12Dbm,
    /// -8 dBm
    Neg8Dbm,
    /// -4 dBm
    Neg4Dbm,
    /// 0 dBm
    ZeroDbm,
    /// +3 dBm
    Pos3Dbm,
    /// +4 dBm
    Pos4Dbm,
}

/// Radio PHY options.
#[derive(Debug, Clone, Copy, PartialEq, Eq, Structural)]
pub enum Phy {
    /// BLE 1 Mbit/s (LE 1M).
    Ble1Mbit,
    /// BLE 2 Mbit/s (LE 2M).
    Ble2Mbit,
}

/// Length of a received PDU from its header as the radio stores it (S0,
/// then the length field shifted by one bit): 2 header bytes plus the
/// 6-bit length.
pub fn received_pdu_len(header1: u8) -> (n: usize)
    ensures
        n == 2 + ((header1 >> 1) & 0x3F),
{
    2 + ((header1 >> 1) & 0x3F) as usize
}

/// Data whitening initial value the radio uses on `channel`.
pub fn whitening_iv(channel: u8) -> (iv: u8)
    ensures
        iv == 0x40 | (channel & 0x3F),
{
    0x40 | (channel & 0x3F)
}

} // verus!
