//! Physical channels, frequencies and the hop sequence.
use vstd::prelude::*;

use crate::Error;

verus! {

/// Fixed BLE advertising access address.
pub const ADV_ACCESS_ADDRESS: u32 = 0x8E89_BED6;

/// Advertising physical channel indices (37, 38, 39).
pub const ADV_CHANNELS: [u8; 3] = [37, 38, 39];

/// Data channel hop increment sequence (Bluetooth Core Spec, Vol 6, Part B, 2.4.5.2).
pub const HOP_INCREMENTS: [u8; 20] = [
    5, 11, 19, 17, 9, 15, 6, 8, 13, 7, 10, 14, 12, 18, 3, 16, 4, 0, 1, 2,
];

/// RF centre frequency in MHz of a channel index, when it is one (0-39).
pub open spec fn channel_frequency_spec(channel: u8) -> Result<u16, Error> {
    if channel <= 36 {
        Ok((2404 + 2 * channel) as u16)
    } else if channel == 37 {
        Ok(2402)
    } else if channel == 38 {
        Ok(2426)
    } else if channel == 39 {
        Ok(2480)
    } else {
        Err(Error::InvalidChannel)
    }
}

/// RF frequency in MHz for a channel (0-39).
pub fn channel_frequency(channel: u8) -> (r: Result<u16, Error>)
    ensures
        r == channel_frequency_spec(channel),
{
    if channel <= 36 {
        Ok(2404 + 2 * channel as u16)
    } else if channel == 37 {
        Ok(2402)
    } else if channel == 38 {
        Ok(2426)
    } else if channel == 39 {
        Ok(2480)
    } else {
        Err(Error::InvalidChannel)
    }
}

/// Next data channel given the current channel and hop increment.
pub fn next_data_channel(current: u8, hop: u8) -> (r: u8)
    requires
        current + hop <= u8::MAX,
    ensures
        r == (current + hop) % 37,
{
    (current + hop) % 37
}

/// Preamble byte for a given access address (nRF52 derives this from the AA first bit).
pub fn preamble_for_access_address(aa: u32) -> (r: u8)
    ensures
        r == (if aa % 2 == 0 { 0x55u8 } else { 0xAAu8 }),
{
    assert(aa & 1 == aa % 2) by (bit_vector);
    if aa & 1 == 0 {
        0x55
    } else {
        0xAA
    }
}

/// Split an access address into the nRF52 BASE0 and PREFIX0.AP0 register values.
pub fn access_address_to_base_prefix(aa: u32) -> (r: (u32, u8))
    ensures
        r.0 == (aa % 0x100_0000) * 0x100,
        r.1 == aa / 0x100_0000,
{
    let base = (aa & 0x00FF_FFFF) << 8;
    let prefix = (aa >> 24) as u8;
    assert(((aa & 0x00FF_FFFF) << 8) == (aa % 0x100_0000) * 0x100 && (aa >> 24) == aa
        / 0x100_0000) by (bit_vector);
    (base, prefix)
}

} // verus!
