//! Link Layer: CRC-24, data whitening, PDU codecs, addresses, channels.

/// BLE CRC-24.
pub mod crc;
/// BLE data whitening.
pub mod whiten;
/// BLE addresses and address types.
pub mod addr;
/// Physical channels, frequencies and the hop sequence.
pub mod channels;
/// Advertising and data channel PDU codecs.
pub mod pdu;
/// Accept list (white list) filtering.
pub mod accept_list;
/// Resolvable private addresses.
pub mod priv_;
