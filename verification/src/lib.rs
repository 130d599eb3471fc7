//! An open-source Bluetooth Low Energy stack for Nordic nRF52 devices.
//!
//! - [`ll`]: Link Layer codecs (CRC-24, whitening, PDUs, addresses,
//!   channels, accept list, resolvable private addresses).
//! - [`gap`]: advertising data (AD structure) codec.
//! - [`hw`]: pairing, scheduling math, connections (LL control, L2CAP,
//!   ATT/GATT) and the advertising/scanning/connection state machine.
//! - [`hci`], [`hci_host`]: HCI transport framing and command handling.
//! - [`sim`]: host-side virtual radio.
use vstd::prelude::*;

pub mod bytes;
pub mod error;
pub mod gap;
pub mod hci;
pub mod hci_host;
pub mod hw;
pub mod ll;
pub mod sim;

pub use error::Error;

