//! Stack layers above the link layer codecs: pairing, scheduling math,
//! connection and advertising/scanning state machines.

/// SMP (LE legacy pairing).
pub mod smp;
/// Interval tick math for the scheduler.
pub mod timers;
/// Connection protocol state.
pub mod conn;
/// LL control procedures of a connection.
pub mod ll_control;
/// ATT server and GATT client routing of a connection.
pub mod att;
/// L2CAP signaling, credit-based channels and frame routing.
pub mod l2cap;
/// Routing of SMP PDUs on a connection.
pub mod pairing;
/// Reassembly and routing of received L2CAP frames.
pub mod l2cap_rx;
/// Decisions of a connection event.
pub mod event;
/// On-flash format of bond records.
pub mod bond_flash;
/// Advertising, scanning and connection management.
pub mod ble;
/// Radio settings.
pub mod radio;
/// CCM link cipher configuration.
pub mod ccm;

pub use ble::{AdvParams, AdvType, Ble, BleEvent, FilterPolicy, ScanParams};
pub use conn::{DisconnectReason, LL_CONTROL_FEATURE_REQ, LL_CONTROL_FEATURE_RSP};
pub use radio::{Phy, TxPower};
