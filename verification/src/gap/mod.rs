//! Generic Access Profile.

/// Advertising data (AD structure) codec.
pub mod ad;
