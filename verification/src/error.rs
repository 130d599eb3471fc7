//! Error type shared across the stack.
use vstd::prelude::*;

verus! {

/// Errors produced by the BLE stack.
#[derive(Debug, Clone, Copy, PartialEq, Eq, Structural)]
pub enum Error {
    /// Output buffer too small for the operation.
    BufferTooSmall,
    /// Malformed or reserved PDU.
    InvalidPdu,
    /// PDU length field does not match the payload.
    InvalidLength,
    /// Radio channel outside the valid range (0-39).
    InvalidChannel,
    /// Invalid Bluetooth address.
    InvalidAddress,
    /// Parameter outside the valid range.
    InvalidParam,
    /// Operation is already running.
    AlreadyRunning,
    /// Operation is not running.
    NotRunning,
    /// Received packet failed the CRC check.
    CrcMismatch,
    /// Malformed advertising data.
    InvalidAd,
}


/// The human-readable text of an error.
pub open spec fn error_text(e: Error) -> Seq<char> {
    match e {
        Error::BufferTooSmall => "output buffer too small"@,
        Error::InvalidPdu => "invalid PDU"@,
        Error::InvalidLength => "invalid length"@,
        Error::InvalidChannel => "invalid channel"@,
        Error::InvalidAddress => "invalid address"@,
        Error::InvalidParam => "invalid parameter"@,
        Error::AlreadyRunning => "operation already running"@,
        Error::NotRunning => "operation not running"@,
        Error::CrcMismatch => "CRC check failed"@,
        Error::InvalidAd => "invalid advertising data"@,
    }
}

impl Error {
    /// The human-readable text of the error.
    pub fn message(&self) -> (s: &'static str)
        ensures
            s@ == error_text(*self),
    {
        match self {
            Error::BufferTooSmall => "output buffer too small",
            Error::InvalidPdu => "invalid PDU",
            Error::InvalidLength => "invalid length",
            Error::InvalidChannel => "invalid channel",
            Error::InvalidAddress => "invalid address",
            Error::InvalidParam => "invalid parameter",
            Error::AlreadyRunning => "operation already running",
            Error::NotRunning => "operation not running",
            Error::CrcMismatch => "CRC check failed",
            Error::InvalidAd => "invalid advertising data",
        }
    }
}

} // verus!
