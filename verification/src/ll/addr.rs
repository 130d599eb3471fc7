//! Bluetooth device addresses and address types.
use vstd::prelude::*;

verus! {

/// Bluetooth device address type (GAP).
#[derive(Debug, Clone, Copy, PartialEq, Eq, Structural)]
pub enum AddrType {
    /// Public address.
    Public,
    /// Random static address.
    RandomStatic,
    /// Random private resolvable address.
    RandomPrivateResolvable,
    /// Random private non-resolvable address.
    RandomPrivateNonResolvable,
}

impl AddrType {
    /// True when the address is a random address (TxAdd/RxAdd bit = 1).
    pub fn is_random(&self) -> (r: bool)
        ensures
            r == !(*self is Public),
    {
        !matches!(self, AddrType::Public)
    }
}

/// The random address subtype named by the two top bits of the most
/// significant address byte (0b11 static, 0b01 resolvable, otherwise
/// non-resolvable).
pub open spec fn random_subtype(msb: u8) -> AddrType {
    if msb >> 6 == 3 {
        AddrType::RandomStatic
    } else if msb >> 6 == 1 {
        AddrType::RandomPrivateResolvable
    } else {
        AddrType::RandomPrivateNonResolvable
    }
}

/// A 6-byte Bluetooth device address.
#[derive(Debug, Clone, Copy, PartialEq, Eq)]
pub struct BtAddr {
    /// Raw address bytes.
    pub addr: [u8; 6],
    /// Address type.
    pub addr_type: AddrType,
}

impl BtAddr {
    /// Construct an address with an explicit type.
    pub fn from_bytes(addr: [u8; 6], addr_type: AddrType) -> (r: Self)
        ensures
            r.addr == addr,
            r.addr_type == addr_type,
    {
        BtAddr { addr, addr_type }
    }

    /// Derive the random address subtype from the top two bits of the
    /// address (0b11 = static, 0b01 = private resolvable, 0b00 = private
    /// non-resolvable). Public addresses must be set explicitly with
    /// [`BtAddr::from_bytes`].
    pub fn parse(addr: [u8; 6]) -> (r: Self)
        ensures
            r.addr == addr,
            r.addr_type == random_subtype(addr@[5]),
    {
        let top = addr[5] >> 6;
        let addr_type = if top == 3 {
            AddrType::RandomStatic
        } else if top == 1 {
            AddrType::RandomPrivateResolvable
        } else {
            AddrType::RandomPrivateNonResolvable
        };
        BtAddr { addr, addr_type }
    }

    /// Raw address bytes.
    pub fn as_bytes(&self) -> (r: &[u8; 6])
        ensures
            *r == self.addr,
    {
        &self.addr
    }

    /// The TxAdd bit used in advertising PDU headers.
    pub fn tx_add_bit(&self) -> (r: bool)
        ensures
            r == !(self.addr_type is Public),
    {
        !matches!(self.addr_type, AddrType::Public)
    }
}

} // verus!
