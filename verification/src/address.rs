//! IP addresses as plain integers.

use vstd::prelude::*;

verus! {

/// An IPv4 or IPv6 address, held as the big-endian integer its octets spell.
#[derive(Clone, Copy, Debug, PartialEq, Eq, Hash, Structural)]
pub enum IpAddr {
    V4(u32),
    V6(u128),
}

/// Why an address and a netmask could not be paired.
#[derive(Clone, Copy, Debug, PartialEq, Eq, Structural)]
pub enum AddressError {
    /// The address and the netmask are of different families.
    FamilyMismatch,
}

impl IpAddr {
    pub open spec fn is_v4(self) -> bool {
        self is V4
    }

    pub open spec fn is_v6(self) -> bool {
        self is V6
    }

    /// Whether both addresses are of one family.
    pub open spec fn same_family(self, other: IpAddr) -> bool {
        self.is_v4() == other.is_v4()
    }

    pub fn is_ipv4(&self) -> (r: bool)
        ensures
            r == self.is_v4(),
    {
        match self {
            IpAddr::V4(_) => true,
            IpAddr::V6(_) => false,
        }
    }

    pub fn is_ipv6(&self) -> (r: bool)
        ensures
            r == self.is_v6(),
    {
        match self {
            IpAddr::V4(_) => false,
            IpAddr::V6(_) => true,
        }
    }
}

} // verus!
