//! Address prefixes: a masked address with its netmask.

use vstd::prelude::*;
use crate::address::{AddressError, IpAddr};
use crate::util::{apply_netmask, lemma_mask_idempotent, masked};

verus! {

/// A network address and a netmask of one family, the address masked by the
/// netmask.
#[derive(Clone, Copy, Debug)]
pub struct Prefix {
    network: IpAddr,
    netmask: IpAddr,
}

impl Prefix {
    /// The masked address.
    pub closed spec fn network(&self) -> IpAddr {
        self.network
    }

    pub closed spec fn netmask(&self) -> IpAddr {
        self.netmask
    }

    /// The address is masked by the netmask, and both are of one family.
    pub open spec fn wf(&self) -> bool {
        masked(self.network(), self.netmask()) == Some(self.network())
    }

    #[verifier::type_invariant]
    closed spec fn inv(&self) -> bool {
        self.wf()
    }

    /// The prefix of an address under a netmask of its own family: the
    /// address masked, with the netmask.
    pub fn new(address: IpAddr, netmask: IpAddr) -> (r: Result<Self, AddressError>)
        ensures
            r is Ok <==> address.same_family(netmask),
            r matches Ok(prefix) ==> {
                &&& prefix.wf()
                &&& Some(prefix.network()) == masked(address, netmask)
                &&& prefix.netmask() == netmask
            },
            r matches Err(e) ==> e == AddressError::FamilyMismatch,
    {
        match apply_netmask(&address, &netmask) {
            Ok(network) => {
                proof {
                    lemma_mask_idempotent(address, netmask);
                }
                Ok(Prefix { network, netmask })
            },
            Err(e) => Err(e),
        }
    }

    pub fn get_network(&self) -> (network: IpAddr)
        ensures
            network == self.network(),
            self.wf(),
    {
        proof {
            use_type_invariant(self);
        }
        self.network
    }

    pub fn get_netmask(&self) -> (netmask: IpAddr)
        ensures
            netmask == self.netmask(),
            self.wf(),
    {
        proof {
            use_type_invariant(self);
        }
        self.netmask
    }
}

} // verus!
