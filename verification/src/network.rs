//! Named networks.

use vstd::prelude::*;
use crate::address::{AddressError, IpAddr};
use crate::address_map::Netmasked;
use crate::prefix::Prefix;
use crate::text::{address_text, address_to_string, decimal_text, push_decimal};
use crate::util::{
    get_netmask_prefix_ipv4, get_netmask_prefix_ipv6, leading_ones_128, masked, netmask_in_family,
    normalize_address, normalize_netmask, normalized, prefix_length,
};

verus! {

/// The netmask of a network once its address is canonical: against an IPv4
/// address an IPv6 netmask is cut to its low 32 bits; against an IPv6 address
/// the netmask is taken as it is.
pub open spec fn netmask_for(address: IpAddr, netmask: IpAddr) -> IpAddr {
    netmask_in_family(netmask, normalized(address))
}

/// The prefix length that a network's text shows for its netmask.
pub open spec fn shown_prefix(netmask: IpAddr) -> nat {
    match netmask {
        IpAddr::V4(_) => prefix_length(netmask),
        IpAddr::V6(bits) => leading_ones_128(bits, 128),
    }
}

/// The text of a network: its address, a slash and its prefix length.
pub open spec fn network_text(address: IpAddr, netmask: IpAddr) -> Seq<char> {
    address_text(address) + seq!['/'] + decimal_text(shown_prefix(netmask))
}

/// What a named network holds.
pub struct NetworkView {
    /// The masked address, by which the network is stored and found.
    pub ip: IpAddr,
    pub netmask: IpAddr,
    pub name: Seq<char>,
    /// The text of the network as it was given: the canonical address before
    /// masking, a slash and the prefix length.
    pub ip_text: Seq<char>,
}

/// The named network that an address, a netmask and a name make: the address
/// is made canonical, the netmask brought to the address's family, and the
/// address masked. An IPv4 netmask against an IPv6 address makes none.
pub open spec fn network_of(address: IpAddr, netmask: IpAddr, name: Seq<char>) -> Option<
    NetworkView,
> {
    match masked(normalized(address), netmask_for(address, netmask)) {
        Some(ip) => Some(
            NetworkView {
                ip,
                netmask: netmask_for(address, netmask),
                name,
                ip_text: network_text(normalized(address), netmask_for(address, netmask)),
            },
        ),
        None => None,
    }
}

/// A named network: a masked address, the netmask and a name.
pub struct Network {
    prefix: Prefix,
    name: String,
    addres_as_str: String,
}

impl View for Network {
    type V = NetworkView;

    closed spec fn view(&self) -> NetworkView {
        NetworkView {
            ip: self.prefix.network(),
            netmask: self.prefix.netmask(),
            name: self.name@,
            ip_text: self.addres_as_str@,
        }
    }
}

impl Network {
    /// The masked address, by which the network is stored and found.
    pub open spec fn ip(&self) -> IpAddr {
        self@.ip
    }

    pub open spec fn netmask(&self) -> IpAddr {
        self@.netmask
    }

    pub open spec fn name(&self) -> Seq<char> {
        self@.name
    }

    pub open spec fn ip_text(&self) -> Seq<char> {
        self@.ip_text
    }

    /// The address is masked by the netmask, and both are of one family.
    pub open spec fn wf(&self) -> bool {
        masked(self.ip(), self.netmask()) == Some(self.ip())
    }

    /// Builds a network from an address, a netmask and a name. The address is
    /// made canonical, the netmask brought to the address's family, and the
    /// address masked. An IPv4 netmask against an IPv6 address is refused.
    pub fn new(network: IpAddr, netmask: IpAddr, name: &str) -> (r: Result<Self, AddressError>)
        ensures
            match r {
                Ok(n) => network_of(network, netmask, name@) == Some(n@) && n.wf(),
                Err(e) => network_of(network, netmask, name@) is None && e
                    == AddressError::FamilyMismatch,
            },
            r is Ok <==> normalized(network).same_family(netmask_for(network, netmask)),
    {
        let address = normalize_address(network);
        let netmask = normalize_netmask(netmask, &address);
        let prefix = match Prefix::new(address, netmask) {
            Ok(prefix) => prefix,
            Err(e) => {
                return Err(e);
            },
        };
        let length = match address {
            IpAddr::V4(_) => get_netmask_prefix_ipv4(netmask),
            IpAddr::V6(_) => get_netmask_prefix_ipv6(netmask),
        };
        let mut text = address_to_string(&address);
        text.push('/');
        push_decimal(&mut text, length as u64);
        assert(text@ =~= network_text(address, netmask));
        Ok(Network { prefix, name: name.to_owned(), addres_as_str: text })
    }

    pub fn get_ip(&self) -> (ip: IpAddr)
        ensures
            ip == self.ip(),
            self.wf(),
    {
        self.prefix.get_network()
    }

    pub fn get_netmask(&self) -> (netmask: IpAddr)
        ensures
            netmask == self.netmask(),
            self.wf(),
    {
        self.prefix.get_netmask()
    }

    pub fn get_ip_str(&self) -> (text: &String)
        ensures
            text@ == self.ip_text(),
    {
        &self.addres_as_str
    }

    pub fn get_name(&self) -> (name: &String)
        ensures
            name@ == self.name(),
    {
        &self.name
    }
}

impl Netmasked for Network {
    open spec fn mask(&self) -> IpAddr {
        self.netmask()
    }

    fn stored_netmask(&self) -> (netmask: IpAddr) {
        self.prefix.get_netmask()
    }
}

} // verus!
