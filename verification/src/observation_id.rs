//! Observation domains.

use vstd::prelude::*;
use std::collections::HashMap;
use crate::address::IpAddr;
use crate::address_map::{hit, resolves_to, unresolved, AddressMap};
use crate::application::Application;
use crate::handle::Handle;
use crate::interface::Interface;
use crate::network::Network;
use crate::selector::Selector;
use crate::util::{normalize_address, normalized};

verus! {

/// What an observation domain holds.
pub struct ObservationIDView {
    pub id: u32,
    pub enrichment: Option<Seq<u8>>,
    pub fallback_first_switch: Option<i64>,
    pub applications: Map<u64, Application>,
    pub networks: Map<IpAddr, Network>,
    pub selectors: Map<u64, Selector>,
    pub interfaces: Map<u64, Interface>,
    pub templates: Map<u16, Handle>,
    pub want_client_dns: bool,
    pub want_target_dns: bool,
    pub ptr_dns_target: bool,
    pub ptr_dns_client: bool,
    pub exporter_in_wan_side: bool,
    pub span_port: bool,
}

/// Whether each network of a map is stored under its own masked address, and
/// is masked by its own netmask.
pub open spec fn keyed_by_address(networks: Map<IpAddr, Network>) -> bool {
    forall|key: IpAddr| #[trigger]
        networks.contains_key(key) ==> networks[key].ip() == key && networks[key].wf()
}

/// An observation domain: the configuration under which the traffic of one
/// sensor is processed. Identifier 0 stands for the default domain.
pub struct ObservationID {
    id: u32,
    enrichment: Option<Vec<u8>>,
    fallback_first_switch: Option<i64>,
    applications: HashMap<u64, Application>,
    networks: AddressMap<Network>,
    selectors: HashMap<u64, Selector>,
    interfaces: HashMap<u64, Interface>,
    templates: HashMap<u16, Handle>,
    want_client_dns: bool,
    want_target_dns: bool,
    ptr_dns_target: bool,
    ptr_dns_client: bool,
    exporter_in_wan_side: bool,
    span_port: bool,
}

impl View for ObservationID {
    type V = ObservationIDView;

    closed spec fn view(&self) -> ObservationIDView {
        ObservationIDView {
            id: self.id,
            enrichment: match self.enrichment {
                Some(bytes) => Some(bytes@),
                None => None,
            },
            fallback_first_switch: self.fallback_first_switch,
            applications: self.applications@,
            networks: self.networks@,
            selectors: self.selectors@,
            interfaces: self.interfaces@,
            templates: self.templates@,
            want_client_dns: self.want_client_dns,
            want_target_dns: self.want_target_dns,
            ptr_dns_target: self.ptr_dns_target,
            ptr_dns_client: self.ptr_dns_client,
            exporter_in_wan_side: self.exporter_in_wan_side,
            span_port: self.span_port,
        }
    }
}

impl ObservationID {
    /// A domain with the given identifier that holds nothing, with every flag
    /// off.
    pub fn new(id: u32) -> (domain: ObservationID)
        ensures
            domain@ == (ObservationIDView {
                id,
                enrichment: None,
                fallback_first_switch: None,
                applications: Map::empty(),
                networks: Map::empty(),
                selectors: Map::empty(),
                interfaces: Map::empty(),
                templates: Map::empty(),
                want_client_dns: false,
                want_target_dns: false,
                ptr_dns_target: false,
                ptr_dns_client: false,
                exporter_in_wan_side: false,
                span_port: false,
            }),
    {
        ObservationID {
            id,
            enrichment: None,
            fallback_first_switch: None,
            applications: HashMap::new(),
            networks: AddressMap::new(),
            selectors: HashMap::new(),
            interfaces: HashMap::new(),
            templates: HashMap::new(),
            want_client_dns: false,
            want_target_dns: false,
            ptr_dns_target: false,
            ptr_dns_client: false,
            exporter_in_wan_side: false,
            span_port: false,
        }
    }

    pub fn get_id(&self) -> (id: u32)
        ensures
            id == self@.id,
    {
        self.id
    }

    /// The home network that an address belongs to. The address is made
    /// canonical and looked up through the netmask of each home network of its
    /// own family, in no stated order; the first home network found is given.
    pub fn get_network(&self, ip: IpAddr) -> (r: Option<&Network>)
        ensures
            match r {
                Some(network) => exists|key: IpAddr|
                    resolves_to(self@.networks, normalized(ip), key) && self@.networks[key]
                        == *network,
                None => unresolved(self@.networks, normalized(ip)),
            },
    {
        let query = normalize_address(ip);
        match self.networks.resolve(&query) {
            Some(key) => {
                proof {
                    let via = choose|via: IpAddr| hit(self@.networks, query, via) == Some(key);
                    assert(hit(self@.networks, query, via) == Some(key));
                }
                self.networks.get(&key)
            },
            None => None,
        }
    }

    /// The identifiers of the templates that are attached, each once, in no
    /// stated order.
    pub fn list_templates(&self) -> (templates: Vec<u16>)
        ensures
            templates@.no_duplicates(),
            forall|id: u16| templates@.contains(id) <==> self@.templates.contains_key(id),
    {
        broadcast use vstd::std_specs::hash::group_hash_axioms;

        let mut templates: Vec<u16> = Vec::new();
        for id in it: self.templates.keys()
            invariant
                it.seq().unref().to_set() == self.templates@.dom(),
                it.seq().no_duplicates(),
                templates@ == it.seq().unref().take(it.index() as int),
                it.index() == it.seq().len() ==> templates@ == it.seq().unref(),
        {
            templates.push(*id);
            assert(templates@ =~= it.seq().unref().take(it.index() + 1));
            assert(it.seq().unref().take(it.seq().len() as int) =~= it.seq().unref());
        }
        assert(templates@.to_set() == self.templates@.dom());
        assert forall|id: u16| templates@.contains(id) <==> self@.templates.contains_key(id) by {
            assert(templates@.to_set().contains(id) <==> templates@.contains(id));
        }
        templates
    }

    pub fn get_template(&self, id: u16) -> (r: Option<&Handle>)
        ensures
            match r {
                Some(template) => self@.templates.contains_key(id) && *template
                    == self@.templates[id],
                None => !self@.templates.contains_key(id),
            },
    {
        broadcast use vstd::std_specs::hash::group_hash_axioms;

        self.templates.get(&id)
    }

    pub fn get_enrichment(&self) -> (r: Option<&[u8]>)
        ensures
            match r {
                Some(bytes) => self@.enrichment == Some(bytes@),
                None => self@.enrichment is None,
            },
    {
        match &self.enrichment {
            Some(enrichment) => Some(enrichment.as_slice()),
            None => None,
        }
    }

    pub fn get_selector(&self, id: u64) -> (r: Option<&Selector>)
        ensures
            match r {
                Some(selector) => self@.selectors.contains_key(id) && *selector
                    == self@.selectors[id],
                None => !self@.selectors.contains_key(id),
            },
    {
        broadcast use vstd::std_specs::hash::group_hash_axioms;

        self.selectors.get(&id)
    }

    pub fn get_interface(&self, id: u64) -> (r: Option<&Interface>)
        ensures
            match r {
                Some(interface) => self@.interfaces.contains_key(id) && *interface
                    == self@.interfaces[id],
                None => !self@.interfaces.contains_key(id),
            },
    {
        broadcast use vstd::std_specs::hash::group_hash_axioms;

        self.interfaces.get(&id)
    }

    pub fn get_application(&self, id: u64) -> (r: Option<&Application>)
        ensures
            match r {
                Some(application) => self@.applications.contains_key(id) && *application
                    == self@.applications[id],
                None => !self@.applications.contains_key(id),
            },
    {
        broadcast use vstd::std_specs::hash::group_hash_axioms;

        self.applications.get(&id)
    }

    pub fn get_fallback_first_switch(&self) -> (r: Option<i64>)
        ensures
            r == self@.fallback_first_switch,
    {
        self.fallback_first_switch
    }

    pub fn want_client_dns(&self) -> (r: bool)
        ensures
            r == self@.want_client_dns,
    {
        self.want_client_dns
    }

    pub fn want_target_dns(&self) -> (r: bool)
        ensures
            r == self@.want_target_dns,
    {
        self.want_target_dns
    }

    pub fn is_exporter_in_wan_side(&self) -> (r: bool)
        ensures
            r == self@.exporter_in_wan_side,
    {
        self.exporter_in_wan_side
    }

    pub fn is_span_port(&self) -> (r: bool)
        ensures
            r == self@.span_port,
    {
        self.span_port
    }

    pub fn is_ptr_dns_target(&self) -> (r: bool)
        ensures
            r == self@.ptr_dns_target,
    {
        self.ptr_dns_target
    }

    pub fn is_ptr_dns_client(&self) -> (r: bool)
        ensures
            r == self@.ptr_dns_client,
    {
        self.ptr_dns_client
    }

    /// Stores a selector under its identifier, in place of an earlier one.
    pub fn add_selector(&mut self, selector: Selector)
        ensures
            final(self)@ == (ObservationIDView {
                selectors: old(self)@.selectors.insert(selector.id(), selector),
                ..old(self)@
            }),
    {
        broadcast use vstd::std_specs::hash::group_hash_axioms;

        self.selectors.insert(selector.get_id(), selector);
    }

    /// Stores an application under its identifier, in place of an earlier one.
    pub fn add_application(&mut self, application: Application)
        ensures
            final(self)@ == (ObservationIDView {
                applications: old(self)@.applications.insert(application.id(), application),
                ..old(self)@
            }),
    {
        broadcast use vstd::std_specs::hash::group_hash_axioms;

        self.applications.insert(application.get_id(), application);
    }

    /// Stores an interface under its identifier, in place of an earlier one.
    pub fn add_interface(&mut self, interface: Interface)
        ensures
            final(self)@ == (ObservationIDView {
                interfaces: old(self)@.interfaces.insert(interface.id(), interface),
                ..old(self)@
            }),
    {
        broadcast use vstd::std_specs::hash::group_hash_axioms;

        self.interfaces.insert(interface.get_id(), interface);
    }

    /// Stores a home network under its masked address, in place of an earlier
    /// one with that masked address.
    pub fn add_network(&mut self, network: Network)
        ensures
            final(self)@ == (ObservationIDView {
                networks: old(self)@.networks.insert(network.ip(), network),
                ..old(self)@
            }),
    {
        let key = network.get_ip();
        self.networks.insert(key, network);
    }

    /// Attaches a template under an identifier, in place of an earlier one.
    pub fn add_template(&mut self, id: u16, template: Handle)
        ensures
            final(self)@ == (ObservationIDView {
                templates: old(self)@.templates.insert(id, template),
                ..old(self)@
            }),
    {
        broadcast use vstd::std_specs::hash::group_hash_axioms;

        self.templates.insert(id, template);
    }

    /// Stores a copy of the enrichment payload, as it is.
    pub fn set_enrichment(&mut self, enrichment: &[u8])
        ensures
            final(self)@ == (ObservationIDView {
                enrichment: Some(enrichment@),
                ..old(self)@
            }),
    {
        self.enrichment = Some(vstd::slice::slice_to_vec(enrichment));
    }

    pub fn set_fallback_first_switch(&mut self, fallback_first_switch: i64)
        ensures
            final(self)@ == (ObservationIDView {
                fallback_first_switch: Some(fallback_first_switch),
                ..old(self)@
            }),
    {
        self.fallback_first_switch = Some(fallback_first_switch);
    }

    pub fn set_exporter_in_wan_side(&mut self)
        ensures
            final(self)@ == (ObservationIDView { exporter_in_wan_side: true, ..old(self)@ }),
    {
        self.exporter_in_wan_side = true;
    }

    pub fn set_span_mode(&mut self)
        ensures
            final(self)@ == (ObservationIDView { span_port: true, ..old(self)@ }),
    {
        self.span_port = true;
    }

    pub fn enable_ptr_dns_target(&mut self)
        ensures
            final(self)@ == (ObservationIDView { ptr_dns_target: true, ..old(self)@ }),
    {
        self.ptr_dns_target = true;
    }

    pub fn enable_ptr_dns_client(&mut self)
        ensures
            final(self)@ == (ObservationIDView { ptr_dns_client: true, ..old(self)@ }),
    {
        self.ptr_dns_client = true;
    }
}

/// A home network whose netmask is of the other family than a query address
/// does not lead that address to any home network.
pub proof fn lemma_family_isolation(networks: Map<IpAddr, Network>, query: IpAddr, via: IpAddr)
    requires
        networks.contains_key(via),
        !networks[via].netmask().same_family(query),
    ensures
        hit(networks, query, via) is None,
{
}

/// Where each home network is stored under its own masked address, the home
/// network that a query address resolves to is of the query's family, in its
/// address and in its netmask.
pub proof fn lemma_resolved_network_family(
    networks: Map<IpAddr, Network>,
    query: IpAddr,
    key: IpAddr,
)
    requires
        keyed_by_address(networks),
        resolves_to(networks, query, key),
    ensures
        networks.contains_key(key),
        networks[key].ip().same_family(query),
        networks[key].netmask().same_family(query),
{
    let via = choose|via: IpAddr| hit(networks, query, via) == Some(key);
    assert(networks.contains_key(key));
}

/// Storing a home network under its own masked address keeps every home
/// network stored under its own masked address.
pub proof fn lemma_add_network_keeps_keys(networks: Map<IpAddr, Network>, network: Network)
    requires
        keyed_by_address(networks),
        network.wf(),
    ensures
        keyed_by_address(networks.insert(network.ip(), network)),
{
}

} // verus!
