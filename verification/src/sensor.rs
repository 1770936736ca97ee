//! Sensors.

use vstd::prelude::*;
use std::collections::HashMap;
use crate::address::{AddressError, IpAddr};
use crate::address_map::{hash_map_get_mut, Netmasked};
use crate::handle::Handle;
use crate::observation_id::ObservationID;
use crate::prefix::Prefix;
use crate::text::{address_text, address_to_string};
use crate::util::{masked, normalize_address, normalized};

verus! {

/// What a sensor holds.
pub struct SensorView {
    /// The masked address of the sensor's network.
    pub network: IpAddr,
    pub netmask: IpAddr,
    pub network_text: Seq<char>,
    pub worker: Option<Handle>,
    pub default_observation_id: Option<ObservationID>,
    pub observation_ids: Map<u32, ObservationID>,
}

/// The domain that an identifier selects: the one stored under it, else the
/// default domain, else none.
pub open spec fn resolved_domain(sensor: SensorView, id: u32) -> Option<ObservationID> {
    if sensor.observation_ids.contains_key(id) {
        Some(sensor.observation_ids[id])
    } else {
        sensor.default_observation_id
    }
}

/// A sensor: a network, the observation domains of its traffic, and the
/// worker that the host attached to it.
pub struct Sensor {
    prefix: Prefix,
    str_network: String,
    worker: Option<Handle>,
    default_observation_id: Option<ObservationID>,
    observation_id: HashMap<u32, ObservationID>,
}

impl View for Sensor {
    type V = SensorView;

    closed spec fn view(&self) -> SensorView {
        SensorView {
            network: self.prefix.network(),
            netmask: self.prefix.netmask(),
            network_text: self.str_network@,
            worker: self.worker,
            default_observation_id: self.default_observation_id,
            observation_ids: self.observation_id@,
        }
    }
}

impl Sensor {
    /// The network is masked by the netmask, and both are of one family.
    pub open spec fn wf(&self) -> bool {
        masked(self@.network, self@.netmask) == Some(self@.network)
    }

    /// A sensor on the network of an address under a netmask. Both are made
    /// canonical, each on its own, and the address is masked. An address and
    /// a netmask that are then of different families are refused.
    pub fn new(address: IpAddr, netmask: IpAddr) -> (r: Result<Self, AddressError>)
        ensures
            r is Ok <==> normalized(address).same_family(normalized(netmask)),
            r matches Ok(sensor) ==> {
                &&& sensor.wf()
                &&& Some(sensor@.network) == masked(normalized(address), normalized(netmask))
                &&& sensor@ == (SensorView {
                    network: sensor@.network,
                    netmask: normalized(netmask),
                    network_text: address_text(sensor@.network),
                    worker: None,
                    default_observation_id: None,
                    observation_ids: Map::empty(),
                })
            },
            r matches Err(e) ==> e == AddressError::FamilyMismatch,
    {
        let address = normalize_address(address);
        let netmask = normalize_address(netmask);
        match Prefix::new(address, netmask) {
            Ok(prefix) => {
                let str_network = address_to_string(&prefix.get_network());
                Ok(
                    Sensor {
                        prefix,
                        str_network,
                        worker: None,
                        default_observation_id: None,
                        observation_id: HashMap::new(),
                    },
                )
            },
            Err(e) => Err(e),
        }
    }

    pub fn get_network(&self) -> (network: IpAddr)
        ensures
            network == self@.network,
            self.wf(),
    {
        self.prefix.get_network()
    }

    pub fn get_netmask(&self) -> (netmask: IpAddr)
        ensures
            netmask == self@.netmask,
            self.wf(),
    {
        self.prefix.get_netmask()
    }

    pub fn get_network_string(&self) -> (text: &str)
        ensures
            text@ == self@.network_text,
    {
        self.str_network.as_str()
    }

    /// The worker that was attached, if one ever was.
    pub fn get_worker(&self) -> (worker: Option<Handle>)
        ensures
            worker == self@.worker,
    {
        self.worker
    }

    /// The identifiers of the domains: those stored under an identifier, each
    /// once and in no stated order, then that of the default domain if there
    /// is one.
    pub fn list_observation_ids(&self) -> (ids: Vec<u32>)
        ensures
            ({
                let stored = self@.observation_ids.dom().len() as int;
                &&& ids@.take(stored).no_duplicates()
                &&& forall|id: u32|
                    ids@.take(stored).contains(id) <==> self@.observation_ids.contains_key(id)
                &&& match self@.default_observation_id {
                    Some(domain) => ids@.len() == stored + 1 && ids@[stored] == domain@.id,
                    None => ids@.len() == stored,
                }
            }),
    {
        broadcast use vstd::std_specs::hash::group_hash_axioms;

        let mut ids: Vec<u32> = Vec::new();
        for id in it: self.observation_id.keys()
            invariant
                it.seq().unref().to_set() == self.observation_id@.dom(),
                it.seq().no_duplicates(),
                it.seq().len() == self.observation_id@.dom().len(),
                ids@ == it.seq().unref().take(it.index() as int),
                it.index() == it.seq().len() ==> ids@ == it.seq().unref(),
        {
            ids.push(*id);
            assert(ids@ =~= it.seq().unref().take(it.index() + 1));
            assert(it.seq().unref().take(it.seq().len() as int) =~= it.seq().unref());
        }
        let ghost explicit = ids@;
        assert(explicit.to_set() == self.observation_id@.dom());
        assert forall|id: u32| explicit.contains(id) <==> self@.observation_ids.contains_key(
            id,
        ) by {
            assert(explicit.to_set().contains(id) <==> explicit.contains(id));
        }
        match &self.default_observation_id {
            Some(domain) => {
                ids.push(domain.get_id());
            },
            None => {},
        }
        assert(ids@.take(explicit.len() as int) =~= explicit);
        ids
    }

    /// The domain that an identifier selects, for reading: the one stored
    /// under the identifier, else the default domain.
    pub fn resolve_observation_id(&self, id: u32) -> (r: Option<&ObservationID>)
        ensures
            match r {
                Some(domain) => resolved_domain(self@, id) == Some(*domain),
                None => resolved_domain(self@, id) is None,
            },
    {
        broadcast use vstd::std_specs::hash::group_hash_axioms;

        match self.observation_id.get(&id) {
            Some(domain) => Some(domain),
            None => self.default_observation_id.as_ref(),
        }
    }

    /// The domain that an identifier selects, for reading and for writing in
    /// place: the one stored under the identifier, else the default domain.
    pub fn get_observation_id(&mut self, id: u32) -> (r: Option<&mut ObservationID>)
        ensures
            match r {
                Some(domain) => {
                    &&& resolved_domain(old(self)@, id) == Some(*domain)
                    &&& final(self)@ == if old(self)@.observation_ids.contains_key(id) {
                        SensorView {
                            observation_ids: old(self)@.observation_ids.insert(id, *final(domain)),
                            ..old(self)@
                        }
                    } else {
                        SensorView { default_observation_id: Some(*final(domain)), ..old(self)@ }
                    }
                },
                None => resolved_domain(old(self)@, id) is None && final(self)@ == old(self)@,
            },
    {
        broadcast use vstd::std_specs::hash::group_hash_axioms;

        if self.observation_id.contains_key(&id) {
            hash_map_get_mut(&mut self.observation_id, &id)
        } else {
            self.default_observation_id.as_mut()
        }
    }

    /// Attaches a worker, in place of an earlier one.
    pub fn set_worker(&mut self, worker: Handle)
        ensures
            final(self)@ == (SensorView { worker: Some(worker), ..old(self)@ }),
    {
        self.worker = Some(worker);
    }

    /// Attaches a domain. One with identifier 0 becomes the default domain;
    /// any other is stored under its identifier, in place of an earlier one.
    pub fn add_observation_id(&mut self, observation_id: ObservationID)
        ensures
            final(self)@ == if observation_id@.id == 0 {
                SensorView { default_observation_id: Some(observation_id), ..old(self)@ }
            } else {
                SensorView {
                    observation_ids: old(self)@.observation_ids.insert(
                        observation_id@.id,
                        observation_id,
                    ),
                    ..old(self)@
                }
            },
    {
        broadcast use vstd::std_specs::hash::group_hash_axioms;

        let id = observation_id.get_id();
        if id == 0 {
            self.default_observation_id = Some(observation_id);
        } else {
            self.observation_id.insert(id, observation_id);
        }
    }

    /// Makes a domain the default domain, in place of an earlier one.
    pub fn add_default_observation_id(&mut self, observation_id: ObservationID)
        ensures
            final(self)@ == (SensorView {
                default_observation_id: Some(observation_id),
                ..old(self)@
            }),
    {
        self.default_observation_id = Some(observation_id);
    }
}

impl Netmasked for Sensor {
    open spec fn mask(&self) -> IpAddr {
        self@.netmask
    }

    fn stored_netmask(&self) -> (netmask: IpAddr) {
        self.prefix.get_netmask()
    }
}

/// A sensor that stores no domain under the identifier resolves it to its
/// default domain; so a sensor with only a default domain resolves every
/// identifier to that domain.
pub proof fn lemma_default_domain_fallback(sensor: SensorView, id: u32)
    requires
        !sensor.observation_ids.contains_key(id),
    ensures
        resolved_domain(sensor, id) == sensor.default_observation_id,
{
}

/// Attaching domains through `add_observation_id` never stores a domain
/// under identifier 0.
pub proof fn lemma_zero_is_never_stored(
    before: SensorView,
    after: SensorView,
    domain: ObservationID,
)
    requires
        !before.observation_ids.contains_key(0),
        after == if domain@.id == 0 {
            SensorView { default_observation_id: Some(domain), ..before }
        } else {
            SensorView {
                observation_ids: before.observation_ids.insert(domain@.id, domain),
                ..before
            }
        },
    ensures
        !after.observation_ids.contains_key(0),
{
}

} // verus!
