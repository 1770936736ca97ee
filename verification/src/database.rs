//! The registry of sensors.

use vstd::prelude::*;
use crate::address::IpAddr;
use crate::address_map::{hit, lists, resolves_to, unresolved, AddressMap};
use crate::sensor::Sensor;
use crate::util::{masked, normalize_address, normalized};

verus! {

/// The sensors of a deployment, each stored under the masked address of its
/// network. Lookups take the registry by shared reference and changes take it
/// by exclusive reference, so no lookup runs while the registry changes.
pub struct SensorsDB {
    database: AddressMap<Sensor>,
}

impl View for SensorsDB {
    type V = Map<IpAddr, Sensor>;

    closed spec fn view(&self) -> Map<IpAddr, Sensor> {
        self.database@
    }
}

/// The registry after the sensors from position `from` on were stored in
/// turn, each under the masked address of its network, a later one in place
/// of an earlier one with that address.
pub open spec fn stored_all(database: Map<IpAddr, Sensor>, sensors: Seq<Sensor>, from: int) -> Map<
    IpAddr,
    Sensor,
>
    decreases sensors.len() - from,
{
    if from < 0 || from >= sensors.len() {
        database
    } else {
        stored_all(database.insert(sensors[from]@.network, sensors[from]), sensors, from + 1)
    }
}

impl SensorsDB {
    /// A registry without sensors.
    pub fn new() -> (database: Self)
        ensures
            database@ == Map::<IpAddr, Sensor>::empty(),
    {
        SensorsDB { database: AddressMap::new() }
    }

    /// The sensor that an address belongs to. The address is made canonical
    /// and looked up through the netmask of each stored sensor in turn, in no
    /// stated order; the first sensor found is given. A sensor whose netmask
    /// is of the other family than the address is passed over. Where the
    /// networks of the stored sensors overlap, which of the sensors found is
    /// given is not stated.
    pub fn get_sensor(&self, ip: IpAddr) -> (r: Option<&Sensor>)
        ensures
            match r {
                Some(sensor) => exists|key: IpAddr|
                    resolves_to(self@, normalized(ip), key) && self@[key] == *sensor,
                None => unresolved(self@, normalized(ip)),
            },
    {
        let query = normalize_address(ip);
        match self.database.resolve(&query) {
            Some(key) => {
                proof {
                    let via = choose|via: IpAddr| hit(self@, query, via) == Some(key);
                    assert(hit(self@, query, via) == Some(key));
                }
                self.database.get(&key)
            },
            None => None,
        }
    }

    /// As `get_sensor`, for writing in place.
    pub fn get_sensor_mut(&mut self, ip: IpAddr) -> (r: Option<&mut Sensor>)
        ensures
            match r {
                Some(sensor) => exists|key: IpAddr|
                    resolves_to(old(self)@, normalized(ip), key) && old(self)@[key] == *sensor
                        && final(self)@ == old(self)@.insert(key, *final(sensor)),
                None => unresolved(old(self)@, normalized(ip)) && final(self)@ == old(self)@,
            },
    {
        let query = normalize_address(ip);
        match self.database.resolve(&query) {
            Some(key) => {
                proof {
                    let via = choose|via: IpAddr| hit(self@, query, via) == Some(key);
                    assert(hit(self@, query, via) == Some(key));
                }
                self.database.get_mut(&key)
            },
            None => None,
        }
    }

    /// The stored sensors, each once, in no stated order.
    pub fn list_sensors(&self) -> (sensors: Vec<&Sensor>)
        ensures
            lists(self@, sensors@.unref()),
    {
        self.database.values()
    }

    /// Stores a sensor under the masked address of its network, in place of
    /// a sensor stored under that address.
    pub fn add_sensor(&mut self, sensor: Sensor)
        ensures
            masked(sensor@.network, sensor@.netmask) == Some(sensor@.network),
            final(self)@ == old(self)@.insert(sensor@.network, sensor),
    {
        let network = sensor.get_network();
        self.database.insert(network, sensor);
    }

    /// Stores sensors in turn, as `add_sensor` stores one.
    pub fn add_sensors(&mut self, sensors: Vec<Sensor>)
        ensures
            final(self)@ == stored_all(old(self)@, sensors@, 0),
    {
        let ghost all = sensors@;
        let mut rest = sensors;
        let ghost mut done: int = 0;
        while rest.len() > 0
            invariant
                0 <= done <= all.len(),
                rest@ == all.skip(done),
                stored_all(old(self)@, all, 0) == stored_all(self@, all, done),
            decreases rest.len(),
        {
            let sensor = rest.remove(0);
            assert(sensor == all[done]);
            self.add_sensor(sensor);
            proof {
                done = done + 1;
                assert(rest@ =~= all.skip(done));
            }
        }
    }
}

/// After a sensor is stored, an address inside its network resolves to that
/// sensor, provided that the netmask of no stored sensor leads the address to
/// another stored sensor.
pub proof fn lemma_added_sensor_is_found(
    before: Map<IpAddr, Sensor>,
    sensor: Sensor,
    query: IpAddr,
)
    requires
        sensor.wf(),
        masked(query, sensor@.netmask) == Some(sensor@.network),
        forall|via: IpAddr|
            (#[trigger] hit(before.insert(sensor@.network, sensor), query, via)) is None || hit(
                before.insert(sensor@.network, sensor),
                query,
                via,
            ) == Some(sensor@.network),
    ensures
        !unresolved(before.insert(sensor@.network, sensor), query),
        forall|key: IpAddr| #[trigger]
            resolves_to(before.insert(sensor@.network, sensor), query, key) ==> before.insert(
                sensor@.network,
                sensor,
            )[key] == sensor,
{
    let after = before.insert(sensor@.network, sensor);
    assert(hit(after, query, sensor@.network) == Some(sensor@.network));
    assert forall|key: IpAddr| #[trigger] resolves_to(after, query, key) implies after[key]
        == sensor by {
        let via = choose|via: IpAddr| hit(after, query, via) == Some(key);
        assert(hit(after, query, via) == Some(key));
    }
}

} // verus!
