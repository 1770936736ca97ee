//! A map keyed by addresses.

use vstd::prelude::*;
use std::collections::HashMap;
use std::hash::Hash;
use vstd::std_specs::hash::obeys_key_model;
use crate::address::IpAddr;
use crate::util::{apply_netmask, masked};

verus! {

/// `HashMap::get_mut` hands out the value stored under a key, for writing in
/// place: what the map holds afterwards is what it held, with that value as
/// the borrower left it. Without the key the map is untouched.
#[verifier::external_body]
pub(crate) fn hash_map_get_mut<'a, K: Eq + Hash, V>(
    map: &'a mut HashMap<K, V>,
    key: &K,
) -> (r: Option<&'a mut V>)
    ensures
        obeys_key_model::<K>() ==> match r {
            Some(value) => old(map)@.contains_key(*key) && *value == old(map)@[*key]
                && final(map)@ == old(map)@.insert(*key, *final(value)),
            None => !old(map)@.contains_key(*key) && final(map)@ == old(map)@,
        },
{
    map.get_mut(key)
}

/// Whether `values` lists what a map holds under `keys`, and `keys` names
/// every key of the map once.
pub open spec fn lists_under<K, V>(map: Map<K, V>, keys: Seq<K>, values: Seq<V>) -> bool {
    &&& keys.no_duplicates()
    &&& keys.len() == values.len()
    &&& forall|key: K| map.contains_key(key) <==> keys.contains(key)
    &&& forall|i: int| 0 <= i < keys.len() ==> values[i] == map[#[trigger] keys[i]]
}

/// Whether `values` holds each value of a map once per key, in some order.
pub open spec fn lists<K, V>(map: Map<K, V>, values: Seq<V>) -> bool {
    exists|keys: Seq<K>| lists_under(map, keys, values)
}

/// The values of a hash map, in the order in which the map hands them out.
fn hash_map_values<'a, K, V>(map: &'a HashMap<K, V>) -> (r: (Vec<&'a V>, Ghost<Seq<K>>))
    requires
        obeys_key_model::<K>(),
    ensures
        lists_under(map@, r.1@, r.0@.unref()),
{
    broadcast use vstd::std_specs::hash::group_hash_axioms;

    let mut out: Vec<&V> = Vec::new();
    let ghost mut keys: Seq<K> = Seq::empty();
    for pair in it: map.iter()
        invariant
            forall|i: int|
                0 <= i < it.seq().len() ==> map@.contains_key(*(#[trigger] it.seq()[i]).0)
                    && map@[*it.seq()[i].0] == *it.seq()[i].1,
            forall|key: K| #[trigger]
                map@.contains_key(key) ==> it.seq().contains((&key, &map@[key])),
            it.seq().no_duplicates(),
            keys.len() == it.index(),
            out@.len() == it.index(),
            forall|i: int| 0 <= i < it.index() ==> #[trigger] keys[i] == *it.seq()[i].0,
            forall|i: int| 0 <= i < it.index() ==> *(#[trigger] out@[i]) == *it.seq()[i].1,
            keys.no_duplicates(),
            it.index() == it.seq().len() ==> forall|key: K| #[trigger]
                map@.contains_key(key) ==> keys.contains(key),
    {
        assert forall|i: int| 0 <= i < it.index() implies keys[i] != *pair.0 by {
            if keys[i] == *pair.0 {
                assert(it.seq()[i] == it.seq()[it.index() as int]);
            }
        }
        proof {
            keys = keys.push(*pair.0);
        }
        assert(it.index() + 1 == it.seq().len() ==> forall|key: K| #[trigger]
            map@.contains_key(key) ==> keys.contains(key)) by {
            if it.index() + 1 == it.seq().len() {
                assert forall|key: K| #[trigger] map@.contains_key(key) implies keys.contains(
                    key,
                ) by {
                    let entry = (&key, &map@[key]);
                    assert(it.seq().contains(entry));
                    let j = choose|j: int| 0 <= j < it.seq().len() && it.seq()[j] == entry;
                    assert(keys[j] == key);
                }
            }
        }
        out.push(pair.1);
    }
    proof {
        assert forall|key: K| keys.contains(key) implies map@.contains_key(key) by {
            let j = choose|j: int| 0 <= j < keys.len() && keys[j] == key;
        }
        assert forall|i: int| 0 <= i < keys.len() implies out@.unref()[i] == map@[#[trigger]
        keys[i]] by {}
    }
    (out, Ghost(keys))
}

/// A map from addresses to values. Addresses of the two families are kept
/// apart, each under the integer it holds.
pub struct AddressMap<V> {
    v4: HashMap<u32, V>,
    v6: HashMap<u128, V>,
}

/// The map that a map of IPv4 addresses and a map of IPv6 addresses make
/// together.
pub open spec fn joined<V>(v4: Map<u32, V>, v6: Map<u128, V>) -> Map<IpAddr, V> {
    Map::new(
        |key: IpAddr|
            match key {
                IpAddr::V4(bits) => v4.contains_key(bits),
                IpAddr::V6(bits) => v6.contains_key(bits),
            },
        |key: IpAddr|
            match key {
                IpAddr::V4(bits) => v4[bits],
                IpAddr::V6(bits) => v6[bits],
            },
    )
}

proof fn lemma_joined_insert_v4<V>(v4: Map<u32, V>, v6: Map<u128, V>, bits: u32)
    ensures
        forall|value: V| #[trigger]
            joined(v4.insert(bits, value), v6) == joined(v4, v6).insert(IpAddr::V4(bits), value),
{
    assert forall|value: V| #[trigger]
        joined(v4.insert(bits, value), v6) == joined(v4, v6).insert(
            IpAddr::V4(bits),
            value,
        ) by {
        assert(joined(v4.insert(bits, value), v6) =~= joined(v4, v6).insert(
            IpAddr::V4(bits),
            value,
        ));
    }
}

proof fn lemma_joined_insert_v6<V>(v4: Map<u32, V>, v6: Map<u128, V>, bits: u128)
    ensures
        forall|value: V| #[trigger]
            joined(v4, v6.insert(bits, value)) == joined(v4, v6).insert(IpAddr::V6(bits), value),
{
    assert forall|value: V| #[trigger]
        joined(v4, v6.insert(bits, value)) == joined(v4, v6).insert(
            IpAddr::V6(bits),
            value,
        ) by {
        assert(joined(v4, v6.insert(bits, value)) =~= joined(v4, v6).insert(
            IpAddr::V6(bits),
            value,
        ));
    }
}

impl<V> View for AddressMap<V> {
    type V = Map<IpAddr, V>;

    closed spec fn view(&self) -> Map<IpAddr, V> {
        joined(self.v4@, self.v6@)
    }
}

impl<V> AddressMap<V> {
    /// An empty map.
    pub fn new() -> (map: Self)
        ensures
            map@ == Map::<IpAddr, V>::empty(),
    {
        let map = AddressMap { v4: HashMap::new(), v6: HashMap::new() };
        assert(map@ =~= Map::<IpAddr, V>::empty());
        map
    }

    /// Stores a value under a key, in place of what was stored under it.
    pub fn insert(&mut self, key: IpAddr, value: V)
        ensures
            final(self)@ == old(self)@.insert(key, value),
    {
        broadcast use vstd::std_specs::hash::group_hash_axioms;

        match key {
            IpAddr::V4(bits) => {
                proof {
                    lemma_joined_insert_v4(self.v4@, self.v6@, bits);
                }
                self.v4.insert(bits, value);
            },
            IpAddr::V6(bits) => {
                proof {
                    lemma_joined_insert_v6(self.v4@, self.v6@, bits);
                }
                self.v6.insert(bits, value);
            },
        }
    }

    /// Whether a value is stored under a key.
    pub fn contains_key(&self, key: &IpAddr) -> (r: bool)
        ensures
            r == self@.contains_key(*key),
    {
        broadcast use vstd::std_specs::hash::group_hash_axioms;

        match key {
            IpAddr::V4(bits) => self.v4.contains_key(bits),
            IpAddr::V6(bits) => self.v6.contains_key(bits),
        }
    }

    /// The value stored under a key.
    pub fn get(&self, key: &IpAddr) -> (r: Option<&V>)
        ensures
            match r {
                Some(value) => self@.contains_key(*key) && *value == self@[*key],
                None => !self@.contains_key(*key),
            },
    {
        broadcast use vstd::std_specs::hash::group_hash_axioms;

        match key {
            IpAddr::V4(bits) => self.v4.get(bits),
            IpAddr::V6(bits) => self.v6.get(bits),
        }
    }

    /// The values that the map holds, each once per key, in no stated order.
    pub fn values(&self) -> (r: Vec<&V>)
        ensures
            lists(self@, r@.unref()),
    {
        broadcast use vstd::std_specs::hash::group_hash_axioms;

        let (mut out, Ghost(keys_v4)) = hash_map_values(&self.v4);
        let (mut more, Ghost(keys_v6)) = hash_map_values(&self.v6);
        let ghost first = out@;
        let ghost second = more@;
        out.append(&mut more);
        proof {
            let keys = keys_v4.map_values(|bits: u32| IpAddr::V4(bits)) + keys_v6.map_values(
                |bits: u128| IpAddr::V6(bits),
            );
            assert(out@ =~= first + second);
            assert forall|key: IpAddr| self@.contains_key(key) <==> keys.contains(key) by {
                if self@.contains_key(key) {
                    match key {
                        IpAddr::V4(bits) => {
                            assert(self.v4@.contains_key(bits));
                            assert(keys_v4.contains(bits));
                            let j = choose|j: int| 0 <= j < keys_v4.len() && keys_v4[j] == bits;
                            assert(keys[j] == key);
                        },
                        IpAddr::V6(bits) => {
                            assert(self.v6@.contains_key(bits));
                            assert(keys_v6.contains(bits));
                            let j = choose|j: int| 0 <= j < keys_v6.len() && keys_v6[j] == bits;
                            assert(keys[keys_v4.len() + j] == key);
                        },
                    }
                }
                if keys.contains(key) {
                    let j = choose|j: int| 0 <= j < keys.len() && keys[j] == key;
                    if j < keys_v4.len() {
                        assert(keys_v4.contains(keys_v4[j]));
                    } else {
                        assert(keys_v6.contains(keys_v6[j - keys_v4.len()]));
                    }
                }
            }
            assert forall|i: int| 0 <= i < keys.len() implies out@.unref()[i] == self@[#[trigger]
            keys[i]] by {
                if i < keys_v4.len() {
                    assert(keys_v4.contains(keys_v4[i]));
                    assert(self.v4@.contains_key(keys_v4[i]));
                    assert(first.unref()[i] == self.v4@[keys_v4[i]]);
                    assert(out@.unref()[i] == first.unref()[i]);
                } else {
                    let at = i - keys_v4.len();
                    assert(keys_v6.contains(keys_v6[at]));
                    assert(self.v6@.contains_key(keys_v6[at]));
                    assert(second.unref()[at] == self.v6@[keys_v6[at]]);
                    assert(out@.unref()[i] == second.unref()[at]);
                }
            }
            assert(lists_under(self@, keys, out@.unref()));
        }
        out
    }

    /// The value stored under a key, for writing in place.
    pub fn get_mut(&mut self, key: &IpAddr) -> (r: Option<&mut V>)
        ensures
            match r {
                Some(value) => old(self)@.contains_key(*key) && *value == old(self)@[*key]
                    && final(self)@ == old(self)@.insert(*key, *final(value)),
                None => !old(self)@.contains_key(*key) && final(self)@ == old(self)@,
            },
    {
        broadcast use vstd::std_specs::hash::group_hash_axioms;

        match key {
            IpAddr::V4(bits) => {
                proof {
                    lemma_joined_insert_v4(self.v4@, self.v6@, *bits);
                }
                hash_map_get_mut(&mut self.v4, bits)
            },
            IpAddr::V6(bits) => {
                proof {
                    lemma_joined_insert_v6(self.v4@, self.v6@, *bits);
                }
                hash_map_get_mut(&mut self.v6, bits)
            },
        }
    }
}

/// What is stored by a masked address and matched through a netmask.
pub trait Netmasked {
    /// The netmask through which a query address is matched.
    spec fn mask(&self) -> IpAddr;

    fn stored_netmask(&self) -> (netmask: IpAddr)
        ensures
            netmask == self.mask(),
    ;
}

/// The key under which a query address is found through the netmask of the
/// entry stored at `via`: the query masked by that netmask, where the two are
/// of one family and the map holds an entry under the result.
pub open spec fn hit<V: Netmasked>(map: Map<IpAddr, V>, query: IpAddr, via: IpAddr) -> Option<
    IpAddr,
> {
    if !map.contains_key(via) {
        None
    } else {
        match masked(query, map[via].mask()) {
            Some(key) => if map.contains_key(key) {
                Some(key)
            } else {
                None
            },
            None => None,
        }
    }
}

/// Whether the netmask of some stored entry leads a query address to `key`.
pub open spec fn resolves_to<V: Netmasked>(
    map: Map<IpAddr, V>,
    query: IpAddr,
    key: IpAddr,
) -> bool {
    exists|via: IpAddr| hit(map, query, via) == Some(key)
}

/// Whether no stored entry's netmask leads a query address to a stored entry.
pub open spec fn unresolved<V: Netmasked>(map: Map<IpAddr, V>, query: IpAddr) -> bool {
    forall|via: IpAddr| hit(map, query, via) is None
}

impl<V: Netmasked> AddressMap<V> {
    /// Looks a query address up through the netmask of each stored entry in
    /// turn, in no stated order, and gives the key of the first entry found.
    /// An entry whose netmask is of the other family than the query is passed
    /// over.
    pub fn resolve(&self, query: &IpAddr) -> (r: Option<IpAddr>)
        ensures
            match r {
                Some(key) => resolves_to(self@, *query, key),
                None => unresolved(self@, *query),
            },
    {
        let entries = self.values();
        let ghost keys: Seq<IpAddr> = choose|keys: Seq<IpAddr>|
            lists_under(self@, keys, entries@.unref());
        let mut i: usize = 0;
        while i < entries.len()
            invariant
                i <= entries.len(),
                lists_under(self@, keys, entries@.unref()),
                forall|j: int| 0 <= j < i ==> hit(self@, *query, #[trigger] keys[j]) is None,
            decreases entries.len() - i,
        {
            proof {
                assert(keys.contains(keys[i as int]));
                assert(entries@.unref()[i as int] == self@[keys[i as int]]);
            }
            let netmask = entries[i].stored_netmask();
            match apply_netmask(query, &netmask) {
                Ok(key) => {
                    if self.contains_key(&key) {
                        assert(hit(self@, *query, keys[i as int]) == Some(key));
                        return Some(key);
                    }
                },
                Err(_) => {},
            }
            i += 1;
        }
        proof {
            assert forall|via: IpAddr| hit(self@, *query, via) is None by {
                if self@.contains_key(via) {
                    assert(keys.contains(via));
                    let j = choose|j: int| 0 <= j < keys.len() && keys[j] == via;
                    assert(hit(self@, *query, keys[j]) is None);
                }
            }
        }
        None
    }
}

} // verus!
