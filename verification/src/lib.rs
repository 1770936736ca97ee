//! Configuration store that resolves an observed IP address to the sensor
//! that exported the traffic, and from there to the observation domain and
//! home network under which the traffic is processed.
//!
//! Addresses are normalised and masked in `util`, written and read as text in
//! `text` and `scan`; `text_laws` proves that what is written reads back.
//! `network`, `observation_id`, `sensor` and `database` hold the configuration
//! graph; `db_loader` builds it from a JSON document, which `json` reads with
//! `serde_json`.

use vstd::prelude::*;

pub mod address;
pub mod address_map;
pub mod application;
pub mod database;
pub mod db_loader;
pub mod error;
pub mod handle;
pub mod interface;
pub mod json;
pub mod network;
pub mod observation_id;
pub mod prefix;
pub mod scan;
pub mod selector;
pub mod sensor;
pub mod text;
pub mod text_laws;
pub mod util;

verus! {

/// A network, its netmask and its broadcast address as sixteen raw octets
/// each, in the layout hosts exchange addresses in.
#[derive(Clone, Copy, PartialEq, Debug, Default)]
pub struct NetAddress {
    network: [u8; 16],
    netmask: [u8; 16],
    broadcast: [u8; 16],
}

} // verus!
