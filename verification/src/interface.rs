//! Interfaces known to an observation domain.

use vstd::prelude::*;

verus! {

/// An interface: an identifier, a name and a description.
pub struct Interface {
    id: u64,
    name: Vec<u8>,
    description: Vec<u8>,
}

impl Interface {
    pub closed spec fn id(&self) -> u64 {
        self.id
    }

    pub closed spec fn name(&self) -> Seq<u8> {
        self.name@
    }

    pub closed spec fn description(&self) -> Seq<u8> {
        self.description@
    }

    pub fn new(id: u64, name: Vec<u8>, description: Vec<u8>) -> (interface: Self)
        ensures
            interface.id() == id,
            interface.name() == name@,
            interface.description() == description@,
    {
        Interface { id, name, description }
    }

    pub fn get_id(&self) -> (id: u64)
        ensures
            id == self.id(),
    {
        self.id
    }

    pub fn get_name(&self) -> (name: &[u8])
        ensures
            name@ == self.name(),
    {
        self.name.as_slice()
    }

    pub fn get_description(&self) -> (description: &[u8])
        ensures
            description@ == self.description(),
    {
        self.description.as_slice()
    }
}

} // verus!
