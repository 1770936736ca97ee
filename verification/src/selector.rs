//! Selectors known to an observation domain.

use vstd::prelude::*;

verus! {

/// A selector: an identifier and a name.
pub struct Selector {
    id: u64,
    name: Vec<u8>,
}

impl Selector {
    pub closed spec fn id(&self) -> u64 {
        self.id
    }

    pub closed spec fn name(&self) -> Seq<u8> {
        self.name@
    }

    pub fn new(id: u64, name: Vec<u8>) -> (selector: Self)
        ensures
            selector.id() == id,
            selector.name() == name@,
    {
        Selector { id, name }
    }

    pub fn get_id(&self) -> (id: u64)
        ensures
            id == self.id(),
    {
        self.id
    }

    pub fn get_name(&self) -> (name: &[u8])
        ensures
            name@ == self.name(),
    {
        self.name.as_slice()
    }
}

} // verus!
