//! Applications known to an observation domain.

use vstd::prelude::*;

verus! {

/// An application: an identifier and a name.
pub struct Application {
    id: u64,
    name: Vec<u8>,
}

impl Application {
    pub closed spec fn id(&self) -> u64 {
        self.id
    }

    pub closed spec fn name(&self) -> Seq<u8> {
        self.name@
    }

    pub fn new(id: u64, name: Vec<u8>) -> (application: Self)
        ensures
            application.id() == id,
            application.name() == name@,
    {
        Application { id, name }
    }

    pub fn get_id(&self) -> (id: u64)
        ensures
            id == self.id(),
    {
        self.id
    }

    pub fn get_name(&self) -> (name: &[u8])
        ensures
            name@ == self.name(),
    {
        self.name.as_slice()
    }
}

} // verus!
