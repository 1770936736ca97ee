//! References to resources that the host owns.

use vstd::prelude::*;

verus! {

/// An opaque reference to a resource of the host, such as a template or a
/// worker. The token is stored and handed back, and never interpreted.
#[derive(Clone, Copy, Debug, PartialEq, Eq, Hash, Structural)]
pub struct Handle {
    token: usize,
}

impl Handle {
    /// The token that the host gave.
    pub closed spec fn token(self) -> usize {
        self.token
    }

    pub fn new(token: usize) -> (handle: Self)
        ensures
            handle.token() == token,
    {
        Handle { token }
    }

    pub fn get_token(&self) -> (token: usize)
        ensures
            token == self.token(),
    {
        self.token
    }
}

} // verus!
