//! Resolution of packages on behalf of an authenticated identity.

use vstd::prelude::*;

verus! {

/// Resolves packages for one authenticated identity.
pub struct PackageResolver {
    auth_identity: usize,
}

impl PackageResolver {
    /// The identity packages are resolved for.
    pub closed spec fn identity(self) -> usize {
        self.auth_identity
    }

    pub fn new(identity: usize) -> (r: PackageResolver)
        ensures
            r.identity() == identity,
    {
        PackageResolver { auth_identity: identity }
    }

    pub fn auth_identity(&self) -> (id: usize)
        ensures
            id == self.identity(),
    {
        self.auth_identity
    }
}

} // verus!
