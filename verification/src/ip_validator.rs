//! Which hosts may register.

use crate::net::IpAddr;
use vstd::prelude::*;

verus! {

/// A validator that can be used to secure registration requests.
pub trait IPValidator: Sync + Send {
    /// Called when a connector attempts to register a route to this router.
    fn allow(&self, ip: IpAddr) -> bool;
}

/// A validator that allows all IP addresses to connect
pub struct AllowAll;

impl AllowAll {
    pub fn new() -> (r: Self)
        ensures
            r == AllowAll,
    {
        AllowAll
    }
}

impl IPValidator for AllowAll {
    fn allow(&self, ip: IpAddr) -> (r: bool)
        ensures
            r,
    {
        true
    }
}

} // verus!
