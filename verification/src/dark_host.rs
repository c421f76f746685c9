//! Hosts that get no requests.

use crate::net::IpAddr;
use vstd::prelude::*;

verus! {

/// A host that does not have requests forwarded to it.
///
/// Putting a host in dark mode is useful when needing to take a host out of an environment temporarily, e.g. for patching etc.
#[derive(Debug)]
pub struct DarkHost {
    /// The address of the host
    pub address: IpAddr,
    /// The time that dark mode was turned on for this host
    ///
    /// Represent in unix epoch in millisecond
    pub date_enabled: i64,
    /// An optional description of why this host is in dark mode.
    pub reason: String,
}

impl Clone for DarkHost {
    fn clone(&self) -> (r: Self)
        ensures
            r == *self,
    {
        DarkHost {
            address: self.address,
            date_enabled: self.date_enabled,
            reason: self.reason.clone(),
        }
    }
}

/// Two dark hosts are the same if their addresses are.
impl PartialEq for DarkHost {
    fn eq(&self, other: &Self) -> (r: bool) {
        self.address == other.address
    }
}

impl vstd::std_specs::cmp::PartialEqSpecImpl for DarkHost {
    open spec fn obeys_eq_spec() -> bool {
        true
    }

    open spec fn eq_spec(&self, other: &Self) -> bool {
        self.address == other.address
    }
}

impl Eq for DarkHost {

}

impl DarkHost {
    /// Returns true if the given address matches this host
    pub fn same_host(&self, another: IpAddr) -> (r: bool)
        ensures
            r == (self.address == another),
    {
        self.address == another
    }
}

} // verus!
