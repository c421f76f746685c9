//! Which hosts are in dark mode.
//!
//! The hosts are held in `dashmap`'s concurrent map. Such a map can be changed through a shared
//! reference; here it is changed through an exclusive one only, by the manager that owns it.

use crate::dark_host::DarkHost;
use crate::net::IpAddr;
use dashmap::DashMap;
use vstd::prelude::*;

verus! {

/// The hosts that a map holds.
pub uninterp spec fn dark(m: DashMap<(bool, u128), DarkHost>) -> Map<(bool, u128), DarkHost>;

/// `DashMap::new`: a map that holds nothing.
#[verifier::external_body]
fn dark_new() -> (r: DashMap<(bool, u128), DarkHost>)
    ensures
        dark(r).dom() == Set::<(bool, u128)>::empty(),
{
    DashMap::new()
}

/// `DashMap::insert`: the host is held under the key, in place of what was.
#[verifier::external_body]
fn dark_insert(m: &mut DashMap<(bool, u128), DarkHost>, k: (bool, u128), v: DarkHost)
    ensures
        dark(*final(m)) == dark(*old(m)).insert(k, v),
{
    m.insert(k, v);
}

/// `DashMap::remove`: nothing is held under the key any more.
#[verifier::external_body]
fn dark_remove(m: &mut DashMap<(bool, u128), DarkHost>, k: (bool, u128))
    ensures
        dark(*final(m)) == dark(*old(m)).remove(k),
{
    m.remove(&k);
}

/// `DashMap::get`, then `Clone` of what it finds: what is held under the key.
#[verifier::external_body]
fn dark_get(m: &DashMap<(bool, u128), DarkHost>, k: (bool, u128)) -> (r: Option<DarkHost>)
    ensures
        r == (if dark(*m).dom().contains(k) {
            Some(dark(*m)[k])
        } else {
            None
        }),
{
    m.get(&k).map(|e| e.value().clone())
}

/// `DashMap::iter`, then `Clone` of what it gives: all that is held, with its keys, each once,
/// in an order that is not said.
#[verifier::external_body]
fn dark_list(m: &DashMap<(bool, u128), DarkHost>) -> (r: Vec<((bool, u128), DarkHost)>)
    ensures
        forall|i: int, j: int|
            0 <= i < j < r@.len() ==> (#[trigger] r@[i]).0 != (#[trigger] r@[j]).0,
        forall|i: int|
            0 <= i < r@.len() ==> dark(*m).dom().contains((#[trigger] r@[i]).0) && dark(
                *m,
            )[r@[i].0] == r@[i].1,
        forall|k: (bool, u128)|
            dark(*m).dom().contains(k) ==> exists|i: int|
                0 <= i < r@.len() && (#[trigger] r@[i]).0 == k,
{
    m.iter().map(|e| (*e.key(), e.value().clone())).collect()
}

/// The key of a host.
pub open spec fn host_key(ip: IpAddr) -> (bool, u128) {
    match ip {
        IpAddr::V4(bits) => (false, bits as u128),
        IpAddr::V6(bits) => (true, bits),
    }
}

fn key_of(ip: IpAddr) -> (r: (bool, u128))
    ensures
        r == host_key(ip),
{
    match ip {
        IpAddr::V4(bits) => (false, bits as u128),
        IpAddr::V6(bits) => (true, bits),
    }
}

/// This class allows you to block certain hosts from receiving requests.
///
/// If a host is in "dark mode" then cranker connectors can still register
/// with it, however no requests will be forwarded to those connectors.
pub struct DarkModeManager {
    hosts: DashMap<(bool, u128), DarkHost>,
}

impl DarkModeManager {
    /// The hosts in dark mode, by their addresses.
    pub closed spec fn hosts(&self) -> Map<IpAddr, DarkHost> {
        Map::new(
            |ip: IpAddr| dark(self.hosts).dom().contains(host_key(ip)),
            |ip: IpAddr| dark(self.hosts)[host_key(ip)],
        )
    }

    /// Whether each host is held under its own address.
    pub closed spec fn wf(&self) -> bool {
        forall|k: (bool, u128)| #[trigger]
            dark(self.hosts).dom().contains(k) ==> host_key(dark(self.hosts)[k].address) == k
    }

    /// No host is in dark mode.
    pub fn new() -> (r: Self)
        ensures
            r.wf(),
            r.hosts() == Map::<IpAddr, DarkHost>::empty(),
    {
        let r = DarkModeManager { hosts: dark_new() };
        assert(r.hosts() =~= Map::empty());
        r
    }

    /// Specifies that the given target destination should not have any
    /// requests sent to it.
    ///
    /// Does nothing if the host was already in dark mode.
    pub fn enable_dark_mode(&mut self, dark_host: DarkHost)
        requires
            old(self).wf(),
        ensures
            final(self).wf(),
            final(self).hosts() == enabled(old(self).hosts(), dark_host),
    {
        let k = key_of(dark_host.address);
        let ghost address = dark_host.address;
        if dark_get(&self.hosts, k).is_none() {
            dark_insert(&mut self.hosts, k, dark_host);
            assert(self.hosts() =~= old(self).hosts().insert(address, dark_host));
        }
    }

    /// Removes the target from the set of blocked hosts.
    ///
    /// Does nothing if the host was not already in dark mode.
    pub fn disable_dark_mode(&mut self, dark_host: DarkHost)
        requires
            old(self).wf(),
        ensures
            final(self).wf(),
            final(self).hosts() == old(self).hosts().remove(dark_host.address),
    {
        dark_remove(&mut self.hosts, key_of(dark_host.address));
        assert(self.hosts() =~= old(self).hosts().remove(dark_host.address));
    }

    /// The current dark hosts.
    pub fn get_dark_hosts(&self) -> (r: Vec<DarkHost>)
        requires
            self.wf(),
        ensures
            lists_hosts(r@, self.hosts()),
    {
        let list = dark_list(&self.hosts);
        let mut r: Vec<DarkHost> = Vec::new();
        let mut i: usize = 0;
        while i < list.len()
            invariant
                i <= list.len(),
                r@.len() == i,
                forall|j: int| 0 <= j < i ==> #[trigger] r@[j] == list@[j].1,
            decreases list.len() - i,
        {
            r.push(list[i].1.clone());
            i = i + 1;
        }
        proof {
            assert forall|i: int| 0 <= i < r@.len() implies host_key((#[trigger] r@[i]).address)
                == list@[i].0 by {
                assert(dark(self.hosts).dom().contains(list@[i].0));
            }
            assert forall|i: int, j: int| 0 <= i < j < r@.len() implies (
            #[trigger] r@[i]).address != (#[trigger] r@[j]).address by {
                assert(list@[i].0 != list@[j].0);
            }
            assert forall|ip: IpAddr| #[trigger] self.hosts().dom().contains(ip) implies exists|
                i: int,
            | 0 <= i < r@.len() && (#[trigger] r@[i]).address == ip by {
                let k = host_key(ip);
                let i = choose|i: int| 0 <= i < list@.len() && (#[trigger] list@[i]).0 == k;
                assert(host_key(r@[i].address) == k);
                lemma_key_is_address(r@[i].address, ip);
            }
        }
        r
    }

    /// Finds the host associated with the given address, if it is in dark mode.
    /// * `address` - The address of the host
    pub fn find_host(&self, address: IpAddr) -> (r: Option<DarkHost>)
        ensures
            r == (if self.hosts().dom().contains(address) {
                Some(self.hosts()[address])
            } else {
                None
            }),
    {
        dark_get(&self.hosts, key_of(address))
    }
}

/// Different addresses have different keys.
proof fn lemma_key_is_address(a: IpAddr, b: IpAddr)
    requires
        host_key(a) == host_key(b),
    ensures
        a == b,
{
}

/// Whether a list gives the hosts that are in dark mode, each once.
pub open spec fn lists_hosts(v: Seq<DarkHost>, hosts: Map<IpAddr, DarkHost>) -> bool {
    &&& forall|i: int, j: int|
        0 <= i < j < v.len() ==> (#[trigger] v[i]).address != (#[trigger] v[j]).address
    &&& forall|i: int|
        0 <= i < v.len() ==> hosts.dom().contains((#[trigger] v[i]).address)
            && hosts[v[i].address] == v[i]
    &&& forall|ip: IpAddr| #[trigger]
        hosts.dom().contains(ip) ==> exists|i: int|
            0 <= i < v.len() && (#[trigger] v[i]).address == ip
}

/// The hosts after one was put into dark mode.
pub open spec fn enabled(hosts: Map<IpAddr, DarkHost>, h: DarkHost) -> Map<IpAddr, DarkHost> {
    if hosts.dom().contains(h.address) {
        hosts
    } else {
        hosts.insert(h.address, h)
    }
}

/// Putting a host into dark mode a second time does nothing, and taking it out undoes it where
/// it was not in dark mode before. Taking out a host that is not in dark mode does nothing. A host
/// is in dark mode after it was put there, and is not after it was taken out.
pub proof fn law_dark_mode(hosts: Map<IpAddr, DarkHost>, h: DarkHost, again: DarkHost)
    requires
        again.address == h.address,
    ensures
        enabled(enabled(hosts, h), again) == enabled(hosts, h),
        !hosts.dom().contains(h.address) ==> enabled(hosts, h).remove(h.address) == hosts,
        !hosts.dom().contains(h.address) ==> hosts.remove(h.address) == hosts,
        enabled(hosts, h).dom().contains(h.address),
        !hosts.remove(h.address).dom().contains(h.address),
{
    if !hosts.dom().contains(h.address) {
        assert(enabled(hosts, h).remove(h.address) =~= hosts);
        assert(hosts.remove(h.address) =~= hosts);
    }
}

} // verus!
