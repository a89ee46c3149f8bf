//! A libvirt guest domain as the backend sees it.
use vstd::prelude::*;

use crate::discovery::{start_view, DiscoveryAction, IpDiscovery};
use crate::error::Error;
use crate::types::DomainName;
use crate::virsh::Virsh;

verus! {

/// An IP address: four octets, or eight 16-bit groups.
#[derive(Debug, Clone, Copy, PartialEq, Eq, Hash)]
pub enum IpAddr {
    V4([u8; 4]),
    V6([u16; 8]),
}

/// A libvirt guest domain, reached through `virsh`.
#[derive(Debug)]
pub struct LibvirtVm {
    virsh: Virsh,
}

impl View for LibvirtVm {
    type V = Seq<char>;

    /// The name of the domain.
    closed spec fn view(&self) -> Seq<char> {
        self.virsh@
    }
}

impl LibvirtVm {
    /// The guest domain named `domain`.
    pub fn new(domain: DomainName) -> (r: Self)
        ensures
            r@ == domain@,
    {
        LibvirtVm { virsh: Virsh::new(domain) }
    }

    /// The `virsh` tool bound to this domain.
    pub fn virsh(&self) -> (r: &Virsh)
        ensures
            r@ == self@,
    {
        &self.virsh
    }

    /// The domain's own dependency check, which has nothing to check.
    pub fn check_depends(&self) -> (r: Result<(), Error>)
        ensures
            r is Ok,
    {
        Ok(())
    }

    /// The state of the domain that the backend assumes: running.
    pub fn state(&self) -> (r: Result<String, Error>)
        ensures
            r matches Ok(s) && s@ == "running"@,
    {
        Ok("running".to_owned())
    }

    /// Starts looking for the domain's IP address: first in `virsh domifaddr`, then in the
    /// DHCP leases of the networks its interfaces are attached to. The caller performs each
    /// action and hands the outcome back to the returned discovery.
    pub fn get_ip(&self) -> (r: (IpDiscovery, DiscoveryAction))
        ensures
            (r.0@, r.1@) == start_view(self@),
            r.0.wf(),
    {
        IpDiscovery::start(&self.virsh)
    }
}

} // verus!
