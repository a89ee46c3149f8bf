//! The errors of the library.
use vstd::prelude::*;

verus! {

/// A configuration that the backends refuse.
#[derive(Debug, Clone, Copy, PartialEq, Eq, Structural)]
pub enum ConfigError {
    /// Not exactly one of the backends is enabled.
    BackendChoice,
    /// The libvirt backend is checked but not enabled.
    LibvirtDisabled,
    /// The libvirt domain name is empty.
    EmptyDomainName,
}

impl ConfigError {
    /// The message that describes the error.
    pub fn message(&self) -> (r: &'static str)
        ensures
            *self == ConfigError::BackendChoice ==> r@
                == "More than one backend enabled, please set only one of libvirt.enable, container.enable, and manual.enable"@,
            *self == ConfigError::LibvirtDisabled ==> r@ == "Libvirt backend is not enabled"@,
            *self == ConfigError::EmptyDomainName ==> r@
                == "Libvirt domain name configuration must not be empty"@,
    {
        match self {
            ConfigError::BackendChoice => "More than one backend enabled, please set only one of libvirt.enable, container.enable, and manual.enable",
            ConfigError::LibvirtDisabled => "Libvirt backend is not enabled",
            ConfigError::EmptyDomainName => "Libvirt domain name configuration must not be empty",
        }
    }
}

/// Why no address of a guest could be found.
#[derive(Debug, Clone, Copy, PartialEq, Eq, Structural)]
pub enum DiscoveryError {
    /// A query failed to run, and none of the others found an address.
    ExecutionFailures,
    /// Every query ran, and none found an address.
    NoAddress,
}

impl DiscoveryError {
    /// The message that describes the error.
    pub fn message(&self) -> (r: &'static str)
        ensures
            *self == DiscoveryError::ExecutionFailures ==> r@
                == "Libvirt IP discovery strategies completed with underlying execution failures. Check tracing logs."@,
            *self == DiscoveryError::NoAddress ==> r@
                == "No active network mappings or IP addresses assigned to this guest domain"@,
    {
        match self {
            DiscoveryError::ExecutionFailures => "Libvirt IP discovery strategies completed with underlying execution failures. Check tracing logs.",
            DiscoveryError::NoAddress => "No active network mappings or IP addresses assigned to this guest domain",
        }
    }
}

/// The errors of the library.
#[derive(Debug, Clone, PartialEq, Eq)]
pub enum Error {
    /// The configuration is refused.
    Config(ConfigError),
    /// No address of the guest was found.
    Discovery(DiscoveryError),
    /// An outside command failed; the text says how.
    Command(String),
    /// The backend's checks are not part of this library.
    UnsupportedBackend,
}

} // verus!
