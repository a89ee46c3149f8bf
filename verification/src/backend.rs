//! The backends that host the Windows guest, and the choice among them.
use vstd::prelude::*;

use crate::adapter::LibvirtVm;
use crate::error::{ConfigError, Error};
use crate::types::DomainName;

verus! {

/// The backend that runs the guest in a container.
#[derive(Debug, Clone, Copy, PartialEq, Eq, Structural)]
pub struct Container;

/// The backend that reaches a guest the user manages.
#[derive(Debug, Clone, Copy, PartialEq, Eq, Structural)]
pub struct Manual;

/// The backend that runs the guest as a libvirt domain.
#[derive(Debug, Clone, Copy, PartialEq, Eq, Structural)]
pub struct Libvirt;

/// One of the backends.
#[derive(Debug, Clone, Copy, PartialEq, Eq, Structural)]
pub enum Backends {
    Container(Container),
    Manual(Manual),
    Libvirt(Libvirt),
}

impl Default for Backends {
    /// The container backend.
    fn default() -> (r: Self)
        ensures
            r == Backends::Container(Container),
    {
        Backends::Container(Container)
    }
}

/// The libvirt part of the configuration.
#[derive(Debug, Clone)]
pub struct LibvirtConfig {
    pub enable: bool,
    /// The name of the libvirt domain of the guest.
    pub vm_name: String,
}

/// The container part of the configuration.
#[derive(Debug, Clone, Copy)]
pub struct ContainerConfig {
    pub enable: bool,
}

/// The manual part of the configuration.
#[derive(Debug, Clone, Copy)]
pub struct ManualConfig {
    pub enable: bool,
}

/// What the backends read of the configuration.
#[derive(Debug, Clone)]
pub struct Config {
    /// The backend in use.
    pub backend: Backends,
    pub libvirt: LibvirtConfig,
    pub container: ContainerConfig,
    pub manual: ManualConfig,
}

/// The backend that the enable flags choose: the one that is enabled, when exactly one is.
pub open spec fn chosen_backend(libvirt: bool, container: bool, manual: bool) -> Option<Backends> {
    if libvirt && !container && !manual {
        Some(Backends::Libvirt(Libvirt))
    } else if !libvirt && container && !manual {
        Some(Backends::Container(Container))
    } else if !libvirt && !container && manual {
        Some(Backends::Manual(Manual))
    } else {
        None
    }
}

/// What the libvirt backend's dependency check gives for a configuration.
pub open spec fn libvirt_check(enable: bool, vm_name: Seq<char>) -> Result<(), Error> {
    if !enable {
        Err(Error::Config(ConfigError::LibvirtDisabled))
    } else if vm_name.len() == 0 {
        Err(Error::Config(ConfigError::EmptyDomainName))
    } else {
        Ok(())
    }
}

/// The libvirt check refuses a disabled backend, then an empty domain name, and accepts
/// every other configuration, whatever the name's length.
pub proof fn law_libvirt_check(enable: bool, vm_name: Seq<char>)
    ensures
        !enable ==> libvirt_check(enable, vm_name) == Err::<(), Error>(
            Error::Config(ConfigError::LibvirtDisabled),
        ),
        enable && vm_name.len() == 0 ==> libvirt_check(enable, vm_name) == Err::<(), Error>(
            Error::Config(ConfigError::EmptyDomainName),
        ),
        enable && vm_name.len() > 0 ==> libvirt_check(enable, vm_name) == Ok::<(), Error>(()),
{
}

impl Backends {
    /// The backend that the configuration enables; refused unless exactly one is enabled.
    pub fn try_from_config(config: &Config) -> (r: Result<Self, Error>)
        ensures
            match chosen_backend(config.libvirt.enable, config.container.enable, config.manual.enable) {
                Some(b) => r == Ok::<Backends, Error>(b),
                None => r == Err::<Backends, Error>(Error::Config(ConfigError::BackendChoice)),
            },
    {
        match (config.libvirt.enable, config.container.enable, config.manual.enable) {
            (true, false, false) => Ok(Backends::Libvirt(Libvirt)),
            (false, true, false) => Ok(Backends::Container(Container)),
            (false, false, true) => Ok(Backends::Manual(Manual)),
            _ => Err(Error::Config(ConfigError::BackendChoice)),
        }
    }

    /// The dependency check of this backend. The checks of the container and manual
    /// backends are not part of this library.
    pub fn check_depends(self, config: &Config) -> (r: Result<(), Error>)
        ensures
            self is Libvirt ==> r == libvirt_check(config.libvirt.enable, config.libvirt.vm_name@),
            !(self is Libvirt) ==> r == Err::<(), Error>(Error::UnsupportedBackend),
    {
        match self {
            Backends::Libvirt(l) => l.check_depends(config),
            _ => Err(Error::UnsupportedBackend),
        }
    }
}

impl Libvirt {
    /// Checks that the libvirt backend is enabled and names a domain.
    pub fn check_depends(self, config: &Config) -> (r: Result<(), Error>)
        ensures
            r == libvirt_check(config.libvirt.enable, config.libvirt.vm_name@),
    {
        if !config.libvirt.enable {
            return Err(Error::Config(ConfigError::LibvirtDisabled));
        }
        if config.libvirt.vm_name.as_str().is_empty() {
            return Err(Error::Config(ConfigError::EmptyDomainName));
        }
        let vm = LibvirtVm::new(DomainName::new(config.libvirt.vm_name.as_str()));
        vm.check_depends()?;
        let _state = vm.state();
        Ok(())
    }
}

impl Config {
    /// The dependency check of the configured backend.
    pub fn backend_check_depends(&self) -> (r: Result<(), Error>)
        ensures
            self.backend is Libvirt ==> r == libvirt_check(self.libvirt.enable, self.libvirt.vm_name@),
            !(self.backend is Libvirt) ==> r == Err::<(), Error>(Error::UnsupportedBackend),
    {
        self.backend.check_depends(self)
    }
}

} // verus!
