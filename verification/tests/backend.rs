use winapps::backend::{
    Backends, Config, Container, ContainerConfig, Libvirt, LibvirtConfig, Manual, ManualConfig,
};
use winapps::error::{ConfigError, DiscoveryError, Error};

fn config(libvirt: bool, container: bool, manual: bool, vm_name: &str) -> Config {
    Config {
        backend: Backends::Libvirt(Libvirt),
        libvirt: LibvirtConfig { enable: libvirt, vm_name: vm_name.to_string() },
        container: ContainerConfig { enable: container },
        manual: ManualConfig { enable: manual },
    }
}

#[test]
fn one_enabled_backend_is_chosen() {
    assert_eq!(
        Backends::try_from_config(&config(true, false, false, "w")),
        Ok(Backends::Libvirt(Libvirt))
    );
    assert_eq!(
        Backends::try_from_config(&config(false, true, false, "w")),
        Ok(Backends::Container(Container))
    );
    assert_eq!(
        Backends::try_from_config(&config(false, false, true, "w")),
        Ok(Backends::Manual(Manual))
    );
}

#[test]
fn other_choices_are_refused() {
    let refused = Err(Error::Config(ConfigError::BackendChoice));
    assert_eq!(Backends::try_from_config(&config(false, false, false, "w")), refused);
    assert_eq!(Backends::try_from_config(&config(true, true, false, "w")), refused);
    assert_eq!(Backends::try_from_config(&config(true, false, true, "w")), refused);
    assert_eq!(Backends::try_from_config(&config(false, true, true, "w")), refused);
    assert_eq!(Backends::try_from_config(&config(true, true, true, "w")), refused);
}

#[test]
fn default_backend_is_container() {
    assert_eq!(Backends::default(), Backends::Container(Container));
}

#[test]
fn libvirt_dependency_check() {
    assert_eq!(config(true, false, false, "RDPWindows").backend_check_depends(), Ok(()));
    assert_eq!(
        config(false, false, false, "RDPWindows").backend_check_depends(),
        Err(Error::Config(ConfigError::LibvirtDisabled))
    );
    assert_eq!(
        config(true, false, false, "").backend_check_depends(),
        Err(Error::Config(ConfigError::EmptyDomainName))
    );
    assert_eq!(
        Libvirt.check_depends(&config(false, false, false, "")),
        Err(Error::Config(ConfigError::LibvirtDisabled))
    );
}

#[test]
fn other_backends_are_not_checked_here() {
    let mut c = config(false, true, false, "w");
    c.backend = Backends::Container(Container);
    assert_eq!(c.backend_check_depends(), Err(Error::UnsupportedBackend));
    c.backend = Backends::Manual(Manual);
    assert_eq!(c.backend_check_depends(), Err(Error::UnsupportedBackend));
}

#[test]
fn error_messages() {
    assert_eq!(
        ConfigError::BackendChoice.message(),
        "More than one backend enabled, please set only one of libvirt.enable, container.enable, and manual.enable"
    );
    assert_eq!(ConfigError::LibvirtDisabled.message(), "Libvirt backend is not enabled");
    assert_eq!(
        ConfigError::EmptyDomainName.message(),
        "Libvirt domain name configuration must not be empty"
    );
    assert_eq!(
        DiscoveryError::ExecutionFailures.message(),
        "Libvirt IP discovery strategies completed with underlying execution failures. Check tracing logs."
    );
    assert_eq!(
        DiscoveryError::NoAddress.message(),
        "No active network mappings or IP addresses assigned to this guest domain"
    );
}
