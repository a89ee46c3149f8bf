use winapps::types::{trim_text, DomainName, DomainState};
use winapps::virsh::Virsh;
use winapps::error::Error;

#[test]
fn test_domain_state_parsing() {
    assert_eq!("running".parse::<DomainState>().unwrap(), DomainState::Running);
    assert_eq!("shut off".parse::<DomainState>().unwrap(), DomainState::Stopped);
    assert_eq!("blocked".parse::<DomainState>().unwrap(), DomainState::Blocked);
    assert_eq!("crashed".parse::<DomainState>().unwrap(), DomainState::Crashed);
    assert_eq!("pmsuspended".parse::<DomainState>().unwrap(), DomainState::Suspended);
}

#[test]
fn trims_whitespace() {
    assert_eq!(DomainState::Running, DomainState::parse("  running \t\n"));
}

#[test]
fn preserves_unknown_state() {
    assert_eq!(DomainState::Unknown("idle".into()), DomainState::parse("idle"));
}

#[test]
fn paused_and_unknown_keep_trimmed_text() {
    assert_eq!(DomainState::parse("paused\n"), DomainState::Paused);
    assert_eq!(DomainState::parse("  in shutdown \n"), DomainState::Unknown("in shutdown".into()));
    assert_eq!(DomainState::parse("Running"), DomainState::Unknown("Running".into()));
    assert_eq!(DomainState::parse(" \t "), DomainState::Unknown(String::new()));
}

#[test]
fn trim_removes_unicode_space() {
    assert_eq!(trim_text("\u{a0} win10\u{2003}"), "win10");
    assert_eq!(trim_text("a b"), "a b");
}

#[test]
fn domain_name_round_trip() {
    let name = DomainName::new("RDPWindows");
    assert_eq!(name.as_str(), "RDPWindows");
    let other: DomainName = String::from("win11").into();
    assert_eq!(other.as_str(), "win11");
}

#[test]
fn virsh_invocations_name_the_domain() {
    let virsh = Virsh::new(DomainName::new("win11"));
    let inv = virsh.domifaddr();
    assert_eq!(inv.program, "virsh");
    assert_eq!(inv.args, vec!["domifaddr".to_string(), "win11".to_string()]);
    assert_eq!(inv.context, "Failed to execute virsh subcommand query layer");
    assert_eq!(virsh.state().args, vec!["domstate".to_string(), "win11".to_string()]);
    assert_eq!(virsh.domain_exists().args, vec!["dominfo".to_string(), "win11".to_string()]);
    assert_eq!(virsh.domiflist().args, vec!["domiflist".to_string(), "win11".to_string()]);
    assert_eq!(
        virsh.net_dhcp_leases("default").args,
        vec!["net-dhcp-leases".to_string(), "default".to_string()]
    );
}

#[test]
fn virsh_outcomes() {
    assert_eq!(
        Virsh::state_result(Ok(" shut off\n".to_string())),
        Ok(DomainState::Stopped)
    );
    assert_eq!(
        Virsh::state_result(Err(Error::Command("boom".into()))),
        Err(Error::Command("boom".into()))
    );
    assert_eq!(Virsh::domain_exists_result(Ok(String::new())), Ok(()));
    assert_eq!(
        Virsh::domain_exists_result(Err(Error::Command("no domain".into()))),
        Err(Error::Command("no domain".into()))
    );
}

#[test]
fn domain_name_from_str() {
    let name: DomainName = "RDPWindows".into();
    assert_eq!(name.as_str(), "RDPWindows");
    assert_eq!(DomainName::from("win11"), DomainName::new("win11"));
}
