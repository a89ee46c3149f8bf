use winapps::adapter::{IpAddr, LibvirtVm};
use winapps::discovery::{DiscoveryAction, IpDiscovery, Phase};
use winapps::error::{DiscoveryError, Error};
use winapps::types::DomainName;

/// Reads dotted IPv4 text, as a stand-in for the address parser of the caller.
fn parse_v4(s: &str) -> Option<IpAddr> {
    let parts: Vec<&str> = s.split('.').collect();
    if parts.len() != 4 {
        return None;
    }
    let mut octets = [0u8; 4];
    for (i, p) in parts.iter().enumerate() {
        octets[i] = p.parse().ok()?;
    }
    Some(IpAddr::V4(octets))
}

/// Drives a search; `answer` gives the output of each command (by its arguments).
fn drive(answer: &dyn Fn(&[String]) -> Result<String, Error>) -> (Result<IpAddr, DiscoveryError>, Vec<Vec<String>>) {
    let vm = LibvirtVm::new(DomainName::new("win"));
    let (mut d, mut action): (IpDiscovery, DiscoveryAction) = vm.get_ip();
    let mut asked = Vec::new();
    loop {
        action = match action {
            DiscoveryAction::Run(inv) => {
                assert_eq!(inv.program, "virsh");
                assert_eq!(inv.context, "Failed to execute virsh subcommand query layer");
                asked.push(inv.args.clone());
                d.on_output(answer(&inv.args))
            }
            DiscoveryAction::Parse(texts) => {
                d.on_parsed(texts.iter().map(|t| parse_v4(t)).collect())
            }
            DiscoveryAction::Finish(r) => {
                assert_eq!(d.phase(), Phase::Done);
                return (r, asked);
            }
        }
    }
}

fn args(a: &str, b: &str) -> Vec<String> {
    vec![a.to_string(), b.to_string()]
}

const DOMIFADDR: &str = " Name MAC address Protocol Address\n-----\n vnet0 52:54:00:fa:1b:45 ipv4 192.168.122.42/24\n";
const DOMIFLIST: &str = "Interface Type Source Model MAC\n---\nvnet0 network default virtio 52:54:00:fa:1b:45\nvnet1 network other virtio 52:54:00:11:22:33\n";
const LEASES_OTHER: &str = "2026-07-09 14:01:00 52:54:00:11:22:33 ipv4 10.1.1.5/24\n";

#[test]
fn domifaddr_answer_wins() {
    let (r, asked) = drive(&|a| {
        if a[0] == "domifaddr" { Ok(DOMIFADDR.to_string()) } else { panic!("unexpected") }
    });
    assert_eq!(r, Ok(IpAddr::V4([192, 168, 122, 42])));
    assert_eq!(asked, vec![args("domifaddr", "win")]);
}

#[test]
fn falls_back_to_leases_of_each_interface() {
    let (r, asked) = drive(&|a| match a[0].as_str() {
        "domifaddr" => Err(Error::Command("agent down".into())),
        "domiflist" => Ok(DOMIFLIST.to_string()),
        _ if a[1] == "default" => Ok(String::new()),
        _ => Ok(LEASES_OTHER.to_string()),
    });
    assert_eq!(r, Ok(IpAddr::V4([10, 1, 1, 5])));
    assert_eq!(
        asked,
        vec![
            args("domifaddr", "win"),
            args("domiflist", "win"),
            args("net-dhcp-leases", "default"),
            args("net-dhcp-leases", "other"),
        ]
    );
}

#[test]
fn unparsable_address_is_skipped() {
    let (r, _) = drive(&|a| match a[0].as_str() {
        "domifaddr" => Ok("vnet0 x ipv4 not.an.ip.addr/24\n".to_string()),
        "domiflist" => Ok(DOMIFLIST.to_string()),
        _ if a[1] == "default" => {
            Ok("d t 52:54:00:fa:1b:45 ipv4 bad/24\nd t 52:54:00:FA:1B:45 ipv4 10.0.0.9/24\n".to_string())
        }
        _ => panic!("search should have ended"),
    });
    assert_eq!(r, Ok(IpAddr::V4([10, 0, 0, 9])));
}

#[test]
fn failed_queries_give_execution_failures() {
    let (r, _) = drive(&|_| Err(Error::Command("virsh missing".into())));
    assert_eq!(r, Err(DiscoveryError::ExecutionFailures));

    let (r, _) = drive(&|a| match a[0].as_str() {
        "domifaddr" => Ok(String::new()),
        "domiflist" => Ok(DOMIFLIST.to_string()),
        _ if a[1] == "default" => Err(Error::Command("no network".into())),
        _ => Ok(String::new()),
    });
    assert_eq!(r, Err(DiscoveryError::ExecutionFailures));
}

#[test]
fn empty_answers_give_no_address() {
    let (r, asked) = drive(&|a| match a[0].as_str() {
        "domifaddr" => Ok(String::new()),
        "domiflist" => Ok(DOMIFLIST.to_string()),
        _ => Ok(String::new()),
    });
    assert_eq!(r, Err(DiscoveryError::NoAddress));
    assert_eq!(asked.len(), 4);

    let (r, asked) = drive(&|_| Ok(String::new()));
    assert_eq!(r, Err(DiscoveryError::NoAddress));
    assert_eq!(asked.len(), 2);
}

#[test]
fn libvirt_vm_stubs() {
    let vm = LibvirtVm::new(DomainName::new("win"));
    assert_eq!(vm.check_depends(), Ok(()));
    assert_eq!(vm.state(), Ok("running".to_string()));
}
