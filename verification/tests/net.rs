use winapps::net::{
    looks_like_mac, parse_dhcp_leases, parse_domiflist_interfaces, parse_interface_addresses,
    Interface,
};
use winapps::text::{eq_ignore_ascii_case, split_lines_words, split_once_first};

#[test]
fn test_looks_like_mac() {
    assert!(looks_like_mac("52:54:00:fa:1b:45"));
    assert!(looks_like_mac("00:11:22:33:44:55"));
    assert!(looks_like_mac("aa:bb:cc:dd:ee:ff"));
    assert!(looks_like_mac("AA:BB:CC:DD:EE:FF"));

    assert!(!looks_like_mac(""));
    assert!(!looks_like_mac("::::::"));
    assert!(!looks_like_mac("52:54:00"));
    assert!(!looks_like_mac("52:54:00:fa:1b:45:11"));
    assert!(!looks_like_mac("52:54:00:fa:1b:4G"));
    assert!(!looks_like_mac("52:54:00:fa:1b"));
}

#[test]
fn test_parse_domiflist_robustness() {
    let input = "\
Interface  Type       Source     Model      MAC
-------------------------------------------------------
vnet0      network    default    virtio     52:54:00:fa:1b:45
vnet1      network    isolated   virtio     52:54:00:11:22:33
vnet2      network    broken     virtio     :::::
vnet3      network    malformed  virtio     ab:::::
vnet4      network    badhex     virtio     52:54:00:fa:1b:4G
vnet5      network    too-long   virtio     52:54:00:fa:1b:45:11
vnet6      network
";
    let interfaces: Vec<_> = parse_domiflist_interfaces(input);

    assert_eq!(interfaces.len(), 2);
    assert_eq!(
        interfaces[0],
        Interface {
            network: "default".to_string(),
            mac: "52:54:00:fa:1b:45".to_string()
        }
    );
    assert_eq!(
        interfaces[1],
        Interface {
            network: "isolated".to_string(),
            mac: "52:54:00:11:22:33".to_string()
        }
    );
}

#[test]
fn test_parse_dhcp_leases_multiple_entries() {
    let input = "\
2026-07-09 14:00:00  52:54:00:11:22:33  ipv4  192.168.122.10/24
2026-07-09 14:01:00  52:54:00:fa:1b:45  ipv4  192.168.122.42/24
2026-07-09 14:02:00  52:54:00:aa:bb:cc  ipv4  192.168.122.99/24
";
    let ips = parse_dhcp_leases(input, "52:54:00:fa:1b:45");
    let mut ips = ips.iter();

    assert_eq!(ips.next().map(|s| s.as_str()), Some("192.168.122.42"));
    assert!(ips.next().is_none());
}

#[test]
fn test_parse_domifaddr_edge_cases() {
    let empty_input = "";
    assert!(parse_interface_addresses(empty_input).first().is_none());

    let headers_only = "\
Interface  MAC address  Protocol  Address
---------------------------------------------------
";
    assert!(parse_interface_addresses(headers_only).first().is_none());

    let ipv6_only = "\
Interface  MAC address       Protocol  Address
---------------------------------------------------
vnet0      52:54:00:fa:1b:45  ipv6      fe80::5054:ff:fefa:1b45/64
";
    assert!(parse_interface_addresses(ipv6_only).first().is_none());

    let malformed = "\
vnet0      52:54:00:fa:1b:45  ipv4      not-an-ip
vnet0      52:54:00:fa:1b:45  ipv4
";
    assert!(parse_interface_addresses(malformed).first().is_none());
}

#[test]
fn domifaddr_reads_address_before_prefix() {
    let input = "\
 Name       MAC address          Protocol     Address
-------------------------------------------------------------------------------
 vnet0      52:54:00:fa:1b:45    ipv4         192.168.122.42/24
 vnet0      52:54:00:fa:1b:45    IPv4         10.0.0.7/8
";
    assert_eq!(
        parse_interface_addresses(input),
        vec!["192.168.122.42".to_string(), "10.0.0.7".to_string()]
    );
}

#[test]
fn domifaddr_uses_only_first_marker_of_a_line() {
    // The word after the first marker has no prefix length: the line gives nothing.
    let input = "vnet0 ipv4 ipv4 1.2.3.4/24\n";
    assert!(parse_interface_addresses(input).is_empty());
}

#[test]
fn dhcp_leases_match_mac_and_protocol_without_case() {
    let input = "\
2026-07-09 14:01:00  52:54:00:FA:1B:45  IPV4  192.168.122.42/24
2026-07-09 14:01:00  52:54:00:fa:1b:45  ipv6  fe80::1/64
2026-07-09 14:01:00  52:54:00:fa:1b:45  ipv4  192.168.122.43
2026-07-09 14:01:00  52:54:00:fa:1b:45  ipv4
";
    assert_eq!(
        parse_dhcp_leases(input, "52:54:00:fa:1b:45"),
        vec!["192.168.122.42".to_string()]
    );
}

#[test]
fn domiflist_accepts_crlf_lines() {
    let input = "vnet0 network default virtio 52:54:00:fa:1b:45\r\nvnet1 bridge br0 e1000 52:54:00:aa:bb:cc\r\n";
    let interfaces = parse_domiflist_interfaces(input);
    assert_eq!(interfaces.len(), 2);
    assert_eq!(interfaces[1].network, "br0");
    assert_eq!(interfaces[1].mac, "52:54:00:aa:bb:cc");
}

#[test]
fn words_of_lines() {
    let table = split_lines_words("a  b\n\n c\u{3000}d \r\ne");
    let expected: Vec<Vec<String>> = vec![
        vec!["a".to_string(), "b".to_string()],
        vec![],
        vec!["c".to_string(), "d".to_string()],
        vec!["e".to_string()],
    ];
    assert_eq!(table, expected);
}

#[test]
fn split_once_keeps_text_before_separator() {
    assert_eq!(split_once_first("10.0.0.1/24", '/'), Some("10.0.0.1".to_string()));
    assert_eq!(split_once_first("/24", '/'), Some(String::new()));
    assert_eq!(split_once_first("10.0.0.1", '/'), None);
}

#[test]
fn ignore_ascii_case_comparison() {
    assert!(eq_ignore_ascii_case("IpV4", "ipv4"));
    assert!(!eq_ignore_ascii_case("ipv4", "ipv6"));
    assert!(!eq_ignore_ascii_case("ipv4", "ipv4 "));
    assert!(!eq_ignore_ascii_case("É", "é"));
}

#[test]
fn domiflist_outputs_put_together() {
    let a = "Interface Type Source Model MAC\nvnet0 network default virtio 52:54:00:fa:1b:45\n";
    let b = "vnet1 network isolated virtio 52:54:00:11:22:33\n";
    let mut expected = parse_domiflist_interfaces(a);
    expected.extend(parse_domiflist_interfaces(b));
    assert_eq!(parse_domiflist_interfaces(&(a.to_owned() + b)), expected);
    assert_eq!(expected.len(), 2);
}

#[test]
fn lease_and_address_outputs_put_together() {
    let a = "d t 52:54:00:fa:1b:45 ipv4 10.0.0.1/24\n";
    let b = "d t 52:54:00:fa:1b:45 ipv4 10.0.0.2/24";
    assert_eq!(
        parse_dhcp_leases(&(a.to_owned() + b), "52:54:00:fa:1b:45"),
        vec!["10.0.0.1".to_string(), "10.0.0.2".to_string()]
    );
    let c = "vnet0 m ipv4 10.0.0.3/8\n";
    let d = "vnet1 m ipv4 10.0.0.4/8\n";
    assert_eq!(
        parse_interface_addresses(&(c.to_owned() + d)),
        vec!["10.0.0.3".to_string(), "10.0.0.4".to_string()]
    );
}
