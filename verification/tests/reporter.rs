use vmc::protocol::{NSRequest, Request};
use vmc::reporter::{find_address, get_ipv4addr, get_ipv6addr, heartbeat, HEARTBEAT_SECS};
use vmc::types::{MachineInfo, PortforwardList, PortforwardSpec};

fn prefixes() -> Vec<String> {
    vec!["192.168.".to_string(), "10.".to_string()]
}

#[test]
fn address_loses_its_mask() {
    let output = "    inet 10.0.0.7/24 brd 10.0.0.255 scope global eth0\n";
    assert_eq!(find_address(output, &prefixes()), Some("10.0.0.7".to_string()));
    assert_eq!(HEARTBEAT_SECS, 30);
}

#[test]
fn mask_of_any_length_is_cut_at_its_slash() {
    assert_eq!(find_address("inet 10.0.0.7/8 brd", &prefixes()), Some("10.0.0.7".to_string()));
    assert_eq!(find_address("inet 10.0.0.7/32", &prefixes()), Some("10.0.0.7".to_string()));
    assert_eq!(
        find_address("inet6 fe80::1/128 scope", &vec!["fe80".to_string()]),
        Some("fe80::1".to_string())
    );
    assert_eq!(find_address("10.1/2/3", &prefixes()), Some("10.1".to_string()));
}

#[test]
fn address_without_a_mask_is_taken_whole() {
    let output = "        inet 192.168.1.5  netmask 255.255.255.0  broadcast 192.168.1.255\n";
    assert_eq!(find_address(output, &prefixes()), Some("192.168.1.5".to_string()));
    assert_eq!(find_address("10", &vec!["10".to_string()]), Some("10".to_string()));
}

#[test]
fn first_matching_word_is_taken() {
    let output = "inet 172.16.0.1/16 inet 192.168.1.5/24 inet 10.0.0.7/24";
    assert_eq!(find_address(output, &prefixes()), Some("192.168.1.5".to_string()));
}

#[test]
fn no_matching_word_finds_nothing() {
    assert_eq!(find_address("inet 172.16.0.1/16 brd", &prefixes()), None);
    assert_eq!(find_address("", &prefixes()), None);
    assert_eq!(find_address("inet 10.0.0.7/24", &vec![]), None);
    assert_eq!(find_address("inet x10.0.0.7/24", &prefixes()), None);
}

#[test]
fn iproute_wins_over_ifconfig() {
    assert_eq!(
        get_ipv4addr("inet 10.0.0.7/8 brd", "inet 192.168.1.5  netmask", &prefixes()),
        Some("10.0.0.7".to_string())
    );
    assert_eq!(
        get_ipv4addr("inet 172.16.0.1/16", "inet 192.168.1.5  netmask", &prefixes()),
        Some("192.168.1.5".to_string())
    );
    assert_eq!(
        get_ipv4addr("", "inet 192.168.1.5/24", &prefixes()),
        Some("192.168.1.5".to_string())
    );
    assert_eq!(get_ipv4addr("inet 172.16.0.1/16", "inet 172.16.0.1", &prefixes()), None);
    assert_eq!(get_ipv4addr("", "", &prefixes()), None);
}

#[test]
fn ipv6_gets_the_interface_as_scope() {
    let iproute = "    inet6 fe80::215:5dff:fe01:203/64 scope link \n";
    assert_eq!(
        get_ipv6addr(iproute, "", "fe80", "eth0"),
        Some("fe80::215:5dff:fe01:203%eth0".to_string())
    );
    assert_eq!(
        get_ipv6addr("inet6 fe80::1/128 scope link", "", "fe80", "eth0"),
        Some("fe80::1%eth0".to_string())
    );
    assert_eq!(get_ipv6addr(iproute, "", "2001", "eth0"), None);
}

#[test]
fn ipv6_from_ifconfig_is_scoped_too() {
    let ifconfig = "        inet6 fe80::1  prefixlen 64  scopeid 0x20<link>\n";
    assert_eq!(
        get_ipv6addr("", ifconfig, "fe80", "enp0s3"),
        Some("fe80::1%enp0s3".to_string())
    );
    assert_eq!(
        get_ipv6addr("", "inet6 addr: fe80::1/64 Scope:Link", "fe80", "eth0"),
        Some("fe80::1%eth0".to_string())
    );
    assert_eq!(
        get_ipv6addr("inet6 fe80::2/64", ifconfig, "fe80", "eth0"),
        Some("fe80::2%eth0".to_string())
    );
    assert_eq!(get_ipv6addr("", ifconfig, "2001", "eth0"), None);
}

#[test]
fn heartbeat_carries_name_addresses_and_forwards() {
    let request = heartbeat(
        "alpha".to_string(),
        "10.0.0.7".to_string(),
        Some("fe80::1%eth0".to_string()),
        PortforwardList::new(vec![PortforwardSpec::new(9000, 22)]),
    );
    assert_eq!(
        request,
        Request::NameService(NSRequest::Heartbeat(
            MachineInfo {
                hostname: "alpha".to_string(),
                ipv4_addr: "10.0.0.7".to_string(),
                ipv6_addr: Some("fe80::1%eth0".to_string()),
            },
            PortforwardList::new(vec![PortforwardSpec::new(9000, 22)])
        ))
    );
}
