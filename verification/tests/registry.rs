use vmc::registry::{IpAddrPair, MachineMap};
use vmc::types::MachineInfo;

fn pair(v4: &str, v6: Option<&str>) -> IpAddrPair {
    IpAddrPair::new(v4.to_string(), v6.map(|s| s.to_string()))
}

#[test]
fn pair_new_keeps_both_addresses() {
    let p = IpAddrPair::new("10.0.0.8".to_string(), Some("fe80::1%eth0".to_string()));
    assert_eq!(p.ipv4_addr, "10.0.0.8");
    assert_eq!(p.ipv6_addr, Some("fe80::1%eth0".to_string()));
}

#[test]
fn empty_registry_finds_nothing() {
    let registry = MachineMap::new();
    assert_eq!(registry.get("alpha"), None);
    assert_eq!(registry.iter(), vec![]);
}

#[test]
fn last_writer_wins() {
    let mut registry = MachineMap::new();
    registry.insert("alpha".to_string(), pair("10.0.0.7", None));
    registry.insert("alpha".to_string(), pair("10.0.0.9", Some("fe80::9%eth0")));
    assert_eq!(registry.get("alpha"), Some(&pair("10.0.0.9", Some("fe80::9%eth0"))));
    assert_eq!(registry.iter().len(), 1);
}

#[test]
fn other_hostnames_keep_their_addresses() {
    let mut registry = MachineMap::new();
    registry.insert("alpha".to_string(), pair("10.0.0.7", None));
    registry.insert("beta".to_string(), pair("10.0.0.8", None));
    registry.insert("alpha".to_string(), pair("10.0.0.9", None));
    assert_eq!(registry.get("beta"), Some(&pair("10.0.0.8", None)));
    assert_eq!(registry.get("alpha"), Some(&pair("10.0.0.9", None)));
    assert_eq!(registry.get("alph"), None);
    assert_eq!(registry.get("alphaa"), None);
}

#[test]
fn snapshot_holds_each_hostname_once_with_its_last_pair() {
    let mut registry = MachineMap::new();
    registry.insert("alpha".to_string(), pair("10.0.0.7", None));
    registry.insert("beta".to_string(), pair("10.0.0.8", Some("fe80::1%eth0")));
    registry.insert("alpha".to_string(), pair("10.0.0.9", None));
    let mut list = registry.iter();
    list.sort_by(|a, b| a.hostname.cmp(&b.hostname));
    assert_eq!(
        list,
        vec![
            MachineInfo {
                hostname: "alpha".to_string(),
                ipv4_addr: "10.0.0.9".to_string(),
                ipv6_addr: None,
            },
            MachineInfo {
                hostname: "beta".to_string(),
                ipv4_addr: "10.0.0.8".to_string(),
                ipv6_addr: Some("fe80::1%eth0".to_string()),
            },
        ]
    );
}

#[test]
fn default_registry_is_empty() {
    let mut registry = MachineMap::default();
    assert_eq!(registry.get("alpha"), None);
    assert_eq!(registry.iter(), vec![]);
    registry.insert("alpha".to_string(), pair("10.0.0.7", None));
    assert_eq!(registry.get("alpha"), Some(&pair("10.0.0.7", None)));
}
