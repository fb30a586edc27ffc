use vmc::types::{copy_opt, MachineInfo, PortforwardList, PortforwardSpec};

#[test]
fn spec_new_keeps_both_ports() {
    let spec = PortforwardSpec::new(9000, 22);
    assert_eq!(spec.host_port, 9000);
    assert_eq!(spec.guest_port, 22);
}

#[test]
fn specs_are_equal_iff_both_ports_match() {
    assert_eq!(PortforwardSpec::new(9000, 22), PortforwardSpec::new(9000, 22));
    assert_ne!(PortforwardSpec::new(9000, 22), PortforwardSpec::new(9000, 2222));
    assert_ne!(PortforwardSpec::new(9000, 22), PortforwardSpec::new(9001, 22));
}

#[test]
fn has_elem_finds_only_what_is_held() {
    let list = PortforwardList::new(vec![PortforwardSpec::new(1, 2), PortforwardSpec::new(3, 4)]);
    assert!(list.has_elem(&PortforwardSpec::new(3, 4)));
    assert!(!list.has_elem(&PortforwardSpec::new(3, 5)));
    assert!(!PortforwardList::new(vec![]).has_elem(&PortforwardSpec::new(1, 2)));
}

#[test]
fn append_elem_appends_without_a_check() {
    let mut list = PortforwardList::new(vec![PortforwardSpec::new(1, 2)]);
    list.append_elem(PortforwardSpec::new(1, 2));
    assert_eq!(
        list.forwards,
        vec![PortforwardSpec::new(1, 2), PortforwardSpec::new(1, 2)]
    );
}

#[test]
fn merge_returns_only_new_rules_in_order() {
    let mut known = PortforwardList::new(vec![PortforwardSpec::new(9000, 22)]);
    let given = PortforwardList::new(vec![
        PortforwardSpec::new(8080, 80),
        PortforwardSpec::new(9000, 22),
        PortforwardSpec::new(8080, 80),
        PortforwardSpec::new(9000, 2222),
    ]);
    let added = known.merge_elem(&given);
    assert_eq!(
        added,
        vec![PortforwardSpec::new(8080, 80), PortforwardSpec::new(9000, 2222)]
    );
    assert_eq!(
        known.forwards,
        vec![
            PortforwardSpec::new(9000, 22),
            PortforwardSpec::new(8080, 80),
            PortforwardSpec::new(9000, 2222),
        ]
    );
}

#[test]
fn merging_the_same_list_again_adds_nothing() {
    let mut known = PortforwardList::new(vec![]);
    let given = PortforwardList::new(vec![PortforwardSpec::new(1, 2), PortforwardSpec::new(3, 4)]);
    assert_eq!(known.merge_elem(&given), given.forwards);
    assert_eq!(known.merge_elem(&given), vec![]);
    assert_eq!(known.forwards, given.forwards);
}

#[test]
fn merging_an_empty_list_changes_nothing() {
    let mut known = PortforwardList::new(vec![PortforwardSpec::new(1, 2)]);
    assert_eq!(known.merge_elem(&PortforwardList::new(vec![])), vec![]);
    assert_eq!(known.forwards, vec![PortforwardSpec::new(1, 2)]);
}

#[test]
fn machine_info_duplicate_is_equal() {
    let info = MachineInfo {
        hostname: "beta".to_string(),
        ipv4_addr: "10.0.0.8".to_string(),
        ipv6_addr: Some("fe80::1%eth0".to_string()),
    };
    assert_eq!(info.duplicate(), info);
    assert_eq!(copy_opt(&None), None);
    assert_eq!(copy_opt(&Some("x".to_string())), Some("x".to_string()));
}
