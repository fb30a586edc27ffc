use vmc::protocol::{CBResponse, NSRequest, NSResponse, Request, Response};
use vmc::query::{normalize_ipv6, parse_mode, query_request, render, QueryError, QueryMode};
use vmc::types::MachineInfo;

fn found(ipv6: Option<&str>) -> Response {
    Response::NameService(NSResponse::Ip(Some(MachineInfo {
        hostname: "beta".to_string(),
        ipv4_addr: "10.0.0.8".to_string(),
        ipv6_addr: ipv6.map(|s| s.to_string()),
    })))
}

#[test]
fn sub_commands_are_read() {
    assert_eq!(parse_mode("list"), Some(QueryMode::List));
    assert_eq!(parse_mode("ip"), Some(QueryMode::QueryIpv6OrV4));
    assert_eq!(parse_mode("ipv4"), Some(QueryMode::QueryIPv4));
    assert_eq!(parse_mode("ipv6"), Some(QueryMode::QueryIPv6));
    assert_eq!(parse_mode("ipv"), None);
    assert_eq!(parse_mode(""), None);
    assert_eq!(parse_mode("List"), None);
}

#[test]
fn each_mode_sends_its_request() {
    assert_eq!(
        query_request(QueryMode::List, "ignored".to_string()),
        Request::NameService(NSRequest::GetMachineList)
    );
    for mode in [QueryMode::QueryIPv4, QueryMode::QueryIPv6, QueryMode::QueryIpv6OrV4] {
        assert_eq!(
            query_request(mode, "alpha".to_string()),
            Request::NameService(NSRequest::QueryIp("alpha".to_string()))
        );
    }
}

#[test]
fn scope_is_dropped_on_windows() {
    assert_eq!(normalize_ipv6("fe80::1%eth0", true), "fe80::1");
    assert_eq!(normalize_ipv6("fe80::1", true), "fe80::1");
    assert_eq!(normalize_ipv6("fe80::1%a%b", true), "fe80::1");
    assert_eq!(normalize_ipv6("%eth0", true), "");
}

#[test]
fn scope_is_kept_elsewhere() {
    assert_eq!(normalize_ipv6("fe80::1%eth0", false), "fe80::1%eth0");
    assert_eq!(normalize_ipv6("fe80::1%a%b", false), "fe80::1%a%b");
}

#[test]
fn address_without_a_scope_is_printed_on_windows_only() {
    assert_eq!(
        render(QueryMode::QueryIPv6, &found(Some("fe80::1")), true),
        Ok(vec!["fe80::1".to_string()])
    );
    assert_eq!(
        render(QueryMode::QueryIPv6, &found(Some("fe80::1")), false),
        Err(QueryError::MissingScope)
    );
    assert_eq!(
        render(QueryMode::QueryIpv6OrV4, &found(Some("fe80::1")), false),
        Err(QueryError::MissingScope)
    );
}

#[test]
fn ip_prefers_ipv6() {
    assert_eq!(
        render(QueryMode::QueryIpv6OrV4, &found(Some("fe80::1%eth0")), false),
        Ok(vec!["fe80::1%eth0".to_string()])
    );
    assert_eq!(
        render(QueryMode::QueryIpv6OrV4, &found(Some("fe80::1%eth0")), true),
        Ok(vec!["fe80::1".to_string()])
    );
    assert_eq!(
        render(QueryMode::QueryIpv6OrV4, &found(None), false),
        Ok(vec!["10.0.0.8".to_string()])
    );
}

#[test]
fn ipv4_and_ipv6_print_their_address() {
    assert_eq!(
        render(QueryMode::QueryIPv4, &found(Some("fe80::1%eth0")), false),
        Ok(vec!["10.0.0.8".to_string()])
    );
    assert_eq!(
        render(QueryMode::QueryIPv6, &found(Some("fe80::1%eth0")), false),
        Ok(vec!["fe80::1%eth0".to_string()])
    );
}

#[test]
fn each_error_has_its_input() {
    assert_eq!(
        render(QueryMode::QueryIPv6, &found(None), false),
        Err(QueryError::NoIpv6)
    );
    assert_eq!(
        render(QueryMode::QueryIPv6, &found(Some("fe80::1")), false),
        Err(QueryError::MissingScope)
    );
    assert_eq!(
        render(QueryMode::QueryIPv4, &Response::NameService(NSResponse::Ip(None)), false),
        Err(QueryError::NotRegistered)
    );
    assert_eq!(
        render(QueryMode::List, &found(None), false),
        Err(QueryError::Unexpected)
    );
    assert_eq!(
        render(
            QueryMode::QueryIPv4,
            &Response::ClipBoard(CBResponse::GetClipboard("x".to_string())),
            false
        ),
        Err(QueryError::Unexpected)
    );
}

#[test]
fn machine_list_is_printed_line_by_line() {
    let response = Response::NameService(NSResponse::MachineList(vec![
        MachineInfo {
            hostname: "alpha".to_string(),
            ipv4_addr: "10.0.0.7".to_string(),
            ipv6_addr: None,
        },
        MachineInfo {
            hostname: "beta".to_string(),
            ipv4_addr: "10.0.0.8".to_string(),
            ipv6_addr: Some("fe80::1%eth0".to_string()),
        },
    ]));
    assert_eq!(
        render(QueryMode::List, &response, false),
        Ok(vec![
            "machine list".to_string(),
            "alpha : 10.0.0.7".to_string(),
            "beta : 10.0.0.8 ( fe80::1%eth0 )".to_string(),
        ])
    );
    assert_eq!(
        render(
            QueryMode::List,
            &Response::NameService(NSResponse::MachineList(vec![])),
            false
        ),
        Ok(vec!["machine list".to_string()])
    );
}
