use vmc::protocol::{
    calc_protocol_digest, expects_reply, negotiation_accepted, negotiation_request, same_bytes,
    server_handshake, CBRequest, CBResponse, ExecRequest, Handshake, NSRequest, NSResponse,
    NTFRequest, Request, Response, DIGEST_LEN, PROTOCOL_SRC,
};
use vmc::types::{MachineInfo, PortforwardList};

#[test]
fn digest_is_sha256_of_the_schema() {
    let expected: [u8; 32] = [
        201, 16, 77, 171, 189, 249, 195, 26, 233, 167, 247, 45, 182, 27, 175, 19, 121, 187, 62,
        124, 17, 131, 159, 153, 187, 137, 197, 112, 122, 253, 59, 58,
    ];
    assert_eq!(calc_protocol_digest(), expected.to_vec());
}

#[test]
fn digest_is_stable_and_has_32_bytes() {
    let first = calc_protocol_digest();
    let second = calc_protocol_digest();
    assert_eq!(first, second);
    assert_eq!(first.len(), DIGEST_LEN);
    assert_eq!(DIGEST_LEN, 32);
    assert_ne!(first, PROTOCOL_SRC.as_bytes().to_vec());
}

#[test]
fn schema_names_every_arm() {
    for name in [
        "Negotiation", "NameService", "ClipBoard", "Execute", "Notification",
        "NegotiationResult", "Heartbeat", "QueryIp", "GetMachineList", "MachineList",
        "SetClipboard", "GetClipboard", "Open", "GetEnvVar", "hostname", "ipv4_addr",
        "ipv6_addr", "host_port", "guest_port",
    ] {
        assert!(PROTOCOL_SRC.contains(name));
    }
}

#[test]
fn same_bytes_compares_content() {
    assert!(same_bytes(&[], &[]));
    assert!(same_bytes(&[1, 2, 3], &[1, 2, 3]));
    assert!(!same_bytes(&[1, 2, 3], &[1, 2, 4]));
    assert!(!same_bytes(&[1, 2, 3], &[1, 2]));
}

#[test]
fn correct_digest_is_accepted() {
    let local = calc_protocol_digest();
    let outcome = server_handshake(&negotiation_request(), &local);
    assert_eq!(outcome, Handshake::Accepted);
    assert_eq!(outcome.reply(), Some(Response::NegotiationResult(true)));
    assert!(outcome.proceeds());
}

#[test]
fn zeroed_digest_is_rejected_and_the_session_ends() {
    let local = calc_protocol_digest();
    let outcome = server_handshake(&Request::Negotiation(vec![0u8; 32]), &local);
    assert_eq!(outcome, Handshake::Rejected);
    assert_eq!(outcome.reply(), Some(Response::NegotiationResult(false)));
    assert!(!outcome.proceeds());
    assert!(!negotiation_accepted(&outcome.reply().unwrap()));
}

#[test]
fn digest_of_another_length_is_rejected() {
    let local = calc_protocol_digest();
    let outcome = server_handshake(&Request::Negotiation(local[..31].to_vec()), &local);
    assert_eq!(outcome, Handshake::Rejected);
}

#[test]
fn first_request_must_be_a_negotiation() {
    let local = calc_protocol_digest();
    let first = Request::NameService(NSRequest::GetMachineList);
    let outcome = server_handshake(&first, &local);
    assert_eq!(outcome, Handshake::NotNegotiation);
    assert_eq!(outcome.reply(), None);
    assert!(!outcome.proceeds());
}

#[test]
fn negotiation_request_carries_the_digest() {
    assert_eq!(
        negotiation_request(),
        Request::Negotiation(calc_protocol_digest())
    );
}

#[test]
fn only_a_true_negotiation_result_is_accepted() {
    assert!(negotiation_accepted(&Response::NegotiationResult(true)));
    assert!(!negotiation_accepted(&Response::NegotiationResult(false)));
    assert!(!negotiation_accepted(&Response::NameService(NSResponse::Ip(None))));
    assert!(!negotiation_accepted(&Response::ClipBoard(
        CBResponse::GetClipboard("true".to_string())
    )));
}

#[test]
fn replies_are_expected_for_the_answered_requests_only() {
    let info = MachineInfo {
        hostname: "alpha".to_string(),
        ipv4_addr: "10.0.0.7".to_string(),
        ipv6_addr: None,
    };
    assert!(expects_reply(&Request::Negotiation(vec![])));
    assert!(!expects_reply(&Request::NameService(NSRequest::Heartbeat(
        info,
        PortforwardList::new(vec![])
    ))));
    assert!(expects_reply(&Request::NameService(NSRequest::QueryIp("a".to_string()))));
    assert!(expects_reply(&Request::NameService(NSRequest::GetMachineList)));
    assert!(!expects_reply(&Request::ClipBoard(CBRequest::SetClipboard("x".to_string()))));
    assert!(expects_reply(&Request::ClipBoard(CBRequest::GetClipboard)));
    assert!(!expects_reply(&Request::Execute(ExecRequest::Execute(vec![]))));
    assert!(!expects_reply(&Request::Execute(ExecRequest::Open("x".to_string()))));
    assert!(expects_reply(&Request::Execute(ExecRequest::GetEnvVar("HOME".to_string()))));
    assert!(!expects_reply(&Request::Notification(NTFRequest::Notification(
        None,
        "b".to_string()
    ))));
}
