use vmc::port_forward::{
    relay_next, DialOutcome, Endpoint, Ipv4, PortForwarder, PortforwardAction,
    PortforwardRequest, RelayEvent, RelayStep, DEFAULT_BUF_SIZE,
};

const GUEST: Ipv4 = Ipv4 { a: 10, b: 0, c: 0, d: 7 };
const OTHER: Ipv4 = Ipv4 { a: 10, b: 0, c: 0, d: 8 };

fn rule(src_port: u16, dst_ip: Ipv4, dst_port: u16) -> PortforwardRequest {
    PortforwardRequest::UpdateRoutingRule { src_port, dst_ip, dst_port }
}

fn accepted(frontend_stream: u64, src_port: u16) -> PortforwardRequest {
    PortforwardRequest::NewLocalClientConnected { frontend_stream, src_port }
}

#[test]
fn first_rule_starts_a_listener() {
    let mut forwarder = PortForwarder::new();
    assert_eq!(forwarder.lookup(9000), None);
    assert_eq!(
        forwarder.handle(rule(9000, GUEST, 22)),
        PortforwardAction::RuleUpdated { close: vec![], listen: true }
    );
    assert_eq!(forwarder.lookup(9000), Some(Endpoint { ip: GUEST, port: 22 }));
}

#[test]
fn listener_is_started_once_per_port() {
    let mut forwarder = PortForwarder::new();
    forwarder.handle(rule(9000, GUEST, 22));
    assert_eq!(
        forwarder.handle(rule(9000, GUEST, 22)),
        PortforwardAction::RuleUpdated { close: vec![], listen: false }
    );
    assert_eq!(
        forwarder.handle(rule(9000, GUEST, 2222)),
        PortforwardAction::RuleUpdated { close: vec![], listen: false }
    );
    assert_eq!(
        forwarder.handle(rule(9001, GUEST, 22)),
        PortforwardAction::RuleUpdated { close: vec![], listen: true }
    );
}

#[test]
fn connection_without_a_rule_is_closed() {
    let mut forwarder = PortForwarder::new();
    forwarder.handle(rule(9000, GUEST, 22));
    assert_eq!(
        forwarder.handle(accepted(5, 9001)),
        PortforwardAction::CloseFrontend { frontend_stream: 5 }
    );
}

#[test]
fn connection_is_relayed_to_the_rule_of_its_port() {
    let mut forwarder = PortForwarder::new();
    forwarder.handle(rule(9000, GUEST, 22));
    forwarder.handle(rule(9001, OTHER, 80));
    assert_eq!(
        forwarder.handle(accepted(1, 9000)),
        PortforwardAction::Relay { frontend_stream: 1, dst: Endpoint { ip: GUEST, port: 22 } }
    );
    assert_eq!(
        forwarder.handle(accepted(2, 9001)),
        PortforwardAction::Relay { frontend_stream: 2, dst: Endpoint { ip: OTHER, port: 80 } }
    );
}

#[test]
fn failed_dial_closes_the_front_and_records_nothing() {
    let mut forwarder = PortForwarder::new();
    forwarder.handle(rule(9000, GUEST, 22));
    assert_eq!(
        forwarder.backend_dialed(9000, 1, None),
        DialOutcome::CloseFrontend { frontend_stream: 1 }
    );
    assert_eq!(
        forwarder.handle(rule(9000, GUEST, 2222)),
        PortforwardAction::RuleUpdated { close: vec![], listen: false }
    );
}

#[test]
fn replaced_rule_closes_every_stream_of_the_port() {
    let mut forwarder = PortForwarder::new();
    forwarder.handle(rule(9000, GUEST, 22));
    forwarder.handle(rule(9001, GUEST, 80));
    assert_eq!(
        forwarder.backend_dialed(9000, 1, Some(11)),
        DialOutcome::Splice { frontend_stream: 1, backend_stream: 11 }
    );
    forwarder.backend_dialed(9001, 2, Some(12));
    forwarder.backend_dialed(9000, 3, Some(13));
    assert_eq!(
        forwarder.handle(rule(9000, OTHER, 22)),
        PortforwardAction::RuleUpdated { close: vec![11, 13], listen: false }
    );
    assert_eq!(
        forwarder.handle(accepted(4, 9000)),
        PortforwardAction::Relay { frontend_stream: 4, dst: Endpoint { ip: OTHER, port: 22 } }
    );
    assert_eq!(
        forwarder.handle(rule(9000, GUEST, 22)),
        PortforwardAction::RuleUpdated { close: vec![], listen: false }
    );
    assert_eq!(
        forwarder.handle(rule(9001, GUEST, 81)),
        PortforwardAction::RuleUpdated { close: vec![12], listen: false }
    );
}

#[test]
fn same_rule_again_keeps_the_streams() {
    let mut forwarder = PortForwarder::new();
    forwarder.handle(rule(9000, GUEST, 22));
    forwarder.backend_dialed(9000, 1, Some(11));
    assert_eq!(
        forwarder.handle(rule(9000, GUEST, 22)),
        PortforwardAction::RuleUpdated { close: vec![], listen: false }
    );
    assert_eq!(
        forwarder.handle(rule(9000, GUEST, 23)),
        PortforwardAction::RuleUpdated { close: vec![11], listen: false }
    );
}

#[test]
fn relay_stops_at_the_end_and_on_errors() {
    assert_eq!(DEFAULT_BUF_SIZE, 1024);
    assert_eq!(relay_next(RelayEvent::ReadDone { read: Some(0) }), RelayStep::Stop);
    assert_eq!(relay_next(RelayEvent::ReadDone { read: None }), RelayStep::Stop);
    assert_eq!(relay_next(RelayEvent::WriteDone { ok: false }), RelayStep::Stop);
}

#[test]
fn relay_writes_what_it_read_and_reads_on() {
    assert_eq!(
        relay_next(RelayEvent::ReadDone { read: Some(1024) }),
        RelayStep::Write { len: 1024 }
    );
    assert_eq!(
        relay_next(RelayEvent::ReadDone { read: Some(1) }),
        RelayStep::Write { len: 1 }
    );
    assert_eq!(relay_next(RelayEvent::WriteDone { ok: true }), RelayStep::Read);
}

#[test]
fn relay_passes_every_byte_in_any_chunking() {
    let input: Vec<u8> = (0..5000u32).map(|i| (i % 251) as u8).collect();
    for chunk in [1usize, 7, 1024] {
        let mut output: Vec<u8> = Vec::new();
        let mut at = 0usize;
        let mut step = RelayStep::Read;
        loop {
            match step {
                RelayStep::Read => {
                    let n = chunk.min(input.len() - at).min(DEFAULT_BUF_SIZE);
                    step = relay_next(RelayEvent::ReadDone { read: Some(n) });
                    if let RelayStep::Write { len } = step {
                        assert_eq!(len, n);
                    }
                }
                RelayStep::Write { len } => {
                    output.extend_from_slice(&input[at..at + len]);
                    at += len;
                    step = relay_next(RelayEvent::WriteDone { ok: true });
                }
                RelayStep::Stop => break,
            }
        }
        assert_eq!(output, input);
    }
}
