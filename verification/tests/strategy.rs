use rmap::parallel_scanner::PortStatus;
use rmap::strategy::{
    ConnectOutcome, ReplyOutcome, TcpConnectScan, UdpAction, UdpEvent, UdpScan,
};

#[test]
fn connection_attempts_are_classified() {
    let tcp = TcpConnectScan;
    assert_eq!(tcp.classify(ConnectOutcome::Connected), PortStatus::Open);
    assert_eq!(tcp.classify(ConnectOutcome::Refused), PortStatus::Closed);
    assert_eq!(tcp.classify(ConnectOutcome::TimedOut), PortStatus::Filtered);
    assert_eq!(tcp.classify(ConnectOutcome::Failed), PortStatus::Unknown);
    assert_eq!(tcp.timeout_millis(), 200);
}

#[test]
fn name_resolution_port_gets_a_query() {
    let udp = UdpScan;
    let query = udp.payload(53);
    assert_eq!(query.len(), 29);
    assert_eq!(&query[0..2], &[0x12, 0x34]);
    assert_eq!(&query[2..4], &[0x01, 0x00]);
    assert_eq!(&query[4..6], &[0x00, 0x01]);
    assert_eq!(&query[6..12], &[0, 0, 0, 0, 0, 0]);
    assert_eq!(query[12], 7);
    assert_eq!(&query[13..20], b"example");
    assert_eq!(query[20], 3);
    assert_eq!(&query[21..24], b"com");
    assert_eq!(query[24], 0);
    assert_eq!(&query[25..29], &[0x00, 0x01, 0x00, 0x01]);
}

#[test]
fn other_ports_get_an_empty_datagram() {
    let udp = UdpScan;
    for port in [0u16, 52, 54, 80, 5353, 65535] {
        assert!(udp.payload(port).is_empty());
    }
    assert_eq!(udp.read_timeout_millis(), 500);
}

#[test]
fn connectionless_probe_goes_through_its_steps() {
    let udp = UdpScan;
    assert_eq!(udp.step(53, UdpEvent::Started { target_valid: true }), UdpAction::Bind);
    assert_eq!(
        udp.step(53, UdpEvent::Bound { ok: true }),
        UdpAction::Send { payload: udp.payload(53), read_timeout_millis: 500 }
    );
    assert_eq!(
        udp.step(123, UdpEvent::Bound { ok: true }),
        UdpAction::Send { payload: Vec::new(), read_timeout_millis: 500 }
    );
    assert_eq!(udp.step(53, UdpEvent::Sent { ok: true }), UdpAction::Receive);
    assert_eq!(
        udp.step(53, UdpEvent::Replied(ReplyOutcome::Received)),
        UdpAction::Finish(PortStatus::Open)
    );
    assert_eq!(
        udp.step(53, UdpEvent::Replied(ReplyOutcome::TimedOut)),
        UdpAction::Finish(PortStatus::Filtered)
    );
    assert_eq!(
        udp.step(53, UdpEvent::Replied(ReplyOutcome::Failed)),
        UdpAction::Finish(PortStatus::Unknown)
    );
}

#[test]
fn connectionless_probe_gives_up_on_any_failure() {
    let udp = UdpScan;
    let unknown = UdpAction::Finish(PortStatus::Unknown);
    assert_eq!(udp.step(9, UdpEvent::Started { target_valid: false }), unknown);
    assert_eq!(udp.step(9, UdpEvent::Bound { ok: false }), unknown);
    assert_eq!(udp.step(9, UdpEvent::Sent { ok: false }), unknown);
}
