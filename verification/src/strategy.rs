//! Probing strategies: what is asked of the network for one port of one
//! address, and how the answer is classified.
//!
//! The sockets themselves are the caller's business. A strategy here decides
//! what to do next from what has happened so far, and the caller carries each
//! step out and reports back.

use crate::parallel_scanner::PortStatus;
use vstd::prelude::*;

verus! {

/// A way to probe one port of one address. Every outcome of a probe is one
/// of the four values of [`PortStatus`]; a probe never fails otherwise.
///
/// A strategy holds no state between calls and may be shared by any number of
/// workers.
pub trait ScanStrategy: Send + Sync {
    /// Whether a probe of `port` on the host written as `ip` may come back
    /// with `status`. A strategy whose answers depend on the network admits
    /// every status, which is what a strategy admits that says nothing else;
    /// a strategy with fixed answers admits one.
    open spec fn admits(&self, ip: Seq<char>, port: u16, status: PortStatus) -> bool {
        true
    }

    /// Probes `port` of the address written as the dotted quad `ip`.
    fn scan(&self, ip: &str, port: u16) -> (status: PortStatus)
        ensures
            self.admits(ip@, port, status),
    ;
}

/// How an attempt to open a connection ended.
#[derive(Clone, Copy, Debug, PartialEq, Eq, Structural)]
pub enum ConnectOutcome {
    /// The connection was established.
    Connected,
    /// The peer refused the connection.
    Refused,
    /// Nothing came back before the timeout.
    TimedOut,
    /// Any other failure of the transport, such as an unreachable network.
    Failed,
}

/// The connection-oriented probe: a full connection attempt with a timeout.
#[derive(Clone, Copy, Debug, Default)]
pub struct TcpConnectScan;

/// The status that the outcome of a connection attempt stands for.
pub open spec fn connect_status(outcome: ConnectOutcome) -> PortStatus {
    match outcome {
        ConnectOutcome::Connected => PortStatus::Open,
        ConnectOutcome::Refused => PortStatus::Closed,
        ConnectOutcome::TimedOut => PortStatus::Filtered,
        ConnectOutcome::Failed => PortStatus::Unknown,
    }
}

impl TcpConnectScan {
    /// How long a connection attempt may take, in milliseconds.
    pub fn timeout_millis(&self) -> (millis: u64)
        ensures
            millis == 200,
    {
        200
    }

    /// Classifies the outcome of a connection attempt.
    pub fn classify(&self, outcome: ConnectOutcome) -> (status: PortStatus)
        ensures
            status == connect_status(outcome),
    {
        match outcome {
            ConnectOutcome::Connected => PortStatus::Open,
            ConnectOutcome::Refused => PortStatus::Closed,
            ConnectOutcome::TimedOut => PortStatus::Filtered,
            ConnectOutcome::Failed => PortStatus::Unknown,
        }
    }
}

/// How the wait for a reply to a datagram ended.
#[derive(Clone, Copy, Debug, PartialEq, Eq, Structural)]
pub enum ReplyOutcome {
    /// Some datagram came back.
    Received,
    /// Nothing came back before the read timeout.
    TimedOut,
    /// The read failed for another reason.
    Failed,
}

/// What has just happened in a connectionless probe.
#[derive(Clone, Copy, Debug, PartialEq, Eq, Structural)]
pub enum UdpEvent {
    /// The probe begins; `target_valid` tells whether the target is a socket
    /// address at all.
    Started { target_valid: bool },
    /// The attempt to bind an ephemeral local endpoint is over.
    Bound { ok: bool },
    /// The attempt to send the payload is over.
    Sent { ok: bool },
    /// The wait for a reply is over.
    Replied(ReplyOutcome),
}

/// What a connectionless probe does next.
#[derive(Debug, PartialEq, Eq)]
pub enum UdpAction {
    /// Bind an ephemeral local endpoint.
    Bind,
    /// Set the read timeout of the endpoint, then send `payload` to the
    /// target.
    Send { payload: Vec<u8>, read_timeout_millis: u64 },
    /// Wait for a reply.
    Receive,
    /// The probe is over with this status.
    Finish(PortStatus),
}

/// The connectionless probe: one datagram, then a bounded wait for a reply.
#[derive(Clone, Copy, Debug, Default)]
pub struct UdpScan;

/// A minimal DNS query: a header that announces one question, then the
/// question for the address record of `example.com` in class IN.
pub open spec fn dns_query() -> Seq<u8> {
    seq![
        0x12, 0x34,
        0x01, 0x00,
        0x00, 0x01,
        0x00, 0x00,
        0x00, 0x00,
        0x00, 0x00,
        0x07, 0x65, 0x78, 0x61, 0x6d, 0x70, 0x6c, 0x65,
        0x03, 0x63, 0x6f, 0x6d,
        0x00,
        0x00, 0x01,
        0x00, 0x01,
    ]
}

/// The datagram that is sent to `port`: a DNS query for the name-resolution
/// port 53, an empty datagram for any other port.
pub open spec fn probe_payload(port: u16) -> Seq<u8> {
    if port == 53 {
        dns_query()
    } else {
        Seq::empty()
    }
}

/// The status with which a connectionless probe ends after `event`, or
/// `None` where the probe goes on.
pub open spec fn udp_verdict(event: UdpEvent) -> Option<PortStatus> {
    match event {
        UdpEvent::Started { target_valid } => if target_valid {
            None
        } else {
            Some(PortStatus::Unknown)
        },
        UdpEvent::Bound { ok } => if ok {
            None
        } else {
            Some(PortStatus::Unknown)
        },
        UdpEvent::Sent { ok } => if ok {
            None
        } else {
            Some(PortStatus::Unknown)
        },
        UdpEvent::Replied(ReplyOutcome::Received) => Some(PortStatus::Open),
        UdpEvent::Replied(ReplyOutcome::TimedOut) => Some(PortStatus::Filtered),
        UdpEvent::Replied(ReplyOutcome::Failed) => Some(PortStatus::Unknown),
    }
}

impl UdpScan {
    /// How long the wait for a reply may take, in milliseconds.
    pub fn read_timeout_millis(&self) -> (millis: u64)
        ensures
            millis == 500,
    {
        500
    }

    /// The datagram that is sent to `port`.
    pub fn payload(&self, port: u16) -> (bytes: Vec<u8>)
        ensures
            bytes@ == probe_payload(port),
    {
        if port == 53 {
            let bytes: Vec<u8> = vec![
                0x12, 0x34,
                0x01, 0x00,
                0x00, 0x01,
                0x00, 0x00,
                0x00, 0x00,
                0x00, 0x00,
                0x07, 0x65, 0x78, 0x61, 0x6d, 0x70, 0x6c, 0x65,
                0x03, 0x63, 0x6f, 0x6d,
                0x00,
                0x00, 0x01,
                0x00, 0x01,
            ];
            assert(bytes@ =~= dns_query());
            bytes
        } else {
            Vec::new()
        }
    }

    /// Decides the next step of a probe of `port` from what has just
    /// happened. The probe ends exactly where [`udp_verdict`] names a status;
    /// otherwise it goes on with binding, sending and receiving, in that
    /// order.
    pub fn step(&self, port: u16, event: UdpEvent) -> (action: UdpAction)
        ensures
            match udp_verdict(event) {
                Some(status) => action == UdpAction::Finish(status),
                None => match event {
                    UdpEvent::Started { .. } => action == UdpAction::Bind,
                    UdpEvent::Bound { .. } => action matches UdpAction::Send {
                        payload,
                        read_timeout_millis,
                    } && payload@ == probe_payload(port) && read_timeout_millis == 500,
                    _ => action == UdpAction::Receive,
                },
            },
    {
        match event {
            UdpEvent::Started { target_valid: true } => UdpAction::Bind,
            UdpEvent::Bound { ok: true } => UdpAction::Send {
                payload: self.payload(port),
                read_timeout_millis: self.read_timeout_millis(),
            },
            UdpEvent::Sent { ok: true } => UdpAction::Receive,
            UdpEvent::Replied(ReplyOutcome::Received) => UdpAction::Finish(PortStatus::Open),
            UdpEvent::Replied(ReplyOutcome::TimedOut) => UdpAction::Finish(PortStatus::Filtered),
            _ => UdpAction::Finish(PortStatus::Unknown),
        }
    }
}

} // verus!
