//! The scheduler's share of a scan: the work on one host, the store of
//! findings that the workers fill, and the summary drawn from it.
//!
//! A scan is the cross product of a range of addresses and a list of ports.
//! One job is one address: a worker probes every port of it, keeps the ports
//! found open, and writes them to the store in one step. Only open ports are
//! kept, so a host counts as active exactly when at least one of its ports
//! was found open.

use crate::ip_range::IpRange;
use crate::strategy::ScanStrategy;
use std::collections::HashMap;
use std::time::Duration;
use vstd::prelude::*;

verus! {

/// Connectivity classification of one probed port.
#[derive(Clone, Copy, Debug, PartialEq, Eq, Hash, Structural)]
pub enum PortStatus {
    Open,
    Closed,
    Filtered,
    Unknown,
}

impl PortStatus {
    /// The name of the status as it is shown.
    pub open spec fn text(self) -> Seq<char> {
        match self {
            PortStatus::Open => "Open"@,
            PortStatus::Closed => "Closed"@,
            PortStatus::Filtered => "Filtered"@,
            PortStatus::Unknown => "Unknown"@,
        }
    }

    /// The name of the status as it is shown.
    pub fn to_string(&self) -> (s: String)
        ensures
            s@ == self.text(),
    {
        let name = match self {
            PortStatus::Open => "Open",
            PortStatus::Closed => "Closed",
            PortStatus::Filtered => "Filtered",
            PortStatus::Unknown => "Unknown",
        };
        String::from_str(name)
    }
}

/// The service that is usually found behind `port`, or `unknown`.
pub open spec fn service_name(port: u16) -> Seq<char> {
    if port == 21 {
        "FTP"@
    } else if port == 22 {
        "SSH"@
    } else if port == 23 {
        "Telnet"@
    } else if port == 25 {
        "SMTP"@
    } else if port == 53 {
        "DNS"@
    } else if port == 80 {
        "HTTP"@
    } else if port == 110 {
        "POP3"@
    } else if port == 135 {
        "RPC"@
    } else if port == 139 {
        "NetBIOS"@
    } else if port == 143 {
        "IMAP"@
    } else if port == 443 {
        "HTTPS"@
    } else if port == 445 {
        "SMB"@
    } else if port == 587 {
        "SMTP (TLS)"@
    } else if port == 993 {
        "IMAPS"@
    } else if port == 995 {
        "POP3S"@
    } else if port == 3306 {
        "MySQL"@
    } else if port == 3389 {
        "RDP"@
    } else if port == 5432 {
        "PostgreSQL"@
    } else if port == 5900 {
        "VNC"@
    } else if port == 6379 {
        "Redis"@
    } else if port == 8080 {
        "HTTP Alt"@
    } else if port == 8443 {
        "HTTPS Alt"@
    } else {
        "unknown"@
    }
}

/// Looks up the service that is usually found behind `port`.
pub fn get_service_name(port: u16) -> (name: &'static str)
    ensures
        name@ == service_name(port),
{
    match port {
        21 => "FTP",
        22 => "SSH",
        23 => "Telnet",
        25 => "SMTP",
        53 => "DNS",
        80 => "HTTP",
        110 => "POP3",
        135 => "RPC",
        139 => "NetBIOS",
        143 => "IMAP",
        443 => "HTTPS",
        445 => "SMB",
        587 => "SMTP (TLS)",
        993 => "IMAPS",
        995 => "POP3S",
        3306 => "MySQL",
        3389 => "RDP",
        5432 => "PostgreSQL",
        5900 => "VNC",
        6379 => "Redis",
        8080 => "HTTP Alt",
        8443 => "HTTPS Alt",
        _ => "unknown",
    }
}

/// What was found on one port of one host.
#[derive(Clone, Copy, Debug, PartialEq, Eq)]
pub struct PortScanResult {
    pub port: u16,
    pub state: PortStatus,
    pub service: &'static str,
}

/// A finding as a plain value: the port, its status and the text of the
/// service label.
pub struct Finding {
    pub port: u16,
    pub state: PortStatus,
    pub service: Seq<char>,
}

impl View for PortScanResult {
    type V = Finding;

    open spec fn view(&self) -> Finding {
        Finding { port: self.port, state: self.state, service: self.service@ }
    }
}

impl PortScanResult {
    /// The port that was probed.
    pub fn port(&self) -> (port: u16)
        ensures
            port == self.port,
    {
        self.port
    }

    /// The status that the probe came back with.
    pub fn state(&self) -> (state: PortStatus)
        ensures
            state == self.state,
    {
        self.state
    }

    /// The label of the service that is usually found behind the port.
    pub fn service(&self) -> (service: &str)
        ensures
            service@ == self.service@,
    {
        self.service
    }
}

/// The finding that is kept for a port found open.
pub open spec fn open_finding(port: u16) -> Finding {
    Finding { port, state: PortStatus::Open, service: service_name(port) }
}

/// The findings that are kept for the ports found open on one host.
pub open spec fn findings(open_ports: Seq<u16>) -> Seq<Finding> {
    Seq::new(open_ports.len(), |i: int| open_finding(open_ports[i]))
}

/// The findings in `results`, as plain values.
pub open spec fn findings_of(results: Seq<PortScanResult>) -> Seq<Finding> {
    Seq::new(results.len(), |i: int| results[i]@)
}

/// The store of findings as a map from addresses to plain values.
pub open spec fn store_view(results: Map<u32, Vec<PortScanResult>>) -> Map<u32, Seq<Finding>> {
    Map::new(|ip: u32| results.dom().contains(ip), |ip: u32| findings_of(results[ip]@))
}

/// The ports among `ports` whose probe came back as open, in the order of
/// `ports`; `statuses[i]` is what the probe of `ports[i]` came back with.
pub open spec fn open_among(ports: Seq<u16>, statuses: Seq<PortStatus>) -> Seq<u16>
    decreases ports.len(),
{
    if ports.len() == 0 || statuses.len() != ports.len() {
        Seq::empty()
    } else {
        let before = open_among(ports.drop_last(), statuses.drop_last());
        if statuses.last() == PortStatus::Open {
            before.push(ports.last())
        } else {
            before
        }
    }
}

/// The store after the open ports of the host `ip` have been written to it.
/// A host without an open port leaves no trace.
pub open spec fn recorded(store: Map<u32, Seq<Finding>>, ip: u32, open_ports: Seq<u16>) -> Map<
    u32,
    Seq<Finding>,
> {
    if open_ports.len() == 0 {
        store
    } else if store.dom().contains(ip) {
        store.insert(ip, store[ip] + findings(open_ports))
    } else {
        store.insert(ip, findings(open_ports))
    }
}

/// The store after the hosts of `arrivals` have reported in that order,
/// where `open_ports(ip)` are the ports found open on the host `ip`.
pub open spec fn store_after(arrivals: Seq<u32>, open_ports: spec_fn(u32) -> Seq<u16>) -> Map<
    u32,
    Seq<Finding>,
>
    decreases arrivals.len(),
{
    if arrivals.len() == 0 {
        Map::empty()
    } else {
        recorded(
            store_after(arrivals.drop_last(), open_ports),
            arrivals.last(),
            open_ports(arrivals.last()),
        )
    }
}

/// The aggregated outcome of one scan.
#[derive(Debug)]
pub struct ScanResults {
    /// The findings of every active host, by address.
    pub results: HashMap<u32, Vec<PortScanResult>>,
    /// Number of hosts with at least one finding.
    pub active_hosts: usize,
    /// Number of addresses in the scanned range.
    pub scanned_hosts: usize,
    /// Wall-clock time from the first job to the last worker's end.
    pub duration: Duration,
}

impl ScanResults {
    /// The findings of every active host, as plain values.
    pub open spec fn store(&self) -> Map<u32, Seq<Finding>> {
        store_view(self.results@)
    }

    /// Number of hosts with at least one finding.
    pub fn active_hosts(&self) -> (n: usize)
        ensures
            n == self.active_hosts,
    {
        self.active_hosts
    }

    /// Number of addresses in the scanned range.
    pub fn scanned_hosts(&self) -> (n: usize)
        ensures
            n == self.scanned_hosts,
    {
        self.scanned_hosts
    }
}

/// A scanner: a probing strategy and the size of the pool of workers that
/// share it.
pub struct ParallelScanner<S: ScanStrategy> {
    strategy: S,
    num_workers: usize,
}

impl<S: ScanStrategy> ParallelScanner<S> {
    /// The size of the worker pool.
    pub closed spec fn workers(&self) -> usize {
        self.num_workers
    }

    /// The probing strategy.
    pub closed spec fn probe(&self) -> S {
        self.strategy
    }

    /// A scanner that probes with `strategy` from `num_workers` workers.
    pub fn new(strategy: S, num_workers: usize) -> (scanner: Self)
        ensures
            scanner.workers() == num_workers,
            scanner.probe() == strategy,
    {
        Self { strategy, num_workers }
    }

    /// The size of the worker pool.
    pub fn num_workers(&self) -> (n: usize)
        ensures
            n == self.workers(),
    {
        self.num_workers
    }

    /// The probing strategy.
    pub fn strategy(&self) -> (strategy: &S)
        ensures
            *strategy == self.probe(),
    {
        &self.strategy
    }

    /// One job: probes every port of `ports` on the host written as `ip`,
    /// each exactly once and in order, and hands back the ports that came
    /// back as open.
    ///
    /// What a probe comes back with is the strategy's affair: the result is
    /// stated over statuses that the strategy admits for `ip` and each port.
    pub fn scan_host(&self, ip: &str, ports: &Vec<u16>) -> (open_ports: Vec<u16>)
        ensures
            exists|statuses: Seq<PortStatus>|
                statuses.len() == ports.len() && (forall|i: int|
                    0 <= i < ports.len() ==> self.probe().admits(
                        ip@,
                        ports[i],
                        #[trigger] statuses[i],
                    )) && open_ports@ == open_among(ports@, statuses),
    {
        let mut statuses: Vec<PortStatus> = Vec::new();
        let mut i: usize = 0;
        while i < ports.len()
            invariant
                0 <= i <= ports.len(),
                statuses.len() == i,
                forall|j: int|
                    0 <= j < i ==> self.strategy.admits(ip@, ports[j], #[trigger] statuses[j]),
            decreases ports.len() - i,
        {
            statuses.push(self.strategy.scan(ip, ports[i]));
            i += 1;
        }
        let open_ports = retain_open(ports, &statuses);
        assert(statuses@.len() == ports.len() && (forall|i: int|
            0 <= i < ports.len() ==> self.probe().admits(ip@, ports[i], #[trigger] statuses@[i]))
            && open_ports@ == open_among(ports@, statuses@));
        open_ports
    }
}

/// The ports among `ports` whose probe came back as open; `statuses[i]` is
/// what the probe of `ports[i]` came back with.
pub fn retain_open(ports: &Vec<u16>, statuses: &Vec<PortStatus>) -> (open_ports: Vec<u16>)
    requires
        statuses.len() == ports.len(),
    ensures
        open_ports@ == open_among(ports@, statuses@),
{
    let mut open_ports: Vec<u16> = Vec::new();
    let mut i: usize = 0;
    while i < ports.len()
        invariant
            0 <= i <= ports.len(),
            statuses.len() == ports.len(),
            open_ports@ == open_among(ports@.take(i as int), statuses@.take(i as int)),
        decreases ports.len() - i,
    {
        proof {
            assert(ports@.take(i + 1).drop_last() =~= ports@.take(i as int));
            assert(statuses@.take(i + 1).drop_last() =~= statuses@.take(i as int));
        }
        if statuses[i] == PortStatus::Open {
            open_ports.push(ports[i]);
        }
        i += 1;
    }
    assert(ports@.take(ports.len() as int) =~= ports@);
    assert(statuses@.take(ports.len() as int) =~= statuses@);
    open_ports
}

/// Writes the ports found open on the host `ip` to the store: one finding per
/// port, behind those that the store already holds for the host. A host
/// without an open port is not entered.
pub fn record_open_ports(
    results: &mut HashMap<u32, Vec<PortScanResult>>,
    ip: u32,
    open_ports: &Vec<u16>,
)
    ensures
        store_view(final(results)@) == recorded(store_view(old(results)@), ip, open_ports@),
{
    if open_ports.len() == 0 {
        return ;
    }
    let ghost before = results@;
    let mut entry: Vec<PortScanResult> = match results.remove(&ip) {
        Some(held) => held,
        None => Vec::new(),
    };
    let ghost held = findings_of(entry@);
    let mut i: usize = 0;
    while i < open_ports.len()
        invariant
            0 <= i <= open_ports.len(),
            findings_of(entry@) == held + findings(open_ports@.take(i as int)),
        decreases open_ports.len() - i,
    {
        let port = open_ports[i];
        let ghost so_far = findings_of(entry@);
        entry.push(PortScanResult { port, state: PortStatus::Open, service: get_service_name(port) });
        proof {
            assert(findings_of(entry@) =~= so_far.push(open_finding(port)));
            assert(findings(open_ports@.take(i + 1)) =~= findings(open_ports@.take(i as int)).push(
                open_finding(port),
            ));
        }
        i += 1;
    }
    assert(open_ports@.take(open_ports.len() as int) =~= open_ports@);
    results.insert(ip, entry);
    assert(store_view(results@) =~= recorded(store_view(before), ip, open_ports@));
}

/// Draws the summary of a scan of `ip_range` from the store that the workers
/// have filled: every address of the range counts as scanned, every host in
/// the store as active.
pub fn summarize(
    results: HashMap<u32, Vec<PortScanResult>>,
    ip_range: &IpRange,
    duration: Duration,
) -> (summary: ScanResults)
    requires
        ip_range.wf(),
        ip_range.count() <= usize::MAX,
    ensures
        summary.results == results,
        summary.duration == duration,
        summary.scanned_hosts == ip_range.count(),
        summary.active_hosts == results@.dom().len(),
        summary.active_hosts == summary.store().dom().len(),
{
    let active_hosts = results.len();
    let scanned_hosts = ip_range.len();
    assert(store_view(results@).dom() =~= results@.dom());
    ScanResults { results, active_hosts, scanned_hosts, duration }
}

/// Where every host reports once, the store holds exactly the hosts with at
/// least one open port, each with one finding per open port.
pub proof fn lemma_store_holds_active_hosts(
    arrivals: Seq<u32>,
    open_ports: spec_fn(u32) -> Seq<u16>,
)
    requires
        arrivals.no_duplicates(),
    ensures
        forall|ip: u32| #[trigger]
            store_after(arrivals, open_ports).dom().contains(ip) <==> arrivals.contains(ip)
                && open_ports(ip).len() > 0,
        forall|ip: u32| #[trigger]
            store_after(arrivals, open_ports).dom().contains(ip) ==> store_after(
                arrivals,
                open_ports,
            )[ip] == findings(open_ports(ip)),
    decreases arrivals.len(),
{
    if arrivals.len() > 0 {
        let earlier = arrivals.drop_last();
        let last = arrivals.last();
        lemma_store_holds_active_hosts(earlier, open_ports);
        assert(!earlier.contains(last)) by {
            if earlier.contains(last) {
                let i = choose|i: int| 0 <= i < earlier.len() && earlier[i] == last;
                assert(arrivals[i] == arrivals[arrivals.len() - 1]);
            }
        }
        assert forall|ip: u32| arrivals.contains(ip) <==> earlier.contains(ip) || ip == last by {
            if arrivals.contains(ip) {
                let i = choose|i: int| 0 <= i < arrivals.len() && arrivals[i] == ip;
                if i < earlier.len() {
                    assert(earlier[i] == ip);
                }
            }
            if earlier.contains(ip) {
                let i = choose|i: int| 0 <= i < earlier.len() && earlier[i] == ip;
                assert(arrivals[i] == ip);
            }
            if ip == last {
                assert(arrivals[arrivals.len() - 1] == ip);
            }
        }
        let before = store_after(earlier, open_ports);
        let after = store_after(arrivals, open_ports);
        assert(after == recorded(before, last, open_ports(last)));
        assert(!before.dom().contains(last));
        assert forall|ip: u32| #[trigger]
            after.dom().contains(ip) <==> arrivals.contains(ip) && open_ports(ip).len() > 0 by {
            assert(before.dom().contains(ip) <==> earlier.contains(ip) && open_ports(ip).len() > 0);
        }
        assert forall|ip: u32| #[trigger] after.dom().contains(ip) implies after[ip] == findings(
            open_ports(ip),
        ) by {
            if ip != last {
                assert(before.dom().contains(ip));
            }
        }
    }
}

/// The order in which the hosts report does not show in the store: two runs
/// over the same hosts, each host reporting once and with the same open
/// ports, leave the same store. The size of the worker pool decides in which
/// order the hosts report and nothing else, so it does not show either.
pub proof fn lemma_arrival_order_is_immaterial(
    first: Seq<u32>,
    second: Seq<u32>,
    open_ports: spec_fn(u32) -> Seq<u16>,
)
    requires
        first.no_duplicates(),
        second.no_duplicates(),
        forall|ip: u32| first.contains(ip) <==> second.contains(ip),
    ensures
        store_after(first, open_ports) == store_after(second, open_ports),
{
    lemma_store_holds_active_hosts(first, open_ports);
    lemma_store_holds_active_hosts(second, open_ports);
    assert(store_after(first, open_ports) =~= store_after(second, open_ports));
}

/// With a strategy whose answers are fixed, one job has one outcome: where
/// the strategy admits only the status `verdict(port)` for each port of the
/// host `ip`, the statuses that the probes come back with are those, and the
/// ports handed back are the ports of the list whose verdict is open, in the
/// order of the list.
pub proof fn lemma_fixed_answers_fix_the_outcome<S: ScanStrategy>(
    strategy: S,
    ip: Seq<char>,
    ports: Seq<u16>,
    verdict: spec_fn(u16) -> PortStatus,
    statuses: Seq<PortStatus>,
)
    requires
        forall|port: u16, status: PortStatus|
            strategy.admits(ip, port, status) ==> status == verdict(port),
        statuses.len() == ports.len(),
        forall|i: int| 0 <= i < ports.len() ==> strategy.admits(ip, ports[i], #[trigger] statuses[i]),
    ensures
        statuses == Seq::new(ports.len(), |i: int| verdict(ports[i])),
        open_among(ports, statuses) == ports.filter(|port: u16| verdict(port) == PortStatus::Open),
    decreases ports.len(),
{
    assert(statuses =~= Seq::new(ports.len(), |i: int| verdict(ports[i])));
    reveal(Seq::filter);
    if ports.len() > 0 {
        let earlier = statuses.drop_last();
        assert forall|i: int| 0 <= i < ports.drop_last().len() implies strategy.admits(
            ip,
            ports.drop_last()[i],
            #[trigger] earlier[i],
        ) by {
            assert(earlier[i] == statuses[i]);
        }
        lemma_fixed_answers_fix_the_outcome(strategy, ip, ports.drop_last(), verdict, earlier);
    }
}

} // verus!
