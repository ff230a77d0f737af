use rmap::address::pack_octets;
use rmap::ip_range::IpRange;
use rmap::parallel_scanner::{
    get_service_name, record_open_ports, retain_open, summarize, ParallelScanner, PortScanResult,
    PortStatus, ScanResults,
};
use rmap::strategy::ScanStrategy;
use std::collections::HashMap;
use std::sync::atomic::{AtomicUsize, Ordering};
use std::sync::Mutex;
use std::time::Duration;

/// Reports port 80 as open and every other port as closed, and keeps a list
/// of what it was asked.
struct OnlyHttp {
    asked: Mutex<Vec<(String, u16)>>,
    calls: AtomicUsize,
}

impl OnlyHttp {
    fn new() -> Self {
        OnlyHttp { asked: Mutex::new(Vec::new()), calls: AtomicUsize::new(0) }
    }
}

impl ScanStrategy for OnlyHttp {
    fn scan(&self, ip: &str, port: u16) -> PortStatus {
        self.calls.fetch_add(1, Ordering::SeqCst);
        self.asked.lock().unwrap().push((ip.to_string(), port));
        if port == 80 {
            PortStatus::Open
        } else {
            PortStatus::Closed
        }
    }
}

/// Answers by the last octet of the address and the port.
struct ByLastOctet;

impl ScanStrategy for ByLastOctet {
    fn scan(&self, ip: &str, port: u16) -> PortStatus {
        let last: u16 = ip.rsplit('.').next().unwrap().parse().unwrap();
        match (last + port) % 4 {
            0 => PortStatus::Open,
            1 => PortStatus::Closed,
            2 => PortStatus::Filtered,
            _ => PortStatus::Unknown,
        }
    }
}

fn dotted(address: u32) -> String {
    format!(
        "{}.{}.{}.{}",
        address >> 24,
        (address >> 16) & 0xff,
        (address >> 8) & 0xff,
        address & 0xff
    )
}

fn addresses(range: &IpRange) -> Vec<u32> {
    let mut out = Vec::new();
    let mut it = range.iter();
    while let Some(a) = it.next() {
        out.push(a);
    }
    out
}

fn run<S: ScanStrategy>(
    scanner: &ParallelScanner<S>,
    range: &IpRange,
    order: &[u32],
    ports: &Vec<u16>,
) -> ScanResults {
    let mut store = HashMap::new();
    for &address in order {
        let open = scanner.scan_host(&dotted(address), ports);
        record_open_ports(&mut store, address, &open);
    }
    summarize(store, range, Duration::from_millis(5))
}

#[test]
fn three_hosts_with_one_open_port_each() {
    let range = IpRange::parse("10.0.0.1-3").unwrap();
    let ports = vec![22, 80];
    let scanner = ParallelScanner::new(OnlyHttp::new(), 4);
    assert_eq!(scanner.num_workers(), 4);
    let order = addresses(&range);
    let summary = run(&scanner, &range, &order, &ports);
    assert_eq!(summary.results.len(), 3);
    for last in 1..=3u8 {
        let findings = &summary.results[&pack_octets(10, 0, 0, last)];
        assert_eq!(
            findings,
            &vec![PortScanResult { port: 80, state: PortStatus::Open, service: "HTTP" }]
        );
        assert_eq!(findings[0].port(), 80);
        assert_eq!(findings[0].state(), PortStatus::Open);
        assert_eq!(findings[0].service(), "HTTP");
    }
    assert_eq!(summary.active_hosts, 3);
    assert_eq!(summary.scanned_hosts, 3);
    assert_eq!(summary.active_hosts(), 3);
    assert_eq!(summary.scanned_hosts(), 3);
    assert_eq!(summary.duration, Duration::from_millis(5));
}

#[test]
fn every_port_of_a_host_is_probed_once_and_in_order() {
    let strategy = OnlyHttp::new();
    let scanner = ParallelScanner::new(strategy, 1);
    let ports = vec![443, 80, 22, 80];
    let open = scanner.scan_host("192.168.0.9", &ports);
    assert_eq!(open, vec![80, 80]);
    let range = IpRange::parse("10.0.0.1-2").unwrap();
    let summary = run(&scanner, &range, &addresses(&range), &vec![1, 2, 3]);
    assert_eq!(summary.active_hosts, 0);
    assert_eq!(summary.scanned_hosts, 2);
    assert!(summary.results.is_empty());
}

#[test]
fn probes_of_one_host_reach_the_strategy_as_asked() {
    let scanner = ParallelScanner::new(OnlyHttp::new(), 2);
    let open = scanner.scan_host("10.9.8.7", &vec![5, 80, 3, 5]);
    assert_eq!(open, vec![80]);
    let asked = scanner.strategy().asked.lock().unwrap().clone();
    assert_eq!(
        asked,
        vec![
            (String::from("10.9.8.7"), 5),
            (String::from("10.9.8.7"), 80),
            (String::from("10.9.8.7"), 3),
            (String::from("10.9.8.7"), 5)
        ]
    );
    assert_eq!(scanner.strategy().calls.load(Ordering::SeqCst), 4);
}

#[test]
fn order_of_arrival_does_not_show_in_the_store() {
    let range = IpRange::parse("172.16.0.0/28").unwrap();
    let ports = vec![21, 22, 23, 80, 443, 8080];
    let one = ParallelScanner::new(ByLastOctet, 1);
    let many = ParallelScanner::new(ByLastOctet, 64);
    let ascending = addresses(&range);
    let mut descending = ascending.clone();
    descending.reverse();
    let mut shuffled = ascending.clone();
    shuffled.rotate_left(5);
    shuffled.swap(0, 9);
    shuffled.swap(3, 14);
    let first = run(&one, &range, &ascending, &ports);
    let second = run(&many, &range, &descending, &ports);
    let third = run(&many, &range, &shuffled, &ports);
    assert_eq!(first.results, second.results);
    assert_eq!(first.results, third.results);
    assert_eq!(first.active_hosts, second.active_hosts);
    assert_eq!(first.scanned_hosts, 16);
    assert!(first.active_hosts > 0);
    for (address, findings) in &first.results {
        assert!(!findings.is_empty());
        for finding in findings {
            assert_eq!(finding.state, PortStatus::Open);
            assert_eq!((address & 0xff) as u16 % 4, (4 - finding.port % 4) % 4);
            assert_eq!(finding.service, get_service_name(finding.port));
        }
    }
}

#[test]
fn only_open_ports_are_kept() {
    let ports = vec![1, 2, 3, 4, 5];
    let statuses = vec![
        PortStatus::Closed,
        PortStatus::Open,
        PortStatus::Filtered,
        PortStatus::Unknown,
        PortStatus::Open,
    ];
    assert_eq!(retain_open(&ports, &statuses), vec![2, 5]);
    assert_eq!(retain_open(&vec![], &vec![]), Vec::<u16>::new());
    assert_eq!(retain_open(&vec![9], &vec![PortStatus::Filtered]), Vec::<u16>::new());
}

#[test]
fn findings_of_a_host_are_appended() {
    let mut store: HashMap<u32, Vec<PortScanResult>> = HashMap::new();
    record_open_ports(&mut store, 7, &vec![]);
    assert!(store.is_empty());
    record_open_ports(&mut store, 7, &vec![22, 9999]);
    record_open_ports(&mut store, 8, &vec![443]);
    record_open_ports(&mut store, 7, &vec![53]);
    record_open_ports(&mut store, 8, &vec![]);
    assert_eq!(store.len(), 2);
    assert_eq!(
        store[&7],
        vec![
            PortScanResult { port: 22, state: PortStatus::Open, service: "SSH" },
            PortScanResult { port: 9999, state: PortStatus::Open, service: "unknown" },
            PortScanResult { port: 53, state: PortStatus::Open, service: "DNS" },
        ]
    );
    assert_eq!(
        store[&8],
        vec![PortScanResult { port: 443, state: PortStatus::Open, service: "HTTPS" }]
    );
}

#[test]
fn summary_counts_the_range_and_the_store() {
    let range = IpRange::parse("10.0.0.0/24").unwrap();
    let mut store: HashMap<u32, Vec<PortScanResult>> = HashMap::new();
    record_open_ports(&mut store, pack_octets(10, 0, 0, 3), &vec![80]);
    record_open_ports(&mut store, pack_octets(10, 0, 0, 200), &vec![22, 80]);
    let summary = summarize(store.clone(), &range, Duration::from_secs(2));
    assert_eq!(summary.scanned_hosts, 256);
    assert_eq!(summary.active_hosts, 2);
    assert_eq!(summary.results, store);
    assert_eq!(summary.duration, Duration::from_secs(2));
    let empty = summarize(HashMap::new(), &IpRange::parse("10.0.0.7").unwrap(), Duration::ZERO);
    assert_eq!(empty.scanned_hosts, 1);
    assert_eq!(empty.active_hosts, 0);
}

#[test]
fn services_of_well_known_ports() {
    let table: [(u16, &str); 22] = [
        (21, "FTP"),
        (22, "SSH"),
        (23, "Telnet"),
        (25, "SMTP"),
        (53, "DNS"),
        (80, "HTTP"),
        (110, "POP3"),
        (135, "RPC"),
        (139, "NetBIOS"),
        (143, "IMAP"),
        (443, "HTTPS"),
        (445, "SMB"),
        (587, "SMTP (TLS)"),
        (993, "IMAPS"),
        (995, "POP3S"),
        (3306, "MySQL"),
        (3389, "RDP"),
        (5432, "PostgreSQL"),
        (5900, "VNC"),
        (6379, "Redis"),
        (8080, "HTTP Alt"),
        (8443, "HTTPS Alt"),
    ];
    for (port, name) in table {
        assert_eq!(get_service_name(port), name);
    }
    for port in [0u16, 1, 20, 24, 81, 8000, 8081, 65535] {
        assert_eq!(get_service_name(port), "unknown");
    }
}

#[test]
fn names_of_the_four_statuses() {
    assert_eq!(PortStatus::Open.to_string(), "Open");
    assert_eq!(PortStatus::Closed.to_string(), "Closed");
    assert_eq!(PortStatus::Filtered.to_string(), "Filtered");
    assert_eq!(PortStatus::Unknown.to_string(), "Unknown");
}
