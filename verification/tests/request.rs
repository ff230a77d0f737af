use rmap::address::pack_octets;
use rmap::ip_range::IpRange;
use rmap::request::{
    invalid_scan_type, parse_scan_type, prepare_scan, InputError, ScanKind, DEFAULT_WORKERS,
};

#[test]
fn scan_type_is_read_in_either_case() {
    assert_eq!(parse_scan_type(Some("T")), Ok(ScanKind::Tcp));
    assert_eq!(parse_scan_type(Some("t")), Ok(ScanKind::Tcp));
    assert_eq!(parse_scan_type(Some("U")), Ok(ScanKind::Udp));
    assert_eq!(parse_scan_type(Some("u")), Ok(ScanKind::Udp));
    assert_eq!(parse_scan_type(None), Ok(ScanKind::Tcp));
}

#[test]
fn unknown_scan_type_is_refused_by_name() {
    assert_eq!(
        parse_scan_type(Some("X")),
        Err(String::from("Invalid scan type 'X'. Use 'T' or 'U'."))
    );
    assert_eq!(
        parse_scan_type(Some("syn")),
        Err(String::from("Invalid scan type 'SYN'. Use 'T' or 'U'."))
    );
    assert_eq!(
        parse_scan_type(Some("")),
        Err(String::from("Invalid scan type ''. Use 'T' or 'U'."))
    );
    assert_eq!(
        parse_scan_type(Some("TT")),
        Err(String::from("Invalid scan type 'TT'. Use 'T' or 'U'."))
    );
    assert_eq!(
        parse_scan_type(Some(" t")),
        Err(String::from("Invalid scan type ' T'. Use 'T' or 'U'."))
    );
    assert_eq!(invalid_scan_type("Q"), "Invalid scan type 'Q'. Use 'T' or 'U'.");
}

#[test]
fn scan_type_is_selected_as_by_upper_casing() {
    for s in ["T", "t", "U", "u", "x", "tu", "", "ẗ", "ŧ", "ﬅ", "ｔ", "µ", "ù", "T\n"] {
        let upper = s.to_uppercase();
        let expected = match upper.as_str() {
            "T" => Ok(ScanKind::Tcp),
            "U" => Ok(ScanKind::Udp),
            other => Err(format!("Invalid scan type '{}'. Use 'T' or 'U'.", other)),
        };
        assert_eq!(parse_scan_type(Some(s)), expected, "{:?}", s);
    }
}

#[test]
fn refused_scan_type_leaves_no_plan() {
    let r = prepare_scan("10.0.0.1-3", Some("X"), Some("22,80"), Some(4));
    match r {
        Err(InputError::ScanType(m)) => {
            assert_eq!(m, "Invalid scan type 'X'. Use 'T' or 'U'.")
        }
        other => panic!("{:?}", other),
    }
}

#[test]
fn request_with_everything_given() {
    let plan = prepare_scan("10.0.0.1-3", Some("u"), Some("22, 80"), Some(64)).unwrap();
    assert_eq!(
        plan.range,
        IpRange::Range { start: pack_octets(10, 0, 0, 1), end: pack_octets(10, 0, 0, 3) }
    );
    assert_eq!(plan.kind, ScanKind::Udp);
    assert_eq!(plan.ports, vec![22, 80]);
    assert_eq!(plan.workers, 64);
}

#[test]
fn request_with_nothing_but_a_range() {
    let plan = prepare_scan("192.168.1.0/24", None, None, None).unwrap();
    assert_eq!(plan.range, IpRange::Cidr { address: pack_octets(192, 168, 1, 0), prefix: 24 });
    assert_eq!(plan.kind, ScanKind::Tcp);
    assert_eq!(plan.ports.len(), 16);
    assert_eq!(plan.ports[0], 22);
    assert_eq!(plan.ports[15], 8000);
    assert_eq!(plan.workers, 256);
    assert_eq!(DEFAULT_WORKERS, 256);
    let again = prepare_scan("192.168.1.0/24", Some("T"), Some(""), None).unwrap();
    assert_eq!(again.ports, plan.ports);
    let blank = prepare_scan("192.168.1.0/24", None, Some(" , ,"), None).unwrap();
    assert_eq!(blank.ports, plan.ports);
    let zero = prepare_scan("192.168.1.0/24", None, None, Some(0)).unwrap();
    assert_eq!(zero.workers, 0);
}

#[test]
fn first_refused_input_decides_the_error() {
    let all_bad = prepare_scan("nowhere", Some("X"), Some("22,http"), None);
    assert_eq!(
        all_bad.unwrap_err(),
        InputError::Ports(String::from("Invalid port number: 'http'"))
    );
    let two_bad = prepare_scan("nowhere", Some("X"), Some("22"), None);
    assert_eq!(two_bad.unwrap_err(), InputError::Range(String::from("invalid format")));
    let range_bad = prepare_scan("10.0.0.9-3", None, None, None);
    let e = range_bad.unwrap_err();
    assert_eq!(e, InputError::Range(String::from("Invalid range")));
    assert_eq!(e.message(), "Invalid range");
    let cidr_bad = prepare_scan("10.0.0.0/40", None, None, None).unwrap_err();
    assert!(cidr_bad.message().starts_with("CIDR parse error: "));
    assert_eq!(
        InputError::ScanType(String::from("a")).message(),
        "a"
    );
    assert_eq!(InputError::Ports(String::from("b")).message(), "b");
}
