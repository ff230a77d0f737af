use cidr::Ipv4Inet;
use rmap::address::{parse_dotted_quad, parse_octet};
use rmap::ports::parse_ports;
use rmap::text::{
    chars_of, is_ascii_digit, is_whitespace, parse_numeral, split_fields, trim_window,
    window_contains,
};

fn cut(text: &[char], window: (usize, usize)) -> String {
    text[window.0..window.1].iter().collect()
}

#[test]
fn white_space_is_what_the_standard_library_calls_so() {
    for code in 0..=0x10_ffffu32 {
        if let Some(c) = char::from_u32(code) {
            assert_eq!(is_whitespace(c), c.is_whitespace(), "U+{:04X}", code);
        }
    }
}

#[test]
fn digits_are_the_ten_ascii_digits() {
    for code in 0..=0x10_ffffu32 {
        if let Some(c) = char::from_u32(code) {
            assert_eq!(is_ascii_digit(c), c.is_ascii_digit(), "U+{:04X}", code);
        }
    }
}

#[test]
fn characters_of_a_text() {
    assert_eq!(chars_of(""), Vec::<char>::new());
    assert_eq!(chars_of("a,b"), vec!['a', ',', 'b']);
    assert_eq!(chars_of("٨0é"), vec!['٨', '0', 'é']);
}

#[test]
fn fields_between_separators() {
    let text = chars_of("a,,bc,");
    let fields = split_fields(&text, 0, text.len(), ',');
    let cuts: Vec<String> = fields.iter().map(|w| cut(&text, *w)).collect();
    assert_eq!(cuts, vec!["a", "", "bc", ""]);
    let expected: Vec<&str> = "a,,bc,".split(',').collect();
    assert_eq!(cuts, expected);
    let none = chars_of("");
    assert_eq!(split_fields(&none, 0, 0, ','), vec![(0, 0)]);
    let inner = split_fields(&text, 1, 5, ',');
    assert_eq!(inner, vec![(1, 1), (2, 2), (3, 5)]);
}

#[test]
fn fields_are_cut_as_the_standard_library_cuts_them() {
    for s in ["", ".", "..", "1.2.3.4", ".1.", "a-b-c", "-", "--x", "x--", "no separator"] {
        for sep in ['.', '-'] {
            let text = chars_of(s);
            let fields = split_fields(&text, 0, text.len(), sep);
            let cuts: Vec<String> = fields.iter().map(|w| cut(&text, *w)).collect();
            let expected: Vec<&str> = s.split(sep).collect();
            assert_eq!(cuts, expected, "{:?} at {:?}", s, sep);
        }
    }
}

#[test]
fn windows_are_trimmed_at_both_ends() {
    for s in ["", " ", "  a  ", "a", " a b ", "\t\n x\u{3000}", "\u{a0}\u{a0}", "x \u{200b} "] {
        let text = chars_of(s);
        let inner = trim_window(&text, 0, text.len());
        assert_eq!(cut(&text, inner), s.trim(), "{:?}", s);
    }
    let text = chars_of("ab  cd  ef");
    assert_eq!(trim_window(&text, 2, 8), (4, 6));
    assert_eq!(trim_window(&text, 2, 4), (4, 4));
}

#[test]
fn window_holds_a_character_or_not() {
    let text = chars_of("10.0.0.0/8");
    assert!(window_contains(&text, 0, text.len(), '/'));
    assert!(!window_contains(&text, 0, 8, '/'));
    assert!(window_contains(&text, 8, 9, '/'));
    assert!(!window_contains(&text, 9, 10, '/'));
    assert!(!window_contains(&text, 3, 3, '.'));
}

#[test]
fn numerals_up_to_a_bound() {
    let text = chars_of("007x65535 65536");
    assert_eq!(parse_numeral(&text, 0, 3, 255), Some(7));
    assert_eq!(parse_numeral(&text, 0, 4, 255), None);
    assert_eq!(parse_numeral(&text, 4, 9, 65535), Some(65535));
    assert_eq!(parse_numeral(&text, 4, 9, 65534), None);
    assert_eq!(parse_numeral(&text, 10, 15, 65535), None);
    assert_eq!(parse_numeral(&text, 10, 15, 65536), Some(65536));
    assert_eq!(parse_numeral(&text, 2, 2, 255), None);
    assert_eq!(parse_numeral(&text, 9, 10, 255), None);
    let zeros = chars_of("0000000000000000000000000000000000000000255");
    assert_eq!(parse_numeral(&zeros, 0, zeros.len(), 255), Some(255));
    let long = chars_of("99999999999999999999999999999999999999999999");
    assert_eq!(parse_numeral(&long, 0, long.len(), 0x00ff_ffff), None);
    assert_eq!(parse_numeral(&long, 0, long.len(), u32::MAX), None);
    let most = chars_of("4294967295 4294967296");
    assert_eq!(parse_numeral(&most, 0, 10, u32::MAX), Some(u32::MAX));
    assert_eq!(parse_numeral(&most, 11, 21, u32::MAX), None);
    assert_eq!(parse_numeral(&most, 0, 10, u32::MAX - 1), None);
}

#[test]
fn every_number_near_the_port_range_is_read_as_the_standard_library_reads_it() {
    for n in 0..70_000u32 {
        let s = n.to_string();
        let expected = s.parse::<u16>().ok().map(|p| vec![p]);
        assert_eq!(parse_ports(&s).ok().flatten(), expected, "{}", s);
    }
}

#[test]
fn octets_of_a_dotted_quad() {
    for n in 0..1000u32 {
        for s in [n.to_string(), format!("0{}", n), format!("{:03}", n)] {
            let text = chars_of(&s);
            let canonical = n <= 255 && s == n.to_string();
            let expected = if canonical { Some(n as u8) } else { None };
            assert_eq!(parse_octet(&text, 0, text.len()), expected, "{:?}", s);
        }
    }
    let text = chars_of("");
    assert_eq!(parse_octet(&text, 0, 0), None);
    let text = chars_of("+1");
    assert_eq!(parse_octet(&text, 0, 2), None);
}

#[test]
fn dotted_quads_are_read_as_the_standard_library_reads_them() {
    let samples = [
        "0.0.0.0",
        "255.255.255.255",
        "1.2.3.4",
        "10.0.0.7",
        "192.168.001.1",
        "192.168.1.01",
        "00.0.0.0",
        "256.1.1.1",
        "1.1.1.256",
        "1.1.1",
        "1.1.1.1.1",
        "1.1.1.1.",
        ".1.1.1.1",
        "1..1.1",
        "1.1.1.1 ",
        " 1.1.1.1",
        "1.1.1.-1",
        "1.1.1.+1",
        "0x1.1.1.1",
        "1.1.1.1e0",
        "١.1.1.1",
        "",
        "1",
        "16909060",
        "1.2.3.4/32",
        "999.999.999.999",
        "1.2.3.1000",
    ];
    for s in samples {
        let text = chars_of(s);
        let expected = if s.contains('/') {
            None
        } else {
            s.parse::<Ipv4Inet>().ok().map(|host| u32::from(host.address()))
        };
        assert_eq!(parse_dotted_quad(&text, 0, text.len()), expected, "{:?}", s);
    }
}
