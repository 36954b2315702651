use public_ip::addr::{parse_ip, parse_ipv4, parse_ipv6, IpAddress, Ipv4Address, Ipv6Address};
use public_ip::http::{extract_ip, extract_text, ExtractMethod};

fn v4(a: u8, b: u8, c: u8, d: u8) -> Ipv4Address {
    Ipv4Address::new(a, b, c, d)
}

#[test]
fn ipv4_basic() {
    assert_eq!(parse_ipv4(&b"203.0.113.7".to_vec()), Some(v4(203, 0, 113, 7)));
    assert_eq!(parse_ipv4(&b"0.0.0.0".to_vec()), Some(v4(0, 0, 0, 0)));
    assert_eq!(parse_ipv4(&b"255.255.255.255".to_vec()), Some(v4(255, 255, 255, 255)));
}

#[test]
fn ipv4_rejects_bad_octets() {
    assert_eq!(parse_ipv4(&b"256.1.1.1".to_vec()), None);
    assert_eq!(parse_ipv4(&b"01.2.3.4".to_vec()), None);
    assert_eq!(parse_ipv4(&b"1.2.3".to_vec()), None);
    assert_eq!(parse_ipv4(&b"1.2.3.4.5".to_vec()), None);
    assert_eq!(parse_ipv4(&b"1234.2.3.4".to_vec()), None);
    assert_eq!(parse_ipv4(&b"".to_vec()), None);
    assert_eq!(parse_ipv4(&b"1.2.3.4 ".to_vec()), None);
}

#[test]
fn ipv6_full_form() {
    assert_eq!(
        parse_ipv6(&b"1:2:3:4:5:6:7:8".to_vec()),
        Some(Ipv6Address::new(1, 2, 3, 4, 5, 6, 7, 8))
    );
    assert_eq!(
        parse_ipv6(&b"2001:4860:4802:32:0:0:0:a".to_vec()),
        Some(Ipv6Address::new(0x2001, 0x4860, 0x4802, 0x32, 0, 0, 0, 0xa))
    );
}

#[test]
fn ipv6_compressed() {
    assert_eq!(parse_ipv6(&b"::1".to_vec()), Some(Ipv6Address::new(0, 0, 0, 0, 0, 0, 0, 1)));
    assert_eq!(parse_ipv6(&b"::".to_vec()), Some(Ipv6Address::new(0, 0, 0, 0, 0, 0, 0, 0)));
    assert_eq!(
        parse_ipv6(&b"2620:0:ccc::2".to_vec()),
        Some(Ipv6Address::new(0x2620, 0, 0xccc, 0, 0, 0, 0, 2))
    );
    assert_eq!(
        parse_ipv6(&b"1:2:3:4:5:6:7::".to_vec()),
        Some(Ipv6Address::new(1, 2, 3, 4, 5, 6, 7, 0))
    );
}

#[test]
fn ipv6_case_insensitive_hex() {
    assert_eq!(
        parse_ipv6(&b"ABCD::ef01".to_vec()),
        Some(Ipv6Address::new(0xabcd, 0, 0, 0, 0, 0, 0, 0xef01))
    );
}

#[test]
fn ipv6_rejects_malformed() {
    assert_eq!(parse_ipv6(&b"1::2::3".to_vec()), None);
    assert_eq!(parse_ipv6(&b"12345::".to_vec()), None);
    assert_eq!(parse_ipv6(&b"1:2:3:4:5:6:7".to_vec()), None);
    assert_eq!(parse_ipv6(&b"1:2:3:4:5:6:7:8:9".to_vec()), None);
    assert_eq!(parse_ipv6(&b"::1:2:3:4:5:6:7:8".to_vec()), None);
    assert_eq!(parse_ipv6(&b":::".to_vec()), None);
    assert_eq!(parse_ipv6(&b"".to_vec()), None);
    assert_eq!(parse_ipv6(&b"g::1".to_vec()), None);
}

#[test]
fn parse_ip_prefers_family_by_form() {
    assert_eq!(
        parse_ip(&b"203.0.113.7".to_vec()),
        Some(IpAddress::V4(v4(203, 0, 113, 7)))
    );
    assert_eq!(
        parse_ip(&b"::1".to_vec()),
        Some(IpAddress::V6(Ipv6Address::new(0, 0, 0, 0, 0, 0, 0, 1)))
    );
    assert_eq!(parse_ip(&b"not an address".to_vec()), None);
}

#[test]
fn extract_plain_text_trims_whitespace() {
    let got = extract_text(&b" 203.0.113.7 \n".to_vec(), ExtractMethod::PlainText);
    assert_eq!(got, Some(b"203.0.113.7".to_vec()));
}

#[test]
fn extract_strip_double_quotes() {
    let got = extract_text(&b"\"203.0.113.7\"".to_vec(), ExtractMethod::StripDoubleQuotes);
    assert_eq!(got, Some(b"203.0.113.7".to_vec()));
    let got = extract_text(&b" \"203.0.113.7\"\t".to_vec(), ExtractMethod::StripDoubleQuotes);
    assert_eq!(got, Some(b"203.0.113.7".to_vec()));
    let got = extract_text(&b"\"\"".to_vec(), ExtractMethod::StripDoubleQuotes);
    assert_eq!(got, Some(Vec::new()));
}

#[test]
fn extract_json_ip_field() {
    let got = extract_text(&b"{\"ip\":\"203.0.113.7\"}".to_vec(), ExtractMethod::ExtractJsonIpField);
    assert_eq!(got, Some(b"203.0.113.7".to_vec()));
}

#[test]
fn extract_json_failures_are_addr_errors() {
    let r = extract_ip(&b"not json".to_vec(), ExtractMethod::ExtractJsonIpField);
    assert!(matches!(r, Err(public_ip::error::Error::Addr)));
    let r = extract_ip(&b"{\"ip\":7}".to_vec(), ExtractMethod::ExtractJsonIpField);
    assert!(matches!(r, Err(public_ip::error::Error::Addr)));
    let r = extract_ip(&b"{\"other\":\"203.0.113.7\"}".to_vec(), ExtractMethod::ExtractJsonIpField);
    assert!(matches!(r, Err(public_ip::error::Error::Addr)));
}

#[test]
fn extract_ip_parses_extracted_text() {
    let r = extract_ip(&b" 203.0.113.7 \n".to_vec(), ExtractMethod::PlainText);
    assert_eq!(r.unwrap(), IpAddress::V4(v4(203, 0, 113, 7)));
    let r = extract_ip(&b"\"::1\"".to_vec(), ExtractMethod::StripDoubleQuotes);
    assert_eq!(r.unwrap(), IpAddress::V6(Ipv6Address::new(0, 0, 0, 0, 0, 0, 0, 1)));
    let r = extract_ip(&b"no address here".to_vec(), ExtractMethod::PlainText);
    assert!(matches!(r, Err(public_ip::error::Error::Addr)));
}
