use public_ip::addr::{IpAddress, Ipv4Address, Ipv6Address, SocketAddress};
use public_ip::dns;
use public_ip::error::Error;
use public_ip::http;
use public_ip::{AnyResolver, Composite, Demand, Details, Resolver, Version};

fn v4(a: u8, b: u8, c: u8, d: u8) -> IpAddress {
    IpAddress::V4(Ipv4Address::new(a, b, c, d))
}

fn v6_loopback() -> IpAddress {
    IpAddress::V6(Ipv6Address::new(0, 0, 0, 0, 0, 0, 0, 1))
}

fn dns_config(servers: Vec<IpAddress>, method: dns::QueryMethod) -> dns::Resolver {
    dns::Resolver::new("example.com".to_owned(), servers, 53, method, dns::DnsClass::IN)
}

fn a_response(ip: Ipv4Address) -> dns::DnsResponse {
    dns::DnsResponse { answers: vec![dns::RecordData::A(ip)] }
}

#[test]
fn dns_fallback_yields_one_item_per_candidate() {
    let s1 = v4(192, 0, 2, 1);
    let s2 = v4(192, 0, 2, 2);
    let s3 = v4(192, 0, 2, 3);
    let resolver = dns_config(vec![s1, s2, s3], dns::QueryMethod::A);
    let mut seq = resolver.resolve(Version::Any);
    assert_eq!(seq.remaining(), 3);

    // First candidate fails at transport level.
    match seq.demand() {
        Demand::Dns(a) => {
            assert_eq!(a.server, s1);
            assert_eq!(a.name, "example.com");
            assert_eq!(a.port, 53);
        }
        d => panic!("unexpected demand: {d:?}"),
    }
    let item1 = seq.settle_dns(Err(dns::Error::Transport("timed out".to_owned())));
    assert!(matches!(item1, Err(Error::Dns(dns::Error::Transport(_)))));

    // Second candidate fails too.
    match seq.demand() {
        Demand::Dns(a) => assert_eq!(a.server, s2),
        d => panic!("unexpected demand: {d:?}"),
    }
    let item2 = seq.settle_dns(Err(dns::Error::NoResponse));
    assert!(matches!(item2, Err(Error::Dns(dns::Error::NoResponse))));

    // Third candidate succeeds.
    match seq.demand() {
        Demand::Dns(a) => assert_eq!(a.server, s3),
        d => panic!("unexpected demand: {d:?}"),
    }
    let item3 = seq.settle_dns(Ok(a_response(Ipv4Address::new(203, 0, 113, 7))));
    match item3 {
        Ok((ip, Details::Dns(details))) => {
            assert_eq!(ip, v4(203, 0, 113, 7));
            assert_eq!(details.name(), "example.com");
            assert_eq!(details.server(), SocketAddress { ip: s3, port: 53 });
            assert_eq!(details.query_method(), dns::QueryMethod::A);
        }
        other => panic!("unexpected item: {other:?}"),
    }

    // No fourth item is produced.
    assert!(matches!(seq.demand(), Demand::Done));
    assert_eq!(seq.remaining(), 0);
}

#[test]
fn version_preference_filters_candidates() {
    let four = v4(192, 0, 2, 1);
    let six = v6_loopback();
    let resolver = dns_config(vec![four, six], dns::QueryMethod::A);

    let seq = resolver.resolve(Version::V4);
    assert_eq!(seq.remaining(), 1);
    match seq.demand() {
        Demand::Dns(a) => assert_eq!(a.server, four),
        d => panic!("unexpected demand: {d:?}"),
    }

    let seq = resolver.resolve(Version::V6);
    assert_eq!(seq.remaining(), 1);
    match seq.demand() {
        Demand::Dns(a) => assert_eq!(a.server, six),
        d => panic!("unexpected demand: {d:?}"),
    }

    let seq = resolver.resolve(Version::Any);
    assert_eq!(seq.remaining(), 2);
}

#[test]
fn no_matching_candidate_means_empty_sequence() {
    let resolver = dns_config(vec![v6_loopback()], dns::QueryMethod::A);
    let seq = resolver.resolve(Version::V4);
    assert_eq!(seq.remaining(), 0);
    assert!(matches!(seq.demand(), Demand::Done));
}

#[test]
fn record_method_mismatch_is_dns_error() {
    let resolver = dns_config(vec![v4(192, 0, 2, 1)], dns::QueryMethod::A);
    let mut seq = resolver.resolve(Version::Any);
    let response = dns::DnsResponse {
        answers: vec![dns::RecordData::Aaaa(Ipv6Address::new(0, 0, 0, 0, 0, 0, 0, 1))],
    };
    let item = seq.settle_dns(Ok(response));
    assert!(matches!(item, Err(Error::Dns(dns::Error::InvalidResponse))));
}

#[test]
fn empty_answer_set_is_addr_error() {
    let resolver = dns_config(vec![v4(192, 0, 2, 1)], dns::QueryMethod::A);
    let mut seq = resolver.resolve(Version::Any);
    let item = seq.settle_dns(Ok(dns::DnsResponse { answers: Vec::new() }));
    assert!(matches!(item, Err(Error::Addr)));
}

#[test]
fn txt_record_is_decoded_and_parsed() {
    let resolver = dns_config(vec![v4(192, 0, 2, 1)], dns::QueryMethod::TXT);
    let mut seq = resolver.resolve(Version::Any);
    let response = dns::DnsResponse {
        answers: vec![dns::RecordData::Txt(vec![b"203.0.113.7".to_vec()])],
    };
    let item = seq.settle_dns(Ok(response));
    assert_eq!(item.unwrap().0, v4(203, 0, 113, 7));

    let mut seq = resolver.resolve(Version::Any);
    let response = dns::DnsResponse {
        answers: vec![dns::RecordData::Txt(vec![b"not an ip".to_vec()])],
    };
    assert!(matches!(seq.settle_dns(Ok(response)), Err(Error::Addr)));

    let mut seq = resolver.resolve(Version::Any);
    let response = dns::DnsResponse { answers: vec![dns::RecordData::Txt(Vec::new())] };
    assert!(matches!(seq.settle_dns(Ok(response)), Err(Error::Addr)));
}

#[test]
fn invalid_dns_name_yields_single_other_error() {
    let long_label = "a".repeat(64);
    let resolver = dns_config_named(&long_label);
    let mut seq = resolver.resolve(Version::Any);
    assert_eq!(seq.remaining(), 1);
    assert!(matches!(seq.demand(), Demand::Immediate));
    let item = seq.take_immediate();
    assert!(matches!(item, Err(Error::Other(_))));
    assert!(matches!(seq.demand(), Demand::Done));
}

fn dns_config_named(name: &str) -> dns::Resolver {
    dns::Resolver::new(
        name.to_owned(),
        vec![v4(192, 0, 2, 1)],
        53,
        dns::QueryMethod::A,
        dns::DnsClass::IN,
    )
}

#[test]
fn invalid_url_yields_single_http_error() {
    let resolver = http::Resolver::new_static("not a url at all", http::ExtractMethod::PlainText);
    let mut seq = resolver.resolve(Version::Any);
    assert_eq!(seq.remaining(), 1);
    assert!(matches!(seq.demand(), Demand::Immediate));
    let item = seq.take_immediate();
    assert!(matches!(item, Err(Error::Http(http::Error::Url(_)))));
    assert!(matches!(seq.demand(), Demand::Done));
}

#[test]
fn http_success_carries_provenance() {
    let resolver = http::Resolver::new_static("http://example.com/ip", http::ExtractMethod::PlainText);
    let mut seq = resolver.resolve(Version::V6);
    match seq.demand() {
        Demand::Http(a) => {
            assert_eq!(a.url, "http://example.com/ip");
            assert_eq!(a.method, http::ExtractMethod::PlainText);
            assert_eq!(a.version, Version::V6);
        }
        d => panic!("unexpected demand: {d:?}"),
    }
    let server = SocketAddress { ip: v4(198, 51, 100, 1), port: 80 };
    let response = http::HttpResponse { server: Some(server), body: b" ::1 ".to_vec() };
    match seq.settle_http(Ok(response)) {
        Ok((ip, Details::Http(details))) => {
            assert_eq!(ip, v6_loopback());
            assert_eq!(details.url(), "http://example.com/ip");
            assert_eq!(details.server(), Some(server));
            assert_eq!(details.extract_method(), http::ExtractMethod::PlainText);
        }
        other => panic!("unexpected item: {other:?}"),
    }
    assert!(matches!(seq.demand(), Demand::Done));
}

#[test]
fn http_client_failure_is_http_error() {
    let resolver = http::Resolver::new_static("http://example.com/ip", http::ExtractMethod::PlainText);
    let mut seq = resolver.resolve(Version::Any);
    let item = seq.settle_http(Err(http::Error::Client("connection refused".to_owned())));
    assert!(matches!(item, Err(Error::Http(http::Error::Client(_)))));
}

#[test]
fn composite_concatenates_member_sequences() {
    // Member A yields one error item (its URL does not parse); member B yields
    // one success item.
    let a = AnyResolver::Http(http::Resolver::new_static(
        "not a url at all",
        http::ExtractMethod::PlainText,
    ));
    let b = AnyResolver::Http(http::Resolver::new_static(
        "http://example.com/ip",
        http::ExtractMethod::PlainText,
    ));
    let composite = Composite::new(vec![a, b]);
    let mut seq = composite.resolve(Version::Any);
    assert_eq!(seq.remaining(), 2);

    assert!(matches!(seq.demand(), Demand::Immediate));
    let first = seq.take_immediate();
    assert!(matches!(first, Err(Error::Http(http::Error::Url(_)))));

    assert!(matches!(seq.demand(), Demand::Http(_)));
    let response = http::HttpResponse { server: None, body: b"203.0.113.7".to_vec() };
    let second = seq.settle_http(Ok(response));
    assert_eq!(second.unwrap().0, v4(203, 0, 113, 7));

    assert!(matches!(seq.demand(), Demand::Done));
}

#[test]
fn abandoning_after_first_item_performs_no_further_work() {
    let first = AnyResolver::Http(http::Resolver::new_static(
        "http://example.com/one",
        http::ExtractMethod::PlainText,
    ));
    let second = AnyResolver::Http(http::Resolver::new_static(
        "http://example.com/two",
        http::ExtractMethod::PlainText,
    ));
    let composite = Composite::new(vec![first, second]);
    let mut seq = composite.resolve(Version::Any);

    // The driver performs network work only for attempts the sequence demands
    // and it chooses to settle. Take the first item, then abandon.
    let mut actions_performed = 0;
    match seq.demand() {
        Demand::Http(a) => {
            assert_eq!(a.url, "http://example.com/one");
            actions_performed += 1;
            let response = http::HttpResponse { server: None, body: b"203.0.113.7".to_vec() };
            let item = seq.settle_http(Ok(response));
            assert!(item.is_ok());
        }
        d => panic!("unexpected demand: {d:?}"),
    }
    drop(seq);
    assert_eq!(actions_performed, 1);
}

#[test]
fn builtin_dns_catalogs_produce_expected_plans() {
    let seq = dns::opendns_v4().resolve(Version::Any);
    assert_eq!(seq.remaining(), 4);
    match seq.demand() {
        Demand::Dns(a) => {
            assert_eq!(a.name, "myip.opendns.com");
            assert_eq!(a.server, v4(208, 67, 222, 222));
            assert_eq!(a.port, 53);
            assert_eq!(a.method, dns::QueryMethod::A);
            assert_eq!(a.class, dns::DnsClass::IN);
        }
        d => panic!("unexpected demand: {d:?}"),
    }

    // Combined catalogs filter by family: the OpenDNS pair keeps only its
    // IPv6 candidates under a V6 preference.
    let seq = dns::opendns().resolve(Version::V6);
    assert_eq!(seq.remaining(), 2);
    match seq.demand() {
        Demand::Dns(a) => {
            assert_eq!(a.method, dns::QueryMethod::AAAA);
            assert_eq!(
                a.server,
                IpAddress::V6(Ipv6Address::new(0x2620, 0, 0xccc, 0, 0, 0, 0, 2))
            );
        }
        d => panic!("unexpected demand: {d:?}"),
    }

    let seq = dns::all().resolve(Version::Any);
    assert_eq!(seq.remaining(), 18);
}

#[test]
fn builtin_http_catalogs_produce_expected_plans() {
    let seq = http::all().resolve(Version::Any);
    assert_eq!(seq.remaining(), 5);
    match seq.demand() {
        Demand::Http(a) => {
            assert_eq!(a.url, "http://api.ipify.org");
            assert_eq!(a.method, http::ExtractMethod::PlainText);
        }
        d => panic!("unexpected demand: {d:?}"),
    }
    let seq = http::https().resolve(Version::Any);
    assert_eq!(seq.remaining(), 4);
}

#[test]
fn version_accepts_families() {
    assert!(Version::V4.accepts(v4(1, 2, 3, 4)));
    assert!(!Version::V4.accepts(v6_loopback()));
    assert!(Version::V6.accepts(v6_loopback()));
    assert!(!Version::V6.accepts(v4(1, 2, 3, 4)));
    assert!(Version::Any.accepts(v4(1, 2, 3, 4)));
    assert!(Version::Any.accepts(v6_loopback()));
}

#[test]
fn error_variants_exist_for_callers() {
    // `Version` is reserved for callers layering stricter version enforcement.
    let e = Error::Version;
    assert!(matches!(e, Error::Version));
    let e = Error::new("wrapped failure".to_owned());
    assert!(matches!(e, Error::Other(_)));
}
