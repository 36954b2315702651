//! DNS backend: configuration, the per-candidate attempt plan, and response
//! interpretation.

use vstd::prelude::*;

verus! {

use crate::addr::{IpAddress, Ipv4Address, Ipv6Address, SocketAddress, spec_parse_ip, parse_ip};
use crate::{Attempt, AttemptV, Resolutions, Version};

/// Method used to query an IP address from a DNS server.
#[derive(Clone, Copy, PartialEq, Eq, Structural, Debug)]
pub enum QueryMethod {
    /// The first queried `A` record is extracted as the IP address.
    A,
    /// The first queried `AAAA` record is extracted as the IP address.
    AAAA,
    /// The first `TXT` record is decoded and parsed as the IP address.
    TXT,
}

/// DNS query class.
#[derive(Clone, Copy, PartialEq, Eq, Structural, Debug)]
pub enum DnsClass {
    IN,
    CH,
}

/// A DNS-level failure for one attempt.
#[derive(Clone, Debug)]
pub enum Error {
    /// Transport or protocol failure reported by the DNS client.
    Transport(String),
    /// No response came back for the query.
    NoResponse,
    /// The first answer record does not fit the query method.
    InvalidResponse,
}

/// Mathematical image of a DNS error.
pub ghost enum ErrorV {
    Transport(Seq<char>),
    NoResponse,
    InvalidResponse,
}

impl View for Error {
    type V = ErrorV;

    open spec fn view(&self) -> ErrorV {
        match self {
            Error::Transport(m) => ErrorV::Transport(m@),
            Error::NoResponse => ErrorV::NoResponse,
            Error::InvalidResponse => ErrorV::InvalidResponse,
        }
    }
}

impl Error {
    /// An equal copy.
    pub fn duplicate(&self) -> (r: Error)
        ensures
            r@ == self@,
    {
        match self {
            Error::Transport(m) => Error::Transport(m.clone()),
            Error::NoResponse => Error::NoResponse,
            Error::InvalidResponse => Error::InvalidResponse,
        }
    }
}

/// The data of one answer record, as far as the engine reads it.
#[derive(Clone, Debug)]
pub enum RecordData {
    /// An IPv4 record.
    A(Ipv4Address),
    /// An IPv6 record.
    Aaaa(Ipv6Address),
    /// A text record: its character-string chunks.
    Txt(Vec<Vec<u8>>),
    /// Any other record type.
    Other,
}

pub ghost enum RecordDataV {
    A(Ipv4Address),
    Aaaa(Ipv6Address),
    Txt(Seq<Seq<u8>>),
    Other,
}

impl View for RecordData {
    type V = RecordDataV;

    open spec fn view(&self) -> RecordDataV {
        match self {
            RecordData::A(a) => RecordDataV::A(*a),
            RecordData::Aaaa(a) => RecordDataV::Aaaa(*a),
            RecordData::Txt(c) => RecordDataV::Txt(c.deep_view()),
            RecordData::Other => RecordDataV::Other,
        }
    }
}

/// A decoded DNS response: the answer records in order.
#[derive(Clone, Debug)]
pub struct DnsResponse {
    pub answers: Vec<RecordData>,
}

impl View for DnsResponse {
    type V = Seq<RecordDataV>;

    open spec fn view(&self) -> Seq<RecordDataV> {
        self.answers@.map_values(|r: RecordData| r@)
    }
}

/// Details produced from a DNS resolution.
#[derive(Clone, Debug)]
pub struct Details {
    name: String,
    server: SocketAddress,
    method: QueryMethod,
}

#[verifier::ext_equal]
pub ghost struct DetailsV {
    pub name: Seq<char>,
    pub server: SocketAddress,
    pub method: QueryMethod,
}

impl View for Details {
    type V = DetailsV;

    closed spec fn view(&self) -> DetailsV {
        DetailsV { name: self.name@, server: self.server, method: self.method }
    }
}

impl Details {
    pub(crate) fn make(name: String, server: SocketAddress, method: QueryMethod) -> (r: Details)
        ensures
            r@ == (DetailsV { name: name@, server, method }),
    {
        Details { name, server, method }
    }

    /// DNS name used in the resolution.
    pub fn name(&self) -> (r: &String)
        ensures
            r@ == self@.name,
    {
        &self.name
    }

    /// DNS server used in the resolution.
    pub fn server(&self) -> (r: SocketAddress)
        ensures
            r == self@.server,
    {
        self.server
    }

    /// The query method used in the resolution.
    pub fn query_method(&self) -> (r: QueryMethod)
        ensures
            r == self@.method,
    {
        self.method
    }
}

/// The interpretation of a response's answers under a query method: the first
/// answer decides. No answer at all means no usable address (`Addr`); a first
/// answer of the wrong record type is a DNS `InvalidResponse` error; a TXT
/// answer must have a first chunk that parses as an address text.
pub open spec fn spec_response_item(answers: Seq<RecordDataV>, method: QueryMethod) -> Result<
    IpAddress,
    crate::error::ErrorV,
> {
    if answers.len() == 0 {
        Err(crate::error::ErrorV::Addr)
    } else {
        match answers[0] {
            RecordDataV::A(a4) => if method is A {
                Ok(IpAddress::V4(a4))
            } else {
                Err(crate::error::ErrorV::Dns(ErrorV::InvalidResponse))
            },
            RecordDataV::Aaaa(a6) => if method is AAAA {
                Ok(IpAddress::V6(a6))
            } else {
                Err(crate::error::ErrorV::Dns(ErrorV::InvalidResponse))
            },
            RecordDataV::Txt(chunks) => if method is TXT {
                if chunks.len() == 0 {
                    Err(crate::error::ErrorV::Addr)
                } else {
                    match spec_parse_ip(chunks[0]) {
                        Some(ip) => Ok(ip),
                        None => Err(crate::error::ErrorV::Addr),
                    }
                }
            } else {
                Err(crate::error::ErrorV::Dns(ErrorV::InvalidResponse))
            },
            RecordDataV::Other => Err(crate::error::ErrorV::Dns(ErrorV::InvalidResponse)),
        }
    }
}

/// Interpret a decoded response under the configured query method.
pub fn response_item(resp: &DnsResponse, method: QueryMethod) -> (r: Result<
    IpAddress,
    crate::error::Error,
>)
    ensures
        match r {
            Ok(ip) => spec_response_item(resp@, method) == Ok::<IpAddress, crate::error::ErrorV>(ip),
            Err(e) => spec_response_item(resp@, method) == Err::<IpAddress, crate::error::ErrorV>(e@),
        },
{
    if resp.answers.len() == 0 {
        return Err(crate::error::Error::Addr);
    }
    match &resp.answers[0] {
        RecordData::A(a4) => {
            if matches!(method, QueryMethod::A) {
                Ok(IpAddress::V4(*a4))
            } else {
                Err(crate::error::Error::Dns(Error::InvalidResponse))
            }
        },
        RecordData::Aaaa(a6) => {
            if matches!(method, QueryMethod::AAAA) {
                Ok(IpAddress::V6(*a6))
            } else {
                Err(crate::error::Error::Dns(Error::InvalidResponse))
            }
        },
        RecordData::Txt(chunks) => {
            if matches!(method, QueryMethod::TXT) {
                if chunks.len() == 0 {
                    Err(crate::error::Error::Addr)
                } else {
                    assert(resp@[0]->Txt_0[0] == chunks@[0]@);
                    match parse_ip(&chunks[0]) {
                        Some(ip) => Ok(ip),
                        None => Err(crate::error::Error::Addr),
                    }
                }
            } else {
                Err(crate::error::Error::Dns(Error::InvalidResponse))
            }
        },
        RecordData::Other => Err(crate::error::Error::Dns(Error::InvalidResponse)),
    }
}

/// What `hickory_proto::rr::Name::from_ascii` decides for a name text: nothing
/// when the text parses as a DNS name, otherwise the parse error's display
/// text.
pub uninterp spec fn dns_name_error(s: Seq<char>) -> Option<Seq<char>>;

/// Relies on `hickory_proto::rr::Name::from_ascii` to validate the configured
/// name; acceptance and the error text are functions of the text alone.
#[verifier::external_body]
fn check_dns_name(s: &str) -> (r: Option<String>)
    ensures
        r is Some <==> dns_name_error(s@) is Some,
        r matches Some(m) ==> dns_name_error(s@) == Some(m@),
{
    match hickory_proto::rr::Name::from_ascii(s) {
        Ok(_) => None,
        Err(e) => Some(format!("{e}")),
    }
}

/// One planned query against one candidate server.
#[derive(Clone, Debug)]
pub struct DnsAttempt {
    pub name: String,
    pub server: IpAddress,
    pub port: u16,
    pub method: QueryMethod,
    pub class: DnsClass,
}

#[verifier::ext_equal]
pub ghost struct DnsAttemptV {
    pub name: Seq<char>,
    pub server: IpAddress,
    pub port: u16,
    pub method: QueryMethod,
    pub class: DnsClass,
}

impl View for DnsAttempt {
    type V = DnsAttemptV;

    open spec fn view(&self) -> DnsAttemptV {
        DnsAttemptV {
            name: self.name@,
            server: self.server,
            port: self.port,
            method: self.method,
            class: self.class,
        }
    }
}

/// Options to build a DNS resolver.
#[derive(Clone, Debug)]
pub struct Resolver {
    name: String,
    servers: Vec<IpAddress>,
    port: u16,
    method: QueryMethod,
    class: DnsClass,
}

#[verifier::ext_equal]
pub ghost struct ResolverV {
    pub name: Seq<char>,
    pub servers: Seq<IpAddress>,
    pub port: u16,
    pub method: QueryMethod,
    pub class: DnsClass,
}

impl View for Resolver {
    type V = ResolverV;

    closed spec fn view(&self) -> ResolverV {
        ResolverV {
            name: self.name@,
            servers: self.servers@,
            port: self.port,
            method: self.method,
            class: self.class,
        }
    }
}

impl Resolver {
    /// Create a new DNS resolver configuration.
    pub fn new(name: String, servers: Vec<IpAddress>, port: u16, method: QueryMethod, class:
        DnsClass) -> (r: Resolver)
        ensures
            r@ == (ResolverV { name: name@, servers: servers@, port, method, class }),
    {
        Resolver { name, servers, port, method, class }
    }

    /// Create a new DNS resolver configuration from borrowed options.
    pub fn new_static(name: &str, servers: &Vec<IpAddress>, port: u16, method: QueryMethod, class:
        DnsClass) -> (r: Resolver)
        ensures
            r@ == (ResolverV { name: name@, servers: servers@, port, method, class }),
    {
        let mut owned: Vec<IpAddress> = Vec::new();
        let mut i: usize = 0;
        while i < servers.len()
            invariant
                i <= servers.len(),
                owned@ =~= servers@.subrange(0, i as int),
            decreases servers.len() - i,
        {
            owned.push(servers[i]);
            proof {
                assert(owned@ =~= servers@.subrange(0, i + 1));
            }
            i += 1;
        }
        assert(owned@ =~= servers@);
        Resolver { name: name.to_owned(), servers: owned, port, method, class }
    }
}

/// The attempt plan of a DNS resolver for a version preference: one attempt
/// per configured server whose family the preference accepts, in configured
/// order; a name that does not parse yields a single failing item instead.
pub open spec fn dns_plan(cfg: ResolverV, version: Version) -> Seq<AttemptV> {
    match dns_name_error(cfg.name) {
        Some(msg) => seq![AttemptV::Fail(crate::error::ErrorV::Other(msg))],
        None => cfg.servers.filter(|a: IpAddress| version.spec_accepts(a)).map_values(
            |a: IpAddress| AttemptV::Dns(
                DnsAttemptV {
                    name: cfg.name,
                    server: a,
                    port: cfg.port,
                    method: cfg.method,
                    class: cfg.class,
                },
            ),
        ),
    }
}

/// Law: with a valid name, a DNS resolver's plan for a version preference
/// holds exactly one query attempt per configured server whose address family
/// the preference accepts, in configured order, and nothing else; every
/// attempt carries the configured name, port, method and class.
pub proof fn lemma_dns_plan_version_filter(cfg: ResolverV, version: Version)
    requires
        dns_name_error(cfg.name) is None,
    ensures
        dns_plan(cfg, version).len() == cfg.servers.filter(
            |a: IpAddress| version.spec_accepts(a),
        ).len(),
        forall|k: int|
            0 <= k < dns_plan(cfg, version).len() ==> #[trigger] dns_plan(cfg, version)[k]
                == AttemptV::Dns(
                DnsAttemptV {
                    name: cfg.name,
                    server: cfg.servers.filter(|a: IpAddress| version.spec_accepts(a))[k],
                    port: cfg.port,
                    method: cfg.method,
                    class: cfg.class,
                },
            ),
        forall|k: int|
            0 <= k < dns_plan(cfg, version).len() ==> version.spec_accepts(
                (#[trigger] dns_plan(cfg, version)[k])->Dns_0.server,
            ),
{
    let p = |a: IpAddress| version.spec_accepts(a);
    let f = cfg.servers.filter(p);
    assert forall|k: int| 0 <= k < f.len() implies p(f[k]) by {
        cfg.servers.lemma_filter_pred(p, k);
    }
}

proof fn lemma_filter_take_step<A>(s: Seq<A>, p: spec_fn(A) -> bool, i: int)
    requires
        0 <= i < s.len(),
    ensures
        s.take(i + 1).filter(p) == if p(s[i]) {
            s.take(i).filter(p).push(s[i])
        } else {
            s.take(i).filter(p)
        },
{
    reveal(Seq::filter);
    assert(s.take(i + 1).drop_last() =~= s.take(i));
    assert(s.take(i + 1).last() == s[i]);
}

impl crate::Resolver for Resolver {
    open spec fn plan(&self, version: Version) -> Seq<AttemptV> {
        dns_plan(self@, version)
    }

    fn resolve(&self, version: Version) -> (r: Resolutions) {
        match check_dns_name(self.name.as_str()) {
            Some(msg) => {
                let mut plan: Vec<Attempt> = Vec::new();
                plan.push(Attempt::Fail(crate::error::Error::Other(msg)));
                assert(plan@.map_values(|a: Attempt| a@) =~= dns_plan(self@, version));
                Resolutions { plan, pos: 0 }
            },
            None => {
                let ghost pred = |a: IpAddress| version.spec_accepts(a);
                let ghost f = |a: IpAddress| AttemptV::Dns(
                    DnsAttemptV {
                        name: self@.name,
                        server: a,
                        port: self@.port,
                        method: self@.method,
                        class: self@.class,
                    },
                );
                let mut plan: Vec<Attempt> = Vec::new();
                let mut i: usize = 0;
                proof {
                    assert(self@.servers.take(0).filter(pred) =~= Seq::<IpAddress>::empty());
                    reveal(Seq::filter);
                }
                while i < self.servers.len()
                    invariant
                        i <= self.servers.len(),
                        plan@.map_values(|a: Attempt| a@) =~= self@.servers.take(i as int).filter(
                            pred,
                        ).map_values(f),
                        pred == (|a: IpAddress| version.spec_accepts(a)),
                        f == (|a: IpAddress| AttemptV::Dns(
                            DnsAttemptV {
                                name: self@.name,
                                server: a,
                                port: self@.port,
                                method: self@.method,
                                class: self@.class,
                            },
                        )),
                    decreases self.servers.len() - i,
                {
                    let s = self.servers[i];
                    let ghost prev = plan@;
                    let ghost x0 = self@.servers.take(i as int).filter(pred);
                    let ghost x1 = self@.servers.take(i + 1).filter(pred);
                    proof {
                        lemma_filter_take_step(self@.servers, pred, i as int);
                    }
                    if version.accepts(s) {
                        plan.push(
                            Attempt::Dns(
                                DnsAttempt {
                                    name: self.name.clone(),
                                    server: s,
                                    port: self.port,
                                    method: self.method,
                                    class: self.class,
                                },
                            ),
                        );
                        proof {
                            assert(pred(s));
                            assert(x1 == x0.push(s));
                            assert(plan@ == prev.push(plan@.last()));
                            assert(plan@.last()@ == f(s));
                            assert(prev.map_values(|a: Attempt| a@).len() == prev.len());
                            assert(x0.map_values(f).len() == x0.len());
                            assert(prev.len() == x0.len());
                            assert forall|k: int| 0 <= k < plan@.len() implies plan@.map_values(
                                |a: Attempt| a@,
                            )[k] == x1.map_values(f)[k] by {
                                if k < prev.len() {
                                    assert(prev.map_values(|a: Attempt| a@)[k] == x0.map_values(
                                        f,
                                    )[k]);
                                    assert(plan@[k] == prev[k]);
                                    assert(x1[k] == x0.push(s)[k]);
                                } else {
                                    assert(plan@[k] == plan@.last());
                                    assert(x1[k] == x0.push(s)[k]);
                                }
                            }
                            assert(plan@.map_values(|a: Attempt| a@) =~= x1.map_values(f));
                        }
                    } else {
                        proof {
                            assert(!pred(s));
                            assert(x1 == x0);
                        }
                    }
                    proof {
                        assert(plan@.map_values(|a: Attempt| a@) =~= self@.servers.take(
                            i + 1,
                        ).filter(pred).map_values(f));
                    }
                    i += 1;
                }
                proof {
                    assert(self@.servers.take(self.servers.len() as int) =~= self@.servers);
                    assert(plan@.map_values(|a: Attempt| a@) =~= dns_plan(self@, version));
                }
                Resolutions { plan, pos: 0 }
            },
        }
    }
}


// ---------------------------------------------------------------------------
// Built-in catalogs

/// OpenDNS IPv4 resolver configuration.
pub open spec fn opendns_v4_config() -> ResolverV {
    ResolverV {
        name: "myip.opendns.com"@,
        servers: seq![
            IpAddress::V4(Ipv4Address { a: 208, b: 67, c: 222, d: 222 }),
            IpAddress::V4(Ipv4Address { a: 208, b: 67, c: 220, d: 220 }),
            IpAddress::V4(Ipv4Address { a: 208, b: 67, c: 222, d: 220 }),
            IpAddress::V4(Ipv4Address { a: 208, b: 67, c: 220, d: 222 }),
        ],
        port: 53,
        method: QueryMethod::A,
        class: DnsClass::IN,
    }
}

/// OpenDNS IPv6 resolver configuration.
pub open spec fn opendns_v6_config() -> ResolverV {
    ResolverV {
        name: "myip.opendns.com"@,
        servers: seq![
            IpAddress::V6(
                Ipv6Address { g0: 0x2620, g1: 0, g2: 0xccc, g3: 0, g4: 0, g5: 0, g6: 0, g7: 2 },
            ),
            IpAddress::V6(
                Ipv6Address { g0: 0x2620, g1: 0, g2: 0xccd, g3: 0, g4: 0, g5: 0, g6: 0, g7: 2 },
            ),
        ],
        port: 53,
        method: QueryMethod::AAAA,
        class: DnsClass::IN,
    }
}

/// Google DNS IPv4 resolver configuration.
pub open spec fn google_v4_config() -> ResolverV {
    ResolverV {
        name: "o-o.myaddr.l.google.com"@,
        servers: seq![
            IpAddress::V4(Ipv4Address { a: 216, b: 239, c: 32, d: 10 }),
            IpAddress::V4(Ipv4Address { a: 216, b: 239, c: 34, d: 10 }),
            IpAddress::V4(Ipv4Address { a: 216, b: 239, c: 36, d: 10 }),
            IpAddress::V4(Ipv4Address { a: 216, b: 239, c: 38, d: 10 }),
        ],
        port: 53,
        method: QueryMethod::TXT,
        class: DnsClass::IN,
    }
}

/// Google DNS IPv6 resolver configuration.
pub open spec fn google_v6_config() -> ResolverV {
    ResolverV {
        name: "o-o.myaddr.l.google.com"@,
        servers: seq![
            IpAddress::V6(
                Ipv6Address {
                    g0: 0x2001,
                    g1: 0x4860,
                    g2: 0x4802,
                    g3: 0x32,
                    g4: 0,
                    g5: 0,
                    g6: 0,
                    g7: 0xa,
                },
            ),
            IpAddress::V6(
                Ipv6Address {
                    g0: 0x2001,
                    g1: 0x4860,
                    g2: 0x4802,
                    g3: 0x34,
                    g4: 0,
                    g5: 0,
                    g6: 0,
                    g7: 0xa,
                },
            ),
            IpAddress::V6(
                Ipv6Address {
                    g0: 0x2001,
                    g1: 0x4860,
                    g2: 0x4802,
                    g3: 0x36,
                    g4: 0,
                    g5: 0,
                    g6: 0,
                    g7: 0xa,
                },
            ),
            IpAddress::V6(
                Ipv6Address {
                    g0: 0x2001,
                    g1: 0x4860,
                    g2: 0x4802,
                    g3: 0x38,
                    g4: 0,
                    g5: 0,
                    g6: 0,
                    g7: 0xa,
                },
            ),
        ],
        port: 53,
        method: QueryMethod::TXT,
        class: DnsClass::IN,
    }
}

/// Cloudflare DNS IPv4 resolver configuration.
pub open spec fn cloudflare_v4_config() -> ResolverV {
    ResolverV {
        name: "whoami.cloudflare"@,
        servers: seq![
            IpAddress::V4(Ipv4Address { a: 1, b: 1, c: 1, d: 1 }),
            IpAddress::V4(Ipv4Address { a: 1, b: 0, c: 0, d: 1 }),
        ],
        port: 53,
        method: QueryMethod::TXT,
        class: DnsClass::CH,
    }
}

/// Cloudflare DNS IPv6 resolver configuration.
pub open spec fn cloudflare_v6_config() -> ResolverV {
    ResolverV {
        name: "whoami.cloudflare"@,
        servers: seq![
            IpAddress::V6(
                Ipv6Address {
                    g0: 0x2606,
                    g1: 0x4700,
                    g2: 0x4700,
                    g3: 0,
                    g4: 0,
                    g5: 0,
                    g6: 0,
                    g7: 0x1111,
                },
            ),
            IpAddress::V6(
                Ipv6Address {
                    g0: 0x2606,
                    g1: 0x4700,
                    g2: 0x4700,
                    g3: 0,
                    g4: 0,
                    g5: 0,
                    g6: 0,
                    g7: 0x1001,
                },
            ),
        ],
        port: 53,
        method: QueryMethod::TXT,
        class: DnsClass::CH,
    }
}

/// OpenDNS IPv4 resolver options.
pub fn opendns_v4() -> (r: Resolver)
    ensures
        r@ == opendns_v4_config(),
{
    let mut servers: Vec<IpAddress> = Vec::new();
    servers.push(IpAddress::V4(Ipv4Address::new(208, 67, 222, 222)));
    servers.push(IpAddress::V4(Ipv4Address::new(208, 67, 220, 220)));
    servers.push(IpAddress::V4(Ipv4Address::new(208, 67, 222, 220)));
    servers.push(IpAddress::V4(Ipv4Address::new(208, 67, 220, 222)));
    assert(servers@ =~= opendns_v4_config().servers);
    let r = Resolver::new("myip.opendns.com".to_owned(), servers, 53, QueryMethod::A, DnsClass::IN);
    assert(r@ =~= opendns_v4_config());
    r
}

/// OpenDNS IPv6 resolver options.
pub fn opendns_v6() -> (r: Resolver)
    ensures
        r@ == opendns_v6_config(),
{
    let mut servers: Vec<IpAddress> = Vec::new();
    servers.push(IpAddress::V6(Ipv6Address::new(0x2620, 0, 0xccc, 0, 0, 0, 0, 2)));
    servers.push(IpAddress::V6(Ipv6Address::new(0x2620, 0, 0xccd, 0, 0, 0, 0, 2)));
    assert(servers@ =~= opendns_v6_config().servers);
    let r = Resolver::new(
        "myip.opendns.com".to_owned(),
        servers,
        53,
        QueryMethod::AAAA,
        DnsClass::IN,
    );
    assert(r@ =~= opendns_v6_config());
    r
}

/// Google DNS IPv4 resolver options.
pub fn google_v4() -> (r: Resolver)
    ensures
        r@ == google_v4_config(),
{
    let mut servers: Vec<IpAddress> = Vec::new();
    servers.push(IpAddress::V4(Ipv4Address::new(216, 239, 32, 10)));
    servers.push(IpAddress::V4(Ipv4Address::new(216, 239, 34, 10)));
    servers.push(IpAddress::V4(Ipv4Address::new(216, 239, 36, 10)));
    servers.push(IpAddress::V4(Ipv4Address::new(216, 239, 38, 10)));
    assert(servers@ =~= google_v4_config().servers);
    let r = Resolver::new(
        "o-o.myaddr.l.google.com".to_owned(),
        servers,
        53,
        QueryMethod::TXT,
        DnsClass::IN,
    );
    assert(r@ =~= google_v4_config());
    r
}

/// Google DNS IPv6 resolver options.
pub fn google_v6() -> (r: Resolver)
    ensures
        r@ == google_v6_config(),
{
    let mut servers: Vec<IpAddress> = Vec::new();
    servers.push(IpAddress::V6(Ipv6Address::new(0x2001, 0x4860, 0x4802, 0x32, 0, 0, 0, 0xa)));
    servers.push(IpAddress::V6(Ipv6Address::new(0x2001, 0x4860, 0x4802, 0x34, 0, 0, 0, 0xa)));
    servers.push(IpAddress::V6(Ipv6Address::new(0x2001, 0x4860, 0x4802, 0x36, 0, 0, 0, 0xa)));
    servers.push(IpAddress::V6(Ipv6Address::new(0x2001, 0x4860, 0x4802, 0x38, 0, 0, 0, 0xa)));
    assert(servers@ =~= google_v6_config().servers);
    let r = Resolver::new(
        "o-o.myaddr.l.google.com".to_owned(),
        servers,
        53,
        QueryMethod::TXT,
        DnsClass::IN,
    );
    assert(r@ =~= google_v6_config());
    r
}

/// Cloudflare DNS IPv4 resolver options.
pub fn cloudflare_v4() -> (r: Resolver)
    ensures
        r@ == cloudflare_v4_config(),
{
    let mut servers: Vec<IpAddress> = Vec::new();
    servers.push(IpAddress::V4(Ipv4Address::new(1, 1, 1, 1)));
    servers.push(IpAddress::V4(Ipv4Address::new(1, 0, 0, 1)));
    assert(servers@ =~= cloudflare_v4_config().servers);
    let r = Resolver::new(
        "whoami.cloudflare".to_owned(),
        servers,
        53,
        QueryMethod::TXT,
        DnsClass::CH,
    );
    assert(r@ =~= cloudflare_v4_config());
    r
}

/// Cloudflare DNS IPv6 resolver options.
pub fn cloudflare_v6() -> (r: Resolver)
    ensures
        r@ == cloudflare_v6_config(),
{
    let mut servers: Vec<IpAddress> = Vec::new();
    servers.push(IpAddress::V6(Ipv6Address::new(0x2606, 0x4700, 0x4700, 0, 0, 0, 0, 0x1111)));
    servers.push(IpAddress::V6(Ipv6Address::new(0x2606, 0x4700, 0x4700, 0, 0, 0, 0, 0x1001)));
    assert(servers@ =~= cloudflare_v6_config().servers);
    let r = Resolver::new(
        "whoami.cloudflare".to_owned(),
        servers,
        53,
        QueryMethod::TXT,
        DnsClass::CH,
    );
    assert(r@ =~= cloudflare_v6_config());
    r
}

/// Combined OpenDNS IPv4 and IPv6 options.
pub fn opendns() -> (r: crate::Composite)
    ensures
        r.members@.len() == 2,
        r.members@[0] matches crate::AnyResolver::Dns(c) && c@ == opendns_v4_config(),
        r.members@[1] matches crate::AnyResolver::Dns(c) && c@ == opendns_v6_config(),
{
    let mut members: Vec<crate::AnyResolver> = Vec::new();
    members.push(crate::AnyResolver::Dns(opendns_v4()));
    members.push(crate::AnyResolver::Dns(opendns_v6()));
    crate::Composite::new(members)
}

/// Combined Google DNS IPv4 and IPv6 options.
pub fn google() -> (r: crate::Composite)
    ensures
        r.members@.len() == 2,
        r.members@[0] matches crate::AnyResolver::Dns(c) && c@ == google_v4_config(),
        r.members@[1] matches crate::AnyResolver::Dns(c) && c@ == google_v6_config(),
{
    let mut members: Vec<crate::AnyResolver> = Vec::new();
    members.push(crate::AnyResolver::Dns(google_v4()));
    members.push(crate::AnyResolver::Dns(google_v6()));
    crate::Composite::new(members)
}

/// Combined Cloudflare DNS IPv4 and IPv6 options.
pub fn cloudflare() -> (r: crate::Composite)
    ensures
        r.members@.len() == 2,
        r.members@[0] matches crate::AnyResolver::Dns(c) && c@ == cloudflare_v4_config(),
        r.members@[1] matches crate::AnyResolver::Dns(c) && c@ == cloudflare_v6_config(),
{
    let mut members: Vec<crate::AnyResolver> = Vec::new();
    members.push(crate::AnyResolver::Dns(cloudflare_v4()));
    members.push(crate::AnyResolver::Dns(cloudflare_v6()));
    crate::Composite::new(members)
}

/// All built-in DNS resolvers, grouped by provider, IPv4 before IPv6.
pub fn all() -> (r: crate::Composite)
    ensures
        r.members@.len() == 6,
        r.members@[0] matches crate::AnyResolver::Dns(c) && c@ == opendns_v4_config(),
        r.members@[1] matches crate::AnyResolver::Dns(c) && c@ == opendns_v6_config(),
        r.members@[2] matches crate::AnyResolver::Dns(c) && c@ == google_v4_config(),
        r.members@[3] matches crate::AnyResolver::Dns(c) && c@ == google_v6_config(),
        r.members@[4] matches crate::AnyResolver::Dns(c) && c@ == cloudflare_v4_config(),
        r.members@[5] matches crate::AnyResolver::Dns(c) && c@ == cloudflare_v6_config(),
{
    let mut members: Vec<crate::AnyResolver> = Vec::new();
    members.push(crate::AnyResolver::Dns(opendns_v4()));
    members.push(crate::AnyResolver::Dns(opendns_v6()));
    members.push(crate::AnyResolver::Dns(google_v4()));
    members.push(crate::AnyResolver::Dns(google_v6()));
    members.push(crate::AnyResolver::Dns(cloudflare_v4()));
    members.push(crate::AnyResolver::Dns(cloudflare_v6()));
    crate::Composite::new(members)
}

} // verus!
