//! A public-IP resolution engine.
//!
//! A resolver, configured for a DNS or HTTP backend or composed from other
//! resolvers, turns a requested IP-version preference into a finite,
//! demand-driven sequence of resolution attempts. Each attempt yields either
//! an address with provenance details or a typed error. The engine decides
//! everything except the network I/O itself: a driver performs the action the
//! sequence currently demands and hands the outcome back, and abandoning the
//! sequence simply stops demanding.

use vstd::prelude::*;

pub mod addr;
pub mod dns;
pub mod error;
pub mod http;

verus! {

use crate::addr::{IpAddress, SocketAddress};
use crate::error::{Error, ErrorV};

/// The caller's constraint on which IP address family is acceptable.
#[derive(Clone, Copy, PartialEq, Eq, Structural, Debug)]
pub enum Version {
    V4,
    V6,
    Any,
}

impl Version {
    /// Whether an address satisfies this preference.
    pub open spec fn spec_accepts(self, addr: IpAddress) -> bool {
        match self {
            Version::V4 => addr is V4,
            Version::V6 => addr is V6,
            Version::Any => true,
        }
    }

    /// Whether an address satisfies this preference.
    pub fn accepts(&self, addr: IpAddress) -> (r: bool)
        ensures
            r == self.spec_accepts(addr),
    {
        match self {
            Version::V4 => addr.is_v4(),
            Version::V6 => addr.is_v6(),
            Version::Any => true,
        }
    }
}

/// Provenance of a successful resolution: which backend produced it and the
/// details of that query.
#[derive(Clone, Debug)]
pub enum Details {
    Dns(dns::Details),
    Http(http::Details),
}

pub ghost enum DetailsV {
    Dns(dns::DetailsV),
    Http(http::DetailsV),
}

impl View for Details {
    type V = DetailsV;

    open spec fn view(&self) -> DetailsV {
        match self {
            Details::Dns(d) => DetailsV::Dns(d@),
            Details::Http(d) => DetailsV::Http(d@),
        }
    }
}

/// One planned unit of a resolution sequence.
#[derive(Clone, Debug)]
pub enum Attempt {
    /// Query one DNS candidate server.
    Dns(dns::DnsAttempt),
    /// Issue one GET against the configured URL.
    Http(http::HttpAttempt),
    /// Yield this error without any outside work: a configuration text did not
    /// validate.
    Fail(Error),
}

pub ghost enum AttemptV {
    Dns(dns::DnsAttemptV),
    Http(http::HttpAttemptV),
    Fail(ErrorV),
}

impl View for Attempt {
    type V = AttemptV;

    open spec fn view(&self) -> AttemptV {
        match self {
            Attempt::Dns(a) => AttemptV::Dns(a@),
            Attempt::Http(a) => AttemptV::Http(a@),
            Attempt::Fail(e) => AttemptV::Fail(e@),
        }
    }
}

/// What a resolution sequence currently asks of its driver.
#[derive(Clone, Debug)]
pub enum Demand {
    /// The sequence has ended; no further item will be produced.
    Done,
    /// The next item needs no outside work; take it with `take_immediate`.
    Immediate,
    /// Perform this DNS query and hand the outcome to `settle_dns`.
    Dns(dns::DnsAttempt),
    /// Perform this GET and hand the outcome to `settle_http`.
    Http(http::HttpAttempt),
}

/// One item of a resolution sequence.
pub type Resolution = Result<(IpAddress, Details), Error>;

/// Mathematical image of one item.
pub open spec fn item_view(item: Resolution) -> Result<(IpAddress, DetailsV), ErrorV> {
    match item {
        Ok((ip, d)) => Ok((ip, d@)),
        Err(e) => Err(e@),
    }
}

/// The item a DNS attempt yields for a given outcome: a transport-level
/// failure is surfaced as a `Dns` error; a response is interpreted under the
/// query method, and success carries the attempt's provenance.
pub open spec fn spec_dns_item(a: dns::DnsAttemptV, outcome: Result<
    Seq<dns::RecordDataV>,
    dns::ErrorV,
>) -> Result<(IpAddress, DetailsV), ErrorV> {
    match outcome {
        Err(e) => Err(ErrorV::Dns(e)),
        Ok(answers) => match dns::spec_response_item(answers, a.method) {
            Ok(ip) => Ok(
                (
                    ip,
                    DetailsV::Dns(
                        dns::DetailsV {
                            name: a.name,
                            server: SocketAddress { ip: a.server, port: a.port },
                            method: a.method,
                        },
                    ),
                ),
            ),
            Err(e) => Err(e),
        },
    }
}

/// The item an HTTP attempt yields for a given outcome: a client failure is
/// surfaced as an `Http` error; a response body is extracted under the
/// configured method, and success carries the attempt's provenance.
pub open spec fn spec_http_item(a: http::HttpAttemptV, outcome: Result<
    http::HttpResponseV,
    http::ErrorV,
>) -> Result<(IpAddress, DetailsV), ErrorV> {
    match outcome {
        Err(e) => Err(ErrorV::Http(e)),
        Ok(resp) => match http::spec_extract_ip(resp.body, a.method) {
            Ok(ip) => Ok(
                (
                    ip,
                    DetailsV::Http(
                        http::DetailsV { url: a.url, server: resp.server, method: a.method },
                    ),
                ),
            ),
            Err(e) => Err(e),
        },
    }
}

/// A lazily-consumed resolution sequence: the fixed plan of attempts and the
/// position of the next one. Advancing consumes at most one attempt; nothing
/// is done for attempts never demanded.
#[derive(Debug)]
pub struct Resolutions {
    pub plan: Vec<Attempt>,
    pub pos: usize,
}

impl Resolutions {
    /// The planned attempts, in order.
    pub open spec fn plan_view(&self) -> Seq<AttemptV> {
        self.plan@.map_values(|a: Attempt| a@)
    }

    /// The index of the next attempt to consume.
    pub open spec fn pos_view(&self) -> int {
        self.pos as int
    }

    /// How many items remain.
    pub fn remaining(&self) -> (n: usize)
        ensures
            n == if self.pos_view() >= self.plan_view().len() {
                0
            } else {
                self.plan_view().len() - self.pos_view()
            },
    {
        if self.pos >= self.plan.len() {
            0
        } else {
            self.plan.len() - self.pos
        }
    }

    /// What must happen to produce the next item: nothing (the sequence
    /// ended), an immediate error item, or one network action for the driver.
    pub fn demand(&self) -> (d: Demand)
        ensures
            ({
                let p = self.plan_view();
                let i = self.pos_view();
                if i >= p.len() {
                    d is Done
                } else {
                    match p[i] {
                        AttemptV::Fail(_) => d is Immediate,
                        AttemptV::Dns(a) => d matches Demand::Dns(x) && x@ == a,
                        AttemptV::Http(a) => d matches Demand::Http(x) && x@ == a,
                    }
                }
            }),
    {
        if self.pos >= self.plan.len() {
            return Demand::Done;
        }
        match &self.plan[self.pos] {
            Attempt::Fail(_) => Demand::Immediate,
            Attempt::Dns(a) => Demand::Dns(
                dns::DnsAttempt {
                    name: a.name.clone(),
                    server: a.server,
                    port: a.port,
                    method: a.method,
                    class: a.class,
                },
            ),
            Attempt::Http(a) => Demand::Http(
                http::HttpAttempt { url: a.url.clone(), method: a.method, version: a.version },
            ),
        }
    }

    /// Consume a failing attempt that needs no outside work: yields exactly
    /// the recorded error and advances by one.
    pub fn take_immediate(&mut self) -> (item: Resolution)
        requires
            old(self).pos_view() < old(self).plan_view().len(),
            old(self).plan_view()[old(self).pos_view()] is Fail,
        ensures
            final(self).plan_view() == old(self).plan_view(),
            final(self).pos_view() == old(self).pos_view() + 1,
            item_view(item) == Err::<(IpAddress, DetailsV), ErrorV>(
                old(self).plan_view()[old(self).pos_view()]->Fail_0,
            ),
    {
        let item = match &self.plan[self.pos] {
            Attempt::Fail(e) => Err(e.duplicate()),
            _ => {
                assert(false);
                Err(Error::Addr)
            },
        };
        let n = self.plan.len();
        assert(self.pos < n);
        self.pos += 1;
        item
    }

    /// Consume a DNS attempt with the outcome the driver obtained for it:
    /// yields the item `spec_dns_item` defines and advances by one.
    pub fn settle_dns(&mut self, outcome: Result<dns::DnsResponse, dns::Error>) -> (item:
        Resolution)
        requires
            old(self).pos_view() < old(self).plan_view().len(),
            old(self).plan_view()[old(self).pos_view()] is Dns,
        ensures
            final(self).plan_view() == old(self).plan_view(),
            final(self).pos_view() == old(self).pos_view() + 1,
            item_view(item) == spec_dns_item(
                old(self).plan_view()[old(self).pos_view()]->Dns_0,
                match outcome {
                    Ok(resp) => Ok(resp@),
                    Err(e) => Err(e@),
                },
            ),
    {
        let item = match &self.plan[self.pos] {
            Attempt::Dns(a) => match outcome {
                Err(e) => Err(Error::Dns(e)),
                Ok(resp) => match dns::response_item(&resp, a.method) {
                    Ok(ip) => Ok(
                        (
                            ip,
                            Details::Dns(
                                dns::Details::make(
                                    a.name.clone(),
                                    SocketAddress { ip: a.server, port: a.port },
                                    a.method,
                                ),
                            ),
                        ),
                    ),
                    Err(e) => Err(e),
                },
            },
            _ => {
                assert(false);
                Err(Error::Addr)
            },
        };
        let n = self.plan.len();
        assert(self.pos < n);
        self.pos += 1;
        item
    }

    /// Consume an HTTP attempt with the outcome the driver obtained for it:
    /// yields the item `spec_http_item` defines and advances by one.
    pub fn settle_http(&mut self, outcome: Result<http::HttpResponse, http::Error>) -> (item:
        Resolution)
        requires
            old(self).pos_view() < old(self).plan_view().len(),
            old(self).plan_view()[old(self).pos_view()] is Http,
        ensures
            final(self).plan_view() == old(self).plan_view(),
            final(self).pos_view() == old(self).pos_view() + 1,
            item_view(item) == spec_http_item(
                old(self).plan_view()[old(self).pos_view()]->Http_0,
                match outcome {
                    Ok(resp) => Ok(resp@),
                    Err(e) => Err(e@),
                },
            ),
    {
        let item = match &self.plan[self.pos] {
            Attempt::Http(a) => match outcome {
                Err(e) => Err(Error::Http(e)),
                Ok(resp) => match http::extract_ip(&resp.body, a.method) {
                    Ok(ip) => Ok(
                        (
                            ip,
                            Details::Http(
                                http::Details::make(a.url.clone(), resp.server, a.method),
                            ),
                        ),
                    ),
                    Err(e) => Err(e),
                },
            },
            _ => {
                assert(false);
                Err(Error::Addr)
            },
        };
        let n = self.plan.len();
        assert(self.pos < n);
        self.pos += 1;
        item
    }
}

/// The resolver capability: given a version preference, produce the resolution
/// sequence. Producing it performs no outside work; the plan is decided
/// entirely by the configuration and the preference.
pub trait Resolver {
    /// The attempt sequence this resolver produces for a version preference.
    spec fn plan(&self, version: Version) -> Seq<AttemptV>;

    /// Produce the resolution sequence, positioned at its first item.
    fn resolve(&self, version: Version) -> (r: Resolutions)
        ensures
            r.plan_view() == self.plan(version),
            r.pos_view() == 0,
    ;
}

/// A single backend of either kind.
#[derive(Clone, Debug)]
pub enum AnyResolver {
    Dns(dns::Resolver),
    Http(http::Resolver),
}

impl Resolver for AnyResolver {
    open spec fn plan(&self, version: Version) -> Seq<AttemptV> {
        match self {
            AnyResolver::Dns(r) => dns::dns_plan(r@, version),
            AnyResolver::Http(r) => http::http_plan(r@, version),
        }
    }

    fn resolve(&self, version: Version) -> (r: Resolutions) {
        match self {
            AnyResolver::Dns(r) => r.resolve(version),
            AnyResolver::Http(r) => r.resolve(version),
        }
    }
}

/// The plan of an ordered collection of resolvers: the concatenation of the
/// members' plans, in collection order.
pub open spec fn seq_plan(ms: Seq<AnyResolver>, version: Version) -> Seq<AttemptV>
    decreases ms.len(),
{
    if ms.len() == 0 {
        Seq::empty()
    } else {
        ms[0].plan(version) + seq_plan(ms.drop_first(), version)
    }
}

proof fn lemma_seq_plan_push(ms: Seq<AnyResolver>, x: AnyResolver, version: Version)
    ensures
        seq_plan(ms.push(x), version) == seq_plan(ms, version) + x.plan(version),
    decreases ms.len(),
{
    if ms.len() == 0 {
        assert(ms.push(x)[0] == x);
        assert(ms.push(x).drop_first() =~= Seq::<AnyResolver>::empty());
        assert(seq_plan(ms.push(x), version) == ms.push(x)[0].plan(version) + seq_plan(
            ms.push(x).drop_first(),
            version,
        ));
        assert(seq_plan(Seq::<AnyResolver>::empty(), version) == Seq::<AttemptV>::empty());
        assert(seq_plan(ms, version) == Seq::<AttemptV>::empty());
        assert(seq_plan(ms.push(x), version) =~= seq_plan(ms, version) + x.plan(version));
    } else {
        assert(ms.push(x).drop_first() =~= ms.drop_first().push(x));
        lemma_seq_plan_push(ms.drop_first(), x, version);
        assert(ms.push(x)[0] == ms[0]);
        assert(seq_plan(ms.push(x), version) == ms[0].plan(version) + seq_plan(
            ms.drop_first().push(x),
            version,
        ));
        assert(seq_plan(ms, version) == ms[0].plan(version) + seq_plan(ms.drop_first(), version));
        assert(seq_plan(ms.push(x), version) =~= seq_plan(ms, version) + x.plan(version));
    }
}

/// Law: composition concatenates. The plan of a collection split anywhere is
/// the plan of the first part followed by the plan of the second.
pub proof fn lemma_seq_plan_concat(ms1: Seq<AnyResolver>, ms2: Seq<AnyResolver>, version: Version)
    ensures
        seq_plan(ms1 + ms2, version) == seq_plan(ms1, version) + seq_plan(ms2, version),
    decreases ms2.len(),
{
    if ms2.len() == 0 {
        assert(ms1 + ms2 =~= ms1);
        assert(seq_plan(ms1, version) + seq_plan(ms2, version) =~= seq_plan(ms1, version));
    } else {
        lemma_seq_plan_concat(ms1.push(ms2[0]), ms2.drop_first(), version);
        lemma_seq_plan_push(ms1, ms2[0], version);
        assert(ms1.push(ms2[0]) + ms2.drop_first() =~= ms1 + ms2);
        assert(seq_plan(ms1 + ms2, version) =~= seq_plan(ms1, version) + seq_plan(ms2, version));
    }
}

/// Law: a composite of two resolvers yields exactly the first member's
/// attempts followed by the second member's, in order.
pub proof fn lemma_composite_pair(a: AnyResolver, b: AnyResolver, version: Version)
    ensures
        seq_plan(seq![a, b], version) == a.plan(version) + b.plan(version),
{
    let s2 = seq![a, b];
    let s1 = seq![b];
    let s0 = Seq::<AnyResolver>::empty();
    assert(s2.drop_first() =~= s1);
    assert(s1.drop_first() =~= s0);
    assert(s2[0] == a && s1[0] == b);
    assert(seq_plan(s0, version) == Seq::<AttemptV>::empty());
    assert(seq_plan(s1, version) == b.plan(version) + seq_plan(s0, version));
    assert(seq_plan(s1, version) =~= b.plan(version));
    assert(seq_plan(s2, version) == a.plan(version) + seq_plan(s1, version));
    assert(seq_plan(seq![a, b], version) =~= a.plan(version) + b.plan(version));
}

/// An ordered collection of resolvers, itself a resolver: its sequence is the
/// concatenation of its members' sequences for the same version preference.
/// No member is skipped based on prior members' outcomes.
#[derive(Clone, Debug)]
pub struct Composite {
    pub members: Vec<AnyResolver>,
}

impl Composite {
    /// Create a composite from its members, in order.
    pub fn new(members: Vec<AnyResolver>) -> (r: Composite)
        ensures
            r.members@ == members@,
    {
        Composite { members }
    }
}

impl Resolver for Composite {
    open spec fn plan(&self, version: Version) -> Seq<AttemptV> {
        seq_plan(self.members@, version)
    }

    fn resolve(&self, version: Version) -> (r: Resolutions) {
        let mut plan: Vec<Attempt> = Vec::new();
        let mut i: usize = 0;
        proof {
            assert(self.members@.take(0) =~= Seq::<AnyResolver>::empty());
        }
        while i < self.members.len()
            invariant
                i <= self.members.len(),
                plan@.map_values(|a: Attempt| a@) =~= seq_plan(
                    self.members@.take(i as int),
                    version,
                ),
            decreases self.members.len() - i,
        {
            let mut sub = self.members[i].resolve(version);
            let ghost prev = plan@;
            let ghost subplan = sub.plan@;
            plan.append(&mut sub.plan);
            proof {
                assert(plan@ =~= prev + subplan);
                assert(plan@.map_values(|a: Attempt| a@) =~= prev.map_values(|a: Attempt| a@)
                    + subplan.map_values(|a: Attempt| a@));
                lemma_seq_plan_push(self.members@.take(i as int), self.members@[i as int], version);
                assert(self.members@.take(i + 1) =~= self.members@.take(i as int).push(
                    self.members@[i as int],
                ));
                assert(plan@.map_values(|a: Attempt| a@) =~= seq_plan(
                    self.members@.take(i + 1),
                    version,
                ));
            }
            i += 1;
        }
        proof {
            assert(self.members@.take(self.members.len() as int) =~= self.members@);
        }
        Resolutions { plan, pos: 0 }
    }
}

} // verus!
