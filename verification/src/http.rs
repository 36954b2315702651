//! HTTP backend: configuration, the single-attempt plan, and body extraction.

use vstd::prelude::*;

verus! {

use crate::addr::{IpAddress, SocketAddress, spec_parse_ip, parse_ip};
use crate::{Attempt, AttemptV, Resolutions, Version};

/// HTTP resolver error.
#[derive(Clone, Debug)]
pub enum Error {
    /// Client/transport error, with the client's message.
    Client(String),
    /// URL parsing error, with the parser's message.
    Url(String),
}

/// Mathematical image of an HTTP error.
pub ghost enum ErrorV {
    Client(Seq<char>),
    Url(Seq<char>),
}

impl View for Error {
    type V = ErrorV;

    open spec fn view(&self) -> ErrorV {
        match self {
            Error::Client(m) => ErrorV::Client(m@),
            Error::Url(m) => ErrorV::Url(m@),
        }
    }
}

impl Error {
    /// An equal copy.
    pub fn duplicate(&self) -> (r: Error)
        ensures
            r@ == self@,
    {
        match self {
            Error::Client(m) => Error::Client(m.clone()),
            Error::Url(m) => Error::Url(m.clone()),
        }
    }
}

/// Method used to extract an IP address from an HTTP response body.
#[derive(Clone, Copy, PartialEq, Eq, Structural, Debug)]
pub enum ExtractMethod {
    /// Parses the body with whitespace trimmed as the IP address.
    PlainText,
    /// Parses the body with whitespace and one layer of surrounding double
    /// quotes trimmed as the IP address.
    StripDoubleQuotes,
    /// Parses the string value of the JSON property `"ip"` within the body as
    /// the IP address.
    ExtractJsonIpField,
}

/// Details produced from an HTTP resolution.
#[derive(Clone, Debug)]
pub struct Details {
    url: String,
    server: Option<SocketAddress>,
    method: ExtractMethod,
}

#[verifier::ext_equal]
pub ghost struct DetailsV {
    pub url: Seq<char>,
    pub server: Option<SocketAddress>,
    pub method: ExtractMethod,
}

impl View for Details {
    type V = DetailsV;

    closed spec fn view(&self) -> DetailsV {
        DetailsV { url: self.url@, server: self.server, method: self.method }
    }
}

impl Details {
    pub(crate) fn make(url: String, server: Option<SocketAddress>, method: ExtractMethod) -> (r:
        Details)
        ensures
            r@ == (DetailsV { url: url@, server, method }),
    {
        Details { url, server, method }
    }

    /// URL used in the resolution.
    pub fn url(&self) -> (r: &String)
        ensures
            r@ == self@.url,
    {
        &self.url
    }

    /// HTTP server used in the resolution, when the client reported one.
    pub fn server(&self) -> (r: Option<SocketAddress>)
        ensures
            r == self@.server,
    {
        self.server
    }

    /// The extract method used in the resolution.
    pub fn extract_method(&self) -> (r: ExtractMethod)
        ensures
            r == self@.method,
    {
        self.method
    }
}

// ---------------------------------------------------------------------------
// Body extraction

/// ASCII whitespace trimmed from response bodies.
pub open spec fn is_space(b: u8) -> bool {
    b == 32 || b == 9 || b == 10 || b == 13 || b == 11 || b == 12
}

pub open spec fn trim_front(s: Seq<u8>) -> Seq<u8>
    decreases s.len(),
{
    if s.len() > 0 && is_space(s[0]) {
        trim_front(s.drop_first())
    } else {
        s
    }
}

pub open spec fn trim_back(s: Seq<u8>) -> Seq<u8>
    decreases s.len(),
{
    if s.len() > 0 && is_space(s.last()) {
        trim_back(s.drop_last())
    } else {
        s
    }
}

/// The body with surrounding whitespace removed.
pub open spec fn spec_trim(s: Seq<u8>) -> Seq<u8> {
    trim_back(trim_front(s))
}

/// One layer of surrounding double quotes removed: one leading and one
/// trailing quote, each when present.
pub open spec fn spec_strip_quotes(s: Seq<u8>) -> Seq<u8> {
    let t = if s.len() > 0 && s[0] == 34 {
        s.drop_first()
    } else {
        s
    };
    if t.len() > 0 && t.last() == 34 {
        t.drop_last()
    } else {
        t
    }
}

/// Remove surrounding whitespace from a body.
pub fn trim_bytes(s: &Vec<u8>) -> (r: Vec<u8>)
    ensures
        r@ == spec_trim(s@),
{
    let mut lo: usize = 0;
    proof {
        assert(s@.skip(0) =~= s@);
    }
    while lo < s.len() && (s[lo] == 32 || s[lo] == 9 || s[lo] == 10 || s[lo] == 13 || s[lo] == 11
        || s[lo] == 12)
        invariant
            lo <= s.len(),
            trim_front(s@) == trim_front(s@.skip(lo as int)),
        decreases s.len() - lo,
    {
        proof {
            assert(s@.skip(lo as int).drop_first() =~= s@.skip(lo + 1));
        }
        lo += 1;
    }
    proof {
        assert(trim_front(s@) =~= s@.skip(lo as int));
    }
    let mut hi: usize = s.len();
    proof {
        assert(s@.subrange(lo as int, hi as int) =~= s@.skip(lo as int));
    }
    while hi > lo && (s[hi - 1] == 32 || s[hi - 1] == 9 || s[hi - 1] == 10 || s[hi - 1] == 13
        || s[hi - 1] == 11 || s[hi - 1] == 12)
        invariant
            lo <= hi <= s.len(),
            trim_back(s@.skip(lo as int)) == trim_back(s@.subrange(lo as int, hi as int)),
        decreases hi,
    {
        proof {
            assert(s@.subrange(lo as int, hi as int).drop_last() =~= s@.subrange(
                lo as int,
                hi - 1,
            ));
        }
        hi -= 1;
    }
    proof {
        assert(trim_back(s@.skip(lo as int)) =~= s@.subrange(lo as int, hi as int));
    }
    let mut r: Vec<u8> = Vec::new();
    let mut k = lo;
    while k < hi
        invariant
            lo <= k <= hi <= s.len(),
            r@ =~= s@.subrange(lo as int, k as int),
        decreases hi - k,
    {
        r.push(s[k]);
        proof {
            assert(r@ =~= s@.subrange(lo as int, k + 1));
        }
        k += 1;
    }
    proof {
        assert(r@ =~= spec_trim(s@));
    }
    r
}

/// Remove one layer of surrounding double quotes.
pub fn strip_quotes(s: &Vec<u8>) -> (r: Vec<u8>)
    ensures
        r@ == spec_strip_quotes(s@),
{
    let start: usize = if s.len() > 0 && s[0] == 34 {
        1
    } else {
        0
    };
    let ghost t = if s@.len() > 0 && s@[0] == 34 {
        s@.drop_first()
    } else {
        s@
    };
    proof {
        assert(t =~= s@.subrange(start as int, s@.len() as int));
    }
    let end: usize = if s.len() > start && s[s.len() - 1] == 34 {
        s.len() - 1
    } else {
        s.len()
    };
    proof {
        if t.len() > 0 && t.last() == 34 {
            assert(t.drop_last() =~= s@.subrange(start as int, end as int));
        } else {
            assert(t =~= s@.subrange(start as int, end as int));
        }
    }
    let mut r: Vec<u8> = Vec::new();
    let mut k = start;
    while k < end
        invariant
            start <= k <= end <= s.len(),
            r@ =~= s@.subrange(start as int, k as int),
        decreases end - k,
    {
        r.push(s[k]);
        proof {
            assert(r@ =~= s@.subrange(start as int, k + 1));
        }
        k += 1;
    }
    proof {
        assert(r@ =~= spec_strip_quotes(s@));
    }
    r
}

/// What serde_json yields for a document and key: the bytes of the string
/// value at that key of the top-level object, or nothing when the document is
/// not JSON or holds no string value there.
pub uninterp spec fn json_str_field(body: Seq<u8>, key: Seq<char>) -> Option<Seq<u8>>;

/// Relies on serde_json (`from_slice`, `Value::get`, `Value::as_str`): what it
/// yields is a function of the document and the key alone.
#[verifier::external_body]
fn json_field(body: &Vec<u8>, key: &str) -> (r: Option<Vec<u8>>)
    ensures
        r is Some <==> json_str_field(body@, key@) is Some,
        r matches Some(v) ==> json_str_field(body@, key@) == Some(v@),
{
    let value: serde_json::Value = match serde_json::from_slice(body.as_slice()) {
        Ok(v) => v,
        Err(_) => return None,
    };
    let s = value.get(key)?.as_str()?;
    Some(s.as_bytes().to_vec())
}

/// The address text a body yields under an extract method, when any.
pub open spec fn spec_extract_text(body: Seq<u8>, method: ExtractMethod) -> Option<Seq<u8>> {
    match method {
        ExtractMethod::PlainText => Some(spec_trim(body)),
        ExtractMethod::StripDoubleQuotes => Some(spec_strip_quotes(spec_trim(body))),
        ExtractMethod::ExtractJsonIpField => json_str_field(body, "ip"@),
    }
}

/// The address a body yields under an extract method: the extracted text must
/// parse as an IP address; anything else is `Addr`.
pub open spec fn spec_extract_ip(body: Seq<u8>, method: ExtractMethod) -> Result<
    IpAddress,
    crate::error::ErrorV,
> {
    match spec_extract_text(body, method) {
        None => Err(crate::error::ErrorV::Addr),
        Some(t) => match spec_parse_ip(t) {
            Some(ip) => Ok(ip),
            None => Err(crate::error::ErrorV::Addr),
        },
    }
}

/// Extract the address text from a response body.
pub fn extract_text(body: &Vec<u8>, method: ExtractMethod) -> (r: Option<Vec<u8>>)
    ensures
        match r {
            Some(v) => spec_extract_text(body@, method) == Some(v@),
            None => spec_extract_text(body@, method) is None,
        },
{
    match method {
        ExtractMethod::PlainText => Some(trim_bytes(body)),
        ExtractMethod::StripDoubleQuotes => {
            let t = trim_bytes(body);
            Some(strip_quotes(&t))
        },
        ExtractMethod::ExtractJsonIpField => json_field(body, "ip"),
    }
}

/// Extract and parse the address from a response body.
pub fn extract_ip(body: &Vec<u8>, method: ExtractMethod) -> (r: Result<
    IpAddress,
    crate::error::Error,
>)
    ensures
        match r {
            Ok(ip) => spec_extract_ip(body@, method) == Ok::<IpAddress, crate::error::ErrorV>(ip),
            Err(e) => spec_extract_ip(body@, method) == Err::<IpAddress, crate::error::ErrorV>(
                e@,
            ),
        },
{
    match extract_text(body, method) {
        None => Err(crate::error::Error::Addr),
        Some(t) => match parse_ip(&t) {
            Some(ip) => Ok(ip),
            None => Err(crate::error::Error::Addr),
        },
    }
}

/// The response handed back by the HTTP driver: the body, and the server's
/// address when the client reported it.
#[derive(Clone, Debug)]
pub struct HttpResponse {
    pub server: Option<SocketAddress>,
    pub body: Vec<u8>,
}

#[verifier::ext_equal]
pub ghost struct HttpResponseV {
    pub server: Option<SocketAddress>,
    pub body: Seq<u8>,
}

impl View for HttpResponse {
    type V = HttpResponseV;

    open spec fn view(&self) -> HttpResponseV {
        HttpResponseV { server: self.server, body: self.body@ }
    }
}

/// One planned GET against the configured URL.
#[derive(Clone, Debug)]
pub struct HttpAttempt {
    pub url: String,
    pub method: ExtractMethod,
    pub version: Version,
}

#[verifier::ext_equal]
pub ghost struct HttpAttemptV {
    pub url: Seq<char>,
    pub method: ExtractMethod,
    pub version: Version,
}

impl View for HttpAttempt {
    type V = HttpAttemptV;

    open spec fn view(&self) -> HttpAttemptV {
        HttpAttemptV { url: self.url@, method: self.method, version: self.version }
    }
}

/// What `url::Url::parse` decides for a URL text: nothing when the text parses
/// as an absolute URL, otherwise the parse error's display text.
pub uninterp spec fn url_parse_error(s: Seq<char>) -> Option<Seq<char>>;

/// Relies on `url::Url::parse` to validate the configured URL; acceptance and
/// the error text are functions of the text alone.
#[verifier::external_body]
fn check_url(s: &str) -> (r: Option<String>)
    ensures
        r is Some <==> url_parse_error(s@) is Some,
        r matches Some(m) ==> url_parse_error(s@) == Some(m@),
{
    match url::Url::parse(s) {
        Ok(_) => None,
        Err(e) => Some(format!("{e}")),
    }
}

/// Options to build an HTTP resolver.
#[derive(Clone, Debug)]
pub struct Resolver {
    url: String,
    method: ExtractMethod,
}

#[verifier::ext_equal]
pub ghost struct ResolverV {
    pub url: Seq<char>,
    pub method: ExtractMethod,
}

impl View for Resolver {
    type V = ResolverV;

    closed spec fn view(&self) -> ResolverV {
        ResolverV { url: self.url@, method: self.method }
    }
}

impl Resolver {
    /// Create a new HTTP resolver configuration.
    pub fn new(url: String, method: ExtractMethod) -> (r: Resolver)
        ensures
            r@ == (ResolverV { url: url@, method }),
    {
        Resolver { url, method }
    }

    /// Create a new HTTP resolver configuration from a borrowed URL.
    pub fn new_static(url: &str, method: ExtractMethod) -> (r: Resolver)
        ensures
            r@ == (ResolverV { url: url@, method }),
    {
        Resolver { url: url.to_owned(), method }
    }
}

/// The attempt plan of an HTTP resolver: a single GET against the configured
/// URL; a URL that does not parse yields a single failing item instead.
pub open spec fn http_plan(cfg: ResolverV, version: Version) -> Seq<AttemptV> {
    match url_parse_error(cfg.url) {
        Some(msg) => seq![AttemptV::Fail(crate::error::ErrorV::Http(ErrorV::Url(msg)))],
        None => seq![
            AttemptV::Http(HttpAttemptV { url: cfg.url, method: cfg.method, version }),
        ],
    }
}

impl crate::Resolver for Resolver {
    open spec fn plan(&self, version: Version) -> Seq<AttemptV> {
        http_plan(self@, version)
    }

    fn resolve(&self, version: Version) -> (r: Resolutions) {
        let mut plan: Vec<Attempt> = Vec::new();
        match check_url(self.url.as_str()) {
            Some(msg) => {
                plan.push(Attempt::Fail(crate::error::Error::Http(Error::Url(msg))));
            },
            None => {
                plan.push(
                    Attempt::Http(
                        HttpAttempt { url: self.url.clone(), method: self.method, version },
                    ),
                );
            },
        }
        assert(plan@.map_values(|a: Attempt| a@) =~= http_plan(self@, version));
        Resolutions { plan, pos: 0 }
    }
}


// ---------------------------------------------------------------------------
// Built-in catalogs

/// `http://api.ipify.org` resolver configuration.
pub open spec fn http_ipify_org_config() -> ResolverV {
    ResolverV { url: "http://api.ipify.org"@, method: ExtractMethod::PlainText }
}

/// `https://api.ipify.org` resolver configuration.
pub open spec fn https_ipify_org_config() -> ResolverV {
    ResolverV { url: "https://api.ipify.org"@, method: ExtractMethod::PlainText }
}

/// `https://api.myip.com` resolver configuration.
pub open spec fn https_myip_com_config() -> ResolverV {
    ResolverV { url: "https://api.myip.com"@, method: ExtractMethod::ExtractJsonIpField }
}

/// `https://api.my-ip.io/ip` resolver configuration.
pub open spec fn https_my_ip_io_config() -> ResolverV {
    ResolverV { url: "https://api.my-ip.io/ip"@, method: ExtractMethod::PlainText }
}

/// `https://ip.seeip.org` resolver configuration.
pub open spec fn https_seeip_org_config() -> ResolverV {
    ResolverV { url: "https://ip.seeip.org"@, method: ExtractMethod::PlainText }
}

/// `http://api.ipify.org` HTTP resolver options.
pub fn http_ipify_org() -> (r: Resolver)
    ensures
        r@ == http_ipify_org_config(),
{
    Resolver::new_static("http://api.ipify.org", ExtractMethod::PlainText)
}

/// `https://api.ipify.org` HTTPS resolver options.
pub fn https_ipify_org() -> (r: Resolver)
    ensures
        r@ == https_ipify_org_config(),
{
    Resolver::new_static("https://api.ipify.org", ExtractMethod::PlainText)
}

/// `https://api.myip.com` HTTPS resolver options.
pub fn https_myip_com() -> (r: Resolver)
    ensures
        r@ == https_myip_com_config(),
{
    Resolver::new_static("https://api.myip.com", ExtractMethod::ExtractJsonIpField)
}

/// `https://api.my-ip.io/ip` HTTPS resolver options.
pub fn https_my_ip_io() -> (r: Resolver)
    ensures
        r@ == https_my_ip_io_config(),
{
    Resolver::new_static("https://api.my-ip.io/ip", ExtractMethod::PlainText)
}

/// `https://ip.seeip.org` HTTPS resolver options.
pub fn https_seeip_org() -> (r: Resolver)
    ensures
        r@ == https_seeip_org_config(),
{
    Resolver::new_static("https://ip.seeip.org", ExtractMethod::PlainText)
}

/// All built-in plain-HTTP resolvers.
pub fn http() -> (r: crate::Composite)
    ensures
        r.members@.len() == 1,
        r.members@[0] matches crate::AnyResolver::Http(c) && c@ == http_ipify_org_config(),
{
    let mut members: Vec<crate::AnyResolver> = Vec::new();
    members.push(crate::AnyResolver::Http(http_ipify_org()));
    crate::Composite::new(members)
}

/// All built-in HTTPS resolvers.
pub fn https() -> (r: crate::Composite)
    ensures
        r.members@.len() == 4,
        r.members@[0] matches crate::AnyResolver::Http(c) && c@ == https_ipify_org_config(),
        r.members@[1] matches crate::AnyResolver::Http(c) && c@ == https_myip_com_config(),
        r.members@[2] matches crate::AnyResolver::Http(c) && c@ == https_my_ip_io_config(),
        r.members@[3] matches crate::AnyResolver::Http(c) && c@ == https_seeip_org_config(),
{
    let mut members: Vec<crate::AnyResolver> = Vec::new();
    members.push(crate::AnyResolver::Http(https_ipify_org()));
    members.push(crate::AnyResolver::Http(https_myip_com()));
    members.push(crate::AnyResolver::Http(https_my_ip_io()));
    members.push(crate::AnyResolver::Http(https_seeip_org()));
    crate::Composite::new(members)
}

/// All built-in HTTP and HTTPS resolvers, plain HTTP first.
pub fn all() -> (r: crate::Composite)
    ensures
        r.members@.len() == 5,
        r.members@[0] matches crate::AnyResolver::Http(c) && c@ == http_ipify_org_config(),
        r.members@[1] matches crate::AnyResolver::Http(c) && c@ == https_ipify_org_config(),
        r.members@[2] matches crate::AnyResolver::Http(c) && c@ == https_myip_com_config(),
        r.members@[3] matches crate::AnyResolver::Http(c) && c@ == https_my_ip_io_config(),
        r.members@[4] matches crate::AnyResolver::Http(c) && c@ == https_seeip_org_config(),
{
    let mut members: Vec<crate::AnyResolver> = Vec::new();
    members.push(crate::AnyResolver::Http(http_ipify_org()));
    members.push(crate::AnyResolver::Http(https_ipify_org()));
    members.push(crate::AnyResolver::Http(https_myip_com()));
    members.push(crate::AnyResolver::Http(https_my_ip_io()));
    members.push(crate::AnyResolver::Http(https_seeip_org()));
    crate::Composite::new(members)
}

} // verus!
