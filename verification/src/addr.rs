//! Network address model: IPv4 and IPv6 addresses as plain values, and
//! verified parsers for their text forms.

use vstd::prelude::*;

verus! {

/// An IPv4 address, as four octets in network order.
#[derive(Clone, Copy, PartialEq, Eq, Structural, Debug)]
pub struct Ipv4Address {
    pub a: u8,
    pub b: u8,
    pub c: u8,
    pub d: u8,
}

impl Ipv4Address {
    pub fn new(a: u8, b: u8, c: u8, d: u8) -> (r: Ipv4Address)
        ensures
            r == (Ipv4Address { a, b, c, d }),
    {
        Ipv4Address { a, b, c, d }
    }
}

/// An IPv6 address, as eight 16-bit groups in network order.
#[derive(Clone, Copy, PartialEq, Eq, Structural, Debug)]
pub struct Ipv6Address {
    pub g0: u16,
    pub g1: u16,
    pub g2: u16,
    pub g3: u16,
    pub g4: u16,
    pub g5: u16,
    pub g6: u16,
    pub g7: u16,
}

impl Ipv6Address {
    pub fn new(g0: u16, g1: u16, g2: u16, g3: u16, g4: u16, g5: u16, g6: u16, g7: u16) -> (r:
        Ipv6Address)
        ensures
            r == (Ipv6Address { g0, g1, g2, g3, g4, g5, g6, g7 }),
    {
        Ipv6Address { g0, g1, g2, g3, g4, g5, g6, g7 }
    }

    /// The eight groups as a sequence.
    pub open spec fn groups(self) -> Seq<u16> {
        seq![self.g0, self.g1, self.g2, self.g3, self.g4, self.g5, self.g6, self.g7]
    }
}

/// An IP address of either family.
#[derive(Clone, Copy, PartialEq, Eq, Structural, Debug)]
pub enum IpAddress {
    V4(Ipv4Address),
    V6(Ipv6Address),
}

impl IpAddress {
    pub fn is_v4(&self) -> (r: bool)
        ensures
            r == (self is V4),
    {
        matches!(self, IpAddress::V4(_))
    }

    pub fn is_v6(&self) -> (r: bool)
        ensures
            r == (self is V6),
    {
        matches!(self, IpAddress::V6(_))
    }
}

/// A server endpoint: an IP address together with a port.
#[derive(Clone, Copy, PartialEq, Eq, Structural, Debug)]
pub struct SocketAddress {
    pub ip: IpAddress,
    pub port: u16,
}

// ---------------------------------------------------------------------------
// Text grammar (specification)

/// ASCII decimal digit.
pub open spec fn is_dec_digit(b: u8) -> bool {
    48 <= b <= 57
}

/// ASCII hexadecimal digit, either case.
pub open spec fn is_hex_digit(b: u8) -> bool {
    is_dec_digit(b) || (97 <= b <= 102) || (65 <= b <= 70)
}

pub open spec fn hex_digit_val(b: u8) -> int {
    if is_dec_digit(b) {
        b - 48
    } else if 97 <= b <= 102 {
        b - 87
    } else {
        b - 55
    }
}

/// Number of consecutive decimal digits starting at `i`.
pub open spec fn dec_run(s: Seq<u8>, i: int) -> nat
    decreases s.len() - i,
{
    if 0 <= i < s.len() && is_dec_digit(s[i]) {
        1 + dec_run(s, i + 1)
    } else {
        0
    }
}

/// Number of consecutive hexadecimal digits starting at `i`.
pub open spec fn hex_run(s: Seq<u8>, i: int) -> nat
    decreases s.len() - i,
{
    if 0 <= i < s.len() && is_hex_digit(s[i]) {
        1 + hex_run(s, i + 1)
    } else {
        0
    }
}

/// Value of the `l` decimal digits starting at `i`.
pub open spec fn dec_value(s: Seq<u8>, i: int, l: int) -> int
    decreases l,
{
    if l <= 0 {
        0
    } else {
        dec_value(s, i, l - 1) * 10 + (s[i + l - 1] - 48)
    }
}

/// Value of the `l` hexadecimal digits starting at `i`.
pub open spec fn hex_value(s: Seq<u8>, i: int, l: int) -> int
    decreases l,
{
    if l <= 0 {
        0
    } else {
        hex_value(s, i, l - 1) * 16 + hex_digit_val(s[i + l - 1])
    }
}

/// One decimal octet at position `i`: one to three digits, no leading zero
/// unless the octet is exactly "0", and value at most 255. Returns the value
/// and the position just past the octet.
pub open spec fn octet_at(s: Seq<u8>, i: int) -> Option<(int, int)> {
    let l = dec_run(s, i);
    if l == 0 || l > 3 {
        None
    } else if l > 1 && s[i] == 48 {
        None
    } else if dec_value(s, i, l as int) > 255 {
        None
    } else {
        Some((dec_value(s, i, l as int), i + l))
    }
}

/// The dotted-quad IPv4 text form: four octets separated by '.', spanning the
/// whole input.
pub open spec fn spec_parse_ipv4(s: Seq<u8>) -> Option<Ipv4Address> {
    match octet_at(s, 0) {
        None => None,
        Some((a, i)) => if i < s.len() && s[i] == 46 {
            match octet_at(s, i + 1) {
                None => None,
                Some((b, j)) => if j < s.len() && s[j] == 46 {
                    match octet_at(s, j + 1) {
                        None => None,
                        Some((c, k)) => if k < s.len() && s[k] == 46 {
                            match octet_at(s, k + 1) {
                                None => None,
                                Some((d, m)) => if m == s.len() {
                                    Some(
                                        Ipv4Address {
                                            a: a as u8,
                                            b: b as u8,
                                            c: c as u8,
                                            d: d as u8,
                                        },
                                    )
                                } else {
                                    None
                                },
                            }
                        } else {
                            None
                        },
                    }
                } else {
                    None
                },
            }
        } else {
            None
        },
    }
}

/// Position of the first "::" at or after `i`, if any.
pub open spec fn find_dcolon(s: Seq<u8>, i: int) -> Option<int>
    decreases s.len() - i,
{
    if i < 0 || i + 2 > s.len() {
        None
    } else if s[i] == 58 && s[i + 1] == 58 {
        Some(i)
    } else {
        find_dcolon(s, i + 1)
    }
}

/// Hexadecimal groups separated by single ':' characters, spanning `i..end`:
/// each group has one to four hex digits. Returns the group values in order.
pub open spec fn groups_between(s: Seq<u8>, i: int, end: int) -> Option<Seq<u16>>
    decreases end - i,
{
    let l = hex_run(s, i);
    if l == 0 || l > 4 {
        None
    } else if i + l == end {
        Some(seq![hex_value(s, i, l as int) as u16])
    } else if i + l < end && s[i + l] == 58 {
        match groups_between(s, i + l + 1, end) {
            None => None,
            Some(rest) => Some(seq![hex_value(s, i, l as int) as u16] + rest),
        }
    } else {
        None
    }
}

pub open spec fn zero_groups(n: int) -> Seq<u16> {
    Seq::new(n as nat, |i: int| 0u16)
}

pub open spec fn ipv6_from_groups(gs: Seq<u16>) -> Ipv6Address
    recommends
        gs.len() == 8,
{
    Ipv6Address {
        g0: gs[0],
        g1: gs[1],
        g2: gs[2],
        g3: gs[3],
        g4: gs[4],
        g5: gs[5],
        g6: gs[6],
        g7: gs[7],
    }
}

/// The IPv6 text form accepted here: eight colon-separated hex groups, or a
/// single "::" standing for enough zero groups to reach eight, with at most
/// seven explicit groups around it. Dotted-quad tails are not accepted.
pub open spec fn spec_parse_ipv6(s: Seq<u8>) -> Option<Ipv6Address> {
    match find_dcolon(s, 0) {
        None => match groups_between(s, 0, s.len() as int) {
            None => None,
            Some(gs) => if gs.len() == 8 {
                Some(ipv6_from_groups(gs))
            } else {
                None
            },
        },
        Some(p) => {
            let left = if p == 0 {
                Some(Seq::<u16>::empty())
            } else {
                groups_between(s, 0, p)
            };
            let right = if p + 2 == s.len() {
                Some(Seq::<u16>::empty())
            } else {
                groups_between(s, p + 2, s.len() as int)
            };
            match (left, right) {
                (Some(l), Some(r)) => if l.len() + r.len() <= 7 {
                    Some(ipv6_from_groups(l + zero_groups(8 - l.len() - r.len()) + r))
                } else {
                    None
                },
                _ => None,
            }
        },
    }
}

/// An address text is read as IPv4 when it has that form, else as IPv6.
pub open spec fn spec_parse_ip(s: Seq<u8>) -> Option<IpAddress> {
    match spec_parse_ipv4(s) {
        Some(v4) => Some(IpAddress::V4(v4)),
        None => match spec_parse_ipv6(s) {
            Some(v6) => Some(IpAddress::V6(v6)),
            None => None,
        },
    }
}

// ---------------------------------------------------------------------------
// Helper lemmas

proof fn lemma_dec_run_digits(s: Seq<u8>, i: int, k: int)
    requires
        0 <= i,
        0 <= k < dec_run(s, i),
    ensures
        i + k < s.len() && is_dec_digit(s[i + k]),
    decreases k,
{
    if k > 0 {
        lemma_dec_run_digits(s, i + 1, k - 1);
    }
}

proof fn lemma_hex_run_digits(s: Seq<u8>, i: int, k: int)
    requires
        0 <= i,
        0 <= k < hex_run(s, i),
    ensures
        i + k < s.len() && is_hex_digit(s[i + k]),
    decreases k,
{
    if k > 0 {
        lemma_hex_run_digits(s, i + 1, k - 1);
    }
}

// ---------------------------------------------------------------------------
// Executable parsers

fn dec_run_exec(s: &Vec<u8>, i: usize) -> (l: usize)
    requires
        i <= s.len(),
    ensures
        l == dec_run(s@, i as int),
        i + l <= s.len(),
{
    let mut j = i;
    while j < s.len() && 48 <= s[j] && s[j] <= 57
        invariant
            i <= j <= s.len(),
            dec_run(s@, i as int) == j - i + dec_run(s@, j as int),
        decreases s.len() - j,
    {
        j += 1;
    }
    assert(dec_run(s@, j as int) == 0);
    j - i
}

fn hex_run_exec(s: &Vec<u8>, i: usize) -> (l: usize)
    requires
        i <= s.len(),
    ensures
        l == hex_run(s@, i as int),
        i + l <= s.len(),
{
    let mut j = i;
    while j < s.len() && (48 <= s[j] && s[j] <= 57 || 97 <= s[j] && s[j] <= 102 || 65 <= s[j]
        && s[j] <= 70)
        invariant
            i <= j <= s.len(),
            hex_run(s@, i as int) == j - i + hex_run(s@, j as int),
        decreases s.len() - j,
    {
        j += 1;
    }
    assert(hex_run(s@, j as int) == 0);
    j - i
}

fn hex_val_exec(b: u8) -> (v: u8)
    requires
        is_hex_digit(b),
    ensures
        v as int == hex_digit_val(b),
{
    if 48 <= b && b <= 57 {
        b - 48
    } else if 97 <= b && b <= 102 {
        b - 87
    } else {
        b - 55
    }
}

/// Parse one decimal octet at position `i`.
fn octet_exec(s: &Vec<u8>, i: usize) -> (r: Option<(u8, usize)>)
    requires
        i <= s.len(),
    ensures
        match r {
            Some((v, j)) => octet_at(s@, i as int) == Some((v as int, j as int)) && j <= s.len(),
            None => octet_at(s@, i as int) is None,
        },
{
    let l = dec_run_exec(s, i);
    if l == 0 || l > 3 {
        return None;
    }
    proof {
        lemma_dec_run_digits(s@, i as int, 0);
        if l >= 2 {
            lemma_dec_run_digits(s@, i as int, 1);
        }
        if l >= 3 {
            lemma_dec_run_digits(s@, i as int, 2);
        }
    }
    if l > 1 && s[i] == 48 {
        return None;
    }
    let v: u32 = if l == 1 {
        (s[i] - 48) as u32
    } else if l == 2 {
        (s[i] - 48) as u32 * 10 + (s[i + 1] - 48) as u32
    } else {
        (s[i] - 48) as u32 * 100 + (s[i + 1] - 48) as u32 * 10 + (s[i + 2] - 48) as u32
    };
    assert(v == dec_value(s@, i as int, l as int)) by {
        assert(dec_value(s@, i as int, 0) == 0);
        assert(dec_value(s@, i as int, 1) == (s@[i as int] - 48));
        if l >= 2 {
            assert(dec_value(s@, i as int, 2) == dec_value(s@, i as int, 1) * 10 + (s@[i + 1]
                - 48));
        }
        if l >= 3 {
            assert(dec_value(s@, i as int, 3) == dec_value(s@, i as int, 2) * 10 + (s@[i + 2]
                - 48));
        }
    }
    if v > 255 {
        return None;
    }
    Some((v as u8, i + l))
}

/// Parse the dotted-quad IPv4 text form; the whole input must be consumed.
pub fn parse_ipv4(s: &Vec<u8>) -> (r: Option<Ipv4Address>)
    ensures
        r == spec_parse_ipv4(s@),
{
    let (a, i) = match octet_exec(s, 0) {
        None => {
            return None;
        },
        Some(p) => p,
    };
    if !(i < s.len() && s[i] == 46) {
        return None;
    }
    let (b, j) = match octet_exec(s, i + 1) {
        None => {
            return None;
        },
        Some(p) => p,
    };
    if !(j < s.len() && s[j] == 46) {
        return None;
    }
    let (c, k) = match octet_exec(s, j + 1) {
        None => {
            return None;
        },
        Some(p) => p,
    };
    if !(k < s.len() && s[k] == 46) {
        return None;
    }
    let (d, m) = match octet_exec(s, k + 1) {
        None => {
            return None;
        },
        Some(p) => p,
    };
    if m != s.len() {
        return None;
    }
    Some(Ipv4Address { a, b, c, d })
}

fn find_dcolon_exec(s: &Vec<u8>) -> (r: Option<usize>)
    ensures
        match r {
            Some(p) => find_dcolon(s@, 0) == Some(p as int) && p + 2 <= s.len(),
            None => find_dcolon(s@, 0) is None,
        },
{
    if s.len() < 2 {
        return None;
    }
    let mut i: usize = 0;
    while i <= s.len() - 2
        invariant
            s.len() >= 2,
            0 <= i <= s.len() - 1,
            find_dcolon(s@, 0) == find_dcolon(s@, i as int),
        decreases s.len() - i,
    {
        if s[i] == 58 && s[i + 1] == 58 {
            return Some(i);
        }
        i += 1;
    }
    None
}

/// Parse one hex group of `l` digits at `i` into its value.
fn group_val_exec(s: &Vec<u8>, i: usize, l: usize) -> (v: u16)
    requires
        1 <= l <= 4,
        l <= hex_run(s@, i as int),
        i + l <= s.len(),
    ensures
        v as int == hex_value(s@, i as int, l as int),
{
    proof {
        lemma_hex_run_digits(s@, i as int, 0);
        if l >= 2 {
            lemma_hex_run_digits(s@, i as int, 1);
        }
        if l >= 3 {
            lemma_hex_run_digits(s@, i as int, 2);
        }
        if l >= 4 {
            lemma_hex_run_digits(s@, i as int, 3);
        }
    }
    let mut v: u32 = hex_val_exec(s[i]) as u32;
    assert(hex_value(s@, i as int, 0) == 0);
    assert(v == hex_value(s@, i as int, 1) && v <= 15);
    if l >= 2 {
        v = v * 16 + hex_val_exec(s[i + 1]) as u32;
        assert(v == hex_value(s@, i as int, 2) && v <= 255);
    }
    if l >= 3 {
        v = v * 16 + hex_val_exec(s[i + 2]) as u32;
        assert(v == hex_value(s@, i as int, 3) && v <= 4095);
    }
    if l >= 4 {
        v = v * 16 + hex_val_exec(s[i + 3]) as u32;
        assert(v == hex_value(s@, i as int, 4) && v <= 65535);
    }
    v as u16
}

/// Parse colon-separated hex groups spanning `start..end`.
fn groups_exec(s: &Vec<u8>, start: usize, end: usize) -> (r: Option<Vec<u16>>)
    requires
        start <= end <= s.len(),
    ensures
        match r {
            Some(v) => groups_between(s@, start as int, end as int) == Some(v@),
            None => groups_between(s@, start as int, end as int) is None,
        },
{
    let mut out: Vec<u16> = Vec::new();
    let mut i = start;
    loop
        invariant
            start <= i <= end <= s.len(),
            groups_between(s@, start as int, end as int) == (match groups_between(
                s@,
                i as int,
                end as int,
            ) {
                Some(rest) => Some(out@ + rest),
                None => None::<Seq<u16>>,
            }),
        decreases end - i,
    {
        let l = hex_run_exec(s, i);
        if l == 0 || l > 4 {
            return None;
        }
        let g = group_val_exec(s, i, l);
        if i + l == end {
            let ghost prev = out@;
            out.push(g);
            proof {
                assert(groups_between(s@, i as int, end as int) == Some(seq![g]));
                assert(out@ =~= prev + seq![g]);
            }
            return Some(out);
        }
        if i + l < end && s[i + l] == 58 {
            let ghost prev = out@;
            out.push(g);
            proof {
                assert(out@ =~= prev + seq![g]);
                assert(forall|rest: Seq<u16>| (prev + (seq![g] + rest)) =~= (out@ + rest));
            }
            i = i + l + 1;
        } else {
            return None;
        }
    }
}

/// Parse the IPv6 text form described by `spec_parse_ipv6`.
pub fn parse_ipv6(s: &Vec<u8>) -> (r: Option<Ipv6Address>)
    ensures
        r == spec_parse_ipv6(s@),
{
    match find_dcolon_exec(s) {
        None => {
            let gs = match groups_exec(s, 0, s.len()) {
                None => {
                    return None;
                },
                Some(gs) => gs,
            };
            if gs.len() != 8 {
                return None;
            }
            Some(
                Ipv6Address::new(
                    gs[0],
                    gs[1],
                    gs[2],
                    gs[3],
                    gs[4],
                    gs[5],
                    gs[6],
                    gs[7],
                ),
            )
        },
        Some(p) => {
            let left: Vec<u16> = if p == 0 {
                Vec::new()
            } else {
                match groups_exec(s, 0, p) {
                    None => {
                        return None;
                    },
                    Some(v) => v,
                }
            };
            let right: Vec<u16> = if p + 2 == s.len() {
                Vec::new()
            } else {
                match groups_exec(s, p + 2, s.len()) {
                    None => {
                        return None;
                    },
                    Some(v) => v,
                }
            };
            if left.len() > 7 || right.len() > 7 || left.len() + right.len() > 7 {
                return None;
            }
            let ghost lv = left@;
            let ghost rv = right@;
            let mut gs = left;
            let fill = 8 - gs.len() - right.len();
            let mut z: usize = 0;
            while z < fill
                invariant
                    0 <= z <= fill,
                    fill == 8 - lv.len() - rv.len(),
                    gs@ =~= lv + zero_groups(z as int),
                decreases fill - z,
            {
                gs.push(0);
                proof {
                    assert(gs@ =~= lv + zero_groups(z + 1));
                }
                z += 1;
            }
            let mut q: usize = 0;
            while q < right.len()
                invariant
                    0 <= q <= rv.len(),
                    right@ == rv,
                    gs@ =~= lv + zero_groups((8 - lv.len() - rv.len()) as int) + rv.subrange(
                        0,
                        q as int,
                    ),
                decreases right.len() - q,
            {
                gs.push(right[q]);
                proof {
                    assert(rv.subrange(0, q + 1) =~= rv.subrange(0, q as int).push(rv[q as int]));
                    assert(gs@ =~= lv + zero_groups((8 - lv.len() - rv.len()) as int)
                        + rv.subrange(0, q + 1));
                }
                q += 1;
            }
            proof {
                assert(rv.subrange(0, rv.len() as int) =~= rv);
                assert(gs@ =~= lv + zero_groups((8 - lv.len() - rv.len()) as int) + rv);
            }
            assert(gs.len() == 8);
            Some(
                Ipv6Address::new(
                    gs[0],
                    gs[1],
                    gs[2],
                    gs[3],
                    gs[4],
                    gs[5],
                    gs[6],
                    gs[7],
                ),
            )
        },
    }
}

/// Parse an address text of either family.
pub fn parse_ip(s: &Vec<u8>) -> (r: Option<IpAddress>)
    ensures
        r == spec_parse_ip(s@),
{
    match parse_ipv4(s) {
        Some(v4) => Some(IpAddress::V4(v4)),
        None => match parse_ipv6(s) {
            Some(v6) => Some(IpAddress::V6(v6)),
            None => None,
        },
    }
}


// ---------------------------------------------------------------------------
// Canonical IPv4 text

/// Canonical decimal text of a number up to 255: no leading zeros.
pub open spec fn dec_text(n: int) -> Seq<u8> {
    if n < 10 {
        seq![(48 + n) as u8]
    } else if n < 100 {
        seq![(48 + n / 10) as u8, (48 + n % 10) as u8]
    } else {
        seq![(48 + n / 100) as u8, (48 + (n / 10) % 10) as u8, (48 + n % 10) as u8]
    }
}

/// Canonical dotted-quad text of an IPv4 address.
pub open spec fn ipv4_text(ip: Ipv4Address) -> Seq<u8> {
    dec_text(ip.a as int) + seq![46u8] + dec_text(ip.b as int) + seq![46u8] + dec_text(
        ip.c as int,
    ) + seq![46u8] + dec_text(ip.d as int)
}

proof fn lemma_octet_at_text(s: Seq<u8>, i: int, n: int)
    requires
        0 <= n <= 255,
        0 <= i,
        i + dec_text(n).len() <= s.len(),
        s.subrange(i, i + dec_text(n).len()) == dec_text(n),
        i + dec_text(n).len() < s.len() ==> !is_dec_digit(s[i + dec_text(n).len()]),
    ensures
        octet_at(s, i) == Some((n, i + dec_text(n).len())),
{
    let t = dec_text(n);
    let l = t.len() as int;
    assert(n == (n / 100) * 100 + ((n / 10) % 10) * 10 + n % 10) by (nonlinear_arith)
        requires 0 <= n <= 255;
    assert(s.subrange(i, i + l)[0] == s[i]);
    assert(s[i] == t[0]);
    if l >= 2 {
        assert(s.subrange(i, i + l)[1] == s[i + 1]);
        assert(s[i + 1] == t[1]);
    }
    if l >= 3 {
        assert(s.subrange(i, i + l)[2] == s[i + 2]);
        assert(s[i + 2] == t[2]);
    }
    if n < 10 {
        assert(is_dec_digit(s[i]));
        assert(dec_run(s, i + 1) == 0);
        assert(dec_run(s, i) == 1);
        assert(dec_value(s, i, 0) == 0);
        assert(dec_value(s, i, 1) == dec_value(s, i, 0) * 10 + (s[i] - 48));
        assert(dec_value(s, i, 1) == n);
    } else if n < 100 {
        assert(is_dec_digit(s[i]) && is_dec_digit(s[i + 1]));
        assert(dec_run(s, i + 2) == 0);
        assert(dec_run(s, i + 1) == 1);
        assert(dec_run(s, i) == 2);
        assert(s[i] != 48);
        assert(dec_value(s, i, 0) == 0);
        assert(dec_value(s, i, 1) == n / 10);
        assert(dec_value(s, i, 2) == (n / 10) * 10 + n % 10);
        assert(dec_value(s, i, 2) == n);
    } else {
        assert(is_dec_digit(s[i]) && is_dec_digit(s[i + 1]) && is_dec_digit(s[i + 2]));
        assert(dec_run(s, i + 3) == 0);
        assert(dec_run(s, i + 2) == 1);
        assert(dec_run(s, i + 1) == 2);
        assert(dec_run(s, i) == 3);
        assert(s[i] != 48);
        assert(dec_value(s, i, 0) == 0);
        assert(dec_value(s, i, 1) == n / 100);
        assert(dec_value(s, i, 2) == (n / 100) * 10 + (n / 10) % 10);
        assert(dec_value(s, i, 3) == ((n / 100) * 10 + (n / 10) % 10) * 10 + n % 10);
        assert(dec_value(s, i, 3) == n) by (nonlinear_arith)
            requires 100 <= n <= 255, dec_value(s, i, 3) == ((n / 100) * 10 + (n / 10) % 10) * 10 + n % 10;
    }
}

/// Law: the canonical dotted-quad text of any IPv4 address parses back to
/// exactly that address.
pub proof fn lemma_ipv4_text_round_trip(ip: Ipv4Address)
    ensures
        spec_parse_ipv4(ipv4_text(ip)) == Some(ip),
{
    let s = ipv4_text(ip);
    let ta = dec_text(ip.a as int);
    let tb = dec_text(ip.b as int);
    let tc = dec_text(ip.c as int);
    let td = dec_text(ip.d as int);
    let ia: int = 0;
    let ib: int = ta.len() as int + 1;
    let ic: int = ib + tb.len() + 1;
    let id: int = ic + tc.len() + 1;
    assert(s.len() == id + td.len());
    assert(s.subrange(ia, ta.len() as int) =~= ta);
    assert(s[ta.len() as int] == 46);
    assert(s.subrange(ib, ib + tb.len()) =~= tb);
    assert(s[ib + tb.len()] == 46);
    assert(s.subrange(ic, ic + tc.len()) =~= tc);
    assert(s[ic + tc.len()] == 46);
    assert(s.subrange(id, id + td.len()) =~= td);
    lemma_octet_at_text(s, ia, ip.a as int);
    lemma_octet_at_text(s, ib, ip.b as int);
    lemma_octet_at_text(s, ic, ip.c as int);
    lemma_octet_at_text(s, id, ip.d as int);
    assert(spec_parse_ipv4(s) == Some(Ipv4Address { a: ip.a, b: ip.b, c: ip.c, d: ip.d }));
    assert(Ipv4Address { a: ip.a, b: ip.b, c: ip.c, d: ip.d } == ip);
}

} // verus!
