//! Target and port specification parsing.
//!
//! A target specification is a comma-separated list of atoms; each atom is a
//! single address, a dash-delimited address range, or a CIDR block. A port
//! specification is a comma-separated list of port numbers and dash-delimited
//! inclusive ranges. Resolution expands every atom in order and removes
//! duplicates, keeping first occurrences.

use vstd::prelude::*;
use vstd::string::*;
use vstd::arithmetic::power2::{pow2, lemma_pow2_adds, lemma_pow2_pos, lemma_pow2_strictly_increases, lemma2_to64, lemma2_to64_rest};
use vstd::arithmetic::div_mod::{lemma_fundamental_div_mod, lemma_mod_bound};
use vstd::arithmetic::mul::lemma_mul_inequality;
use crate::addr::{IpAddress, ipv4_of, ipv6_of, ip_of, parse_ipv4, parse_ipv6, parse_ip};
use crate::text::{
    find_from, lemma_find_from_is, split_on, split_str, trim_spec, trim_str, u16_of, parse_u16,
};

verus! {

/// Why a target or port specification was rejected; each variant keeps the
/// offending token where there is one.
#[derive(Debug)]
pub enum ParseError {
    /// An atom with a `/` that is not a well-formed CIDR block.
    InvalidCidr { token: String },
    /// A dash atom that does not have exactly two endpoints.
    InvalidRange { token: String },
    /// An endpoint or single atom that is not an address.
    InvalidAddress { token: String },
    /// A dash range whose endpoints are of different IP versions.
    VersionMismatch,
    /// A port atom that is not a port number.
    InvalidPort { token: String },
}

/// Ghost image of a `ParseError`, with tokens as character sequences.
pub ghost enum ParseIssue {
    InvalidCidr { token: Seq<char> },
    InvalidRange { token: Seq<char> },
    InvalidAddress { token: Seq<char> },
    VersionMismatch,
    InvalidPort { token: Seq<char> },
}

impl View for ParseError {
    type V = ParseIssue;

    open spec fn view(&self) -> ParseIssue {
        match self {
            ParseError::InvalidCidr { token } => ParseIssue::InvalidCidr { token: token@ },
            ParseError::InvalidRange { token } => ParseIssue::InvalidRange { token: token@ },
            ParseError::InvalidAddress { token } => ParseIssue::InvalidAddress { token: token@ },
            ParseError::VersionMismatch => ParseIssue::VersionMismatch,
            ParseError::InvalidPort { token } => ParseIssue::InvalidPort { token: token@ },
        }
    }
}

/// The message a `ParseError` renders to.
pub open spec fn issue_message(i: ParseIssue) -> Seq<char> {
    match i {
        ParseIssue::InvalidCidr { token } => "无效的CIDR格式: "@ + token,
        ParseIssue::InvalidRange { token } => "无效的IP范围格式: "@ + token,
        ParseIssue::InvalidAddress { token } => "无效的IP地址: "@ + token,
        ParseIssue::VersionMismatch => "IP版本不匹配"@,
        ParseIssue::InvalidPort { token } => "无效的端口: "@ + token,
    }
}

impl ParseError {
    /// A human-readable description of the rejection.
    pub fn message(&self) -> (r: String)
        ensures
            r@ == issue_message(self@),
    {
        match self {
            ParseError::InvalidCidr { token } => {
                let mut m = ("无效的CIDR格式: ").to_owned();
                m.append(token.as_str());
                m
            },
            ParseError::InvalidRange { token } => {
                let mut m = ("无效的IP范围格式: ").to_owned();
                m.append(token.as_str());
                m
            },
            ParseError::InvalidAddress { token } => {
                let mut m = ("无效的IP地址: ").to_owned();
                m.append(token.as_str());
                m
            },
            ParseError::VersionMismatch => ("IP版本不匹配").to_owned(),
            ParseError::InvalidPort { token } => {
                let mut m = ("无效的端口: ").to_owned();
                m.append(token.as_str());
                m
            },
        }
    }
}

// ---- character membership ----

/// True when `c` occurs in `s`.
pub open spec fn has_char(s: Seq<char>, c: char) -> bool {
    find_from(s, c, 0) < s.len()
}

/// Scans for `c`, as `str::contains` does for one character.
pub fn contains_char(s: &str, c: char) -> (r: bool)
    ensures
        r == has_char(s@, c),
{
    let n = s.unicode_len();
    let mut i: usize = 0;
    while i < n
        invariant
            n == s@.len(),
            i <= n,
            forall|k: int| 0 <= k < i ==> s@[k] != c,
        decreases n - i,
    {
        if s.get_char(i) == c {
            proof {
                lemma_find_from_is(s@, c, 0, i as int);
            }
            return true;
        }
        i += 1;
    }
    proof {
        lemma_find_from_is(s@, c, 0, n as int);
    }
    false
}

// ---- CIDR prefixes ----

/// The IPv4 netmask with `p` leading one bits.
pub open spec fn mask4(p: nat) -> u32 {
    (pow2(32) - pow2((32 - p) as nat)) as u32
}

/// The prefix length a netmask denotes, searched from `p` up: the relied-on
/// network library accepts a mask of contiguous leading ones in place of a
/// numeric prefix.
pub open spec fn netmask_prefix4_from(m: u32, p: nat) -> Option<nat>
    decreases 33 - p when p <= 33
{
    if p > 32 {
        None
    } else if mask4(p) == m {
        Some(p)
    } else {
        netmask_prefix4_from(m, p + 1)
    }
}

/// Recovers the prefix length from an IPv4 netmask, if it is one.
fn netmask_to_prefix4(m: u32) -> (r: Option<u8>)
    ensures
        match r {
            Some(p) => p <= 32 && netmask_prefix4_from(m, 0) == Some(p as nat),
            None => netmask_prefix4_from(m, 0) is None,
        },
{
    let mut p: u8 = 0;
    let mut host: u64 = 0x1_0000_0000;
    proof {
        lemma2_to64();
    }
    while p <= 32
        invariant
            p <= 33,
            p <= 32 ==> host == pow2((32 - p) as nat),
            forall|q: nat| q < p ==> #[trigger] netmask_prefix4_from(m, q) == netmask_prefix4_from(
                m,
                p as nat,
            ),
            forall|q: nat| q < p ==> mask4(q) != m,
        decreases 33 - p,
    {
        proof {
            lemma2_to64();
            if p > 0 {
                lemma_pow2_strictly_increases((32 - p) as nat, 32);
            }
        }
        let mask: u64 = 0x1_0000_0000u64 - host;
        proof {
            assert(mask == mask4(p as nat));
        }
        if mask == (m as u64) {
            return Some(p);
        }
        if p < 32 {
            proof {
                lemma_pow2_adds(1, (32 - p - 1) as nat);
                lemma2_to64();
            }
            host = host / 2;
        }
        p += 1;
    }
    None
}

/// The prefix of an IPv4 CIDR block: a numeric prefix of at most 32, or a
/// contiguous netmask written as an address.
pub open spec fn prefix4_of(t: Seq<char>) -> Option<nat> {
    if ipv4_of(t) is Some {
        netmask_prefix4_from(ipv4_of(t) -> 0, 0)
    } else {
        match u16_of(t) {
            Some(v) => if v <= 32 {
                Some(v as nat)
            } else {
                None
            },
            None => None,
        }
    }
}

/// The prefix of an IPv6 CIDR block: numeric only, at most 128.
pub open spec fn prefix6_of(t: Seq<char>) -> Option<nat> {
    match u16_of(t) {
        Some(v) => if v <= 128 {
            Some(v as nat)
        } else {
            None
        },
        None => None,
    }
}

fn parse_prefix4(t: &str) -> (r: Option<u8>)
    ensures
        match r {
            Some(p) => p <= 32 && prefix4_of(t@) == Some(p as nat),
            None => prefix4_of(t@) is None,
        },
{
    match parse_ipv4(t) {
        Some(m) => netmask_to_prefix4(m),
        None => {
            match parse_u16(t) {
                Some(v) => if v <= 32 {
                    Some(v as u8)
                } else {
                    None
                },
                None => None,
            }
        },
    }
}

fn parse_prefix6(t: &str) -> (r: Option<u8>)
    ensures
        match r {
            Some(p) => p <= 128 && prefix6_of(t@) == Some(p as nat),
            None => prefix6_of(t@) is None,
        },
{
    match parse_u16(t) {
        Some(v) => if v <= 128 {
            Some(v as u8)
        } else {
            None
        },
        None => None,
    }
}

// ---- block and range expansion ----

/// All addresses of the IPv4 block containing `a` with prefix `p`, in
/// ascending order: the host bits of `a` are cleared and every combination of
/// host bits is enumerated.
pub open spec fn v4_block(a: u32, p: nat) -> Seq<IpAddress> {
    let host = pow2((32 - p) as nat);
    let start = (a as nat / host) * host;
    Seq::new(host, |i: int| IpAddress::V4((start + i) as u32))
}

/// All addresses of the IPv6 block containing `a` with prefix `p`.
pub open spec fn v6_block(a: u128, p: nat) -> Seq<IpAddress> {
    let host = pow2((128 - p) as nat);
    let start = (a as nat / host) * host;
    Seq::new(host, |i: int| IpAddress::V6((start + i) as u128))
}

proof fn lemma_block_bounds(a: nat, h: nat, q: nat)
    requires
        h >= 1,
        a < h * q,
    ensures
        (a / h) * h <= a,
        (a / h) * h + h <= h * q,
        a < (a / h) * h + h,
    decreases 0nat,
{
    lemma_fundamental_div_mod(a as int, h as int);
    lemma_mod_bound(a as int, h as int);
    let d = a / h;
    assert(a == h * d + a % h);
    if d >= q {
        lemma_mul_inequality(q as int, d as int, h as int);
        assert(q * h <= d * h);
        assert(h * d == d * h) by (nonlinear_arith);
        assert(q * h == h * q) by (nonlinear_arith);
        assert(false);
    }
    lemma_mul_inequality(d as int + 1, q as int, h as int);
    assert((d + 1) * h == d * h + h) by (nonlinear_arith);
    assert(h * d == d * h) by (nonlinear_arith);
    assert(q * h == h * q) by (nonlinear_arith);
}

/// Expands an IPv4 CIDR block.
fn expand_v4_block(a: u32, p: u8) -> (r: Vec<IpAddress>)
    requires
        p <= 32,
    ensures
        r@ == v4_block(a, p as nat),
{
    let mut host: u64 = 1;
    let mut e: u8 = 0;
    proof {
        lemma2_to64();
    }
    while e < 32 - p
        invariant
            p <= 32,
            e <= 32 - p,
            host == pow2(e as nat),
        decreases 32 - p - e,
    {
        proof {
            lemma2_to64();
            lemma_pow2_adds(1, e as nat);
            if e + 1 < 32 {
                lemma_pow2_strictly_increases(e as nat + 1, 32);
            }
        }
        host = host * 2;
        e += 1;
    }
    let ghost h = pow2((32 - p) as nat);
    proof {
        lemma_pow2_adds((32 - p) as nat, p as nat);
        lemma_pow2_pos(p as nat);
        lemma_pow2_pos((32 - p) as nat);
        lemma2_to64();
        lemma_mul_inequality(1, pow2(p as nat) as int, h as int);
        assert(h * pow2(p as nat) == pow2(32));
        lemma_block_bounds(a as nat, h, pow2(p as nat));
    }
    let start: u64 = (a as u64) / host * host;
    let last: u64 = start + (host - 1);
    proof {
        assert(start == (a as nat / h) * h);
        assert(last < 0x1_0000_0000);
    }
    let ghost block = v4_block(a, p as nat);
    let mut out: Vec<IpAddress> = Vec::new();
    let mut cur: u64 = start;
    let mut done = false;
    while !done
        invariant
            host == h,
            start == (a as nat / h) * h,
            start + host - 1 == last,
            last < 0x1_0000_0000,
            block == v4_block(a, p as nat),
            block.len() == host,
            forall|i: int| 0 <= i < host ==> block[i] == IpAddress::V4((start + i) as u32),
            !done ==> start <= cur <= last,
            !done ==> out@ =~= block.take(cur - start),
            done ==> out@ =~= block,
        decreases last - cur + (if done { 0int } else { 1int }),
    {
        out.push(IpAddress::V4(cur as u32));
        proof {
            assert(block.take(cur - start + 1) =~= block.take(cur - start).push(
                block[cur - start],
            ));
        }
        if cur == last {
            proof {
                assert(block.take(cur - start + 1) =~= block);
            }
            done = true;
        } else {
            cur += 1;
        }
    }
    out
}

/// Expands an IPv6 CIDR block.
fn expand_v6_block(a: u128, p: u8) -> (r: Vec<IpAddress>)
    requires
        p <= 128,
    ensures
        r@ == v6_block(a, p as nat),
{
    let ghost h = pow2((128 - p) as nat);
    proof {
        lemma_pow2_pos((128 - p) as nat);
    }
    let start: u128;
    let last: u128;
    if p == 0 {
        start = 0;
        last = u128::MAX;
        proof {
            assert(pow2(128) == 0x1_0000_0000_0000_0000_0000_0000_0000_0000) by {
                lemma2_to64_rest();
                lemma_pow2_adds(64, 64);
            }
            assert(a as nat / h == 0) by {
                lemma_fundamental_div_mod(a as int, h as int);
                lemma_mod_bound(a as int, h as int);
                if a as nat / h >= 1 {
                    lemma_mul_inequality(1, (a as nat / h) as int, h as int);
                    assert(h * (a as nat / h) == (a as nat / h) * h) by (nonlinear_arith);
                }
            }
        }
    } else {
        let mut host: u128 = 1;
        let mut e: u8 = 0;
        proof {
            lemma2_to64();
        }
        while e < 128 - p
            invariant
                1 <= p <= 128,
                e <= 128 - p,
                host == pow2(e as nat),
            decreases 128 - p - e,
        {
            proof {
                lemma2_to64();
                lemma_pow2_adds(1, e as nat);
                if e + 1 < 128 {
                    lemma_pow2_strictly_increases(e as nat + 1, 128);
                }
                assert(pow2(128) == 0x1_0000_0000_0000_0000_0000_0000_0000_0000) by {
                    lemma2_to64_rest();
                    lemma_pow2_adds(64, 64);
                }
            }
            host = host * 2;
            e += 1;
        }
        proof {
            lemma_pow2_adds((128 - p) as nat, p as nat);
            lemma_pow2_pos(p as nat);
            assert(pow2(128) == 0x1_0000_0000_0000_0000_0000_0000_0000_0000) by {
                lemma2_to64_rest();
                lemma_pow2_adds(64, 64);
            }
            lemma_mul_inequality(1, pow2(p as nat) as int, h as int);
            assert(h * pow2(p as nat) == pow2(128));
            lemma_block_bounds(a as nat, h, pow2(p as nat));
        }
        start = a / host * host;
        last = start + (host - 1);
        proof {
            assert(start == (a as nat / h) * h);
        }
    }
    let ghost block = v6_block(a, p as nat);
    proof {
        assert(block.len() == h);
        assert(start + h - 1 == last);
    }
    let mut out: Vec<IpAddress> = Vec::new();
    let mut cur: u128 = start;
    let mut done = false;
    while !done
        invariant
            start == (a as nat / h) * h,
            start + h - 1 == last,
            block == v6_block(a, p as nat),
            block.len() == h,
            forall|i: int| 0 <= i < h ==> block[i] == IpAddress::V6((start + i) as u128),
            !done ==> start <= cur <= last,
            !done ==> out@ =~= block.take(cur - start),
            done ==> out@ =~= block,
        decreases last - cur + (if done { 0int } else { 1int }),
    {
        out.push(IpAddress::V6(cur));
        proof {
            assert(block.take(cur - start + 1) =~= block.take(cur - start).push(
                block[cur - start],
            ));
        }
        if cur == last {
            proof {
                assert(block.take(cur - start + 1) =~= block);
            }
            done = true;
        } else {
            cur += 1;
        }
    }
    out
}

// ---- dash ranges ----

/// The ascending IPv4 range from `x` to `y` inclusive; empty when `x > y`.
pub open spec fn v4_range(x: u32, y: u32) -> Seq<IpAddress> {
    if x <= y {
        Seq::new((y - x + 1) as nat, |i: int| IpAddress::V4((x + i) as u32))
    } else {
        Seq::empty()
    }
}

/// The IPv6 range from `x` to `y`: only the lowest 16-bit segment may vary,
/// the upper seven segments must match; anything else yields no addresses.
pub open spec fn v6_range(x: u128, y: u128) -> Seq<IpAddress> {
    if x / 0x10000 == y / 0x10000 && x % 0x10000 <= y % 0x10000 {
        Seq::new((y - x + 1) as nat, |i: int| IpAddress::V6((x + i) as u128))
    } else {
        Seq::empty()
    }
}

fn expand_v4_range(x: u32, y: u32) -> (r: Vec<IpAddress>)
    ensures
        r@ == v4_range(x, y),
{
    let mut out: Vec<IpAddress> = Vec::new();
    if x > y {
        proof {
            assert(out@ =~= v4_range(x, y));
        }
        return out;
    }
    let ghost block = v4_range(x, y);
    let mut cur: u32 = x;
    let mut done = false;
    while !done
        invariant
            x <= y,
            block == v4_range(x, y),
            block.len() == y - x + 1,
            forall|i: int| 0 <= i < block.len() ==> block[i] == IpAddress::V4((x + i) as u32),
            !done ==> x <= cur <= y,
            !done ==> out@ =~= block.take(cur - x),
            done ==> out@ =~= block,
        decreases y - cur + (if done { 0int } else { 1int }),
    {
        out.push(IpAddress::V4(cur));
        proof {
            assert(block.take(cur - x + 1) =~= block.take(cur - x).push(block[cur - x]));
        }
        if cur == y {
            proof {
                assert(block.take(cur - x + 1) =~= block);
            }
            done = true;
        } else {
            cur += 1;
        }
    }
    out
}

fn expand_v6_range(x: u128, y: u128) -> (r: Vec<IpAddress>)
    ensures
        r@ == v6_range(x, y),
{
    let mut out: Vec<IpAddress> = Vec::new();
    if !(x / 0x10000 == y / 0x10000 && x % 0x10000 <= y % 0x10000) {
        proof {
            assert(out@ =~= v6_range(x, y));
        }
        return out;
    }
    proof {
        lemma_fundamental_div_mod(x as int, 0x10000);
        lemma_fundamental_div_mod(y as int, 0x10000);
    }
    let ghost block = v6_range(x, y);
    let mut cur: u128 = x;
    let mut done = false;
    while !done
        invariant
            x <= y,
            block == v6_range(x, y),
            block.len() == y - x + 1,
            forall|i: int| 0 <= i < block.len() ==> block[i] == IpAddress::V6((x + i) as u128),
            !done ==> x <= cur <= y,
            !done ==> out@ =~= block.take(cur - x),
            done ==> out@ =~= block,
        decreases y - cur + (if done { 0int } else { 1int }),
    {
        out.push(IpAddress::V6(cur));
        proof {
            assert(block.take(cur - x + 1) =~= block.take(cur - x).push(block[cur - x]));
        }
        if cur == y {
            proof {
                assert(block.take(cur - x + 1) =~= block);
            }
            done = true;
        } else {
            cur += 1;
        }
    }
    out
}

// ---- atoms ----

/// What a CIDR atom denotes: the base address and the prefix length.
pub open spec fn cidr_of(a: Seq<char>) -> Option<(IpAddress, nat)> {
    let ps = split_on(a, '/');
    if ps.len() == 2 {
        if ipv4_of(ps[0]) is Some {
            match prefix4_of(ps[1]) {
                Some(p) => Some((IpAddress::V4(ipv4_of(ps[0]) -> 0), p)),
                None => None,
            }
        } else if ipv6_of(ps[0]) is Some {
            match prefix6_of(ps[1]) {
                Some(p) => Some((IpAddress::V6(ipv6_of(ps[0]) -> 0), p)),
                None => None,
            }
        } else {
            None
        }
    } else {
        None
    }
}

/// The addresses one (already trimmed) atom expands to, or why it is
/// rejected: a CIDR block, a dash range with trimmed endpoints of one
/// version, or a single address.
pub open spec fn atom_addrs(a: Seq<char>) -> Result<Seq<IpAddress>, ParseIssue> {
    if has_char(a, '/') {
        match cidr_of(a) {
            Some((IpAddress::V4(v), p)) => Ok(v4_block(v, p)),
            Some((IpAddress::V6(v), p)) => Ok(v6_block(v, p)),
            None => Err(ParseIssue::InvalidCidr { token: a }),
        }
    } else if has_char(a, '-') {
        let ps = split_on(a, '-');
        if ps.len() != 2 {
            Err(ParseIssue::InvalidRange { token: a })
        } else {
            let t0 = trim_spec(ps[0]);
            let t1 = trim_spec(ps[1]);
            match ip_of(t0) {
                None => Err(ParseIssue::InvalidAddress { token: t0 }),
                Some(s) => match ip_of(t1) {
                    None => Err(ParseIssue::InvalidAddress { token: t1 }),
                    Some(e) => match (s, e) {
                        (IpAddress::V4(x), IpAddress::V4(y)) => Ok(v4_range(x, y)),
                        (IpAddress::V6(x), IpAddress::V6(y)) => Ok(v6_range(x, y)),
                        _ => Err(ParseIssue::VersionMismatch),
                    },
                },
            }
        }
    } else {
        match ip_of(a) {
            Some(ip) => Ok(seq![ip]),
            None => Err(ParseIssue::InvalidAddress { token: a }),
        }
    }
}

/// Expands one atom, mirroring `atom_addrs`.
fn atom_to_addrs(a: &str) -> (r: Result<Vec<IpAddress>, ParseError>)
    ensures
        match r {
            Ok(v) => atom_addrs(a@) matches Ok(s) && v@ == s,
            Err(e) => atom_addrs(a@) matches Err(i) && e@ == i,
        },
{
    if contains_char(a, '/') {
        let ps = split_str(a, '/');
        proof {
            if split_on(a@, '/').len() == 2 {
                assert(ps.deep_view()[0] == ps@[0]@);
                assert(ps.deep_view()[1] == ps@[1]@);
            }
        }
        if ps.len() != 2 {
            return Err(ParseError::InvalidCidr { token: a.to_owned() });
        }
        match parse_ipv4(ps[0].as_str()) {
            Some(v) => {
                match parse_prefix4(ps[1].as_str()) {
                    Some(p) => Ok(expand_v4_block(v, p)),
                    None => Err(ParseError::InvalidCidr { token: a.to_owned() }),
                }
            },
            None => {
                match parse_ipv6(ps[0].as_str()) {
                    Some(v) => {
                        match parse_prefix6(ps[1].as_str()) {
                            Some(p) => Ok(expand_v6_block(v, p)),
                            None => Err(ParseError::InvalidCidr { token: a.to_owned() }),
                        }
                    },
                    None => Err(ParseError::InvalidCidr { token: a.to_owned() }),
                }
            },
        }
    } else if contains_char(a, '-') {
        let ps = split_str(a, '-');
        proof {
            if split_on(a@, '-').len() == 2 {
                assert(ps.deep_view()[0] == ps@[0]@);
                assert(ps.deep_view()[1] == ps@[1]@);
            }
        }
        if ps.len() != 2 {
            return Err(ParseError::InvalidRange { token: a.to_owned() });
        }
        let t0 = trim_str(ps[0].as_str());
        let t1 = trim_str(ps[1].as_str());
        let s = match parse_ip(t0.as_str()) {
            Some(ip) => ip,
            None => { return Err(ParseError::InvalidAddress { token: t0 }) },
        };
        let e = match parse_ip(t1.as_str()) {
            Some(ip) => ip,
            None => { return Err(ParseError::InvalidAddress { token: t1 }) },
        };
        match (s, e) {
            (IpAddress::V4(x), IpAddress::V4(y)) => Ok(expand_v4_range(x, y)),
            (IpAddress::V6(x), IpAddress::V6(y)) => Ok(expand_v6_range(x, y)),
            _ => Err(ParseError::VersionMismatch),
        }
    } else {
        match parse_ip(a) {
            Some(ip) => {
                let mut out: Vec<IpAddress> = Vec::new();
                out.push(ip);
                proof {
                    assert(out@ =~= seq![ip]);
                }
                Ok(out)
            },
            None => Err(ParseError::InvalidAddress { token: a.to_owned() }),
        }
    }
}

// ---- whole specifications ----

/// The trimmed comma-separated atoms of a target specification.
pub open spec fn atoms_of(s: Seq<char>) -> Seq<Seq<char>> {
    split_on(s, ',').map_values(|a: Seq<char>| trim_spec(a))
}

/// Concatenated expansions of the atoms from `i` on; the first rejected atom
/// aborts resolution.
pub open spec fn resolve_atoms(atoms: Seq<Seq<char>>, i: int) -> Result<Seq<IpAddress>, ParseIssue>
    decreases atoms.len() - i when 0 <= i <= atoms.len()
{
    if i >= atoms.len() {
        Ok(Seq::empty())
    } else {
        match atom_addrs(atoms[i]) {
            Err(e) => Err(e),
            Ok(s) => match resolve_atoms(atoms, i + 1) {
                Ok(rest) => Ok(s + rest),
                Err(e) => Err(e),
            },
        }
    }
}

/// Every address a target specification names, in expansion order, before
/// deduplication.
pub open spec fn raw_targets(s: Seq<char>) -> Result<Seq<IpAddress>, ParseIssue> {
    resolve_atoms(atoms_of(s), 0)
}

/// `s` with every repeated element removed, keeping first occurrences.
pub open spec fn dedup_seq<A>(s: Seq<A>) -> Seq<A>
    decreases s.len()
{
    if s.len() == 0 {
        Seq::empty()
    } else {
        let pre = dedup_seq(s.drop_last());
        if pre.contains(s.last()) {
            pre
        } else {
            pre.push(s.last())
        }
    }
}

/// What target resolution returns: the expansion, deduplicated.
pub open spec fn resolved_targets(s: Seq<char>) -> Result<Seq<IpAddress>, ParseIssue> {
    match raw_targets(s) {
        Ok(r) => Ok(dedup_seq(r)),
        Err(e) => Err(e),
    }
}

proof fn lemma_contains_push<A>(s: Seq<A>, x: A, y: A)
    ensures
        s.push(x).contains(y) <==> (s.contains(y) || y == x),
{
    if s.push(x).contains(y) {
        let k = choose|k: int| 0 <= k < s.push(x).len() && s.push(x)[k] == y;
        if k < s.len() {
            assert(s[k] == y);
        }
    }
    if s.contains(y) {
        let k = choose|k: int| 0 <= k < s.len() && s[k] == y;
        assert(s.push(x)[k] == y);
    }
    assert(s.push(x)[s.len() as int] == x);
}

/// Appends `x` to a deduplicated list unless it is already there, keeping the
/// membership sets in step.
fn push_unique(
    out: &mut Vec<IpAddress>,
    seen4: &mut std::collections::HashSet<u32>,
    seen6: &mut std::collections::HashSet<u128>,
    x: IpAddress,
    Ghost(raw): Ghost<Seq<IpAddress>>,
)
    requires
        old(out)@ == dedup_seq(raw),
        forall|w: u32| old(seen4)@.contains(w) <==> old(out)@.contains(IpAddress::V4(w)),
        forall|w: u128| old(seen6)@.contains(w) <==> old(out)@.contains(IpAddress::V6(w)),
    ensures
        final(out)@ == dedup_seq(raw.push(x)),
        forall|w: u32| final(seen4)@.contains(w) <==> final(out)@.contains(IpAddress::V4(w)),
        forall|w: u128| final(seen6)@.contains(w) <==> final(out)@.contains(IpAddress::V6(w)),
{
    broadcast use vstd::std_specs::hash::group_hash_axioms;

    let ghost pre = out@;
    proof {
        assert(raw.push(x).drop_last() =~= raw);
        assert(raw.push(x).last() == x);
    }
    let fresh: bool;
    match &x {
        IpAddress::V4(a) => {
            fresh = seen4.insert(*a);
        },
        IpAddress::V6(a) => {
            fresh = seen6.insert(*a);
        },
    }
    proof {
        if fresh {
            assert(!pre.contains(x));
        } else {
            assert(pre.contains(x));
        }
    }
    if fresh {
        out.push(x);
        proof {
            assert forall|w: u32|
                seen4@.contains(w) <==> out@.contains(IpAddress::V4(w)) by {
                lemma_contains_push(pre, x, IpAddress::V4(w));
            }
            assert forall|w: u128|
                seen6@.contains(w) <==> out@.contains(IpAddress::V6(w)) by {
                lemma_contains_push(pre, x, IpAddress::V6(w));
            }
        }
    }
}

/// Expands one atom and folds its addresses into the deduplicated output.
fn consume_atom(
    out: &mut Vec<IpAddress>,
    seen4: &mut std::collections::HashSet<u32>,
    seen6: &mut std::collections::HashSet<u128>,
    atom: &str,
    Ghost(raw): Ghost<Seq<IpAddress>>,
) -> (r: Result<Ghost<Seq<IpAddress>>, ParseError>)
    requires
        old(out)@ == dedup_seq(raw),
        forall|w: u32| old(seen4)@.contains(w) <==> old(out)@.contains(IpAddress::V4(w)),
        forall|w: u128| old(seen6)@.contains(w) <==> old(out)@.contains(IpAddress::V6(w)),
    ensures
        match r {
            Ok(g) => {
                &&& atom_addrs(atom@) matches Ok(s) && g@ == raw + s
                &&& final(out)@ == dedup_seq(g@)
                &&& forall|w: u32|
                    final(seen4)@.contains(w) <==> final(out)@.contains(IpAddress::V4(w))
                &&& forall|w: u128|
                    final(seen6)@.contains(w) <==> final(out)@.contains(IpAddress::V6(w))
            },
            Err(e) => atom_addrs(atom@) matches Err(i) && e@ == i,
        },
{
    let v = match atom_to_addrs(atom) {
        Ok(v) => v,
        Err(e) => { return Err(e) },
    };
    let ghost mut cur = raw;
    let mut j: usize = 0;
    proof {
        assert(raw + v@.take(0) =~= raw);
    }
    while j < v.len()
        invariant
            j <= v@.len(),
            cur == raw + v@.take(j as int),
            out@ == dedup_seq(cur),
            forall|w: u32| seen4@.contains(w) <==> out@.contains(IpAddress::V4(w)),
            forall|w: u128| seen6@.contains(w) <==> out@.contains(IpAddress::V6(w)),
        decreases v@.len() - j,
    {
        let x = v[j];
        push_unique(out, seen4, seen6, x, Ghost(cur));
        proof {
            assert(cur.push(x) =~= raw + v@.take(j as int + 1));
            cur = cur.push(x);
        }
        j += 1;
    }
    proof {
        assert(v@.take(v@.len() as int) =~= v@);
    }
    Ok(Ghost(cur))
}

/// Parses a target specification into the addresses it names.
pub struct TargetResolver;

impl TargetResolver {
    /// Expands every atom in order and removes duplicate addresses; the first
    /// malformed atom aborts resolution with its rejection.
    #[verifier::rlimit(100)]
    pub fn resolve(spec_text: &str) -> (r: Result<Vec<IpAddress>, ParseError>)
        ensures
            match r {
                Ok(v) => resolved_targets(spec_text@) matches Ok(s) && v@ == s,
                Err(e) => resolved_targets(spec_text@) matches Err(i) && e@ == i,
            },
    {
        let parts = split_str(spec_text, ',');
        let ghost adv = atoms_of(spec_text@);
        let mut atoms: Vec<String> = Vec::new();
        let mut t: usize = 0;
        while t < parts.len()
            invariant
                parts.deep_view() == split_on(spec_text@, ','),
                adv == atoms_of(spec_text@),
                adv.len() == parts@.len(),
                t <= parts@.len(),
                atoms@.len() == t,
                forall|k: int| 0 <= k < t ==> #[trigger] atoms@[k]@ == adv[k],
            decreases parts@.len() - t,
        {
            proof {
                assert(parts.deep_view()[t as int] == parts@[t as int]@);
                assert(adv[t as int] == trim_spec(parts@[t as int]@));
            }
            atoms.push(trim_str(parts[t].as_str()));
            t += 1;
        }
        let mut out: Vec<IpAddress> = Vec::new();
        let mut seen4: std::collections::HashSet<u32> = std::collections::HashSet::new();
        let mut seen6: std::collections::HashSet<u128> = std::collections::HashSet::new();
        let ghost mut raw: Seq<IpAddress> = Seq::empty();
        let mut i: usize = 0;
        proof {
            if resolve_atoms(adv, 0) is Ok {
                let rest = resolve_atoms(adv, 0) -> Ok_0;
                assert(raw + rest =~= rest);
            }
        }
        while i < atoms.len()
            invariant
                adv == atoms_of(spec_text@),
                forall|k: int| 0 <= k < adv.len() ==> #[trigger] atoms@[k]@ == adv[k],
                atoms@.len() == adv.len(),
                i <= adv.len(),
                resolve_atoms(adv, i as int) matches Ok(rest) ==> resolve_atoms(adv, 0) == Ok::<
                    Seq<IpAddress>,
                    ParseIssue,
                >(raw + rest),
                resolve_atoms(adv, i as int) is Err ==> resolve_atoms(adv, 0) == resolve_atoms(
                    adv,
                    i as int,
                ),
                out@ == dedup_seq(raw),
                forall|v: u32| seen4@.contains(v) <==> out@.contains(IpAddress::V4(v)),
                forall|v: u128| seen6@.contains(v) <==> out@.contains(IpAddress::V6(v)),
            decreases adv.len() - i,
        {
            proof {
                assert(adv[i as int] == atoms@[i as int]@);
            }
            match consume_atom(&mut out, &mut seen4, &mut seen6, atoms[i].as_str(), Ghost(raw)) {
                Err(e) => {
                    return Err(e);
                },
                Ok(g) => {
                    proof {
                        let ghost s = atom_addrs(adv[i as int]) -> Ok_0;
                        if resolve_atoms(adv, i as int + 1) is Ok {
                            let rest = resolve_atoms(adv, i as int + 1) -> Ok_0;
                            assert(raw + (s + rest) =~= (raw + s) + rest);
                        }
                        raw = g@;
                    }
                },
            }
            i += 1;
        }
        proof {
            assert(resolve_atoms(adv, adv.len() as int) == Ok::<Seq<IpAddress>, ParseIssue>(
                Seq::empty(),
            ));
            assert(raw + Seq::<IpAddress>::empty() =~= raw);
        }
        Ok(out)
    }
}

// ---- ports ----

/// The ascending port range from `x` to `y` inclusive; empty when `x > y`.
pub open spec fn port_range(x: u16, y: u16) -> Seq<u16> {
    if x <= y {
        Seq::new((y - x + 1) as nat, |i: int| (x + i) as u16)
    } else {
        Seq::empty()
    }
}

fn expand_port_range(x: u16, y: u16) -> (r: Vec<u16>)
    ensures
        r@ == port_range(x, y),
{
    let mut out: Vec<u16> = Vec::new();
    if x > y {
        proof {
            assert(out@ =~= port_range(x, y));
        }
        return out;
    }
    let ghost block = port_range(x, y);
    let mut cur: u16 = x;
    let mut done = false;
    while !done
        invariant
            x <= y,
            block == port_range(x, y),
            block.len() == y - x + 1,
            forall|i: int| 0 <= i < block.len() ==> block[i] == (x + i) as u16,
            !done ==> x <= cur <= y,
            !done ==> out@ =~= block.take(cur - x),
            done ==> out@ =~= block,
        decreases y - cur + (if done { 0int } else { 1int }),
    {
        out.push(cur);
        proof {
            assert(block.take(cur - x + 1) =~= block.take(cur - x).push(block[cur - x]));
        }
        if cur == y {
            proof {
                assert(block.take(cur - x + 1) =~= block);
            }
            done = true;
        } else {
            cur += 1;
        }
    }
    out
}

/// The ports one (untrimmed) atom contributes: a dash range with trimmed
/// endpoints, or a single trimmed port number. A dash atom without exactly
/// two endpoints is no port at all and is rejected as one.
pub open spec fn port_atom(a: Seq<char>) -> Result<Seq<u16>, ParseIssue> {
    if has_char(a, '-') {
        let ps = split_on(a, '-');
        if ps.len() == 2 {
            let t0 = trim_spec(ps[0]);
            let t1 = trim_spec(ps[1]);
            match u16_of(t0) {
                None => Err(ParseIssue::InvalidPort { token: t0 }),
                Some(x) => match u16_of(t1) {
                    None => Err(ParseIssue::InvalidPort { token: t1 }),
                    Some(y) => Ok(port_range(x, y)),
                },
            }
        } else {
            Err(ParseIssue::InvalidPort { token: a })
        }
    } else {
        let ta = trim_spec(a);
        match u16_of(ta) {
            Some(v) => Ok(seq![v]),
            None => Err(ParseIssue::InvalidPort { token: ta }),
        }
    }
}

fn port_atom_to_ports(a: &str) -> (r: Result<Vec<u16>, ParseError>)
    ensures
        match r {
            Ok(v) => port_atom(a@) matches Ok(s) && v@ == s,
            Err(e) => port_atom(a@) matches Err(i) && e@ == i,
        },
{
    if contains_char(a, '-') {
        let ps = split_str(a, '-');
        proof {
            if split_on(a@, '-').len() == 2 {
                assert(ps.deep_view()[0] == ps@[0]@);
                assert(ps.deep_view()[1] == ps@[1]@);
            }
        }
        if ps.len() != 2 {
            return Err(ParseError::InvalidPort { token: a.to_owned() });
        }
        let t0 = trim_str(ps[0].as_str());
        let t1 = trim_str(ps[1].as_str());
        let x = match parse_u16(t0.as_str()) {
            Some(v) => v,
            None => { return Err(ParseError::InvalidPort { token: t0 }) },
        };
        let y = match parse_u16(t1.as_str()) {
            Some(v) => v,
            None => { return Err(ParseError::InvalidPort { token: t1 }) },
        };
        Ok(expand_port_range(x, y))
    } else {
        let ta = trim_str(a);
        match parse_u16(ta.as_str()) {
            Some(v) => {
                let mut out: Vec<u16> = Vec::new();
                out.push(v);
                proof {
                    assert(out@ =~= seq![v]);
                }
                Ok(out)
            },
            None => Err(ParseError::InvalidPort { token: ta }),
        }
    }
}

/// Concatenated port contributions of the atoms from `i` on.
pub open spec fn ports_atoms(atoms: Seq<Seq<char>>, i: int) -> Result<Seq<u16>, ParseIssue>
    decreases atoms.len() - i when 0 <= i <= atoms.len()
{
    if i >= atoms.len() {
        Ok(Seq::empty())
    } else {
        match port_atom(atoms[i]) {
            Err(e) => Err(e),
            Ok(s) => match ports_atoms(atoms, i + 1) {
                Ok(rest) => Ok(s + rest),
                Err(e) => Err(e),
            },
        }
    }
}

/// Every port a port specification names, in order, before deduplication.
pub open spec fn raw_ports(s: Seq<char>) -> Result<Seq<u16>, ParseIssue> {
    ports_atoms(split_on(s, ','), 0)
}

/// The well-known service ports probed when no specification is given.
pub open spec fn default_ports() -> Seq<u16> {
    seq![21u16, 22u16, 23u16, 25u16, 53u16, 80u16, 110u16, 139u16, 443u16, 445u16, 1433u16, 1521u16, 3306u16, 3389u16, 5432u16, 6379u16, 8080u16]
}

/// What port resolution returns: the default list for an absent
/// specification, else the expansion, deduplicated.
pub open spec fn resolved_ports(o: Option<Seq<char>>) -> Result<Seq<u16>, ParseIssue> {
    match o {
        None => Ok(default_ports()),
        Some(s) => match raw_ports(s) {
            Ok(r) => Ok(dedup_seq(r)),
            Err(e) => Err(e),
        },
    }
}

/// Appends `x` unless it is already there, keeping the membership set in step.
fn push_unique_port(
    out: &mut Vec<u16>,
    seen: &mut std::collections::HashSet<u16>,
    x: u16,
    Ghost(raw): Ghost<Seq<u16>>,
)
    requires
        old(out)@ == dedup_seq(raw),
        forall|w: u16| old(seen)@.contains(w) <==> old(out)@.contains(w),
    ensures
        final(out)@ == dedup_seq(raw.push(x)),
        forall|w: u16| final(seen)@.contains(w) <==> final(out)@.contains(w),
{
    broadcast use vstd::std_specs::hash::group_hash_axioms;

    let ghost pre = out@;
    proof {
        assert(raw.push(x).drop_last() =~= raw);
        assert(raw.push(x).last() == x);
    }
    let fresh = seen.insert(x);
    if fresh {
        out.push(x);
        proof {
            assert forall|w: u16| seen@.contains(w) <==> out@.contains(w) by {
                lemma_contains_push(pre, x, w);
            }
        }
    }
}

/// Folds one port atom into the deduplicated output.
fn consume_port_atom(
    out: &mut Vec<u16>,
    seen: &mut std::collections::HashSet<u16>,
    atom: &str,
    Ghost(raw): Ghost<Seq<u16>>,
) -> (r: Result<Ghost<Seq<u16>>, ParseError>)
    requires
        old(out)@ == dedup_seq(raw),
        forall|w: u16| old(seen)@.contains(w) <==> old(out)@.contains(w),
    ensures
        match r {
            Ok(g) => {
                &&& port_atom(atom@) matches Ok(s) && g@ == raw + s
                &&& final(out)@ == dedup_seq(g@)
                &&& forall|w: u16| final(seen)@.contains(w) <==> final(out)@.contains(w)
            },
            Err(e) => port_atom(atom@) matches Err(i) && e@ == i,
        },
{
    let v = match port_atom_to_ports(atom) {
        Ok(v) => v,
        Err(e) => { return Err(e) },
    };
    let ghost mut cur = raw;
    let mut j: usize = 0;
    proof {
        assert(raw + v@.take(0) =~= raw);
    }
    while j < v.len()
        invariant
            j <= v@.len(),
            cur == raw + v@.take(j as int),
            out@ == dedup_seq(cur),
            forall|w: u16| seen@.contains(w) <==> out@.contains(w),
        decreases v@.len() - j,
    {
        let x = v[j];
        push_unique_port(out, seen, x, Ghost(cur));
        proof {
            assert(cur.push(x) =~= raw + v@.take(j as int + 1));
            cur = cur.push(x);
        }
        j += 1;
    }
    proof {
        assert(v@.take(v@.len() as int) =~= v@);
    }
    Ok(Ghost(cur))
}

/// Parses a port specification into the set of ports to probe.
pub struct PortSetResolver;

impl PortSetResolver {
    /// An absent specification resolves to the default well-known ports; a
    /// present one is expanded atom by atom, duplicates removed.
    #[verifier::rlimit(100)]
    pub fn resolve(spec_text: Option<&str>) -> (r: Result<Vec<u16>, ParseError>)
        ensures
            match r {
                Ok(v) => resolved_ports(
                    match spec_text {
                        Some(s) => Some(s@),
                        None => None,
                    },
                ) matches Ok(s) && v@ == s,
                Err(e) => resolved_ports(
                    match spec_text {
                        Some(s) => Some(s@),
                        None => None,
                    },
                ) matches Err(i) && e@ == i,
            },
    {
        let s = match spec_text {
            None => {
                let mut d: Vec<u16> = Vec::new();
                d.push(21);
                d.push(22);
                d.push(23);
                d.push(25);
                d.push(53);
                d.push(80);
                d.push(110);
                d.push(139);
                d.push(443);
                d.push(445);
                d.push(1433);
                d.push(1521);
                d.push(3306);
                d.push(3389);
                d.push(5432);
                d.push(6379);
                d.push(8080);
                proof {
                    assert(d@ =~= default_ports());
                }
                return Ok(d);
            },
            Some(s) => s,
        };
        let atoms = split_str(s, ',');
        let ghost adv = split_on(s@, ',');
        let mut out: Vec<u16> = Vec::new();
        let mut seen: std::collections::HashSet<u16> = std::collections::HashSet::new();
        let ghost mut raw: Seq<u16> = Seq::empty();
        let mut i: usize = 0;
        proof {
            if ports_atoms(adv, 0) is Ok {
                let rest = ports_atoms(adv, 0) -> Ok_0;
                assert(raw + rest =~= rest);
            }
        }
        while i < atoms.len()
            invariant
                spec_text == Some(s),
                adv == split_on(s@, ','),
                atoms.deep_view() == adv,
                atoms@.len() == adv.len(),
                i <= adv.len(),
                ports_atoms(adv, i as int) matches Ok(rest) ==> ports_atoms(adv, 0) == Ok::<
                    Seq<u16>,
                    ParseIssue,
                >(raw + rest),
                ports_atoms(adv, i as int) is Err ==> ports_atoms(adv, 0) == ports_atoms(
                    adv,
                    i as int,
                ),
                out@ == dedup_seq(raw),
                forall|w: u16| seen@.contains(w) <==> out@.contains(w),
            decreases adv.len() - i,
        {
            proof {
                assert(adv[i as int] == atoms@[i as int]@);
            }
            match consume_port_atom(&mut out, &mut seen, atoms[i].as_str(), Ghost(raw)) {
                Err(e) => {
                    return Err(e);
                },
                Ok(g) => {
                    proof {
                        let ghost q = port_atom(adv[i as int]) -> Ok_0;
                        if ports_atoms(adv, i as int + 1) is Ok {
                            let rest = ports_atoms(adv, i as int + 1) -> Ok_0;
                            assert(raw + (q + rest) =~= (raw + q) + rest);
                        }
                        raw = g@;
                    }
                },
            }
            i += 1;
        }
        proof {
            assert(ports_atoms(adv, adv.len() as int) == Ok::<Seq<u16>, ParseIssue>(Seq::empty()));
            assert(raw + Seq::<u16>::empty() =~= raw);
        }
        Ok(out)
    }
}

// ---- laws ----

/// Law: resolution never yields duplicates — what `dedup_seq` returns holds
/// each element at most once, and exactly the elements of its input. Both
/// target and port resolution return their expansion in this form.
pub proof fn lemma_dedup_sound<A>(s: Seq<A>)
    ensures
        forall|i: int, j: int|
            0 <= i < j < dedup_seq(s).len() ==> dedup_seq(s)[i] != dedup_seq(s)[j],
        forall|x: A| dedup_seq(s).contains(x) <==> s.contains(x),
    decreases s.len(),
{
    if s.len() > 0 {
        let pre = dedup_seq(s.drop_last());
        let last = s.last();
        lemma_dedup_sound(s.drop_last());
        assert forall|x: A| dedup_seq(s).contains(x) <==> s.contains(x) by {
            lemma_contains_push(pre, last, x);
            lemma_contains_push(s.drop_last(), last, x);
            assert(s.drop_last().push(last) =~= s);
            if s.drop_last().contains(x) {
                let k = choose|k: int|
                    0 <= k < s.drop_last().len() && s.drop_last()[k] == x;
                assert(s[k] == x);
            }
            if s.contains(x) && x != last {
                let k = choose|k: int| 0 <= k < s.len() && s[k] == x;
                assert(s.drop_last()[k] == x);
            }
        }
        if !pre.contains(last) {
            assert forall|i: int, j: int|
                0 <= i < j < dedup_seq(s).len() implies dedup_seq(s)[i] != dedup_seq(s)[j] by {
                if j == dedup_seq(s).len() - 1 {
                    assert(dedup_seq(s)[i] == pre[i]);
                    assert(pre.contains(pre[i]));
                }
            }
        }
    }
}

proof fn lemma_dedup_distinct<A>(s: Seq<A>)
    requires
        forall|i: int, j: int| 0 <= i < j < s.len() ==> s[i] != s[j],
    ensures
        dedup_seq(s) == s,
    decreases s.len(),
{
    if s.len() > 0 {
        lemma_dedup_distinct(s.drop_last());
        if s.drop_last().contains(s.last()) {
            let k = choose|k: int|
                0 <= k < s.drop_last().len() && s.drop_last()[k] == s.last();
            assert(s[k] == s[s.len() - 1]);
            assert(false);
        }
        assert(s.drop_last().push(s.last()) =~= s);
    }
}

proof fn lemma_split_two_has_char(a: Seq<char>, c: char)
    requires
        split_on(a, c).len() >= 2,
    ensures
        has_char(a, c),
{
    if find_from(a, c, 0) == a.len() {
        assert(split_on(a, c).len() == 1);
    }
    crate::text::lemma_find_from_bounds(a, c, 0);
}

proof fn lemma_netmask_prefix_bound(m: u32, q: nat, p: nat)
    requires
        netmask_prefix4_from(m, q) == Some(p),
        q <= 33,
    ensures
        q <= p <= 32,
    decreases 33 - q,
{
    if q <= 32 && mask4(q) != m {
        lemma_netmask_prefix_bound(m, q + 1, p);
    }
}

/// Bounds that hold of every parsed CIDR atom: the prefix never exceeds the
/// address width.
pub proof fn lemma_cidr_prefix_bound(a: Seq<char>, ip: IpAddress, p: nat)
    requires
        cidr_of(a) == Some((ip, p)),
    ensures
        ip is V4 ==> p <= 32,
        ip is V6 ==> p <= 128,
{
    let ps = split_on(a, '/');
    if ipv4_of(ps[0]) is Some {
        if prefix4_of(ps[1]) == Some(p) {
            if ipv4_of(ps[1]) is Some {
                lemma_netmask_prefix_bound(ipv4_of(ps[1]) -> 0, 0, p);
            }
        }
    }
}

/// Law: a target specification that is one CIDR atom resolves to exactly the
/// addresses of that block, in ascending order, each exactly once, whatever
/// the block size.
pub proof fn lemma_cidr_resolution(s: Seq<char>, ip: IpAddress, p: nat)
    requires
        atoms_of(s).len() == 1,
        cidr_of(atoms_of(s)[0]) == Some((ip, p)),
    ensures
        ({
            let block = match ip {
                IpAddress::V4(v) => v4_block(v, p),
                IpAddress::V6(v) => v6_block(v, p),
            };
            &&& resolved_targets(s) == Ok::<Seq<IpAddress>, ParseIssue>(block)
            &&& forall|i: int, j: int| 0 <= i < j < block.len() ==> block[i] != block[j]
        }),
{
    let atoms = atoms_of(s);
    let a = atoms[0];
    lemma_split_two_has_char(a, '/');
    lemma_cidr_prefix_bound(a, ip, p);
    let block = match ip {
        IpAddress::V4(v) => v4_block(v, p),
        IpAddress::V6(v) => v6_block(v, p),
    };
    assert(atom_addrs(a) == Ok::<Seq<IpAddress>, ParseIssue>(block));
    assert(resolve_atoms(atoms, 1) == Ok::<Seq<IpAddress>, ParseIssue>(Seq::empty()));
    assert(block + Seq::<IpAddress>::empty() =~= block);
    assert(raw_targets(s) == Ok::<Seq<IpAddress>, ParseIssue>(block));
    match ip {
        IpAddress::V4(v) => {
            let h = pow2((32 - p) as nat);
            let q = pow2(p as nat);
            lemma_pow2_pos((32 - p) as nat);
            lemma_pow2_pos(p as nat);
            lemma_pow2_adds((32 - p) as nat, p as nat);
            lemma2_to64();
            lemma2_to64_rest();
            lemma_mul_inequality(1, q as int, h as int);
            lemma_block_bounds(v as nat, h, q);
            let start = (v as nat / h) * h;
            assert forall|i: int, j: int| 0 <= i < j < block.len() implies block[i]
                != block[j] by {
                assert(start + h <= h * q);
                assert(block[i] == IpAddress::V4((start + i) as u32));
                assert(block[j] == IpAddress::V4((start + j) as u32));
                assert(start + i < start + h);
                assert((start + i) as u32 == start + i);
                assert((start + j) as u32 == start + j);
            }
            lemma_dedup_distinct(block);
        },
        IpAddress::V6(v) => {
            let h = pow2((128 - p) as nat);
            let q = pow2(p as nat);
            lemma_pow2_pos((128 - p) as nat);
            lemma_pow2_pos(p as nat);
            lemma_pow2_adds((128 - p) as nat, p as nat);
            assert(pow2(128) == 0x1_0000_0000_0000_0000_0000_0000_0000_0000) by {
                lemma2_to64_rest();
                lemma_pow2_adds(64, 64);
            }
            lemma_mul_inequality(1, q as int, h as int);
            lemma_block_bounds(v as nat, h, q);
            let start = (v as nat / h) * h;
            assert forall|i: int, j: int| 0 <= i < j < block.len() implies block[i]
                != block[j] by {
                assert(start + h <= h * q);
                assert(block[i] == IpAddress::V6((start + i) as u128));
                assert(block[j] == IpAddress::V6((start + j) as u128));
                assert(start + i < start + h);
                assert((start + i) as u128 == start + i);
                assert((start + j) as u128 == start + j);
            }
            lemma_dedup_distinct(block);
        },
    }
}

/// Law: a target specification that is one IPv4 dash range resolves to
/// exactly the ascending run from its first to its second endpoint, each
/// address once; when the first endpoint is above the second, it resolves to
/// no addresses at all, not an error.
pub proof fn lemma_range_resolution(s: Seq<char>, x: u32, y: u32)
    requires
        atoms_of(s).len() == 1,
        !has_char(atoms_of(s)[0], '/'),
        split_on(atoms_of(s)[0], '-').len() == 2,
        ip_of(trim_spec(split_on(atoms_of(s)[0], '-')[0])) == Some(IpAddress::V4(x)),
        ip_of(trim_spec(split_on(atoms_of(s)[0], '-')[1])) == Some(IpAddress::V4(y)),
    ensures
        resolved_targets(s) == Ok::<Seq<IpAddress>, ParseIssue>(v4_range(x, y)),
        x > y ==> v4_range(x, y) == Seq::<IpAddress>::empty(),
        x <= y ==> v4_range(x, y).len() == y - x + 1,
        forall|i: int|
            0 <= i < v4_range(x, y).len() ==> v4_range(x, y)[i] == IpAddress::V4((x + i) as u32),
        forall|i: int, j: int|
            0 <= i < j < v4_range(x, y).len() ==> v4_range(x, y)[i] != v4_range(x, y)[j],
{
    let atoms = atoms_of(s);
    let a = atoms[0];
    lemma_split_two_has_char(a, '-');
    let block = v4_range(x, y);
    assert(atom_addrs(a) == Ok::<Seq<IpAddress>, ParseIssue>(block));
    assert(resolve_atoms(atoms, 1) == Ok::<Seq<IpAddress>, ParseIssue>(Seq::empty()));
    assert(block + Seq::<IpAddress>::empty() =~= block);
    assert(raw_targets(s) == Ok::<Seq<IpAddress>, ParseIssue>(block));
    assert forall|i: int, j: int| 0 <= i < j < block.len() implies block[i] != block[j] by {
        assert(block[i] == IpAddress::V4((x + i) as u32));
        assert(block[j] == IpAddress::V4((x + j) as u32));
    }
    lemma_dedup_distinct(block);
}

} // verus!
