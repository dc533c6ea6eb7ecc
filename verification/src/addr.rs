//! IP addresses as plain values: an IPv4 address is its 32-bit value, an IPv6
//! address its 128-bit value. The textual grammars match the standard
//! library's address parsers: four decimal octets without leading zeros for
//! IPv4; colon-separated hexadecimal groups with at most one `::` and an
//! optional embedded IPv4 tail for IPv6.

use vstd::prelude::*;
use vstd::string::*;
use crate::text::{all_dec, dec_val, dec_digit_val, is_dec_digit, split_on, split_str};

verus! {

/// An IP address, compared and deduplicated by exact value.
#[derive(Clone, Copy, Debug, PartialEq, Eq, Hash, Structural)]
pub enum IpAddress {
    V4(u32),
    V6(u128),
}

impl IpAddress {
    /// True of IPv4 addresses; a dash range may not mix the two versions.
    pub open spec fn spec_is_v4(self) -> bool {
        self is V4
    }

    pub fn is_v4(&self) -> (r: bool)
        ensures
            r == self.spec_is_v4(),
    {
        match self {
            IpAddress::V4(_) => true,
            IpAddress::V6(_) => false,
        }
    }
}

// ---- IPv4 ----

/// Value of one dotted-quad octet: one to three decimal digits, no leading
/// zero, at most 255.
pub open spec fn octet_of(g: Seq<char>) -> Option<u8> {
    if 1 <= g.len() <= 3 && all_dec(g) && !(g.len() > 1 && g[0] == '0') && dec_val(g) <= 255 {
        Some(dec_val(g) as u8)
    } else {
        None
    }
}

/// The 32-bit value of four octets, most significant first.
pub open spec fn v4_value(o0: u8, o1: u8, o2: u8, o3: u8) -> u32 {
    (o0 * 0x1000000 + o1 * 0x10000 + o2 * 0x100 + o3) as u32
}

/// What `Ipv4Addr::from_str` accepts: exactly four octets joined by dots.
pub open spec fn ipv4_of(s: Seq<char>) -> Option<u32> {
    let ps = split_on(s, '.');
    if ps.len() == 4 && octet_of(ps[0]) is Some && octet_of(ps[1]) is Some && octet_of(ps[2]) is Some
        && octet_of(ps[3]) is Some {
        Some(v4_value(octet_of(ps[0]) -> 0, octet_of(ps[1]) -> 0, octet_of(ps[2]) -> 0, octet_of(ps[3]) -> 0))
    } else {
        None
    }
}

/// Parses one octet of a dotted quad.
fn parse_octet(p: &str) -> (r: Option<u8>)
    ensures
        r == octet_of(p@),
{
    let n = p.unicode_len();
    if n < 1 || n > 3 {
        return None;
    }
    let mut acc: u16 = 0;
    let mut i: usize = 0;
    while i < n
        invariant
            n == p@.len(),
            1 <= n <= 3,
            i <= n,
            all_dec(p@.take(i as int)),
            acc == dec_val(p@.take(i as int)),
            acc <= 999,
        decreases n - i,
    {
        let c = p.get_char(i);
        if !('0' <= c && c <= '9') {
            proof {
                assert(p@[i as int] == c);
                assert(!all_dec(p@));
            }
            return None;
        }
        acc = acc * 10 + ((c as u16) - 48);
        proof {
            assert(p@.take(i as int + 1).drop_last() =~= p@.take(i as int));
            assert(p@.take(i as int + 1).last() == c);
            lemma_dec_val_take_bound(p@, i as int + 1);
            assert(pow10(0) == 1);
            assert(pow10(1) == 10);
            assert(pow10(2) == 100);
            assert(pow10(3) == 1000);
        }
        i += 1;
    }
    proof {
        assert(p@.take(n as int) =~= p@);
    }
    if n > 1 && p.get_char(0) == '0' {
        return None;
    }
    if acc > 255 {
        return None;
    }
    Some(acc as u8)
}

proof fn lemma_dec_val_take_bound(s: Seq<char>, i: int)
    requires
        0 <= i <= s.len(),
        all_dec(s.take(i)),
    ensures
        dec_val(s.take(i)) < pow10(i as nat),
    decreases i,
{
    if i > 0 {
        assert(s.take(i).drop_last() =~= s.take(i - 1));
        lemma_dec_val_take_bound(s, i - 1);
        assert(dec_digit_val(s.take(i).last()) <= 9) by {
            assert(is_dec_digit(s.take(i)[i - 1]));
        }
    }
}

pub open spec fn pow10(n: nat) -> nat
    decreases n
{
    if n == 0 {
        1
    } else {
        10 * pow10((n - 1) as nat)
    }
}

/// Parses a dotted-quad IPv4 address, as `Ipv4Addr::from_str` does.
pub fn parse_ipv4(s: &str) -> (r: Option<u32>)
    ensures
        r == ipv4_of(s@),
{
    let parts = split_str(s, '.');
    if parts.len() != 4 {
        return None;
    }
    proof {
        assert(parts.deep_view()[0] == parts@[0]@);
        assert(parts.deep_view()[1] == parts@[1]@);
        assert(parts.deep_view()[2] == parts@[2]@);
        assert(parts.deep_view()[3] == parts@[3]@);
    }
    let o0 = match parse_octet(parts[0].as_str()) {
        Some(v) => v,
        None => { return None },
    };
    let o1 = match parse_octet(parts[1].as_str()) {
        Some(v) => v,
        None => { return None },
    };
    let o2 = match parse_octet(parts[2].as_str()) {
        Some(v) => v,
        None => { return None },
    };
    let o3 = match parse_octet(parts[3].as_str()) {
        Some(v) => v,
        None => { return None },
    };
    Some((o0 as u32) * 0x1000000 + (o1 as u32) * 0x10000 + (o2 as u32) * 0x100 + (o3 as u32))
}

// ---- IPv6 ----

pub open spec fn is_hex_digit(c: char) -> bool {
    ('0' <= c && c <= '9') || ('a' <= c && c <= 'f') || ('A' <= c && c <= 'F')
}

pub open spec fn hex_digit_val(c: char) -> nat {
    if '0' <= c && c <= '9' {
        (c as nat - '0' as nat) as nat
    } else if 'a' <= c && c <= 'f' {
        (c as nat - 'a' as nat + 10) as nat
    } else {
        (c as nat - 'A' as nat + 10) as nat
    }
}

pub open spec fn all_hex(s: Seq<char>) -> bool {
    forall|i: int| 0 <= i < s.len() ==> is_hex_digit(#[trigger] s[i])
}

/// Value of a sequence of hexadecimal digits, most significant first.
pub open spec fn hex_val(s: Seq<char>) -> nat
    decreases s.len()
{
    if s.len() == 0 {
        0
    } else {
        hex_val(s.drop_last()) * 16 + hex_digit_val(s.last())
    }
}

pub open spec fn pow16(n: nat) -> nat
    decreases n
{
    if n == 0 {
        1
    } else {
        16 * pow16((n - 1) as nat)
    }
}

proof fn lemma_hex_val_take_bound(s: Seq<char>, i: int)
    requires
        0 <= i <= s.len(),
        all_hex(s.take(i)),
    ensures
        hex_val(s.take(i)) < pow16(i as nat),
    decreases i,
{
    if i > 0 {
        assert(s.take(i).drop_last() =~= s.take(i - 1));
        lemma_hex_val_take_bound(s, i - 1);
        assert(hex_digit_val(s.take(i).last()) <= 15) by {
            assert(is_hex_digit(s.take(i)[i - 1]));
        }
    }
}

/// Value of one colon-separated group: one to four hexadecimal digits.
pub open spec fn group_of(g: Seq<char>) -> Option<u16> {
    if 1 <= g.len() <= 4 && all_hex(g) {
        Some(hex_val(g) as u16)
    } else {
        None
    }
}

/// Parses one hexadecimal group of an IPv6 address.
fn parse_group(p: &str) -> (r: Option<u16>)
    ensures
        r == group_of(p@),
{
    let n = p.unicode_len();
    if n < 1 || n > 4 {
        return None;
    }
    let mut acc: u16 = 0;
    let mut i: usize = 0;
    proof {
        assert(pow16(0) == 1);
        assert(pow16(1) == 16);
        assert(pow16(2) == 256);
        assert(pow16(3) == 4096);
        assert(pow16(4) == 65536);
    }
    while i < n
        invariant
            n == p@.len(),
            1 <= n <= 4,
            i <= n,
            all_hex(p@.take(i as int)),
            acc == hex_val(p@.take(i as int)),
            acc < pow16(i as nat),
            pow16(0) == 1 && pow16(1) == 16 && pow16(2) == 256 && pow16(3) == 4096 && pow16(4)
                == 65536,
        decreases n - i,
    {
        let c = p.get_char(i);
        let d: u16;
        if '0' <= c && c <= '9' {
            d = (c as u16) - 48;
        } else if 'a' <= c && c <= 'f' {
            d = (c as u16) - 87;
        } else if 'A' <= c && c <= 'F' {
            d = (c as u16) - 55;
        } else {
            proof {
                assert(p@[i as int] == c);
                assert(!all_hex(p@));
            }
            return None;
        }
        acc = acc * 16 + d;
        proof {
            assert(p@.take(i as int + 1).drop_last() =~= p@.take(i as int));
            assert(p@.take(i as int + 1).last() == c);
            lemma_hex_val_take_bound(p@, i as int + 1);
        }
        i += 1;
    }
    proof {
        assert(p@.take(n as int) =~= p@);
    }
    Some(acc)
}

/// The groups named by a colon-separated part list: each part one
/// hexadecimal group, except that the last may be an embedded IPv4 address
/// standing for two groups.
pub open spec fn groups_from(ps: Seq<Seq<char>>, i: int, v4_last: bool) -> Option<Seq<u16>>
    decreases ps.len() - i when 0 <= i <= ps.len()
{
    if i >= ps.len() {
        Some(Seq::empty())
    } else {
        let g = ps[i];
        if group_of(g) is Some {
            match groups_from(ps, i + 1, v4_last) {
                Some(rest) => Some(seq![group_of(g) -> 0] + rest),
                None => None,
            }
        } else if v4_last && i == ps.len() - 1 && ipv4_of(g) is Some {
            let v = ipv4_of(g) -> 0;
            Some(seq![(v / 0x10000) as u16, (v % 0x10000) as u16])
        } else {
            None
        }
    }
}

/// Parses a part list into groups, mirroring `groups_from`.
fn parse_groups(parts: &Vec<String>, v4_last: bool) -> (r: Option<Vec<u16>>)
    ensures
        match r {
            Some(v) => groups_from(parts.deep_view(), 0, v4_last) == Some(v@),
            None => groups_from(parts.deep_view(), 0, v4_last) is None,
        },
{
    let ghost dv = parts.deep_view();
    let mut acc: Vec<u16> = Vec::new();
    let mut i: usize = 0;
    proof {
        assert(dv.len() == parts@.len());
        if groups_from(dv, 0, v4_last) is Some {
            assert(acc@ + (groups_from(dv, 0, v4_last) -> 0) =~= (groups_from(dv, 0, v4_last)
                -> 0));
        }
    }
    while i < parts.len()
        invariant
            dv == parts.deep_view(),
            dv.len() == parts@.len(),
            i <= parts@.len(),
            groups_from(dv, i as int, v4_last) is Some ==> groups_from(dv, 0, v4_last) == Some(
                acc@ + (groups_from(dv, i as int, v4_last) -> 0),
            ),
            groups_from(dv, i as int, v4_last) is None ==> groups_from(dv, 0, v4_last) is None,
        decreases parts@.len() - i,
    {
        proof {
            assert(dv[i as int] == parts@[i as int]@);
        }
        match parse_group(parts[i].as_str()) {
            Some(g) => {
                acc.push(g);
                proof {
                    if groups_from(dv, i as int + 1, v4_last) is Some {
                        let rest = groups_from(dv, i as int + 1, v4_last) -> 0;
                        assert(acc@.drop_last() + (seq![g] + rest) =~= acc@ + rest);
                    }
                }
            },
            None => {
                if v4_last && i == parts.len() - 1 {
                    match parse_ipv4(parts[i].as_str()) {
                        Some(v) => {
                            acc.push((v / 0x10000) as u16);
                            acc.push((v % 0x10000) as u16);
                            proof {
                                assert(groups_from(dv, i as int, v4_last) == Some(
                                    seq![(v / 0x10000) as u16, (v % 0x10000) as u16],
                                ));
                                assert(acc@.drop_last().drop_last() + seq![
                                    (v / 0x10000) as u16,
                                    (v % 0x10000) as u16,
                                ] =~= acc@);
                                assert(groups_from(dv, i as int + 1, v4_last) == Some(
                                    Seq::<u16>::empty(),
                                ));
                                assert(acc@ + Seq::<u16>::empty() =~= acc@);
                            }
                        },
                        None => {
                            return None;
                        },
                    }
                } else {
                    return None;
                }
            },
        }
        i += 1;
    }
    proof {
        assert(groups_from(dv, i as int, v4_last) == Some(Seq::<u16>::empty()));
        assert(acc@ + Seq::<u16>::empty() =~= acc@);
    }
    Some(acc)
}

/// Combined value of eight groups, most significant first.
pub open spec fn groups_val(gs: Seq<u16>) -> nat
    decreases gs.len()
{
    if gs.len() == 0 {
        0
    } else {
        groups_val(gs.drop_last()) * 0x10000 + gs.last() as nat
    }
}

pub open spec fn pow65536(n: nat) -> nat
    decreases n
{
    if n == 0 {
        1
    } else {
        0x10000 * pow65536((n - 1) as nat)
    }
}

proof fn lemma_groups_val_take_bound(gs: Seq<u16>, i: int)
    requires
        0 <= i <= gs.len(),
    ensures
        groups_val(gs.take(i)) < pow65536(i as nat),
    decreases i,
{
    if i > 0 {
        assert(gs.take(i).drop_last() =~= gs.take(i - 1));
        lemma_groups_val_take_bound(gs, i - 1);
    }
}

/// Combines at most eight groups into the 128-bit address value.
fn groups_value(gs: &Vec<u16>) -> (r: u128)
    requires
        gs@.len() <= 8,
    ensures
        r == groups_val(gs@),
{
    let mut acc: u128 = 0;
    let mut i: usize = 0;
    proof {
        assert(pow65536(0) == 1);
        assert(pow65536(1) == 0x10000);
        assert(pow65536(2) == 0x1_0000_0000);
        assert(pow65536(3) == 0x1_0000_0000_0000);
        assert(pow65536(4) == 0x1_0000_0000_0000_0000);
        assert(pow65536(5) == 0x1_0000_0000_0000_0000_0000);
        assert(pow65536(6) == 0x1_0000_0000_0000_0000_0000_0000);
        assert(pow65536(7) == 0x1_0000_0000_0000_0000_0000_0000_0000);
        assert(pow65536(8) == 0x1_0000_0000_0000_0000_0000_0000_0000_0000);
    }
    while i < gs.len()
        invariant
            gs@.len() <= 8,
            i <= gs@.len(),
            acc == groups_val(gs@.take(i as int)),
            acc < pow65536(i as nat),
            pow65536(7) == 0x1_0000_0000_0000_0000_0000_0000_0000,
            pow65536(8) == 0x1_0000_0000_0000_0000_0000_0000_0000_0000,
            forall|k: nat| k <= 7 ==> #[trigger] pow65536(k) <= pow65536(7),
        decreases gs@.len() - i,
    {
        proof {
            assert(gs@.take(i as int + 1).drop_last() =~= gs@.take(i as int));
            lemma_groups_val_take_bound(gs@, i as int + 1);
            assert(pow65536((i + 1) as nat) <= pow65536(8)) by {
                if i as nat + 1 <= 7 {
                    assert(pow65536((i + 1) as nat) <= pow65536(7));
                }
            }
        }
        acc = acc * 0x10000 + (gs[i] as u128);
        i += 1;
    }
    proof {
        assert(gs@.take(gs@.len() as int) =~= gs@);
    }
    acc
}

/// Index of the first `::` in `s`, or `s.len()` if there is none.
pub open spec fn find_dcolon(s: Seq<char>) -> int
    decreases s.len()
{
    if s.len() < 2 {
        s.len() as int
    } else if s[0] == ':' && s[1] == ':' {
        0
    } else {
        1 + find_dcolon(s.skip(1))
    }
}

proof fn lemma_find_dcolon_is(s: Seq<char>, j: int)
    requires
        0 <= j <= s.len(),
        forall|k: int| 0 <= k < j && k + 1 < s.len() ==> !(#[trigger] s[k] == ':' && s[k + 1] == ':'),
        j < s.len() ==> j + 1 < s.len() && s[j] == ':' && s[j + 1] == ':',
        j == s.len() ==> forall|k: int|
            0 <= k && k + 1 < s.len() ==> !(#[trigger] s[k] == ':' && s[k + 1] == ':'),
    ensures
        find_dcolon(s) == j,
    decreases s.len(),
{
    if s.len() < 2 {
        assert(j == s.len());
    } else if s[0] == ':' && s[1] == ':' {
        assert(j == 0);
    } else {
        let t = s.skip(1);
        assert(forall|k: int| 0 <= k && k + 1 < t.len() ==> #[trigger] t[k] == s[k + 1] && t[k + 1] == s[k
            + 2]);
        lemma_find_dcolon_is(t, j - 1);
    }
}

/// What `Ipv6Addr::from_str` accepts: eight groups, or two shorter group
/// lists joined by a single `::` standing for at least one zero group; the
/// last group may be an embedded IPv4 address counting for two.
pub open spec fn ipv6_of(s: Seq<char>) -> Option<u128> {
    let d = find_dcolon(s);
    if d == s.len() {
        match groups_from(split_on(s, ':'), 0, true) {
            Some(gs) => if gs.len() == 8 {
                Some(groups_val(gs) as u128)
            } else {
                None
            },
            None => None,
        }
    } else {
        let left = s.take(d);
        let right = s.skip(d + 2);
        let lgs = if left.len() == 0 {
            Some(Seq::<u16>::empty())
        } else {
            groups_from(split_on(left, ':'), 0, false)
        };
        let rgs = if right.len() == 0 {
            Some(Seq::<u16>::empty())
        } else {
            groups_from(split_on(right, ':'), 0, true)
        };
        match (lgs, rgs) {
            (Some(lg), Some(rg)) => if lg.len() + rg.len() <= 7 {
                Some(
                    groups_val(
                        lg + Seq::new((8 - lg.len() - rg.len()) as nat, |k: int| 0u16) + rg,
                    ) as u128,
                )
            } else {
                None
            },
            _ => None,
        }
    }
}

/// Parses an IPv6 address, as `Ipv6Addr::from_str` does.
pub fn parse_ipv6(s: &str) -> (r: Option<u128>)
    ensures
        r == ipv6_of(s@),
{
    let n = s.unicode_len();
    let lim: usize = if n >= 1 {
        n - 1
    } else {
        0
    };
    let mut d: usize = 0;
    let mut found = false;
    while !found && d < lim
        invariant
            n == s@.len(),
            lim + 1 == if n >= 1 { n as int } else { 1int },
            d <= lim || d == 0,
            !found ==> forall|k: int|
                0 <= k < d && k + 1 < n ==> !(#[trigger] s@[k] == ':' && s@[k + 1] == ':'),
            found ==> d + 1 < n && s@[d as int] == ':' && s@[d as int + 1] == ':' && forall|k: int|
                0 <= k < d && k + 1 < n ==> !(#[trigger] s@[k] == ':' && s@[k + 1] == ':'),
        decreases lim - d + (if found { 0int } else { 1int }),
    {
        if s.get_char(d) == ':' && s.get_char(d + 1) == ':' {
            found = true;
        } else {
            d += 1;
        }
    }
    if !found {
        proof {
            lemma_find_dcolon_is(s@, s@.len() as int);
        }
        let parts = split_str(s, ':');
        match parse_groups(&parts, true) {
            Some(gs) => {
                if gs.len() == 8 {
                    Some(groups_value(&gs))
                } else {
                    None
                }
            },
            None => None,
        }
    } else {
        proof {
            lemma_find_dcolon_is(s@, d as int);
        }
        let left = s.substring_char(0, d);
        let right = s.substring_char(d + 2, n);
        proof {
            assert(left@ =~= s@.take(d as int));
            assert(right@ =~= s@.skip(d as int + 2));
        }
        let lgs: Vec<u16> = if left.unicode_len() == 0 {
            Vec::new()
        } else {
            let lparts = split_str(left, ':');
            match parse_groups(&lparts, false) {
                Some(v) => v,
                None => { return None },
            }
        };
        let rgs: Vec<u16> = if right.unicode_len() == 0 {
            Vec::new()
        } else {
            let rparts = split_str(right, ':');
            match parse_groups(&rparts, true) {
                Some(v) => v,
                None => { return None },
            }
        };
        if lgs.len() > 7 || rgs.len() > 7 - lgs.len() {
            return None;
        }
        let mut all: Vec<u16> = Vec::new();
        let mut k: usize = 0;
        while k < lgs.len()
            invariant
                k <= lgs@.len(),
                all@ =~= lgs@.take(k as int),
            decreases lgs@.len() - k,
        {
            all.push(lgs[k]);
            k += 1;
        }
        let zeros = 8 - lgs.len() - rgs.len();
        let mut z: usize = 0;
        while z < zeros
            invariant
                z <= zeros,
                zeros == 8 - lgs@.len() - rgs@.len(),
                lgs@.len() + rgs@.len() <= 7,
                all@ =~= lgs@ + Seq::new(z as nat, |j: int| 0u16),
            decreases zeros - z,
        {
            all.push(0);
            z += 1;
        }
        let mut k2: usize = 0;
        while k2 < rgs.len()
            invariant
                k2 <= rgs@.len(),
                zeros == 8 - lgs@.len() - rgs@.len(),
                lgs@.len() + rgs@.len() <= 7,
                all@ =~= (lgs@ + Seq::new(zeros as nat, |j: int| 0u16)) + rgs@.take(k2 as int),
            decreases rgs@.len() - k2,
        {
            all.push(rgs[k2]);
            k2 += 1;
        }
        proof {
            assert(lgs@.take(lgs@.len() as int) =~= lgs@);
            assert(rgs@.take(rgs@.len() as int) =~= rgs@);
            assert(all@ =~= lgs@ + Seq::new(zeros as nat, |j: int| 0u16) + rgs@);
        }
        Some(groups_value(&all))
    }
}

// ---- either version ----

/// What `IpAddr::from_str` accepts: an IPv4 address, else an IPv6 address.
pub open spec fn ip_of(s: Seq<char>) -> Option<IpAddress> {
    if ipv4_of(s) is Some {
        Some(IpAddress::V4(ipv4_of(s) -> 0))
    } else if ipv6_of(s) is Some {
        Some(IpAddress::V6(ipv6_of(s) -> 0))
    } else {
        None
    }
}

/// Parses an address of either version, as `IpAddr::from_str` does.
pub fn parse_ip(s: &str) -> (r: Option<IpAddress>)
    ensures
        r == ip_of(s@),
{
    match parse_ipv4(s) {
        Some(v) => Some(IpAddress::V4(v)),
        None => {
            match parse_ipv6(s) {
                Some(v) => Some(IpAddress::V6(v)),
                None => None,
            }
        },
    }
}

} // verus!
