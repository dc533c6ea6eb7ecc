//! Verified text primitives shared by the target, port and banner parsers:
//! separator search, splitting, trimming, decimal and token scanning.

use vstd::prelude::*;
use vstd::string::*;

verus! {

/// The characters `char::is_whitespace` recognizes; `trim` removes these.
pub open spec fn is_space_char(c: char) -> bool {
    ||| c == '\u{9}'
    ||| c == '\u{a}'
    ||| c == '\u{b}'
    ||| c == '\u{c}'
    ||| c == '\u{d}'
    ||| c == ' '
    ||| c == '\u{85}'
    ||| c == '\u{a0}'
    ||| c == '\u{1680}'
    ||| c == '\u{2000}'
    ||| c == '\u{2001}'
    ||| c == '\u{2002}'
    ||| c == '\u{2003}'
    ||| c == '\u{2004}'
    ||| c == '\u{2005}'
    ||| c == '\u{2006}'
    ||| c == '\u{2007}'
    ||| c == '\u{2008}'
    ||| c == '\u{2009}'
    ||| c == '\u{200a}'
    ||| c == '\u{2028}'
    ||| c == '\u{2029}'
    ||| c == '\u{202f}'
    ||| c == '\u{205f}'
    ||| c == '\u{3000}'
}

pub fn is_space(c: char) -> (r: bool)
    ensures
        r == is_space_char(c),
{
    c == '\u{9}' || c == '\u{a}' || c == '\u{b}' || c == '\u{c}' || c == '\u{d}' || c == ' '
        || c == '\u{85}' || c == '\u{a0}' || c == '\u{1680}' || c == '\u{2000}' || c == '\u{2001}'
        || c == '\u{2002}' || c == '\u{2003}' || c == '\u{2004}' || c == '\u{2005}'
        || c == '\u{2006}' || c == '\u{2007}' || c == '\u{2008}' || c == '\u{2009}'
        || c == '\u{200a}' || c == '\u{2028}' || c == '\u{2029}' || c == '\u{202f}'
        || c == '\u{205f}' || c == '\u{3000}'
}

/// Index of the first occurrence of `sep` at or after `from`, or `s.len()`.
pub open spec fn find_from(s: Seq<char>, sep: char, from: int) -> int
    decreases s.len() - from when 0 <= from <= s.len()
{
    if from >= s.len() {
        s.len() as int
    } else if s[from] == sep {
        from
    } else {
        find_from(s, sep, from + 1)
    }
}

pub proof fn lemma_find_from_is(s: Seq<char>, sep: char, from: int, j: int)
    requires
        0 <= from <= j <= s.len(),
        forall|k: int| from <= k < j ==> s[k] != sep,
        j < s.len() ==> s[j] == sep,
    ensures
        find_from(s, sep, from) == j,
    decreases j - from,
{
    if from < j {
        lemma_find_from_is(s, sep, from + 1, j);
    }
}

/// The pieces of `s` between occurrences of `sep`, in order; there is always
/// at least one piece, and a separator at either end yields an empty piece.
pub open spec fn split_on(s: Seq<char>, sep: char) -> Seq<Seq<char>>
    decreases s.len(),
    via split_on_decreases
{
    let i = find_from(s, sep, 0);
    if i == s.len() {
        seq![s]
    } else {
        seq![s.take(i)] + split_on(s.skip(i + 1), sep)
    }
}

#[via_fn]
proof fn split_on_decreases(s: Seq<char>, sep: char) {
    lemma_find_from_bounds(s, sep, 0);
}

proof fn lemma_find_from_shift(s: Seq<char>, sep: char, from: int)
    requires
        0 <= from <= s.len(),
    ensures
        find_from(s.skip(from), sep, 0) == find_from(s, sep, from) - from,
    decreases s.len() - from,
{
    let t = s.skip(from);
    let j = find_from(s, sep, from);
    assert forall|k: int| 0 <= k < j - from implies t[k] != sep by {
        lemma_find_from_bounds(s, sep, from);
        assert(t[k] == s[from + k]);
        lemma_find_from_before(s, sep, from, from + k);
    }
    lemma_find_from_bounds(s, sep, from);
    if j < s.len() {
        assert(t[j - from] == s[j]);
    }
    lemma_find_from_is(t, sep, 0, j - from);
}

pub proof fn lemma_find_from_bounds(s: Seq<char>, sep: char, from: int)
    requires
        0 <= from <= s.len(),
    ensures
        from <= find_from(s, sep, from) <= s.len(),
        find_from(s, sep, from) < s.len() ==> s[find_from(s, sep, from)] == sep,
    decreases s.len() - from,
{
    if from < s.len() && s[from] != sep {
        lemma_find_from_bounds(s, sep, from + 1);
    }
}

pub proof fn lemma_find_from_before(s: Seq<char>, sep: char, from: int, k: int)
    requires
        0 <= from <= k < find_from(s, sep, from),
        from <= s.len(),
    ensures
        s[k] != sep,
    decreases k - from,
{
    lemma_find_from_bounds(s, sep, from);
    if from < k {
        lemma_find_from_before(s, sep, from + 1, k);
    }
}

/// Splits `s` at every occurrence of `sep`, as `str::split` does.
pub fn split_str(s: &str, sep: char) -> (parts: Vec<String>)
    ensures
        parts.deep_view() == split_on(s@, sep),
{
    let n = s.unicode_len();
    let mut parts: Vec<String> = Vec::new();
    let mut start: usize = 0;
    let mut done = false;
    proof {
        assert(s@.skip(0) =~= s@);
    }
    while !done
        invariant
            n == s@.len(),
            start <= n,
            !done ==> split_on(s@, sep) =~= parts.deep_view() + split_on(s@.skip(start as int), sep),
            done ==> parts.deep_view() =~= split_on(s@, sep),
        decreases n - start + (if done { 0int } else { 1int }),
    {
        let ghost rest = s@.skip(start as int);
        let mut j = start;
        while j < n && s.get_char(j) != sep
            invariant
                n == s@.len(),
                start <= j <= n,
                forall|k: int| start <= k < j ==> s@[k] != sep,
            decreases n - j,
        {
            j += 1;
        }
        proof {
            lemma_find_from_is(s@, sep, start as int, j as int);
            lemma_find_from_shift(s@, sep, start as int);
            assert(find_from(rest, sep, 0) == j - start);
        }
        let piece = s.substring_char(start, j).to_owned();
        proof {
            assert(piece@ =~= rest.take(j - start as int));
        }
        parts.push(piece);
        if j == n {
            proof {
                assert(rest.take(j - start as int) =~= rest);
                assert(split_on(rest, sep) =~= seq![rest]);
                assert(parts.deep_view() =~= split_on(s@, sep));
            }
            done = true;
        } else {
            proof {
                assert(split_on(rest, sep) =~= seq![rest.take(j - start as int)] + split_on(
                    rest.skip(j - start as int + 1),
                    sep,
                ));
                assert(rest.skip(j - start as int + 1) =~= s@.skip(j + 1));
                assert(split_on(s@, sep) =~= parts.deep_view() + split_on(s@.skip(j + 1), sep));
            }
            start = j + 1;
        }
    }
    parts
}

/// `s` without leading whitespace.
pub open spec fn trim_front(s: Seq<char>) -> Seq<char>
    decreases s.len()
{
    if s.len() > 0 && is_space_char(s[0]) {
        trim_front(s.skip(1))
    } else {
        s
    }
}

/// `s` without trailing whitespace.
pub open spec fn trim_back(s: Seq<char>) -> Seq<char>
    decreases s.len()
{
    if s.len() > 0 && is_space_char(s.last()) {
        trim_back(s.drop_last())
    } else {
        s
    }
}

/// What `str::trim` returns.
pub open spec fn trim_spec(s: Seq<char>) -> Seq<char> {
    trim_back(trim_front(s))
}

proof fn lemma_trim_front_is(s: Seq<char>, a: int)
    requires
        0 <= a <= s.len(),
        forall|k: int| 0 <= k < a ==> is_space_char(s[k]),
        a < s.len() ==> !is_space_char(s[a]),
    ensures
        trim_front(s) =~= s.skip(a),
    decreases a,
{
    if a == 0 {
        if s.len() > 0 && is_space_char(s[0]) {
            assert(false);
        }
        assert(s.skip(0) =~= s);
    } else {
        assert(is_space_char(s[0]));
        let t = s.skip(1);
        lemma_trim_front_is(t, a - 1);
        assert(t.skip(a - 1) =~= s.skip(a));
    }
}

proof fn lemma_trim_back_is(s: Seq<char>, b: int)
    requires
        0 <= b <= s.len(),
        forall|k: int| b <= k < s.len() ==> is_space_char(s[k]),
        b > 0 ==> !is_space_char(s[b - 1]),
    ensures
        trim_back(s) =~= s.take(b),
    decreases s.len() - b,
{
    if b == s.len() {
        if s.len() > 0 && is_space_char(s.last()) {
            assert(false);
        }
        assert(s.take(b) =~= s);
    } else {
        assert(is_space_char(s.last()));
        let t = s.drop_last();
        lemma_trim_back_is(t, b);
        assert(t.take(b) =~= s.take(b));
    }
}

/// Removes leading and trailing whitespace, as `str::trim` does.
pub fn trim_str(s: &str) -> (r: String)
    ensures
        r@ == trim_spec(s@),
{
    let n = s.unicode_len();
    let mut a: usize = 0;
    while a < n && is_space(s.get_char(a))
        invariant
            n == s@.len(),
            a <= n,
            forall|k: int| 0 <= k < a ==> is_space_char(s@[k]),
        decreases n - a,
    {
        a += 1;
    }
    proof {
        lemma_trim_front_is(s@, a as int);
    }
    let mut b: usize = n;
    while b > a && is_space(s.get_char(b - 1))
        invariant
            n == s@.len(),
            a <= b <= n,
            forall|k: int| b <= k < n ==> is_space_char(s@[k]),
        decreases b,
    {
        b -= 1;
    }
    let ghost f = s@.skip(a as int);
    proof {
        assert forall|k: int| b - a <= k < f.len() implies is_space_char(f[k]) by {
            assert(f[k] == s@[a + k]);
        }
        if b > a {
            assert(f[b - a - 1] == s@[b - 1]);
        }
        lemma_trim_back_is(f, b - a as int);
        assert(f.take(b - a as int) =~= s@.subrange(a as int, b as int));
    }
    let r = s.substring_char(a, b).to_owned();
    r
}

// ---- decimal numbers ----

pub open spec fn is_dec_digit(c: char) -> bool {
    '0' <= c && c <= '9'
}

pub open spec fn dec_digit_val(c: char) -> nat {
    (c as nat - '0' as nat) as nat
}

pub open spec fn all_dec(s: Seq<char>) -> bool {
    forall|i: int| 0 <= i < s.len() ==> is_dec_digit(#[trigger] s[i])
}

/// Value of a sequence of decimal digits, most significant first.
pub open spec fn dec_val(s: Seq<char>) -> nat
    decreases s.len()
{
    if s.len() == 0 {
        0
    } else {
        dec_val(s.drop_last()) * 10 + dec_digit_val(s.last())
    }
}

proof fn lemma_dec_val_take_mono(s: Seq<char>, i: int, j: int)
    requires
        0 <= i <= j <= s.len(),
    ensures
        dec_val(s.take(i)) <= dec_val(s.take(j)),
    decreases j - i,
{
    if i < j {
        lemma_dec_val_take_mono(s, i, j - 1);
        assert(s.take(j).drop_last() =~= s.take(j - 1));
        assert(dec_val(s.take(j)) == dec_val(s.take(j - 1)) * 10 + dec_digit_val(s.take(j).last()));
    }
}

/// The digit part of an integer literal: everything after an optional `+`.
pub open spec fn sign_stripped(s: Seq<char>) -> Seq<char> {
    if s.len() > 0 && s[0] == '+' {
        s.skip(1)
    } else {
        s
    }
}

/// What `u16::from_str` returns: an optional `+`, then decimal digits,
/// rejecting the empty string, stray characters and values over `u16::MAX`.
pub open spec fn u16_of(s: Seq<char>) -> Option<u16> {
    let t = sign_stripped(s);
    if t.len() > 0 && all_dec(t) && dec_val(t) <= u16::MAX {
        Some(dec_val(t) as u16)
    } else {
        None
    }
}

/// Parses a `u16` exactly as `u16::from_str` does.
pub fn parse_u16(s: &str) -> (r: Option<u16>)
    ensures
        r == u16_of(s@),
{
    let n = s.unicode_len();
    let start: usize = if n > 0 && s.get_char(0) == '+' {
        1
    } else {
        0
    };
    let ghost t = sign_stripped(s@);
    proof {
        assert(t =~= s@.subrange(start as int, n as int));
    }
    if start == n {
        return None;
    }
    let mut acc: u32 = 0;
    let mut i = start;
    while i < n
        invariant
            n == s@.len(),
            start <= i <= n,
            start < n,
            t == sign_stripped(s@),
            t =~= s@.subrange(start as int, n as int),
            all_dec(t.take(i - start as int)),
            acc == dec_val(t.take(i - start as int)),
            acc <= u16::MAX,
        decreases n - i,
    {
        let c = s.get_char(i);
        if !('0' <= c && c <= '9') {
            proof {
                assert(t[i - start as int] == c);
                assert(!all_dec(t));
            }
            return None;
        }
        let d: u32 = (c as u32) - 48;
        acc = acc * 10 + d;
        proof {
            assert(t.take(i - start as int + 1).drop_last() =~= t.take(i - start as int));
            assert(t.take(i - start as int + 1).last() == c);
        }
        i += 1;
        if acc > 0xFFFF {
            proof {
                lemma_dec_val_take_mono(t, i - start as int, t.len() as int);
                assert(t.take(t.len() as int) =~= t);
            }
            return None;
        }
    }
    proof {
        assert(t.take(t.len() as int) =~= t);
    }
    Some(acc as u16)
}

// ---- string equality ----

/// Compares two strings character by character.
pub fn str_eq(a: &str, b: &str) -> (r: bool)
    ensures
        r == (a@ == b@),
{
    let n = a.unicode_len();
    let m = b.unicode_len();
    if n != m {
        return false;
    }
    let mut i: usize = 0;
    while i < n
        invariant
            n == a@.len(),
            n == b@.len(),
            i <= n,
            forall|k: int| 0 <= k < i ==> a@[k] == b@[k],
        decreases n - i,
    {
        if a.get_char(i) != b.get_char(i) {
            return false;
        }
        i += 1;
    }
    proof {
        assert(a@ =~= b@);
    }
    true
}

// ---- prefixes and substrings ----

/// True when `p` is a prefix of `s`.
pub open spec fn starts_with_spec(s: Seq<char>, p: Seq<char>) -> bool {
    s.len() >= p.len() && s.subrange(0, p.len() as int) == p
}

/// Tests a prefix, as `str::starts_with` does.
pub fn starts_with_str(s: &str, p: &str) -> (r: bool)
    ensures
        r == starts_with_spec(s@, p@),
{
    let n = s.unicode_len();
    let m = p.unicode_len();
    if m > n {
        proof {
            assert(!starts_with_spec(s@, p@));
        }
        return false;
    }
    let mut i: usize = 0;
    while i < m
        invariant
            n == s@.len(),
            m == p@.len(),
            m <= n,
            i <= m,
            forall|k: int| 0 <= k < i ==> s@[k] == p@[k],
        decreases m - i,
    {
        if s.get_char(i) != p.get_char(i) {
            proof {
                assert(s@.subrange(0, m as int)[i as int] != p@[i as int]);
            }
            return false;
        }
        i += 1;
    }
    proof {
        assert(s@.subrange(0, m as int) =~= p@);
    }
    true
}

/// True when `sub` occurs contiguously somewhere in `s`.
pub open spec fn contains_seq(s: Seq<char>, sub: Seq<char>) -> bool {
    exists|i: int|
        0 <= i <= s.len() - sub.len() && #[trigger] s.subrange(i, i + sub.len() as int) == sub
}

/// Searches for a substring, as `str::contains` does.
pub fn contains_str(s: &str, sub: &str) -> (r: bool)
    ensures
        r == contains_seq(s@, sub@),
{
    let n = s.unicode_len();
    let m = sub.unicode_len();
    if m > n {
        return false;
    }
    if m == 0 {
        proof {
            assert(s@.subrange(0, 0 + sub@.len() as int) =~= sub@);
        }
        return true;
    }
    let mut i: usize = 0;
    while i <= n - m
        invariant
            n == s@.len(),
            m == sub@.len(),
            1 <= m <= n,
            i <= n - m + 1,
            forall|k: int| 0 <= k < i ==> #[trigger] s@.subrange(k, k + m as int) != sub@,
        decreases n - m + 1 - i,
    {
        let mut j: usize = 0;
        let mut matches_here = true;
        while j < m
            invariant
                n == s@.len(),
                m == sub@.len(),
                i + m <= n,
                j <= m,
                matches_here ==> forall|k: int| 0 <= k < j ==> s@[i + k] == sub@[k],
                !matches_here ==> s@.subrange(i as int, i + m as int) != sub@,
            decreases m - j,
        {
            if s.get_char(i + j) != sub.get_char(j) {
                proof {
                    assert(s@.subrange(i as int, i + m as int)[j as int] != sub@[j as int]);
                }
                matches_here = false;
                j = m;
            } else {
                j += 1;
            }
        }
        if matches_here {
            proof {
                assert(s@.subrange(i as int, i + m as int) =~= sub@);
            }
            return true;
        }
        i += 1;
    }
    proof {
        assert forall|k: int| 0 <= k <= s@.len() - sub@.len() implies #[trigger] s@.subrange(
            k,
            k + sub@.len() as int,
        ) != sub@ by {
            assert(k < i);
        }
    }
    false
}

// ---- whitespace tokens ----

/// Index of the first whitespace character at or after `from`, or `s.len()`.
pub open spec fn space_from(s: Seq<char>, from: int) -> int
    decreases s.len() - from when 0 <= from <= s.len()
{
    if from >= s.len() {
        s.len() as int
    } else if is_space_char(s[from]) {
        from
    } else {
        space_from(s, from + 1)
    }
}

proof fn lemma_space_from_is(s: Seq<char>, from: int, j: int)
    requires
        0 <= from <= j <= s.len(),
        forall|k: int| from <= k < j ==> !is_space_char(s[k]),
        j < s.len() ==> is_space_char(s[j]),
    ensures
        space_from(s, from) == j,
    decreases j - from,
{
    if from < j {
        lemma_space_from_is(s, from + 1, j);
    }
}

proof fn lemma_space_from_bounds(s: Seq<char>, from: int)
    requires
        0 <= from <= s.len(),
    ensures
        from <= space_from(s, from) <= s.len(),
        space_from(s, from) < s.len() ==> is_space_char(s[space_from(s, from)]),
    decreases s.len() - from,
{
    if from < s.len() && !is_space_char(s[from]) {
        lemma_space_from_bounds(s, from + 1);
    }
}

/// The maximal runs of non-whitespace characters of `s`, in order, as
/// `str::split_whitespace` yields them.
pub open spec fn ws_tokens(s: Seq<char>) -> Seq<Seq<char>>
    decreases s.len(),
    via ws_tokens_decreases
{
    if s.len() == 0 {
        Seq::empty()
    } else if is_space_char(s[0]) {
        ws_tokens(s.skip(1))
    } else {
        let j = space_from(s, 0);
        seq![s.take(j)] + ws_tokens(s.skip(j))
    }
}

#[via_fn]
proof fn ws_tokens_decreases(s: Seq<char>) {
    if s.len() > 0 && !is_space_char(s[0]) {
        assert(space_from(s, 0) == space_from(s, 1));
        lemma_space_from_bounds(s, 1);
    }
}

proof fn lemma_ws_tokens_skip_space(s: Seq<char>, i: int)
    requires
        0 <= i <= s.len(),
        forall|k: int| 0 <= k < i ==> is_space_char(s[k]),
    ensures
        ws_tokens(s) == ws_tokens(s.skip(i)),
    decreases i,
{
    if i > 0 {
        assert(is_space_char(s[0]));
        let t = s.skip(1);
        assert forall|k: int| 0 <= k < i - 1 implies is_space_char(t[k]) by {
            assert(t[k] == s[k + 1]);
        }
        lemma_ws_tokens_skip_space(t, i - 1);
        assert(t.skip(i - 1) =~= s.skip(i));
        assert(ws_tokens(s) == ws_tokens(t));
    } else {
        assert(s.skip(0) =~= s);
    }
}

/// Splits on whitespace runs, as `str::split_whitespace` does.
pub fn ws_token_list(s: &str) -> (toks: Vec<String>)
    ensures
        toks.deep_view() == ws_tokens(s@),
{
    let n = s.unicode_len();
    let mut toks: Vec<String> = Vec::new();
    let mut i: usize = 0;
    proof {
        assert(s@.skip(0) =~= s@);
    }
    while i < n
        invariant
            n == s@.len(),
            i <= n,
            ws_tokens(s@) =~= toks.deep_view() + ws_tokens(s@.skip(i as int)),
        decreases n - i,
    {
        if is_space(s.get_char(i)) {
            proof {
                let rest = s@.skip(i as int);
                assert(rest[0] == s@[i as int]);
                assert(rest.skip(1) =~= s@.skip(i as int + 1));
            }
            i += 1;
        } else {
            let mut j = i + 1;
            while j < n && !is_space(s.get_char(j))
                invariant
                    n == s@.len(),
                    i < j <= n,
                    forall|k: int| i <= k < j ==> !is_space_char(s@[k]),
                decreases n - j,
            {
                j += 1;
            }
            let ghost rest = s@.skip(i as int);
            proof {
                assert(forall|k: int| 0 <= k < j - i ==> rest[k] == s@[i + k]);
                if j < n {
                    assert(rest[j - i] == s@[j as int]);
                }
                lemma_space_from_is(rest, 0, j - i);
                assert(!is_space_char(rest[0]));
            }
            let piece = s.substring_char(i, j).to_owned();
            proof {
                assert(piece@ =~= rest.take(j - i));
            }
            toks.push(piece);
            proof {
                assert(rest.skip(j - i) =~= s@.skip(j as int));
                assert(ws_tokens(rest) =~= seq![rest.take(j - i)] + ws_tokens(s@.skip(j as int)));
                assert(ws_tokens(s@) =~= toks.deep_view() + ws_tokens(s@.skip(j as int)));
            }
            i = j;
        }
    }
    proof {
        assert(s@.skip(n as int) =~= Seq::<char>::empty());
        assert(ws_tokens(Seq::<char>::empty()) =~= Seq::<Seq<char>>::empty());
        assert(toks.deep_view() =~= ws_tokens(s@));
    }
    toks
}

// ---- lines ----

/// A line with a trailing carriage return stripped.
pub open spec fn strip_cr(l: Seq<char>) -> Seq<char> {
    if l.len() > 0 && l.last() == '\r' {
        l.drop_last()
    } else {
        l
    }
}

/// The lines of `s`, as `str::lines` yields them: split on `\n`, each line
/// without a trailing `\r`, and no empty line after a final `\n`.
pub open spec fn lines_of(s: Seq<char>) -> Seq<Seq<char>> {
    if s.len() == 0 {
        Seq::empty()
    } else {
        let ps = split_on(s, '\n');
        let qs = if s.last() == '\n' {
            ps.drop_last()
        } else {
            ps
        };
        qs.map_values(|l: Seq<char>| strip_cr(l))
    }
}

/// Splits into lines, as `str::lines` does.
pub fn lines_list(s: &str) -> (lines: Vec<String>)
    ensures
        lines.deep_view() == lines_of(s@),
{
    let n = s.unicode_len();
    let mut lines: Vec<String> = Vec::new();
    if n == 0 {
        proof {
            assert(lines.deep_view() =~= lines_of(s@));
        }
        return lines;
    }
    let mut parts = split_str(s, '\n');
    let ghost ps = split_on(s@, '\n');
    if s.get_char(n - 1) == '\n' {
        proof {
            lemma_split_last_empty(s@, '\n');
        }
        let popped = parts.pop();
        proof {
            assert(parts.deep_view() =~= ps.drop_last());
        }
    }
    let ghost qs = if s@.last() == '\n' {
        ps.drop_last()
    } else {
        ps
    };
    proof {
        assert(parts.deep_view() =~= qs);
    }
    let mut out: Vec<String> = Vec::new();
    let mut i: usize = 0;
    while i < parts.len()
        invariant
            parts.deep_view() == qs,
            parts@.len() == qs.len(),
            i <= qs.len(),
            out@.len() == i,
            forall|k: int| 0 <= k < i ==> #[trigger] out@[k]@ == strip_cr(qs[k]),
        decreases qs.len() - i,
    {
        proof {
            assert(parts.deep_view()[i as int] == parts@[i as int]@);
        }
        let line = &parts[i];
        let ln = line.as_str().unicode_len();
        if ln > 0 && line.as_str().get_char(ln - 1) == '\r' {
            let stripped = line.as_str().substring_char(0, ln - 1).to_owned();
            proof {
                assert(stripped@ =~= qs[i as int].drop_last());
            }
            out.push(stripped);
        } else {
            let kept = line.as_str().to_owned();
            out.push(kept);
        }
        i += 1;
    }
    proof {
        assert(out.deep_view() =~= lines_of(s@));
    }
    out
}

proof fn lemma_split_last_empty(s: Seq<char>, sep: char)
    requires
        s.len() > 0,
        s.last() == sep,
    ensures
        split_on(s, sep).len() >= 2,
        split_on(s, sep).last() =~= Seq::<char>::empty(),
    decreases s.len(),
{
    lemma_find_from_bounds(s, sep, 0);
    let i = find_from(s, sep, 0);
    if i == s.len() {
        lemma_find_from_before(s, sep, 0, s.len() - 1);
        assert(false);
    }
    let rest = s.skip(i + 1);
    if rest.len() == 0 {
        assert(split_on(s, sep) =~= seq![s.take(i)] + split_on(rest, sep));
        assert(find_from(rest, sep, 0) == 0 == rest.len());
        assert(split_on(rest, sep) =~= seq![rest]);
    } else {
        assert(rest.last() == s.last());
        lemma_split_last_empty(rest, sep);
        assert(split_on(s, sep).last() == split_on(rest, sep).last());
    }
}

// ---- rendering small numbers ----

pub open spec fn dec_digit_char(d: nat) -> char {
    if d == 0 {
        '0'
    } else if d == 1 {
        '1'
    } else if d == 2 {
        '2'
    } else if d == 3 {
        '3'
    } else if d == 4 {
        '4'
    } else if d == 5 {
        '5'
    } else if d == 6 {
        '6'
    } else if d == 7 {
        '7'
    } else if d == 8 {
        '8'
    } else {
        '9'
    }
}

/// Decimal text of `n`, without sign or padding.
pub open spec fn dec_text(n: nat) -> Seq<char>
    decreases n
{
    if n < 10 {
        seq![dec_digit_char(n)]
    } else {
        dec_text(n / 10).push(dec_digit_char(n % 10))
    }
}

fn digit_str(d: u16) -> (r: &'static str)
    requires
        d < 10,
    ensures
        r@ =~= seq![dec_digit_char(d as nat)],
{
    proof {
        reveal_strlit("0");
        reveal_strlit("1");
        reveal_strlit("2");
        reveal_strlit("3");
        reveal_strlit("4");
        reveal_strlit("5");
        reveal_strlit("6");
        reveal_strlit("7");
        reveal_strlit("8");
        reveal_strlit("9");
    }
    if d == 0 {
        "0"
    } else if d == 1 {
        "1"
    } else if d == 2 {
        "2"
    } else if d == 3 {
        "3"
    } else if d == 4 {
        "4"
    } else if d == 5 {
        "5"
    } else if d == 6 {
        "6"
    } else if d == 7 {
        "7"
    } else if d == 8 {
        "8"
    } else {
        "9"
    }
}

/// Renders `n` in decimal, as `format!("{}", n)` would.
pub fn dec_string(n: u16) -> (r: String)
    ensures
        r@ == dec_text(n as nat),
    decreases n,
{
    if n < 10 {
        digit_str(n).to_owned()
    } else {
        let mut r = dec_string(n / 10);
        r.append(digit_str(n % 10));
        proof {
            assert(dec_text((n / 10) as nat).push(dec_digit_char((n % 10) as nat)) =~= dec_text(
                (n / 10) as nat,
            ) + seq![dec_digit_char((n % 10) as nat)]);
        }
        r
    }
}

} // verus!
