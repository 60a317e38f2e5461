//! Text helpers: decimal rendering and the test for local-only addresses.
use vstd::prelude::*;

verus! {

/// The character for a decimal digit.
pub open spec fn digit_char(d: nat) -> char {
    if d == 0 {
        '0'
    } else if d == 1 {
        '1'
    } else if d == 2 {
        '2'
    } else if d == 3 {
        '3'
    } else if d == 4 {
        '4'
    } else if d == 5 {
        '5'
    } else if d == 6 {
        '6'
    } else if d == 7 {
        '7'
    } else if d == 8 {
        '8'
    } else {
        '9'
    }
}

/// The decimal text of a natural number, most significant digit first and
/// without leading zeros.
pub open spec fn decimal(n: nat) -> Seq<char>
    decreases n,
{
    if n < 10 {
        seq![digit_char(n)]
    } else {
        decimal(n / 10).push(digit_char(n % 10))
    }
}

/// Whether `lit` occurs in `s` at index `i`.
pub open spec fn matches_at(s: Seq<char>, i: int, lit: Seq<char>) -> bool {
    0 <= i && i + lit.len() <= s.len() && s.subrange(i, i + lit.len()) == lit
}

/// The index of the first `/` in `s` at or after `i`, or the length of `s`
/// if there is none.
pub open spec fn slash_from(s: Seq<char>, i: int) -> int
    decreases s.len() - i,
{
    if i >= s.len() {
        s.len() as int
    } else if s[i] == '/' {
        i
    } else {
        slash_from(s, i + 1)
    }
}

/// The host of an address whose text starts with `/ip4/` or `/ip6/`: the
/// component that follows that prefix.
pub open spec fn host(s: Seq<char>) -> Seq<char> {
    s.subrange(5, slash_from(s, 5))
}

pub open spec fn starts_with(s: Seq<char>, lit: Seq<char>) -> bool {
    matches_at(s, 0, lit)
}

/// An IPv6 host reachable only from this host or its link: the unspecified
/// address, the loopback address, a link-local one, or an IPv4-mapped form
/// of a local IPv4 host.
pub open spec fn ip6_local_host(h: Seq<char>) -> bool {
    ||| h == "::"@
    ||| h == "::1"@
    ||| link_local6(h)
    ||| starts_with(h, "::ffff:"@) && ip4_local_host(h.subrange("::ffff:"@.len() as int, h.len() as int))
}

/// A lower-case hexadecimal digit, as addresses are written.
pub open spec fn is_hex_digit(c: char) -> bool {
    (48 <= c as u32 <= 57) || (97 <= c as u32 <= 102)
}

/// An IPv6 host in `fe80::/10`: its first group is four hexadecimal digits
/// that start with `fe8`, `fe9`, `fea` or `feb`.
pub open spec fn link_local6(h: Seq<char>) -> bool {
    &&& h.len() >= 5
    &&& h[0] == 'f'
    &&& h[1] == 'e'
    &&& (h[2] == '8' || h[2] == '9' || h[2] == 'a' || h[2] == 'b')
    &&& is_hex_digit(h[3])
    &&& h[4] == ':'
}

/// An IPv4 host reachable only from this host or its link: the unspecified
/// address, a loopback one, or a link-local one.
pub open spec fn ip4_local_host(h: Seq<char>) -> bool {
    h == "0.0.0.0"@ || starts_with(h, "127."@) || starts_with(h, "169.254."@)
}

/// Whether the textual form of an address marks it as reachable only from
/// this host or its link: its host is a loopback, link-local or unspecified
/// address.
pub open spec fn has_local_marker(s: Seq<char>) -> bool {
    ||| starts_with(s, "/ip6/"@) && ip6_local_host(host(s))
    ||| starts_with(s, "/ip4/"@) && ip4_local_host(host(s))
}

fn digit_str(d: u128) -> (r: &'static str)
    requires
        d < 10,
    ensures
        r@ == seq![digit_char(d as nat)],
{
    if d == 0 {
        proof { reveal_strlit("0"); }
        "0"
    } else if d == 1 {
        proof { reveal_strlit("1"); }
        "1"
    } else if d == 2 {
        proof { reveal_strlit("2"); }
        "2"
    } else if d == 3 {
        proof { reveal_strlit("3"); }
        "3"
    } else if d == 4 {
        proof { reveal_strlit("4"); }
        "4"
    } else if d == 5 {
        proof { reveal_strlit("5"); }
        "5"
    } else if d == 6 {
        proof { reveal_strlit("6"); }
        "6"
    } else if d == 7 {
        proof { reveal_strlit("7"); }
        "7"
    } else if d == 8 {
        proof { reveal_strlit("8"); }
        "8"
    } else {
        proof { reveal_strlit("9"); }
        "9"
    }
}

/// Renders `n` in decimal.
pub fn decimal_text(n: u128) -> (r: String)
    ensures
        r@ == decimal(n as nat),
{
    let mut s = String::from_str(digit_str(n % 10));
    let mut m: u128 = n / 10;
    while m > 0
        invariant
            m == 0 ==> decimal(n as nat) == s@,
            m > 0 ==> decimal(n as nat) == decimal(m as nat) + s@,
        decreases m,
    {
        let d = String::from_str(digit_str(m % 10));
        proof {
            if m >= 10 {
                assert(decimal(m as nat) == decimal((m / 10) as nat).push(digit_char((m % 10) as nat)));
                assert(decimal(m as nat) + s@ =~= decimal((m / 10) as nat) + (d@ + s@));
            } else {
                assert(decimal(m as nat) + s@ =~= d@ + s@);
            }
        }
        s = d.concat(s.as_str());
        m = m / 10;
    }
    s
}

fn chars_of(s: &str) -> (r: Vec<char>)
    ensures
        r@ == s@,
{
    let n = s.unicode_len();
    let mut r: Vec<char> = Vec::new();
    let mut i: usize = 0;
    while i < n
        invariant
            n == s@.len(),
            i <= n,
            r@ == s@.subrange(0, i as int),
        decreases n - i,
    {
        r.push(s.get_char(i));
        i = i + 1;
        assert(r@ =~= s@.subrange(0, i as int));
    }
    assert(r@ =~= s@);
    r
}

fn matches_at_exec(s: &Vec<char>, i: usize, lit: &str) -> (r: bool)
    ensures
        r == matches_at(s@, i as int, lit@),
{
    let m = lit.unicode_len();
    if i > s.len() || m > s.len() - i {
        return false;
    }
    let mut k: usize = 0;
    while k < m
        invariant
            m == lit@.len(),
            i + m <= s.len(),
            k <= m,
            forall|j: int| 0 <= j < k ==> s@[i + j] == lit@[j],
        decreases m - k,
    {
        if s[i + k] != lit.get_char(k) {
            assert(s@.subrange(i as int, i + m)[k as int] != lit@[k as int]);
            return false;
        }
        k = k + 1;
    }
    assert(s@.subrange(i as int, i + m) =~= lit@);
    true
}

fn slash_from_exec(s: &Vec<char>, i: usize) -> (r: usize)
    requires
        i <= s@.len(),
    ensures
        r == slash_from(s@, i as int),
        i <= r <= s@.len(),
{
    let mut k: usize = i;
    while k < s.len() && s[k] != '/'
        invariant
            i <= k <= s@.len(),
            slash_from(s@, k as int) == slash_from(s@, i as int),
        decreases s@.len() - k,
    {
        k = k + 1;
    }
    k
}

/// Tells whether the text of an address marks it as loopback, link-local or
/// unspecified.
pub fn is_local_address(s: &str) -> (r: bool)
    ensures
        r == has_local_marker(s@),
{
    proof {
        reveal_strlit("/ip6/");
        reveal_strlit("/ip4/");
    }
    let cs = chars_of(s);
    let ip6 = matches_at_exec(&cs, 0, "/ip6/");
    let ip4 = matches_at_exec(&cs, 0, "/ip4/");
    if !ip6 && !ip4 {
        return false;
    }
    let end = slash_from_exec(&cs, 5);
    let ghost h = host(s@);
    assert(h =~= cs@.subrange(5, end as int));
    let hl = end - 5;
    proof {
        assert("/ip6/"@ =~= seq!['/', 'i', 'p', '6', '/']);
        assert("/ip4/"@ =~= seq!['/', 'i', 'p', '4', '/']);
        assert("/ip6/"@ != "/ip4/"@);
        if ip6 && starts_with(s@, "/ip4/"@) {
            assert(s@.subrange(0, 5) == "/ip6/"@);
        }
    }
    if ip6 {
        let unspecified = hl == "::".unicode_len() && matches_at_exec(&cs, 5, "::");
        let loopback = hl == "::1".unicode_len() && matches_at_exec(&cs, 5, "::1");
        let link = link_local_in(&cs, 5, end);
        let m = "::ffff:".unicode_len();
        let mapped = hl >= m && matches_at_exec(&cs, 5, "::ffff:") && ip4_local_in(&cs, 5 + m, end);
        proof {
            lemma_host_is(cs@, 5, end as int, "::"@);
            lemma_host_is(cs@, 5, end as int, "::1"@);
            lemma_host_starts(cs@, 5, end as int, "::ffff:"@);
            if hl >= m {
                assert(h.subrange(m as int, h.len() as int) =~= cs@.subrange(5 + m, end as int));
            }
        }
        unspecified || loopback || link || mapped
    } else {
        ip4_local_in(&cs, 5, end)
    }
}

fn link_local_in(cs: &Vec<char>, start: usize, end: usize) -> (r: bool)
    requires
        start <= end <= cs@.len(),
    ensures
        r == link_local6(cs@.subrange(start as int, end as int)),
{
    let ghost h = cs@.subrange(start as int, end as int);
    if end - start < 5 {
        return false;
    }
    let c2 = cs[start + 2];
    let c3 = cs[start + 3] as u32;
    assert(h[0] == cs@[start as int] && h[1] == cs@[start + 1] && h[2] == c2);
    assert(h[3] as u32 == c3 && h[4] == cs@[start + 4]);
    cs[start] == 'f' && cs[start + 1] == 'e' && (c2 == '8' || c2 == '9' || c2 == 'a' || c2 == 'b')
        && ((48 <= c3 && c3 <= 57) || (97 <= c3 && c3 <= 102)) && cs[start + 4] == ':'
}

fn ip4_local_in(cs: &Vec<char>, start: usize, end: usize) -> (r: bool)
    requires
        start <= end <= cs@.len(),
    ensures
        r == ip4_local_host(cs@.subrange(start as int, end as int)),
{
    let hl = end - start;
    let unspecified = hl == "0.0.0.0".unicode_len() && matches_at_exec(cs, start, "0.0.0.0");
    let loopback = hl >= "127.".unicode_len() && matches_at_exec(cs, start, "127.");
    let link = hl >= "169.254.".unicode_len() && matches_at_exec(cs, start, "169.254.");
    proof {
        lemma_host_is(cs@, start as int, end as int, "0.0.0.0"@);
        lemma_host_starts(cs@, start as int, end as int, "127."@);
        lemma_host_starts(cs@, start as int, end as int, "169.254."@);
    }
    unspecified || loopback || link
}

proof fn lemma_host_is(s: Seq<char>, start: int, end: int, lit: Seq<char>)
    requires
        0 <= start <= end <= s.len(),
    ensures
        (s.subrange(start, end) == lit) <==> (end - start == lit.len() && matches_at(s, start, lit)),
{
    if end - start == lit.len() && matches_at(s, start, lit) {
        assert(s.subrange(start, end) =~= lit);
    }
}

proof fn lemma_host_starts(s: Seq<char>, start: int, end: int, lit: Seq<char>)
    requires
        0 <= start <= end <= s.len(),
    ensures
        starts_with(s.subrange(start, end), lit) <==> (end - start >= lit.len() && matches_at(s, start, lit)),
{
    if end - start >= lit.len() {
        assert(s.subrange(start, end).subrange(0, lit.len() as int) =~= s.subrange(start, start + lit.len() as int));
    }
}

} // verus!
