//! IP addresses and their literals.
//!
//! A peer is named by a bare IPv4 or IPv6 literal. An IPv4 literal is four
//! decimal octets without leading zeros. An IPv6 literal is eight groups of one
//! to four hexadecimal digits, of which the last two may be written as an IPv4
//! literal, and in which one run of zero groups may be written `::`.

use crate::text::{
    all_digits, chars_of, cut, decimal, digit, find, is_digit, lemma_cut_append, lemma_cut_none,
    lemma_decimal, parse_digits, value_of, Stop,
};
use vstd::prelude::*;
use vstd::slice::slice_subrange;

verus! {

/// An IP address, as the number that its octets spell.
#[derive(Clone, Copy, PartialEq, Eq, Structural, Debug)]
pub enum IpAddr {
    V4(u32),
    V6(u128),
}

// ================================= IPv4 ==================================

/// Whether a text is one octet: up to three digits, no leading zero, at most 255.
pub open spec fn is_octet(t: Seq<char>) -> bool {
    all_digits(t) && t.len() <= 3 && (t.len() > 1 ==> t[0] != '0') && value_of(t) <= 255
}

/// The values of `n` octets with dots between them.
pub open spec fn octets(s: Seq<char>, n: nat) -> Option<Seq<nat>>
    decreases n,
{
    let k = cut(s, Stop::Dot) as int;
    let t = s.take(k);
    if n == 0 || !is_octet(t) || (n == 1) != (k == s.len()) {
        None
    } else if n == 1 {
        Some(seq![value_of(t)])
    } else {
        match octets(s.skip(k + 1), (n - 1) as nat) {
            None => None,
            Some(rest) => Some(seq![value_of(t)] + rest),
        }
    }
}

/// The address of an IPv4 literal.
pub open spec fn v4_of(s: Seq<char>) -> Option<u32> {
    match octets(s, 4) {
        None => None,
        Some(o) => Some((o[0] * 0x100_0000 + o[1] * 0x1_0000 + o[2] * 0x100 + o[3]) as u32),
    }
}

/// Reads one octet.
fn parse_octet(t: &[char]) -> (r: Option<u32>)
    ensures
        match r {
            Some(v) => is_octet(t@) && v == value_of(t@) && v <= 255,
            None => !is_octet(t@),
        },
{
    if t.len() > 3 || (t.len() > 1 && t[0] == '0') {
        return None;
    }
    parse_digits(t, 255)
}

/// Reads `n` octets with dots between them.
fn parse_octets(s: &[char], n: usize) -> (r: Option<Vec<u32>>)
    ensures
        match r {
            Some(v) => octets(s@, n as nat) == Some(v@.map_values(|x: u32| x as nat)) && v@.len()
                == n && forall|i: int| 0 <= i < n ==> #[trigger] v@[i] <= 255,
            None => octets(s@, n as nat) is None,
        },
{
    if n == 0 {
        return None;
    }
    let mut v: Vec<u32> = Vec::new();
    let mut p: usize = 0;
    let mut left: usize = n;
    assert(s@.skip(0) =~= s@);
    proof {
        let none = v@.map_values(|x: u32| x as nat);
        assert(forall|more: Seq<nat>| more =~= #[trigger] (none + more));
    }
    while left > 0
        invariant
            left <= n,
            p <= s@.len(),
            v@.len() == n - left,
            forall|i: int| 0 <= i < v@.len() ==> #[trigger] v@[i] <= 255,
            octets(s@, n as nat) == (if left == 0 {
                Some(v@.map_values(|x: u32| x as nat))
            } else {
                match octets(s@.skip(p as int), left as nat) {
                    None => None,
                    Some(rest) => Some(v@.map_values(|x: u32| x as nat) + rest),
                }
            }),
        decreases left,
    {
        let rest: &[char] = slice_subrange(s, p, s.len());
        assert(rest@ =~= s@.skip(p as int));
        let k: usize = find(rest, Stop::Dot);
        let t: &[char] = slice_subrange(rest, 0, k);
        assert(t@ =~= rest@.take(k as int));
        match parse_octet(t) {
            None => {
                return None;
            },
            Some(a) => {
                if (left == 1) != (k == rest.len()) {
                    return None;
                }
                let ghost before = v@.map_values(|x: u32| x as nat);
                v.push(a);
                assert(v@.map_values(|x: u32| x as nat) =~= before.push(a as nat));
                assert(forall|more: Seq<nat>|
                    before + (seq![a as nat] + more) =~= #[trigger] (before.push(a as nat) + more));
                left -= 1;
                if left > 0 {
                    assert(s@.skip(p as int).skip(k + 1) =~= s@.skip(p + k + 1));
                    p = p + k + 1;
                } else {
                    assert(before + seq![a as nat] =~= before.push(a as nat));
                }
            },
        }
    }
    Some(v)
}

/// Reads an IPv4 literal.
pub fn parse_v4(s: &[char]) -> (r: Option<u32>)
    ensures
        r == v4_of(s@),
{
    match parse_octets(s, 4) {
        None => None,
        Some(o) => Some(o[0] * 0x100_0000 + o[1] * 0x1_0000 + o[2] * 0x100 + o[3]),
    }
}

// ================================= IPv6 ==================================

/// Whether a character is a hexadecimal digit.
pub open spec fn is_hex(c: char) -> bool {
    '0' <= c <= '9' || 'a' <= c <= 'f' || 'A' <= c <= 'F'
}

/// The value of a hexadecimal digit.
pub open spec fn hex_digit(c: char) -> nat {
    if c <= '9' {
        (c as u32 - '0' as u32) as nat
    } else if c <= 'F' {
        (c as u32 - 'A' as u32 + 10) as nat
    } else {
        (c as u32 - 'a' as u32 + 10) as nat
    }
}

/// The number that hexadecimal digits stand for.
pub open spec fn hex_value(s: Seq<char>) -> nat
    decreases s.len(),
{
    if s.len() == 0 {
        0
    } else {
        hex_value(s.drop_last()) * 16 + hex_digit(s.last())
    }
}

/// Whether a text is one group: one to four hexadecimal digits.
pub open spec fn is_group(t: Seq<char>) -> bool {
    1 <= t.len() <= 4 && forall|i: int| 0 <= i < t.len() ==> is_hex(#[trigger] t[i])
}

/// The values of groups with colons between them. Where `v4` allows it, an IPv4
/// literal may stand for the last two.
pub open spec fn groups(s: Seq<char>, v4: bool) -> Option<Seq<u16>>
    decreases s.len(),
{
    let k = cut(s, Stop::Colon) as int;
    let t = s.take(k);
    if k >= s.len() {
        if is_group(t) {
            Some(seq![hex_value(t) as u16])
        } else if v4 {
            match v4_of(t) {
                None => None,
                Some(a) => Some(seq![(a / 0x1_0000) as u16, (a % 0x1_0000) as u16]),
            }
        } else {
            None
        }
    } else if !is_group(t) {
        None
    } else {
        match groups(s.skip(k + 1), v4) {
            None => None,
            Some(rest) => Some(seq![hex_value(t) as u16] + rest),
        }
    }
}

/// The groups on one side of `::`, where there may be none.
pub open spec fn side(s: Seq<char>, v4: bool) -> Option<Seq<u16>> {
    if s.len() == 0 {
        Some(seq![])
    } else {
        groups(s, v4)
    }
}

/// Where the first `::` stands; the length of the text when there is none.
pub open spec fn gap(s: Seq<char>) -> nat
    decreases s.len(),
{
    if s.len() < 2 {
        s.len()
    } else if s[0] == ':' && s[1] == ':' {
        0
    } else {
        1 + gap(s.skip(1))
    }
}

/// The eight groups of an IPv6 literal. `::` stands for one zero group or more.
pub open spec fn v6_groups(s: Seq<char>) -> Option<Seq<u16>> {
    let g = gap(s) as int;
    if g >= s.len() {
        match groups(s, true) {
            Some(all) if all.len() == 8 => Some(all),
            _ => None,
        }
    } else {
        match (side(s.take(g), false), side(s.skip(g + 2), true)) {
            (Some(head), Some(tail)) if head.len() + tail.len() <= 7 => Some(
                head + Seq::new((8 - head.len() - tail.len()) as nat, |i: int| 0u16) + tail,
            ),
            _ => None,
        }
    }
}

/// The number that groups spell, most significant first.
pub open spec fn spelled(g: Seq<u16>) -> nat
    decreases g.len(),
{
    if g.len() == 0 {
        0
    } else {
        spelled(g.drop_last()) * 0x1_0000 + g.last() as nat
    }
}

/// The address of an IPv6 literal.
pub open spec fn v6_of(s: Seq<char>) -> Option<u128> {
    match v6_groups(s) {
        None => None,
        Some(g) => Some(spelled(g) as u128),
    }
}

/// The address that a literal denotes.
pub open spec fn ip_of(s: Seq<char>) -> Option<IpAddr> {
    match v4_of(s) {
        Some(a) => Some(IpAddr::V4(a)),
        None => match v6_of(s) {
            Some(a) => Some(IpAddr::V6(a)),
            None => None,
        },
    }
}

/// Reads one group.
fn parse_group(t: &[char]) -> (r: Option<u16>)
    ensures
        match r {
            Some(v) => is_group(t@) && v == hex_value(t@),
            None => !is_group(t@),
        },
{
    if t.len() < 1 || t.len() > 4 {
        return None;
    }
    let mut v: u32 = 0;
    let mut i: usize = 0;
    while i < t.len()
        invariant
            i <= t.len() <= 4,
            v == hex_value(t@.take(i as int)),
            i == 0 ==> v == 0,
            i == 1 ==> v < 0x10,
            i == 2 ==> v < 0x100,
            i == 3 ==> v < 0x1000,
            i == 4 ==> v < 0x1_0000,
            forall|j: int| 0 <= j < i ==> is_hex(#[trigger] t@[j]),
        decreases t.len() - i,
    {
        let c: char = t[i];
        let d: u32 = if '0' <= c && c <= '9' {
            c as u32 - 48
        } else if 'A' <= c && c <= 'F' {
            c as u32 - 65 + 10
        } else if 'a' <= c && c <= 'f' {
            c as u32 - 97 + 10
        } else {
            return None;
        };
        assert(t@.take(i + 1).drop_last() =~= t@.take(i as int));
        v = v * 16 + d;
        i += 1;
    }
    assert(t@.take(i as int) =~= t@);
    Some(v as u16)
}

/// Reads groups with colons between them.
fn parse_groups(s: &[char], v4: bool) -> (r: Option<Vec<u16>>)
    ensures
        match r {
            Some(v) => groups(s@, v4) == Some(v@),
            None => groups(s@, v4) is None,
        },
{
    let mut v: Vec<u16> = Vec::new();
    let mut p: usize = 0;
    assert(s@.skip(0) =~= s@);
    loop
        invariant
            p <= s@.len(),
            groups(s@, v4) == (match groups(s@.skip(p as int), v4) {
                None => None,
                Some(rest) => Some(v@ + rest),
            }),
        decreases s@.len() - p,
    {
        let rest: &[char] = slice_subrange(s, p, s.len());
        assert(rest@ =~= s@.skip(p as int));
        let k: usize = find(rest, Stop::Colon);
        let t: &[char] = slice_subrange(rest, 0, k);
        assert(t@ =~= rest@.take(k as int));
        let group: Option<u16> = parse_group(t);
        if k == rest.len() {
            let ghost before = v@;
            match group {
                Some(g) => {
                    v.push(g);
                    assert(v@ =~= before + seq![g]);
                },
                None => {
                    if !v4 {
                        return None;
                    }
                    match parse_v4(t) {
                        None => {
                            return None;
                        },
                        Some(a) => {
                            let hi: u16 = (a / 0x1_0000) as u16;
                            let lo: u16 = (a % 0x1_0000) as u16;
                            v.push(hi);
                            v.push(lo);
                            assert(v@ =~= before + seq![hi, lo]);
                        },
                    }
                },
            }
            return Some(v);
        }
        match group {
            None => {
                return None;
            },
            Some(g) => {
                let ghost before = v@;
                v.push(g);
                assert(forall|more: Seq<u16>|
                    before + (seq![g] + more) =~= #[trigger] (before.push(g) + more));
                assert(s@.skip(p as int).skip(k + 1) =~= s@.skip(p + k + 1));
                p = p + k + 1;
            },
        }
    }
}

/// Finds the first `::`.
fn find_gap(s: &[char]) -> (k: usize)
    ensures
        k == gap(s@),
        k <= s@.len(),
        k < s@.len() ==> k + 2 <= s@.len(),
{
    let n: usize = s.len();
    let mut i: usize = 0;
    assert(s@.skip(0) =~= s@);
    while i < n && n - i >= 2
        invariant
            i <= n == s@.len(),
            gap(s@) == i + gap(s@.skip(i as int)),
        decreases n - i,
    {
        if s[i] == ':' && s[i + 1] == ':' {
            return i;
        }
        assert(s@.skip(i as int).skip(1) =~= s@.skip(i + 1));
        i += 1;
    }
    n
}

/// Groups spell a number below 65536 to the power of their count.
proof fn lemma_spelled(g: Seq<u16>, k: int)
    requires
        0 <= k <= 8,
        k == g.len(),
    ensures
        k == 0 ==> spelled(g) == 0,
        k == 1 ==> spelled(g) < 0x1_0000,
        k == 2 ==> spelled(g) < 0x1_0000_0000,
        k == 3 ==> spelled(g) < 0x1_0000_0000_0000,
        k == 4 ==> spelled(g) < 0x1_0000_0000_0000_0000,
        k == 5 ==> spelled(g) < 0x1_0000_0000_0000_0000_0000,
        k == 6 ==> spelled(g) < 0x1_0000_0000_0000_0000_0000_0000,
        k == 7 ==> spelled(g) < 0x1_0000_0000_0000_0000_0000_0000_0000,
        k == 8 ==> spelled(g) < 0x1_0000_0000_0000_0000_0000_0000_0000_0000,
    decreases k,
{
    if k > 0 {
        lemma_spelled(g.drop_last(), k - 1);
    }
}

/// The number that eight groups spell.
fn spell(g: &Vec<u16>) -> (r: u128)
    requires
        g@.len() == 8,
    ensures
        r == spelled(g@),
{
    let mut v: u128 = 0;
    let mut i: usize = 0;
    while i < 8
        invariant
            i <= 8 == g@.len(),
            v == spelled(g@.take(i as int)),
        decreases 8 - i,
    {
        proof {
            assert(g@.take(i + 1).drop_last() =~= g@.take(i as int));
            lemma_spelled(g@.take(i + 1), i + 1);
        }
        v = v * 0x1_0000 + g[i] as u128;
        i += 1;
    }
    assert(g@.take(8) =~= g@);
    v
}

/// Reads the groups on one side of `::`.
fn parse_side(s: &[char], v4: bool) -> (r: Option<Vec<u16>>)
    ensures
        match r {
            Some(v) => side(s@, v4) == Some(v@),
            None => side(s@, v4) is None,
        },
{
    if s.len() == 0 {
        let v: Vec<u16> = Vec::new();
        assert(v@ =~= seq![]);
        return Some(v);
    }
    parse_groups(s, v4)
}

/// Reads an IPv6 literal.
pub fn parse_v6(s: &[char]) -> (r: Option<u128>)
    ensures
        r == v6_of(s@),
{
    let g: usize = find_gap(s);
    if g == s.len() {
        return match parse_groups(s, true) {
            Some(all) => if all.len() == 8 {
                Some(spell(&all))
            } else {
                None
            },
            None => None,
        };
    }
    let head_text: &[char] = slice_subrange(s, 0, g);
    let tail_text: &[char] = slice_subrange(s, g + 2, s.len());
    assert(head_text@ =~= s@.take(g as int));
    assert(tail_text@ =~= s@.skip(g + 2));
    match (parse_side(head_text, false), parse_side(tail_text, true)) {
        (Some(head), Some(tail)) => {
            if head.len() > 7 || tail.len() > 7 - head.len() {
                return None;
            }
            let fill: usize = 8 - head.len() - tail.len();
            let mut all: Vec<u16> = head;
            let ghost h = all@;
            let mut i: usize = 0;
            while i < fill
                invariant
                    i <= fill,
                    all@ == h + Seq::new(i as nat, |j: int| 0u16),
                decreases fill - i,
            {
                all.push(0);
                i += 1;
                assert(all@ =~= h + Seq::new(i as nat, |j: int| 0u16));
            }
            let ghost padded = all@;
            i = 0;
            while i < tail.len()
                invariant
                    i <= tail.len(),
                    all@ == padded + tail@.take(i as int),
                decreases tail.len() - i,
            {
                all.push(tail[i]);
                i += 1;
            }
            assert(tail@.take(i as int) =~= tail@);
            Some(spell(&all))
        },
        _ => None,
    }
}

/// Reads an IP literal of either family.
pub fn parse_ip(s: &[char]) -> (r: Option<IpAddr>)
    ensures
        r == ip_of(s@),
{
    match parse_v4(s) {
        Some(a) => Some(IpAddr::V4(a)),
        None => match parse_v6(s) {
            Some(a) => Some(IpAddr::V6(a)),
            None => None,
        },
    }
}

impl IpAddr {
    /// The address that a string denotes as an IP literal.
    pub fn parse(s: &str) -> (r: Option<IpAddr>)
        ensures
            r == ip_of(s@),
    {
        let chars: Vec<char> = chars_of(s);
        parse_ip(chars.as_slice())
    }
}

// ================================= laws =================================

/// Octets in decimal with dots between them.
pub open spec fn dotted(o: Seq<nat>) -> Seq<char>
    decreases o.len(),
{
    if o.len() == 0 {
        seq![]
    } else if o.len() == 1 {
        decimal(o[0])
    } else {
        decimal(o[0]) + (seq!['.'] + dotted(o.drop_first()))
    }
}

/// The decimal of a number below 256 is an octet without a dot in it.
proof fn lemma_octet(n: nat)
    requires
        n <= 255,
    ensures
        is_octet(decimal(n)),
        value_of(decimal(n)) == n,
        cut(decimal(n), Stop::Dot) == decimal(n).len(),
{
    lemma_decimal(n);
    let s = decimal(n);
    assert forall|i: int| 0 <= i < s.len() implies s[i] != '.' by {
        assert(is_digit(s[i]));
    }
    lemma_cut_none(s, Stop::Dot);
    if n >= 10 {
        let t = decimal(n / 10);
        assert(s == t.push(digit(n % 10)));
        if n >= 100 {
            assert(n / 10 / 10 < 10);
            assert(t == decimal(n / 10 / 10).push(digit(n / 10 % 10)));
            assert(s[0] == digit(n / 10 / 10));
        } else {
            assert(s[0] == digit(n / 10));
        }
    }
}

/// Octets written with dots between them are read back.
pub proof fn law_octets_read_back(o: Seq<nat>)
    requires
        o.len() > 0,
        forall|i: int| 0 <= i < o.len() ==> #[trigger] o[i] <= 255,
    ensures
        octets(dotted(o), o.len()) == Some(o),
    decreases o.len(),
{
    let t = decimal(o[0]);
    lemma_octet(o[0]);
    if o.len() == 1 {
        assert(t.take(t.len() as int) =~= t);
        assert(seq![o[0]] =~= o);
    } else {
        let rest = o.drop_first();
        assert forall|i: int| 0 <= i < rest.len() implies #[trigger] rest[i] <= 255 by {
            assert(rest[i] == o[i + 1]);
        }
        law_octets_read_back(rest);
        let tail = seq!['.'] + dotted(rest);
        let all = t + tail;
        assert(tail[0] == '.');
        lemma_cut_append(t, tail, Stop::Dot);
        assert(all.take(t.len() as int) =~= t);
        assert(all.skip(t.len() as int + 1) =~= dotted(rest));
        assert(seq![o[0]] + rest =~= o);
    }
}

/// Every IPv4 address has a literal that denotes it: its octets in decimal.
pub proof fn law_v4_literal(a: u32)
    ensures
        ip_of(
            dotted(
                seq![
                    (a / 0x100_0000) as nat,
                    (a / 0x1_0000 % 0x100) as nat,
                    (a / 0x100 % 0x100) as nat,
                    (a % 0x100) as nat,
                ],
            ),
        ) == Some(IpAddr::V4(a)),
{
    law_octets_read_back(
        seq![
            (a / 0x100_0000) as nat,
            (a / 0x1_0000 % 0x100) as nat,
            (a / 0x100 % 0x100) as nat,
            (a % 0x100) as nat,
        ],
    );
}

/// The hexadecimal digit for `d`, in lower case.
pub open spec fn hex_char(d: nat) -> char {
    if d < 10 {
        ('0' as u32 + d) as char
    } else {
        ('a' as u32 + d - 10) as char
    }
}

/// A group as four hexadecimal digits.
pub open spec fn hex4(g: u16) -> Seq<char> {
    seq![
        hex_char((g / 0x1000) as nat),
        hex_char((g / 0x100 % 0x10) as nat),
        hex_char((g / 0x10 % 0x10) as nat),
        hex_char((g % 0x10) as nat),
    ]
}

/// Groups with colons between them.
pub open spec fn coloned(g: Seq<u16>) -> Seq<char>
    decreases g.len(),
{
    if g.len() == 0 {
        seq![]
    } else if g.len() == 1 {
        hex4(g[0])
    } else {
        hex4(g[0]) + (seq![':'] + coloned(g.drop_first()))
    }
}

proof fn lemma_hex_char(d: nat)
    requires
        d < 16,
    ensures
        is_hex(hex_char(d)),
        hex_digit(hex_char(d)) == d,
        hex_char(d) != ':',
        hex_char(d) != '.',
{
}

/// Four digits are a group of its value, without a colon or a dot in it.
proof fn lemma_hex4(g: u16)
    ensures
        is_group(hex4(g)),
        hex_value(hex4(g)) == g,
        cut(hex4(g), Stop::Colon) == 4,
        forall|i: int| 0 <= i < 4 ==> #[trigger] hex4(g)[i] != ':' && hex4(g)[i] != '.',
{
    let a = (g / 0x1000) as nat;
    let b = (g / 0x100 % 0x10) as nat;
    let c = (g / 0x10 % 0x10) as nat;
    let d = (g % 0x10) as nat;
    lemma_hex_char(a);
    lemma_hex_char(b);
    lemma_hex_char(c);
    lemma_hex_char(d);
    let s = hex4(g);
    assert(s.drop_last() =~= seq![hex_char(a), hex_char(b), hex_char(c)]);
    assert(s.drop_last().drop_last() =~= seq![hex_char(a), hex_char(b)]);
    assert(s.drop_last().drop_last().drop_last() =~= seq![hex_char(a)]);
    assert(s.drop_last().drop_last().drop_last().drop_last() =~= seq![]);
    assert(hex_value(s.drop_last().drop_last().drop_last().drop_last()) == 0);
    assert(hex_value(s.drop_last().drop_last().drop_last()) == a);
    assert(hex_value(s.drop_last().drop_last()) == a * 16 + b);
    assert(hex_value(s.drop_last()) == (a * 16 + b) * 16 + c);
    lemma_cut_none(s, Stop::Colon);
}

/// A run of characters that are no colons, and does not end the text before two
/// colons, has no gap in it.
proof fn lemma_gap_append(p: Seq<char>, rest: Seq<char>)
    requires
        forall|i: int| 0 <= i < p.len() ==> #[trigger] p[i] != ':',
    ensures
        gap(p + rest) == p.len() + gap(rest),
    decreases p.len(),
{
    if p.len() == 0 {
        assert(p + rest =~= rest);
    } else {
        let q = p.skip(1);
        assert forall|i: int| 0 <= i < q.len() implies #[trigger] q[i] != ':' by {
            assert(q[i] == p[i + 1]);
        }
        lemma_gap_append(q, rest);
        assert((p + rest).skip(1) =~= q + rest);
        assert(p[0] != ':');
        if (p + rest).len() < 2 {
            assert(q =~= seq![]);
            assert(rest =~= seq![]);
        }
    }
}

/// Groups written with colons between them are read back, and hold no `::` and no dot.
proof fn lemma_coloned(g: Seq<u16>)
    requires
        g.len() > 0,
    ensures
        groups(coloned(g), true) == Some(g),
        gap(coloned(g)) == coloned(g).len(),
        coloned(g).len() > 0,
        coloned(g)[0] != ':',
        forall|i: int| 0 <= i < coloned(g).len() ==> #[trigger] coloned(g)[i] != '.',
    decreases g.len(),
{
    let h = hex4(g[0]);
    lemma_hex4(g[0]);
    assert(h[0] != ':');
    if g.len() == 1 {
        lemma_gap_append(h, seq![]);
        assert(h + seq![] =~= h);
        assert(h.take(4) =~= h);
        assert(seq![g[0]] =~= g);
    } else {
        let more = g.drop_first();
        lemma_coloned(more);
        let text = coloned(more);
        let tail = seq![':'] + text;
        let all = h + tail;
        assert(tail[0] == ':');
        lemma_cut_append(h, tail, Stop::Colon);
        assert(all.take(4) =~= h);
        assert(all.skip(5) =~= text);
        assert(seq![g[0]] + more =~= g);
        lemma_gap_append(h, tail);
        assert(tail[1] == text[0]);
        assert(tail.skip(1) =~= text);
        assert(all[0] == h[0]);
        assert forall|i: int| 0 <= i < all.len() implies #[trigger] all[i] != '.' by {
            if i < 4 {
                assert(all[i] == h[i]);
            } else if i > 4 {
                assert(all[i] == text[i - 5]);
            }
        }
    }
}

/// Every IPv6 address has a literal that denotes it: its eight groups in hexadecimal.
pub proof fn law_v6_literal(g: Seq<u16>)
    requires
        g.len() == 8,
    ensures
        ip_of(coloned(g)) == Some(IpAddr::V6(spelled(g) as u128)),
        spelled(g) <= u128::MAX,
{
    lemma_spelled(g, 8);
    lemma_coloned(g);
    lemma_cut_none(coloned(g), Stop::Dot);
}

} // verus!
