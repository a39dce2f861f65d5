//! Laws of IP literals: which texts denote which addresses.

use crate::addr::{
    dotted, gap, groups, hex_digit, hex_value, ip_of, is_group, is_hex, is_octet, law_octets_read_back,
    octets, side, spelled, v4_of, IpAddr,
};
use crate::text::{
    cut, decimal, digit, is_digit, is_stop, lemma_cut_append, lemma_cut_none, lemma_decimal, value_of,
    Stop,
};
use vstd::prelude::*;

verus! {

// ================================= IPv4 =================================

/// The four octets of an address, the highest first.
pub open spec fn quad(a: u32) -> Seq<nat> {
    seq![
        (a / 0x100_0000) as nat,
        (a / 0x1_0000 % 0x100) as nat,
        (a / 0x100 % 0x100) as nat,
        (a % 0x100) as nat,
    ]
}

/// An octet is the decimal of its value.
proof fn lemma_octet_is_decimal(t: Seq<char>)
    requires
        is_octet(t),
    ensures
        t == decimal(value_of(t)),
        value_of(t) <= 255,
{
    let n = t.len();
    let a = t.drop_last();
    let b = a.drop_last();
    let c = b.drop_last();
    assert(is_digit(t[0]));
    assert(is_digit(t[n - 1]));
    if n == 1 {
        assert(a =~= seq![]);
        assert(value_of(a) == 0);
        assert(t =~= seq![digit(value_of(t))]);
    } else if n == 2 {
        assert(b =~= seq![]);
        assert(value_of(b) == 0);
        assert(a.last() == t[0]);
        assert(value_of(a) == t[0] as u32 - 48);
        assert(a =~= decimal(value_of(a)));
        assert(t =~= a.push(digit(value_of(t) % 10)));
    } else {
        assert(is_digit(t[1]));
        assert(c =~= seq![]);
        assert(value_of(c) == 0);
        assert(b.last() == t[0]);
        assert(a.last() == t[1]);
        assert(value_of(b) == t[0] as u32 - 48);
        assert(value_of(a) == value_of(b) * 10 + (t[1] as u32 - 48));
        assert(b =~= decimal(value_of(b)));
        assert(a =~= b.push(digit(value_of(a) % 10)));
        assert(value_of(a) >= 10);
        assert(value_of(a) / 10 == value_of(b));
        assert(a =~= decimal(value_of(a)));
        assert(value_of(t) / 10 == value_of(a));
        assert(t =~= a.push(digit(value_of(t) % 10)));
    }
}

/// A text that reads as octets is these octets in decimal with dots between them.
proof fn lemma_octets_are_dotted(s: Seq<char>, n: nat)
    ensures
        octets(s, n) matches Some(o) ==> o.len() == n && s == dotted(o) && forall|i: int|
            0 <= i < n ==> #[trigger] o[i] <= 255,
    decreases n,
{
    if let Some(o) = octets(s, n) {
        let k = cut(s, Stop::Dot) as int;
        let t = s.take(k);
        lemma_cut_append(s, seq![], Stop::Dot);
        lemma_octet_is_decimal(t);
        if n == 1 {
            assert(s =~= t);
        } else {
            let rest = s.skip(k + 1);
            lemma_octets_are_dotted(rest, (n - 1) as nat);
            let r = octets(rest, (n - 1) as nat)->0;
            lemma_stop_at_cut(s, Stop::Dot);
            assert(o.drop_first() =~= r);
            assert(s =~= t + (seq!['.'] + rest));
            assert forall|i: int| 0 <= i < n implies #[trigger] o[i] <= 255 by {
                if i > 0 {
                    assert(o[i] == r[i - 1]);
                }
            }
        }
    }
}

/// Where a text is cut, there is a stop.
proof fn lemma_stop_at_cut(s: Seq<char>, stop: Stop)
    ensures
        cut(s, stop) < s.len() ==> is_stop(s[cut(s, stop) as int], stop),
    decreases s.len(),
{
    if s.len() > 0 && !is_stop(s[0], stop) {
        lemma_stop_at_cut(s.skip(1), stop);
    }
}

/// Four octets are told from the address that they make.
proof fn lemma_quad(o: Seq<nat>, a: u32)
    requires
        o.len() == 4,
        forall|i: int| 0 <= i < 4 ==> #[trigger] o[i] <= 255,
    ensures
        quad(a).len() == 4,
        forall|i: int| 0 <= i < 4 ==> #[trigger] quad(a)[i] <= 255,
        quad(a)[0] * 0x100_0000 + quad(a)[1] * 0x1_0000 + quad(a)[2] * 0x100 + quad(a)[3] == a,
        o[0] * 0x100_0000 + o[1] * 0x1_0000 + o[2] * 0x100 + o[3] == a ==> o == quad(a),
{
    assert((a / 0x100_0000) * 0x100_0000 + (a / 0x1_0000 % 0x100) * 0x1_0000 + (a / 0x100 % 0x100)
        * 0x100 + a % 0x100 == a) by (bit_vector);
    if o[0] * 0x100_0000 + o[1] * 0x1_0000 + o[2] * 0x100 + o[3] == a {
        lemma_bytes(a as int, o[0] as int, o[1] as int, o[2] as int, o[3] as int);
        assert(o =~= quad(a));
    }
}

/// The bytes of a number are its digits to the base 256.
proof fn lemma_bytes(a: int, p: int, q: int, r: int, s: int)
    requires
        0 <= p,
        0 <= q <= 255,
        0 <= r <= 255,
        0 <= s <= 255,
        a == p * 0x100_0000 + q * 0x1_0000 + r * 0x100 + s,
    ensures
        a / 0x100_0000 == p,
        a / 0x1_0000 % 0x100 == q,
        a / 0x100 % 0x100 == r,
        a % 0x100 == s,
{
    let x = p * 0x1_0000 + q * 0x100 + r;
    let y = p * 0x100 + q;
    assert(a / 0x100 == x && x % 0x100 == r) by {
        assert(a == x * 0x100 + s);
    }
    assert(a / 0x1_0000 == y && y % 0x100 == q) by {
        assert(a == y * 0x1_0000 + (r * 0x100 + s));
    }
}

/// An IPv4 address has exactly one literal: its four octets in decimal, without leading
/// zeros, the highest first, with dots between them.
pub proof fn law_v4_exact(s: Seq<char>, a: u32)
    ensures
        ip_of(s) == Some(IpAddr::V4(a)) <==> s == dotted(quad(a)),
{
    lemma_quad(quad(a), a);
    law_octets_read_back(quad(a));
    lemma_octets_are_dotted(s, 4);
    if v4_of(s) == Some(a) {
        let o = octets(s, 4)->0;
        assert(o[0] <= 255 && o[1] <= 255 && o[2] <= 255 && o[3] <= 255);
        lemma_quad(o, a);
    }
}

// ================================= IPv6 =================================

/// A hexadecimal digit is one of 0 to 9, a to f and A to F, and stands for its value.
pub proof fn law_hex_digit(c: char)
    ensures
        is_hex(c) <==> 48 <= c as u32 <= 57 || 97 <= c as u32 <= 102 || 65 <= c as u32 <= 70,
        48 <= c as u32 <= 57 ==> hex_digit(c) == c as u32 - 48,
        97 <= c as u32 <= 102 ==> hex_digit(c) == c as u32 - 87,
        65 <= c as u32 <= 70 ==> hex_digit(c) == c as u32 - 55,
{
}

/// A group is one to four hexadecimal digits; each digit behind others makes them count
/// sixteen times as much.
pub proof fn law_hex_group(t: Seq<char>, c: char)
    ensures
        is_group(t) <==> 1 <= t.len() <= 4 && forall|i: int|
            0 <= i < t.len() ==> is_hex(#[trigger] t[i]),
        hex_value(seq![]) == 0,
        hex_value(t.push(c)) == hex_value(t) * 16 + hex_digit(c),
{
    assert(t.push(c).drop_last() =~= t);
}

/// The number that eight groups spell.
pub proof fn law_spelled(g: Seq<u16>)
    requires
        g.len() == 8,
    ensures
        spelled(g) == ((((((g[0] * 0x1_0000 + g[1]) * 0x1_0000 + g[2]) * 0x1_0000 + g[3])
            * 0x1_0000 + g[4]) * 0x1_0000 + g[5]) * 0x1_0000 + g[6]) * 0x1_0000 + g[7],
{
    let a = g.drop_last();
    let b = a.drop_last();
    let c = b.drop_last();
    let d = c.drop_last();
    let e = d.drop_last();
    let f = e.drop_last();
    let h = f.drop_last();
    assert(h.drop_last() =~= seq![]);
    assert(spelled(h.drop_last()) == 0);
    assert(spelled(h) == g[0]);
    assert(spelled(f) == spelled(h) * 0x1_0000 + g[1]);
    assert(spelled(e) == spelled(f) * 0x1_0000 + g[2]);
    assert(spelled(d) == spelled(e) * 0x1_0000 + g[3]);
    assert(spelled(c) == spelled(d) * 0x1_0000 + g[4]);
    assert(spelled(b) == spelled(c) * 0x1_0000 + g[5]);
    assert(spelled(a) == spelled(b) * 0x1_0000 + g[6]);
}

/// Texts with colons between them.
pub open spec fn joined(ts: Seq<Seq<char>>) -> Seq<char>
    decreases ts.len(),
{
    if ts.len() == 0 {
        seq![]
    } else if ts.len() == 1 {
        ts[0]
    } else {
        ts[0] + (seq![':'] + joined(ts.drop_first()))
    }
}

/// Whether each of some texts is one to four hexadecimal digits.
pub open spec fn all_groups(ts: Seq<Seq<char>>) -> bool {
    forall|i: int| 0 <= i < ts.len() ==> is_group(#[trigger] ts[i])
}

/// The values of such texts.
pub open spec fn group_values(ts: Seq<Seq<char>>) -> Seq<u16> {
    ts.map_values(|t: Seq<char>| hex_value(t) as u16)
}

proof fn lemma_group_chars(t: Seq<char>)
    requires
        is_group(t),
    ensures
        forall|i: int| 0 <= i < t.len() ==> #[trigger] t[i] != ':' && t[i] != '.',
        cut(t, Stop::Colon) == t.len(),
        t.take(t.len() as int) == t,
{
    assert forall|i: int| 0 <= i < t.len() implies #[trigger] t[i] != ':' && t[i] != '.' by {
        assert(is_hex(t[i]));
    }
    lemma_cut_none(t, Stop::Colon);
    assert(t.take(t.len() as int) =~= t);
}

/// Characters that are no colons hold no part of a `::`.
proof fn lemma_gap_after(p: Seq<char>, rest: Seq<char>)
    requires
        forall|i: int| 0 <= i < p.len() ==> #[trigger] p[i] != ':',
    ensures
        gap(p + rest) == p.len() + gap(rest),
    decreases p.len(),
{
    if p.len() == 0 {
        assert(p + rest =~= rest);
    } else {
        let q = p.skip(1);
        assert forall|i: int| 0 <= i < q.len() implies #[trigger] q[i] != ':' by {
            assert(q[i] == p[i + 1]);
        }
        lemma_gap_after(q, rest);
        assert((p + rest).skip(1) =~= q + rest);
        assert(p[0] != ':');
        if (p + rest).len() < 2 {
            assert(q =~= seq![]);
            assert(rest =~= seq![]);
        }
    }
}

/// Groups with colons between them hold no `::` and no dot, and read as their values. What
/// stands behind them, if it starts with a colon or is nothing, has its `::` where it had
/// it.
#[verifier::spinoff_prover]
proof fn lemma_joined(ts: Seq<Seq<char>>, v4: bool, rest: Seq<char>)
    requires
        ts.len() > 0,
        all_groups(ts),
    ensures
        joined(ts).len() > 0,
        joined(ts)[0] != ':',
        forall|i: int| 0 <= i < joined(ts).len() ==> #[trigger] joined(ts)[i] != '.',
        groups(joined(ts), v4) == Some(group_values(ts)),
        gap(joined(ts) + rest) == joined(ts).len() + gap(rest),
    decreases ts.len(),
{
    let h = ts[0];
    assert(is_group(h));
    lemma_group_chars(h);
    if ts.len() == 1 {
        lemma_gap_after(h, rest);
        assert(group_values(ts) =~= seq![hex_value(h) as u16]);
    } else {
        let more = ts.drop_first();
        assert forall|i: int| 0 <= i < more.len() implies is_group(#[trigger] more[i]) by {
            assert(more[i] == ts[i + 1]);
        }
        lemma_joined(more, v4, rest);
        let text = joined(more);
        let tail = seq![':'] + text;
        let all = h + tail;
        assert(tail[0] == ':');
        lemma_cut_append(h, tail, Stop::Colon);
        assert(all.take(h.len() as int) =~= h);
        assert(all.skip(h.len() as int + 1) =~= text);
        assert(seq![hex_value(h) as u16] + group_values(more) =~= group_values(ts));
        assert(all[0] == h[0]);
        assert forall|i: int| 0 <= i < all.len() implies #[trigger] all[i] != '.' by {
            if i < h.len() {
                assert(all[i] == h[i]);
            } else if i > h.len() {
                assert(all[i] == text[i - h.len() - 1]);
            }
        }
        let x = seq![':'] + (text + rest);
        lemma_gap_after(h, x);
        assert(h + x =~= all + rest);
        assert(x[0] == ':' && x[1] == text[0]);
        assert(x.skip(1) =~= text + rest);
    }
}

/// A text without a dot is no IPv4 literal.
proof fn lemma_no_dot(s: Seq<char>)
    requires
        forall|i: int| 0 <= i < s.len() ==> #[trigger] s[i] != '.',
    ensures
        v4_of(s) is None,
{
    lemma_cut_none(s, Stop::Dot);
}

/// Eight groups of one to four hexadecimal digits in any case, with colons between them,
/// denote the IPv6 address that they spell; fewer or more denote none.
pub proof fn law_v6_groups(ts: Seq<Seq<char>>)
    requires
        all_groups(ts),
        ts.len() > 0,
    ensures
        ts.len() == 8 ==> ip_of(joined(ts)) == Some(
            IpAddr::V6(spelled(group_values(ts)) as u128),
        ),
        ts.len() != 8 ==> ip_of(joined(ts)) is None,
{
    lemma_joined(ts, true, seq![]);
    assert(joined(ts) + seq![] =~= joined(ts));
    lemma_no_dot(joined(ts));
}

/// `::` stands for as many zero groups as are missing to eight, at least one, wherever it
/// stands; where none is missing the text denotes no address.
pub proof fn law_v6_compressed(a: Seq<Seq<char>>, b: Seq<Seq<char>>)
    requires
        all_groups(a),
        all_groups(b),
    ensures
        a.len() + b.len() <= 7 ==> ip_of(joined(a) + seq![':', ':'] + joined(b)) == Some(
            IpAddr::V6(
                spelled(
                    group_values(a) + Seq::new((8 - a.len() - b.len()) as nat, |i: int| 0u16)
                        + group_values(b),
                ) as u128,
            ),
        ),
        a.len() + b.len() > 7 ==> ip_of(joined(a) + seq![':', ':'] + joined(b)) is None,
{
    let two = seq![':', ':'];
    let rest = two + joined(b);
    let s = joined(a) + two + joined(b);
    assert(joined(a) + rest =~= s);
    assert(rest[0] == ':' && rest[1] == ':');
    assert(gap(rest) == 0);
    let none = Seq::<char>::empty();
    if a.len() > 0 {
        lemma_joined(a, false, rest);
    } else {
        assert(s =~= rest);
        assert(group_values(a) =~= seq![]);
        assert(joined(a) =~= none);
    }
    if b.len() > 0 {
        lemma_joined(b, true, none);
    } else {
        assert(group_values(b) =~= seq![]);
        assert(joined(b) =~= none);
    }
    let g = joined(a).len() as int;
    assert(gap(s) == g);
    assert(s.take(g) =~= joined(a));
    assert(s.skip(g + 2) =~= joined(b));
    assert forall|i: int| 0 <= i < s.len() implies #[trigger] s[i] != '.' by {
        if i < g {
            assert(s[i] == joined(a)[i]);
        } else if i >= g + 2 {
            assert(s[i] == joined(b)[i - g - 2]);
        }
    }
    lemma_no_dot(s);
    assert(side(joined(a), false) == Some(group_values(a)));
    assert(side(joined(b), true) == Some(group_values(b)));
}

/// Octets with dots between them hold no colon, and more than one octet holds a dot.
proof fn lemma_dotted_chars(o: Seq<nat>)
    ensures
        forall|i: int| 0 <= i < dotted(o).len() ==> #[trigger] dotted(o)[i] != ':',
        o.len() > 1 ==> exists|i: int| 0 <= i < dotted(o).len() && #[trigger] dotted(o)[i] == '.',
        o.len() > 0 ==> dotted(o).len() > 0,
    decreases o.len(),
{
    if o.len() > 0 {
        let t = decimal(o[0]);
        lemma_decimal(o[0]);
        assert forall|i: int| 0 <= i < t.len() implies #[trigger] t[i] != ':' by {
            assert(is_digit(t[i]));
        }
        if o.len() > 1 {
            let more = dotted(o.drop_first());
            lemma_dotted_chars(o.drop_first());
            let all = t + (seq!['.'] + more);
            assert(dotted(o) == all);
            assert(dotted(o)[t.len() as int] == '.');
            assert forall|i: int| 0 <= i < all.len() implies #[trigger] all[i] != ':' by {
                if i < t.len() {
                    assert(all[i] == t[i]);
                } else if i > t.len() {
                    assert(all[i] == more[i - t.len() - 1]);
                }
            }
        }
    }
}

/// A text with a colon is no IPv4 literal.
proof fn lemma_colon(s: Seq<char>, i: int)
    requires
        0 <= i < s.len(),
        s[i] == ':',
    ensures
        v4_of(s) is None,
{
    lemma_octets_are_dotted(s, 4);
    if octets(s, 4) is Some {
        lemma_dotted_chars(octets(s, 4)->0);
    }
}

/// Groups, and then an IPv4 literal, with colons between them.
pub open spec fn with_v4(ts: Seq<Seq<char>>, a: u32) -> Seq<char> {
    if ts.len() == 0 {
        dotted(quad(a))
    } else {
        joined(ts) + (seq![':'] + dotted(quad(a)))
    }
}

/// The values of such groups; the IPv4 literal stands for two.
pub open spec fn with_v4_values(ts: Seq<Seq<char>>, a: u32) -> Seq<u16> {
    group_values(ts) + seq![(a / 0x1_0000) as u16, (a % 0x1_0000) as u16]
}

proof fn lemma_with_v4(ts: Seq<Seq<char>>, a: u32)
    requires
        all_groups(ts),
    ensures
        with_v4(ts, a).len() > 0,
        with_v4(ts, a)[0] != ':',
        groups(with_v4(ts, a), true) == Some(with_v4_values(ts, a)),
        gap(with_v4(ts, a)) == with_v4(ts, a).len(),
    decreases ts.len(),
{
    let z = dotted(quad(a));
    lemma_quad(quad(a), a);
    law_octets_read_back(quad(a));
    lemma_dotted_chars(quad(a));
    assert(v4_of(z) == Some(a));
    if ts.len() == 0 {
        lemma_cut_none(z, Stop::Colon);
        assert(z.take(z.len() as int) =~= z);
        let i = choose|i: int| 0 <= i < z.len() && #[trigger] z[i] == '.';
        assert(!is_hex(z[i]));
        assert(with_v4_values(ts, a) =~= seq![(a / 0x1_0000) as u16, (a % 0x1_0000) as u16]);
        lemma_gap_after(z, seq![]);
        assert(z + seq![] =~= z);
    } else {
        let h = ts[0];
        let more = ts.drop_first();
        assert(is_group(h));
        lemma_group_chars(h);
        assert forall|i: int| 0 <= i < more.len() implies is_group(#[trigger] more[i]) by {
            assert(more[i] == ts[i + 1]);
        }
        lemma_with_v4(more, a);
        let text = with_v4(more, a);
        let tail = seq![':'] + text;
        let all = h + tail;
        assert(with_v4(ts, a) =~= all);
        assert(tail[0] == ':');
        lemma_cut_append(h, tail, Stop::Colon);
        assert(all.take(h.len() as int) =~= h);
        assert(all.skip(h.len() as int + 1) =~= text);
        assert(seq![hex_value(h) as u16] + with_v4_values(more, a) =~= with_v4_values(ts, a));
        assert(all[0] == h[0]);
        lemma_gap_after(h, tail);
        assert(tail[1] == text[0]);
        assert(tail.skip(1) =~= text);
    }
}

/// The last two groups may be written as an IPv4 literal: behind six groups, or behind `::`
/// and any groups that leave one to be filled in.
pub proof fn law_v6_embeds_v4(a: Seq<Seq<char>>, b: Seq<Seq<char>>, v4: u32)
    requires
        all_groups(a),
        all_groups(b),
    ensures
        b.len() == 6 ==> ip_of(with_v4(b, v4)) == Some(
            IpAddr::V6(spelled(with_v4_values(b, v4)) as u128),
        ),
        a.len() + b.len() <= 5 ==> ip_of(joined(a) + seq![':', ':'] + with_v4(b, v4)) == Some(
            IpAddr::V6(
                spelled(
                    group_values(a) + Seq::new((6 - a.len() - b.len()) as nat, |i: int| 0u16)
                        + with_v4_values(b, v4),
                ) as u128,
            ),
        ),
{
    let z = with_v4(b, v4);
    lemma_with_v4(b, v4);
    if b.len() > 0 {
        assert(z[joined(b).len() as int] == ':');
        lemma_colon(z, joined(b).len() as int);
    }
    let two = seq![':', ':'];
    let rest = two + z;
    let s = joined(a) + two + z;
    assert(joined(a) + rest =~= s);
    assert(rest[0] == ':' && rest[1] == ':');
    assert(gap(rest) == 0);
    if a.len() > 0 {
        lemma_joined(a, false, rest);
    } else {
        assert(s =~= rest);
        assert(group_values(a) =~= seq![]);
        assert(joined(a) =~= Seq::<char>::empty());
    }
    let g = joined(a).len() as int;
    assert(gap(s) == g);
    assert(s.take(g) =~= joined(a));
    assert(s.skip(g + 2) =~= z);
    assert(s[g] == ':');
    lemma_colon(s, g);
    assert(side(joined(a), false) == Some(group_values(a)));
    assert(side(z, true) == Some(with_v4_values(b, v4)));
}

/// Groups with colons between them, the last two as an IPv4 literal if there is one.
pub open spec fn tail_text(ts: Seq<Seq<char>>, v4: Option<u32>) -> Seq<char> {
    match v4 {
        Some(a) => with_v4(ts, a),
        None => joined(ts),
    }
}

/// How many groups such a text stands for.
pub open spec fn tail_count(ts: Seq<Seq<char>>, v4: Option<u32>) -> nat {
    if v4 is Some {
        ts.len() + 2
    } else {
        ts.len()
    }
}

/// What reads as groups is groups with colons between them.
proof fn lemma_groups_form(s: Seq<char>, v4: bool) -> (r: (Seq<Seq<char>>, Option<u32>))
    requires
        groups(s, v4) is Some,
    ensures
        all_groups(r.0),
        r.1 is Some ==> v4,
        s == tail_text(r.0, r.1),
        groups(s, v4)->0.len() == tail_count(r.0, r.1),
    decreases s.len(),
{
    let k = cut(s, Stop::Colon) as int;
    lemma_cut_append(s, seq![], Stop::Colon);
    let t = s.take(k);
    if k >= s.len() {
        assert(t =~= s);
        if is_group(t) {
            (seq![t], None)
        } else {
            let a = v4_of(t)->0;
            law_v4_exact(t, a);
            (seq![], Some(a))
        }
    } else {
        let rest = s.skip(k + 1);
        let (more, a) = lemma_groups_form(rest, v4);
        let ts = seq![t] + more;
        lemma_stop_at_cut(s, Stop::Colon);
        assert(s =~= t + (seq![':'] + rest));
        assert forall|i: int| 0 <= i < ts.len() implies is_group(#[trigger] ts[i]) by {
            if i > 0 {
                assert(ts[i] == more[i - 1]);
            }
        }
        assert(ts.drop_first() =~= more);
        match a {
            Some(x) => {
                if more.len() == 0 {
                    assert(joined(ts) == t);
                }
                assert(with_v4(ts, x) =~= t + (seq![':'] + with_v4(more, x)));
            },
            None => {
                if more.len() == 0 {
                    assert(groups(rest, v4)->0.len() == 0);
                    assert(false);
                }
            },
        }
        (ts, a)
    }
}

/// Where there is a `::`, two colons stand.
proof fn lemma_at_gap(s: Seq<char>)
    ensures
        gap(s) < s.len() ==> gap(s) + 2 <= s.len() && s[gap(s) as int] == ':' && s[gap(s) as int
            + 1] == ':',
    decreases s.len(),
{
    if s.len() >= 2 && !(s[0] == ':' && s[1] == ':') {
        lemma_at_gap(s.skip(1));
    }
}

/// No other text is an IPv6 literal: it is eight groups, or groups before and after one
/// `::` that leave at least one to be filled in, and the last two groups may be written as
/// an IPv4 literal. Returns the groups before the `::` if there is one, those after it, or
/// all of them, the IPv4 literal if there is one, and whether there is a `::`.
pub proof fn law_v6_forms(s: Seq<char>) -> (r: (
    Seq<Seq<char>>,
    Seq<Seq<char>>,
    Option<u32>,
    bool,
))
    requires
        ip_of(s) matches Some(a) && a is V6,
    ensures
        all_groups(r.0),
        all_groups(r.1),
        !r.3 ==> s == tail_text(r.1, r.2) && tail_count(r.1, r.2) == 8,
        r.3 ==> s == joined(r.0) + seq![':', ':'] + tail_text(r.1, r.2) && r.0.len() + tail_count(
            r.1,
            r.2,
        ) <= 7,
{
    let g = gap(s) as int;
    let none = Seq::<Seq<char>>::empty();
    if g >= s.len() {
        let (b, v4) = lemma_groups_form(s, true);
        (none, b, v4, false)
    } else {
        lemma_at_gap(s);
        let left = s.take(g);
        let right = s.skip(g + 2);
        assert(s =~= left + seq![':', ':'] + right);
        let a = if left.len() == 0 {
            assert(left =~= joined(none));
            none
        } else {
            lemma_groups_form(left, false).0
        };
        let (b, v4) = if right.len() == 0 {
            assert(right =~= joined(none));
            (none, None)
        } else {
            lemma_groups_form(right, true)
        };
        (a, b, v4, true)
    }
}

} // verus!
