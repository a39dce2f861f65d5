//! Laws of the configuration, over the texts that a user writes: which line sets which
//! key, which key sets what, and what each value means.

use crate::addr::{ip_of, IpAddr};
use crate::config::{
    defaults, empty_text, ini_places, invalid_text, ips_of, loaded, overlaid, setting, starts_ci,
    texts, truth, ConfigView, IniPlace, Key, Layer,
};
use crate::settings::{after_line, after_text, ini_of};
use crate::text::{
    cut, is_stop, is_white, lemma_cut_append, lemma_cut_none, lowered, number, trimmed, Stop,
};
use crate::text_laws::{
    blank_text, law_blank_trims_to_nothing, law_padding_is_trimmed, law_says, law_trimmed,
    law_trimmed_stands_in, lemma_leading, lemma_trailing, says,
};
use vstd::prelude::*;

verus! {

// =============================== INI lines ==============================

/// A line `key = value`, with a comment behind it or not, and white space anywhere, sets
/// the key in lower case to the value, both without the white space around them. The key
/// ends at the first `=`, the value at the first `;` or `#`.
pub proof fn law_ini_line(
    m: Map<Seq<char>, Seq<char>>,
    k: Seq<char>,
    v: Seq<char>,
    comment: Seq<char>,
)
    requires
        forall|i: int| 0 <= i < k.len() ==> #[trigger] k[i] != '=',
        trimmed(k).len() > 0 ==> trimmed(k)[0] != ';' && trimmed(k)[0] != '#' && trimmed(k)[0]
            != '[',
        forall|i: int| 0 <= i < v.len() ==> #[trigger] v[i] != ';' && v[i] != '#',
        comment.len() > 0 ==> comment[0] == ';' || comment[0] == '#',
    ensures
        after_line(m, k + seq!['='] + v + comment) == m.insert(lowered(trimmed(k)), trimmed(v)),
{
    let eq = seq!['='];
    let w = v + comment;
    let line = k + eq + v + comment;
    let i = lemma_leading(k);
    let k1 = k.skip(i);
    let j = lemma_trailing(w);
    let w1 = w.take(j);
    let l = k1 + (eq + w1);
    // The line without the white space around it.
    assert(line =~= k.take(i) + l + w.skip(j));
    if k1.len() > 0 {
        assert(l[0] == k1[0] && k1[0] == k[i]);
    } else {
        assert(l[0] == '=');
    }
    if w1.len() > 0 {
        assert(l.last() == w1.last() && w1.last() == w[j - 1]);
    } else {
        assert(l.last() == '=');
    }
    law_trimmed(k.take(i), l, w.skip(j));
    // The key.
    assert forall|n: int| 0 <= n < k1.len() implies !is_stop(#[trigger] k1[n], Stop::Equals) by {
        assert(k1[n] == k[i + n]);
    }
    lemma_cut_none(k1, Stop::Equals);
    lemma_cut_append(k1, eq + w1, Stop::Equals);
    assert((eq + w1)[0] == '=');
    assert(l.take(k1.len() as int) =~= k1);
    assert(l.skip(k1.len() as int + 1) =~= w1);
    let none = Seq::<char>::empty();
    law_padding_is_trimmed(k.take(i), k1, none);
    assert(k.take(i) + k1 + none =~= k);
    let e = lemma_trailing(k1);
    if k1.len() > 0 {
        if e == 0 {
            assert(is_white(k1.skip(0)[0]));
        }
        let t = k1.take(e);
        assert(t[0] == k1[0] && t.last() == k1[e - 1]);
        law_trimmed(k.take(i), t, k1.skip(e));
        assert(k.take(i) + t + k1.skip(e) =~= k);
        assert(trimmed(k)[0] == l[0]);
    }
    // The value.
    assert forall|n: int| 0 <= n < v.len() implies !is_stop(#[trigger] v[n], Stop::Comment) by {}
    lemma_cut_none(v, Stop::Comment);
    if comment.len() == 0 {
        assert(w =~= v);
        assert forall|n: int| 0 <= n < w1.len() implies !is_stop(#[trigger] w1[n], Stop::Comment) by {
            assert(w1[n] == v[n]);
        }
        lemma_cut_none(w1, Stop::Comment);
        assert(w1.take(w1.len() as int) =~= w1);
        law_padding_is_trimmed(none, w1, w.skip(j));
        assert(none + w1 + w.skip(j) =~= v);
    } else {
        assert(w[v.len() as int] == comment[0]);
        if j <= v.len() {
            assert(is_white(w.skip(j)[v.len() - j]));
        }
        let c1 = comment.take(j - v.len());
        assert(w1 =~= v + c1);
        assert(c1[0] == comment[0]);
        lemma_cut_append(v, c1, Stop::Comment);
        assert(w1.take(v.len() as int) =~= v);
    }
}

/// A line without `=`, a comment line, a section header and a blank line set nothing.
pub proof fn law_ini_line_without_effect(m: Map<Seq<char>, Seq<char>>, line: Seq<char>)
    requires
        blank_text(line) || (trimmed(line).len() > 0 && (trimmed(line)[0] == ';' || trimmed(line)[0]
            == '#' || trimmed(line)[0] == '[')) || (forall|i: int|
            0 <= i < line.len() ==> #[trigger] line[i] != '='),
    ensures
        after_line(m, line) == m,
{
    law_blank_trims_to_nothing(line);
    if forall|i: int| 0 <= i < line.len() ==> #[trigger] line[i] != '=' {
        let i = law_trimmed_stands_in(line);
        let t = trimmed(line);
        assert forall|n: int| 0 <= n < t.len() implies !is_stop(#[trigger] t[n], Stop::Equals) by {
            assert(t[n] == line[i + n]);
        }
        lemma_cut_none(t, Stop::Equals);
    }
}

/// A text without a line feed is one line.
pub proof fn law_ini_single_line(m: Map<Seq<char>, Seq<char>>, line: Seq<char>)
    requires
        forall|i: int| 0 <= i < line.len() ==> #[trigger] line[i] != '\n',
    ensures
        after_text(m, line) == after_line(m, line),
{
    assert forall|i: int| 0 <= i < line.len() implies !is_stop(
        #[trigger] line[i],
        Stop::Newline,
    ) by {}
    lemma_cut_none(line, Stop::Newline);
}

/// Settings from a text start from nothing: a key is set exactly when the lines set it.
pub proof fn law_ini_starts_from_nothing(s: Seq<char>)
    ensures
        ini_of(s) == after_text(Map::<Seq<char>, Seq<char>>::empty(), s),
        (forall|i: int| 0 <= i < s.len() ==> #[trigger] s[i] != '=' && s[i] != '\n') ==> ini_of(s)
            == Map::<Seq<char>, Seq<char>>::empty(),
{
    let none = Map::<Seq<char>, Seq<char>>::empty();
    if forall|i: int| 0 <= i < s.len() ==> #[trigger] s[i] != '=' && s[i] != '\n' {
        law_ini_single_line(none, s);
        law_ini_line_without_effect(none, s);
    }
}

// ================================ values ================================

/// Whether a value says yes: it is one of the words `1`, `true`, `yes`, `on`, `enable` and
/// `enabled`, in any case, with any white space around it.
pub open spec fn says_yes(v: Seq<char>) -> bool {
    ||| says(v, "1"@)
    ||| says(v, "true"@)
    ||| says(v, "yes"@)
    ||| says(v, "on"@)
    ||| says(v, "enable"@)
    ||| says(v, "enabled"@)
}

/// A switch is on for each of the words that say yes, and for no other text.
pub proof fn law_switch_words(v: Seq<char>)
    ensures
        truth(v) == says_yes(v),
{
    reveal_strlit("1");
    reveal_strlit("true");
    reveal_strlit("yes");
    reveal_strlit("on");
    reveal_strlit("enable");
    reveal_strlit("enabled");
    law_says(v, "1"@);
    law_says(v, "true"@);
    law_says(v, "yes"@);
    law_says(v, "on"@);
    law_says(v, "enable"@);
    law_says(v, "enabled"@);
}

/// A choice is made by the first letter of its value, in either case.
pub proof fn law_choice_letters(v: Seq<char>)
    ensures
        starts_ci(v, 't') <==> v.len() > 0 && (v[0] == 't' || v[0] == 'T'),
        starts_ci(v, 's') <==> v.len() > 0 && (v[0] == 's' || v[0] == 'S'),
{
}

/// A list of addresses in two parts, with a comma or white space between them, holds the
/// addresses of the first part and then those of the second.
pub proof fn law_ip_list_splits(a: Seq<char>, sep: char, b: Seq<char>)
    requires
        sep == ',' || is_white(sep),
    ensures
        ips_of(a + seq![sep] + b) == ips_of(a) + ips_of(b),
    decreases a.len(),
{
    let mid = seq![sep];
    let all = a + mid + b;
    let k = cut(a, Stop::Separator) as int;
    lemma_cut_append(a, mid + b, Stop::Separator);
    assert(a + (mid + b) =~= all);
    assert((mid + b)[0] == sep);
    if k < a.len() {
        law_ip_list_splits(a.skip(k + 1), sep, b);
        assert(all.take(k) =~= a.take(k));
        assert(all.skip(k + 1) =~= a.skip(k + 1) + mid + b);
        let first = match ip_of(a.take(k)) {
            Some(x) => seq![x],
            None => Seq::<IpAddr>::empty(),
        };
        assert(first + (ips_of(a.skip(k + 1)) + ips_of(b)) =~= (first + ips_of(a.skip(k + 1)))
            + ips_of(b));
    } else {
        assert(all.take(k) =~= a);
        assert(a.take(k) =~= a);
        assert(all.skip(k + 1) =~= b);
    }
}

/// A list of one item holds its address, if it is one.
pub proof fn law_ip_list_of_one(t: Seq<char>)
    requires
        forall|i: int| 0 <= i < t.len() ==> #[trigger] t[i] != ',' && !is_white(t[i]),
    ensures
        ips_of(t) == match ip_of(t) {
            Some(a) => seq![a],
            None => seq![],
        },
{
    assert forall|i: int| 0 <= i < t.len() implies !is_stop(
        #[trigger] t[i],
        Stop::Separator,
    ) by {}
    lemma_cut_none(t, Stop::Separator);
    assert(t.take(t.len() as int) =~= t);
}

// ============================ keys and fields ===========================

/// The value of a key that the INI file and the environment call by these names.
pub open spec fn given(
    m: Map<Seq<char>, Seq<char>>,
    layer: Layer,
    ini: Seq<char>,
    env: Seq<char>,
) -> Option<Seq<char>> {
    let k = match layer {
        Layer::Ini => ini,
        Layer::Env => env,
    };
    if m.contains_key(k) {
        Some(m[k])
    } else {
        None
    }
}

/// What a number is set to by a value, if there is one: the number that the value spells
/// between its white space, as long as it is in range; else it stays.
pub open spec fn number_set(below: int, v: Option<Seq<char>>, max: nat, now: int) -> bool {
    match v {
        Some(t) => match number(trimmed(t), max) {
            Some(n) => now == n,
            None => now == below,
        },
        None => now == below,
    }
}

/// Each key sets its own field, in either layer, and a key that is missing sets nothing.
pub proof fn law_keys_set_fields(c: ConfigView, m: Map<Seq<char>, Seq<char>>, layer: Layer)
    ensures
        ({
            let r = overlaid(c, m, layer);
            &&& r.host == match given(m, layer, "host"@, "KVASILLONI_HOST"@) {
                Some(v) => if blank_text(v) {
                    c.host
                } else {
                    v
                },
                None => c.host,
            }
            &&& number_set(
                c.remote_port as int,
                given(m, layer, "port"@, "KVASILLONI_PORT"@),
                65535,
                r.remote_port as int,
            )
            &&& number_set(
                c.local_port as int,
                given(m, layer, "localport"@, "KVASILLONI_LOCALPORT"@),
                65535,
                r.local_port as int,
            )
            &&& r.tcp == match given(m, layer, "proto"@, "KVASILLONI_PROTO"@) {
                Some(v) => v.len() > 0 && (v[0] == 't' || v[0] == 'T'),
                None => c.tcp,
            }
            &&& r.tcp_server == match given(m, layer, "tcprole"@, "KVASILLONI_TCPROLE"@) {
                Some(v) => v.len() > 0 && (v[0] == 's' || v[0] == 'S'),
                None => c.tcp_server,
            }
            &&& r.log == match given(m, layer, "log"@, "KVASILLONI_LOG"@) {
                Some(v) => if v.len() == 0 {
                    c.log
                } else {
                    Some(v)
                },
                None => c.log,
            }
            &&& number_set(
                c.channels as int,
                given(m, layer, "channels"@, "KVASILLONI_CHANNELS"@),
                4294967295,
                r.channels as int,
            )
            &&& number_set(
                c.connect_timeout_ms as int,
                given(m, layer, "connecttimeout"@, "KVASILLONI_CONNECT_TIMEOUT"@),
                4294967295,
                r.connect_timeout_ms as int,
            )
            &&& number_set(
                c.accept_timeout_ms as int,
                given(m, layer, "accepttimeout"@, "KVASILLONI_ACCEPT_TIMEOUT"@),
                4294967295,
                r.accept_timeout_ms as int,
            )
            &&& r.udp_port_fallback == match given(
                m,
                layer,
                "udpportfallback"@,
                "KVASILLONI_UDP_PORT_FALLBACK"@,
            ) {
                Some(v) => says_yes(v),
                None => c.udp_port_fallback,
            }
            &&& r.peer_check == match given(m, layer, "peercheck"@, "KVASILLONI_PEER_CHECK"@) {
                Some(v) => says_yes(v),
                None => c.peer_check,
            }
            &&& r.allow == match given(m, layer, "allow"@, "KVASILLONI_ALLOW"@) {
                Some(v) => ips_of(v),
                None => c.allow,
            }
        }),
{
    if let Some(v) = setting(m, layer, Key::Host) {
        law_blank_trims_to_nothing(v);
    }
    if let Some(v) = setting(m, layer, Key::UdpPortFallback) {
        law_switch_words(v);
    }
    if let Some(v) = setting(m, layer, Key::PeerCheck) {
        law_switch_words(v);
    }
}

/// What holds where neither the INI file nor the environment names a key.
pub proof fn law_default_values(env: Map<Seq<char>, Seq<char>>)
    ensures
        ({
            let r = loaded(None, env);
            &&& !env.contains_key("KVASILLONI_HOST"@) ==> r.host == "127.0.0.1"@
            &&& !env.contains_key("KVASILLONI_PORT"@) ==> r.remote_port == 20000
            &&& !env.contains_key("KVASILLONI_LOCALPORT"@) ==> r.local_port == 20000
            &&& !env.contains_key("KVASILLONI_PROTO"@) ==> !r.tcp
            &&& !env.contains_key("KVASILLONI_TCPROLE"@) ==> !r.tcp_server
            &&& !env.contains_key("KVASILLONI_LOG"@) ==> r.log is None
            &&& !env.contains_key("KVASILLONI_CHANNELS"@) ==> r.channels == 1
            &&& !env.contains_key("KVASILLONI_CONNECT_TIMEOUT"@) ==> r.connect_timeout_ms == 5000
            &&& !env.contains_key("KVASILLONI_ACCEPT_TIMEOUT"@) ==> r.accept_timeout_ms == 30000
            &&& !env.contains_key("KVASILLONI_UDP_PORT_FALLBACK"@) ==> !r.udp_port_fallback
            &&& !env.contains_key("KVASILLONI_PEER_CHECK"@) ==> r.peer_check
            &&& !env.contains_key("KVASILLONI_ALLOW"@) ==> r.allow.len() == 0
        }),
{
    law_keys_set_fields(defaults(), env, Layer::Env);
}

// =============================== warnings ===============================

/// How many warnings a value leaves, if there is one.
pub open spec fn complaints(v: Option<Seq<char>>, max: nat) -> nat {
    match v {
        Some(t) => if !blank_text(t) && number(trimmed(t), max) is None {
            1
        } else {
            0
        },
        None => 0,
    }
}

/// A layer keeps the warnings below it and adds one for each value that it could not use:
/// a blank host, and each number that is there, not blank, and not in range.
pub proof fn law_one_warning_each(c: ConfigView, m: Map<Seq<char>, Seq<char>>, layer: Layer)
    ensures
        ({
            let w = overlaid(c, m, layer).warnings;
            let port = 65535nat;
            let word = 4294967295nat;
            &&& w.len() == c.warnings.len() + (match given(
                m,
                layer,
                "host"@,
                "KVASILLONI_HOST"@,
            ) {
                Some(v) => if blank_text(v) {
                    1nat
                } else {
                    0
                },
                None => 0,
            }) + complaints(given(m, layer, "port"@, "KVASILLONI_PORT"@), port) + complaints(
                given(m, layer, "localport"@, "KVASILLONI_LOCALPORT"@),
                port,
            ) + complaints(given(m, layer, "channels"@, "KVASILLONI_CHANNELS"@), word)
                + complaints(
                given(m, layer, "connecttimeout"@, "KVASILLONI_CONNECT_TIMEOUT"@),
                word,
            ) + complaints(given(m, layer, "accepttimeout"@, "KVASILLONI_ACCEPT_TIMEOUT"@), word)
            &&& w.take(c.warnings.len() as int) == c.warnings
        }),
{
    if let Some(v) = setting(m, layer, Key::Host) {
        law_blank_trims_to_nothing(v);
    }
    if let Some(v) = setting(m, layer, Key::Port) {
        law_blank_trims_to_nothing(v);
    }
    if let Some(v) = setting(m, layer, Key::LocalPort) {
        law_blank_trims_to_nothing(v);
    }
    if let Some(v) = setting(m, layer, Key::Channels) {
        law_blank_trims_to_nothing(v);
    }
    if let Some(v) = setting(m, layer, Key::ConnectTimeout) {
        law_blank_trims_to_nothing(v);
    }
    if let Some(v) = setting(m, layer, Key::AcceptTimeout) {
        law_blank_trims_to_nothing(v);
    }
    let w = overlaid(c, m, layer).warnings;
    assert(w.take(c.warnings.len() as int) =~= c.warnings);
}

/// A warning about a number names the key and shows the value; one about a host says that
/// it is empty.
pub proof fn law_warning_texts(name: Seq<char>, shown: Seq<char>)
    ensures
        invalid_text(name, shown) == "invalid "@ + name + "="@ + shown + "; using default"@,
        empty_text(Layer::Ini) == "empty 'host'; using default"@,
        empty_text(Layer::Env) == "empty KVASILLONI_HOST; using default"@,
{
}

/// The texts of strings are those of each string, in order.
pub proof fn law_texts(v: Seq<String>, i: int)
    ensures
        texts(v).len() == v.len(),
        0 <= i < v.len() ==> texts(v)[i] == v[i]@,
{
}

/// The INI file is looked for at an explicit path that is not empty, then next to the
/// library, then next to the executable, wherever these are known, and nowhere else.
pub proof fn law_ini_places(explicit: Option<Seq<char>>, dll: bool, exe: bool, i: int, j: int)
    ensures
        ({
            let p = ini_places(explicit, dll, exe);
            &&& p.contains(IniPlace::Explicit) <==> (explicit matches Some(t) && t.len() > 0)
            &&& p.contains(IniPlace::NextToDll) <==> dll
            &&& p.contains(IniPlace::NextToExe) <==> exe
            &&& p.len() <= 3
            &&& 0 <= i < j < p.len() ==> !(p[j] is Explicit) && !(p[i] is NextToExe) && p[i] != p[j]
        }),
{
    let p = ini_places(explicit, dll, exe);
    let first: int = if explicit matches Some(t) && t.len() > 0 {
        1
    } else {
        0
    };
    let second: int = if dll {
        1
    } else {
        0
    };
    if first == 1 {
        assert(p[0] == IniPlace::Explicit);
    }
    if dll {
        assert(p[first] == IniPlace::NextToDll);
    }
    if exe {
        assert(p[first + second] == IniPlace::NextToExe);
    }
}

} // verus!
