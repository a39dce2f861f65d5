//! Laws of the text functions: what trimming keeps, what lower case means, and which
//! texts are numbers.

use crate::text::{
    all_digits, decimal, decimal_int, digit, is_white, lower, lowered, number, trim_end, trim_start,
    trimmed, value_of,
};
use vstd::prelude::*;

verus! {

/// White space is what Unicode says it is: the code points U+0009 to U+000D, U+0020,
/// U+0085, U+00A0, U+1680, U+2000 to U+200A, U+2028, U+2029, U+202F, U+205F and U+3000.
pub proof fn law_white_space(c: char)
    ensures
        is_white(c) <==> {
            let u = c as u32;
            ||| 9 <= u <= 13
            ||| u == 32
            ||| u == 133
            ||| u == 160
            ||| u == 5760
            ||| 8192 <= u <= 8202
            ||| u == 8232
            ||| u == 8233
            ||| u == 8239
            ||| u == 8287
            ||| u == 12288
        },
{
}

/// Whether a text is white space through and through.
pub open spec fn blank_text(s: Seq<char>) -> bool {
    forall|i: int| 0 <= i < s.len() ==> is_white(#[trigger] s[i])
}

/// Whether a text neither starts nor ends with white space.
pub open spec fn bare_text(t: Seq<char>) -> bool {
    t.len() > 0 ==> !is_white(t[0]) && !is_white(t.last())
}

proof fn lemma_trim_start(pre: Seq<char>, t: Seq<char>)
    requires
        blank_text(pre),
        t.len() > 0 ==> !is_white(t[0]),
    ensures
        trim_start(pre + t) == t,
    decreases pre.len(),
{
    if pre.len() == 0 {
        assert(pre + t =~= t);
    } else {
        let rest = pre.skip(1);
        assert forall|i: int| 0 <= i < rest.len() implies is_white(#[trigger] rest[i]) by {
            assert(rest[i] == pre[i + 1]);
        }
        lemma_trim_start(rest, t);
        assert((pre + t).skip(1) =~= rest + t);
        assert(is_white(pre[0]));
    }
}

proof fn lemma_trim_end(t: Seq<char>, post: Seq<char>)
    requires
        blank_text(post),
        t.len() > 0 ==> !is_white(t.last()),
    ensures
        trim_end(t + post) == t,
    decreases post.len(),
{
    if post.len() == 0 {
        assert(t + post =~= t);
    } else {
        let rest = post.drop_last();
        assert forall|i: int| 0 <= i < rest.len() implies is_white(#[trigger] rest[i]) by {
            assert(rest[i] == post[i]);
        }
        lemma_trim_end(t, rest);
        assert((t + post).drop_last() =~= t + rest);
        assert(is_white(post[post.len() - 1]));
        assert((t + post).last() == post.last());
    }
}

/// Trimming takes off all the white space around a text, and no more.
pub proof fn law_trimmed(pre: Seq<char>, t: Seq<char>, post: Seq<char>)
    requires
        blank_text(pre),
        bare_text(t),
        blank_text(post),
    ensures
        trimmed(pre + t + post) == t,
{
    if t.len() == 0 {
        let all = pre + t + post;
        assert forall|i: int| 0 <= i < all.len() implies is_white(#[trigger] all[i]) by {
            if i < pre.len() {
                assert(all[i] == pre[i]);
            } else {
                assert(all[i] == post[i - pre.len()]);
            }
        }
        lemma_trim_start(all, seq![]);
        assert(all + seq![] =~= all);
        assert(t =~= seq![]);
    } else {
        assert((t + post)[0] == t[0]);
        lemma_trim_start(pre, t + post);
        assert(pre + (t + post) =~= pre + t + post);
        lemma_trim_end(t, post);
    }
}

/// Where the first character that is no white space stands.
pub proof fn lemma_leading(s: Seq<char>) -> (i: int)
    ensures
        0 <= i <= s.len(),
        blank_text(s.take(i)),
        i < s.len() ==> !is_white(s[i]),
    decreases s.len(),
{
    if s.len() == 0 || !is_white(s[0]) {
        0
    } else {
        let j = lemma_leading(s.skip(1));
        assert forall|k: int| 0 <= k < j + 1 implies is_white(#[trigger] s.take(j + 1)[k]) by {
            if k > 0 {
                assert(s.skip(1).take(j)[k - 1] == s[k]);
            }
        }
        if j + 1 < s.len() {
            assert(s.skip(1)[j] == s[j + 1]);
        }
        j + 1
    }
}

/// Where the white space at the end of a text begins.
pub proof fn lemma_trailing(s: Seq<char>) -> (j: int)
    ensures
        0 <= j <= s.len(),
        blank_text(s.skip(j)),
        j > 0 ==> !is_white(s[j - 1]),
    decreases s.len(),
{
    if s.len() == 0 || !is_white(s.last()) {
        s.len() as int
    } else {
        let j = lemma_trailing(s.drop_last());
        assert forall|k: int| 0 <= k < s.len() - j implies is_white(#[trigger] s.skip(j)[k]) by {
            if k < s.len() - j - 1 {
                assert(s.drop_last().skip(j)[k] == s[j + k]);
            }
        }
        j
    }
}

/// What is left of a text stands in it, with nothing but white space around it: returns
/// where.
pub proof fn law_trimmed_stands_in(s: Seq<char>) -> (i: int)
    ensures
        0 <= i,
        i + trimmed(s).len() <= s.len(),
        trimmed(s) == s.subrange(i, i + trimmed(s).len()),
        blank_text(s.take(i)),
        blank_text(s.skip(i + trimmed(s).len())),
        bare_text(trimmed(s)),
{
    let i = lemma_leading(s);
    let rest = s.skip(i);
    let j = lemma_trailing(rest);
    let t = rest.take(j);
    assert(s.take(i) + t + rest.skip(j) =~= s);
    if t.len() > 0 {
        assert(t[0] == s[i]);
        assert(t.last() == rest[j - 1]);
    }
    law_trimmed(s.take(i), t, rest.skip(j));
    assert(t =~= s.subrange(i, i + t.len()));
    assert(s.skip(i + t.len()) =~= rest.skip(j));
    i
}

/// Nothing is left of a text exactly when it is white space through and through.
pub proof fn law_blank_trims_to_nothing(s: Seq<char>)
    ensures
        trimmed(s).len() == 0 <==> blank_text(s),
{
    if blank_text(s) {
        law_trimmed(s, seq![], seq![]);
        assert(s + seq![] + seq![] =~= s);
    }
    if trimmed(s).len() == 0 {
        let i = law_trimmed_stands_in(s);
        assert forall|k: int| 0 <= k < s.len() implies is_white(#[trigger] s[k]) by {
            if k < i {
                assert(s.take(i)[k] == s[k]);
            } else {
                assert(s.skip(i)[k - i] == s[k]);
            }
        }
    }
}

/// White space around a text does not change what is left of it.
pub proof fn law_padding_is_trimmed(pre: Seq<char>, s: Seq<char>, post: Seq<char>)
    requires
        blank_text(pre),
        blank_text(post),
    ensures
        trimmed(pre + s + post) == trimmed(s),
{
    let i = law_trimmed_stands_in(s);
    let t = trimmed(s);
    let a = pre + s.take(i);
    let b = s.skip(i + t.len()) + post;
    assert(a + t + b =~= pre + s + post);
    assert forall|k: int| 0 <= k < a.len() implies is_white(#[trigger] a[k]) by {
        if k < pre.len() {
            assert(a[k] == pre[k]);
        } else {
            assert(a[k] == s.take(i)[k - pre.len()]);
        }
    }
    let tail = s.skip(i + t.len());
    assert forall|k: int| 0 <= k < b.len() implies is_white(#[trigger] b[k]) by {
        if k < tail.len() {
            assert(b[k] == tail[k]);
        } else {
            assert(b[k] == post[k - tail.len()]);
        }
    }
    law_trimmed(a, t, b);
}

/// Lower case keeps the length, makes each of the letters A to Z the small one of the same
/// name, and keeps every other character.
pub proof fn law_lowered(s: Seq<char>, i: int)
    requires
        0 <= i < s.len(),
    ensures
        lowered(s).len() == s.len(),
        65 <= s[i] as u32 <= 90 ==> lowered(s)[i] as u32 == s[i] as u32 + 32,
        !(65 <= s[i] as u32 <= 90) ==> lowered(s)[i] == s[i],
{
}

// ============================= words in any case ========================

/// Whether a character is `d`, or the capital letter of `d`.
pub open spec fn alike(c: char, d: char) -> bool {
    c == d || (65 <= c as u32 <= 90 && c as u32 + 32 == d as u32)
}

/// Whether a text is a word from place `i` on, in any case, with white space around it.
pub open spec fn said_at(s: Seq<char>, w: Seq<char>, i: int) -> bool {
    &&& 0 <= i
    &&& i + w.len() <= s.len()
    &&& forall|k: int|
        0 <= k < s.len() ==> if i <= k < i + w.len() {
            alike(#[trigger] s[k], w[k - i])
        } else {
            is_white(s[k])
        }
}

/// Whether a text is a word, in any case, with any white space around it.
pub open spec fn says(s: Seq<char>, w: Seq<char>) -> bool {
    exists|i: int| said_at(s, w, i)
}

/// Whether a word consists of small letters and digits.
pub open spec fn plain_word(w: Seq<char>) -> bool {
    &&& w.len() > 0
    &&& forall|k: int|
        0 <= k < w.len() ==> ('a' <= #[trigger] w[k] <= 'z' || '0' <= w[k] <= '9')
}

/// A text, trimmed and in lower case, is a word exactly when it says the word.
pub proof fn law_says(s: Seq<char>, w: Seq<char>)
    requires
        plain_word(w),
    ensures
        lowered(trimmed(s)) == w <==> says(s, w),
{
    let t = trimmed(s);
    if lowered(t) == w {
        let i = law_trimmed_stands_in(s);
        assert(t.len() == w.len());
        assert forall|k: int| 0 <= k < s.len() implies if i <= k < i + w.len() {
            alike(#[trigger] s[k], w[k - i])
        } else {
            is_white(s[k])
        } by {
            if i <= k < i + w.len() {
                assert(t[k - i] == s[k]);
                assert(lowered(t)[k - i] == w[k - i]);
                assert(lower(s[k]) == w[k - i]);
            } else if k < i {
                assert(s.take(i)[k] == s[k]);
            } else {
                assert(s.skip(i + t.len())[k - i - t.len()] == s[k]);
            }
        }
        assert(said_at(s, w, i));
    }
    if says(s, w) {
        let i = choose|i: int| said_at(s, w, i);
        let u = s.subrange(i, i + w.len());
        let pre = s.take(i);
        let post = s.skip(i + w.len());
        assert(pre + u + post =~= s);
        assert forall|k: int| 0 <= k < u.len() implies lower(#[trigger] u[k]) == w[k] && !is_white(
            u[k],
        ) by {
            assert(u[k] == s[i + k]);
            assert(alike(s[i + k], w[i + k - i]));
            let d = w[k];
            assert('a' <= d <= 'z' || '0' <= d <= '9');
        }
        assert forall|k: int| 0 <= k < pre.len() implies is_white(#[trigger] pre[k]) by {
            assert(pre[k] == s[k]);
        }
        assert forall|k: int| 0 <= k < post.len() implies is_white(#[trigger] post[k]) by {
            assert(post[k] == s[i + w.len() + k]);
        }
        assert(!is_white(u[0]) && !is_white(u[u.len() - 1]));
        law_trimmed(pre, u, post);
        assert(lowered(u) =~= w);
    }
}

// ================================ numbers ===============================

/// A number is spelled by the digits 0 to 9, at least one, perhaps with a plus sign in
/// front, and is at most the largest allowed.
pub proof fn law_number_is_digits(s: Seq<char>, max: nat, i: int)
    ensures
        number(s, max) matches Some(n) ==> n <= max,
        number(s, max) is Some ==> s.len() > 0 && (s[0] == '+' ==> s.len() > 1),
        number(s, max) is Some && 0 <= i < s.len() ==> (48 <= s[i] as u32 <= 57 || (i == 0 && s[i]
            == '+')),
{
    if number(s, max) is Some && 0 <= i < s.len() && s[0] == '+' && i > 0 {
        assert(s.skip(1)[i - 1] == s[i]);
    }
}

/// One digit stands for its value.
pub proof fn law_one_digit(c: char, max: nat)
    requires
        48 <= c as u32 <= 57,
    ensures
        number(seq![c], max) == (if c as u32 - 48 <= max {
            Some((c as u32 - 48) as nat)
        } else {
            None
        }),
{
    let s = seq![c];
    assert(s.drop_last() =~= seq![]);
    assert(value_of(s.drop_last()) == 0);
    assert(all_digits(s));
}

/// A digit behind a number stands for ten times the number and its own value.
pub proof fn law_one_more_digit(s: Seq<char>, v: nat, c: char, max: nat)
    requires
        number(s, v) == Some(v),
        48 <= c as u32 <= 57,
    ensures
        number(s.push(c), max) == (if v * 10 + (c as u32 - 48) <= max {
            Some((v * 10 + (c as u32 - 48)) as nat)
        } else {
            None
        }),
{
    let d = if s[0] == '+' {
        s.skip(1)
    } else {
        s
    };
    let t = s.push(c);
    let e = if t[0] == '+' {
        t.skip(1)
    } else {
        t
    };
    assert(e =~= d.push(c));
    assert(e.drop_last() =~= d);
    assert forall|i: int| 0 <= i < e.len() implies '0' <= #[trigger] e[i] <= '9' by {
        if i < d.len() {
            assert(e[i] == d[i]);
        }
    }
    assert(all_digits(e));
}

/// A plus sign in front of digits changes nothing.
pub proof fn law_plus_sign(s: Seq<char>, max: nat)
    requires
        s.len() > 0,
        s[0] != '+',
    ensures
        number(seq!['+'] + s, max) == number(s, max),
{
    assert((seq!['+'] + s).skip(1) =~= s);
}

/// A decimal starts with no zero, but for that of zero; an integer below zero has a minus
/// sign in front of its magnitude.
pub proof fn law_decimal_form(n: nat, k: int)
    ensures
        n > 0 ==> decimal(n)[0] != '0',
        n == 0 ==> decimal(n) == seq!['0'],
        decimal(n).len() > 0,
        n < 10 ==> decimal(n).len() == 1,
        k < 0 ==> decimal_int(k) == seq!['-'] + decimal((-k) as nat),
        k >= 0 ==> decimal_int(k) == decimal(k as nat),
    decreases n,
{
    if n >= 10 {
        law_decimal_form(n / 10, k);
        assert(decimal(n)[0] == decimal(n / 10)[0]);
    } else {
        assert(decimal(n)[0] == digit(n));
    }
}

} // verus!
