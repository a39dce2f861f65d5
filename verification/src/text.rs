//! Text as sequences of characters: trimming, case, cutting and numbers.
//!
//! The configuration parser works on the characters of a string. The string
//! type itself is reached through `str::chars`, and through `String::push` on
//! the way back.

use vstd::prelude::*;

verus! {

/// `String::push` appends the given character to the end of the string.
pub assume_specification[ String::push ](s: &mut String, c: char)
    ensures
        final(s)@ == old(s)@.push(c),
;

/// The characters of a string.
pub fn chars_of(s: &str) -> (r: Vec<char>)
    ensures
        r@ == s@,
{
    let mut v: Vec<char> = Vec::new();
    for c in it: s.chars()
        invariant
            it.seq() == s@,
            v@ == it.seq().take(it.index() as int),
    {
        v.push(c);
    }
    v
}

/// The string of some characters.
pub fn string_of(s: &[char]) -> (r: String)
    ensures
        r@ == s@,
{
    let mut t: String = String::new();
    let mut i: usize = 0;
    while i < s.len()
        invariant
            i <= s.len(),
            t@ == s@.take(i as int),
        decreases s.len() - i,
    {
        t.push(s[i]);
        i += 1;
    }
    t
}

/// Whether two strings hold the same characters.
pub fn same_text(a: &str, b: &str) -> (r: bool)
    ensures
        r == (a@ == b@),
{
    a.to_owned() == b.to_owned()
}

// ============================ white space ==============================

/// Whether a character has the Unicode property `White_Space`.
pub open spec fn is_white(c: char) -> bool {
    ||| '\u{9}' <= c <= '\u{D}'
    ||| c == '\u{20}'
    ||| c == '\u{85}'
    ||| c == '\u{A0}'
    ||| c == '\u{1680}'
    ||| '\u{2000}' <= c <= '\u{200A}'
    ||| c == '\u{2028}'
    ||| c == '\u{2029}'
    ||| c == '\u{202F}'
    ||| c == '\u{205F}'
    ||| c == '\u{3000}'
}

/// Whether a character is white space.
pub fn white(c: char) -> (r: bool)
    ensures
        r == is_white(c),
{
    let u: u32 = c as u32;
    (9 <= u && u <= 0xD) || u == 0x20 || u == 0x85 || u == 0xA0 || u == 0x1680 || (0x2000 <= u && u
        <= 0x200A) || u == 0x2028 || u == 0x2029 || u == 0x202F || u == 0x205F || u == 0x3000
}

/// A text without its leading white space.
pub open spec fn trim_start(s: Seq<char>) -> Seq<char>
    decreases s.len(),
{
    if s.len() > 0 && is_white(s[0]) {
        trim_start(s.skip(1))
    } else {
        s
    }
}

/// A text without its trailing white space.
pub open spec fn trim_end(s: Seq<char>) -> Seq<char>
    decreases s.len(),
{
    if s.len() > 0 && is_white(s.last()) {
        trim_end(s.drop_last())
    } else {
        s
    }
}

/// A text without the white space around it.
pub open spec fn trimmed(s: Seq<char>) -> Seq<char> {
    trim_end(trim_start(s))
}

/// Cuts the white space off both ends.
pub fn trim(s: &[char]) -> (r: &[char])
    ensures
        r@ == trimmed(s@),
{
    let n: usize = s.len();
    let mut i: usize = 0;
    assert(s@.skip(0) =~= s@);
    while i < n && white(s[i])
        invariant
            i <= n == s@.len(),
            trim_start(s@) == trim_start(s@.skip(i as int)),
        decreases n - i,
    {
        assert(s@.skip(i as int).skip(1) =~= s@.skip(i + 1));
        i += 1;
    }
    let ghost inner = s@.skip(i as int);
    assert(trim_start(s@) == inner);
    let mut j: usize = n;
    while i < j && white(s[j - 1])
        invariant
            i <= j <= n == s@.len(),
            trim_end(inner) == trim_end(s@.subrange(i as int, j as int)),
        decreases j,
    {
        assert(s@.subrange(i as int, j as int).drop_last() =~= s@.subrange(i as int, j - 1));
        j -= 1;
    }
    vstd::slice::slice_subrange(s, i, j)
}

// =============================== case =================================

/// An ASCII capital letter as its small letter; any other character unchanged.
pub open spec fn lower(c: char) -> char {
    if 'A' <= c <= 'Z' {
        (c as u32 + 32) as char
    } else {
        c
    }
}

/// A text with its ASCII capital letters made small.
pub open spec fn lowered(s: Seq<char>) -> Seq<char> {
    s.map_values(|c: char| lower(c))
}

/// Makes an ASCII capital letter small.
pub fn to_lower(c: char) -> (r: char)
    ensures
        r == lower(c),
{
    if 'A' <= c && c <= 'Z' {
        (c as u8 + 32) as char
    } else {
        c
    }
}

/// Makes the ASCII capital letters of a text small.
pub fn lowercase(s: &[char]) -> (r: Vec<char>)
    ensures
        r@ == lowered(s@),
{
    let mut v: Vec<char> = Vec::new();
    let mut i: usize = 0;
    while i < s.len()
        invariant
            i <= s.len(),
            v@ == lowered(s@.take(i as int)),
        decreases s.len() - i,
    {
        v.push(to_lower(s[i]));
        i += 1;
        assert(lowered(s@.take(i as int)) =~= lowered(s@.take(i - 1)).push(lower(s@[i - 1])));
    }
    assert(s@.take(i as int) =~= s@);
    v
}

// ============================== cutting ===============================

/// What ends a piece of text.
#[derive(Clone, Copy)]
pub enum Stop {
    /// A line feed.
    Newline,
    /// The sign between a key and its value.
    Equals,
    /// The start of an inline comment.
    Comment,
    /// What stands between the items of a list.
    Separator,
    /// The sign between the groups of an IPv6 literal.
    Colon,
    /// The sign between the octets of an IPv4 literal.
    Dot,
}

/// Whether a character is such a stop.
pub open spec fn is_stop(c: char, stop: Stop) -> bool {
    match stop {
        Stop::Newline => c == '\n',
        Stop::Equals => c == '=',
        Stop::Comment => c == ';' || c == '#',
        Stop::Separator => c == ',' || is_white(c),
        Stop::Colon => c == ':',
        Stop::Dot => c == '.',
    }
}

/// Where the first stop stands; the length of the text when there is none.
pub open spec fn cut(s: Seq<char>, stop: Stop) -> nat
    decreases s.len(),
{
    if s.len() == 0 || is_stop(s[0], stop) {
        0
    } else {
        1 + cut(s.skip(1), stop)
    }
}

/// The first stop of a text in two parts stands in the first part, if that has one,
/// else where the second part has it.
pub proof fn lemma_cut_append(a: Seq<char>, x: Seq<char>, stop: Stop)
    ensures
        cut(a, stop) <= a.len(),
        cut(a + x, stop) == (if cut(a, stop) < a.len() {
            cut(a, stop)
        } else {
            a.len() + cut(x, stop)
        }),
    decreases a.len(),
{
    if a.len() == 0 {
        assert(a + x =~= x);
    } else if !is_stop(a[0], stop) {
        lemma_cut_append(a.skip(1), x, stop);
        assert((a + x).skip(1) =~= a.skip(1) + x);
    }
}

/// A text without a stop is not cut.
pub proof fn lemma_cut_none(s: Seq<char>, stop: Stop)
    requires
        forall|i: int| 0 <= i < s.len() ==> !is_stop(#[trigger] s[i], stop),
    ensures
        cut(s, stop) == s.len(),
    decreases s.len(),
{
    if s.len() > 0 {
        assert(!is_stop(s[0], stop));
        let t = s.skip(1);
        assert forall|i: int| 0 <= i < t.len() implies !is_stop(#[trigger] t[i], stop) by {
            assert(t[i] == s[i + 1]);
        }
        lemma_cut_none(t, stop);
    }
}

/// Finds the first stop.
pub fn find(s: &[char], stop: Stop) -> (k: usize)
    ensures
        k == cut(s@, stop),
        k <= s@.len(),
{
    let mut i: usize = 0;
    assert(s@.skip(0) =~= s@);
    while i < s.len()
        invariant
            i <= s.len(),
            cut(s@, stop) == i + cut(s@.skip(i as int), stop),
        decreases s.len() - i,
    {
        let c: char = s[i];
        let hit: bool = match stop {
            Stop::Newline => c == '\n',
            Stop::Equals => c == '=',
            Stop::Comment => c == ';' || c == '#',
            Stop::Separator => c == ',' || white(c),
            Stop::Colon => c == ':',
            Stop::Dot => c == '.',
        };
        if hit {
            return i;
        }
        assert(s@.skip(i as int).skip(1) =~= s@.skip(i + 1));
        i += 1;
    }
    i
}

// ============================== numbers ===============================

/// Whether a character is an ASCII digit.
pub open spec fn is_digit(c: char) -> bool {
    '0' <= c <= '9'
}

/// Whether a text is a run of ASCII digits, at least one.
pub open spec fn all_digits(s: Seq<char>) -> bool {
    s.len() > 0 && forall|i: int| 0 <= i < s.len() ==> is_digit(#[trigger] s[i])
}

/// The number that a run of digits stands for.
pub open spec fn value_of(s: Seq<char>) -> nat
    decreases s.len(),
{
    if s.len() == 0 {
        0
    } else {
        value_of(s.drop_last()) * 10 + (s.last() as u32 - '0' as u32) as nat
    }
}

/// The number a text denotes, when it is a run of digits, with a plus sign in
/// front or not, and at most `max`.
pub open spec fn number(s: Seq<char>, max: nat) -> Option<nat> {
    let digits = if s.len() > 0 && s[0] == '+' {
        s.skip(1)
    } else {
        s
    };
    if all_digits(digits) && value_of(digits) <= max {
        Some(value_of(digits))
    } else {
        None
    }
}

/// Appending digits never makes a number smaller.
proof fn lemma_value_grows(s: Seq<char>, k: int)
    requires
        0 <= k <= s.len(),
    ensures
        value_of(s.take(k)) <= value_of(s),
    decreases s.len() - k,
{
    if k < s.len() {
        lemma_value_grows(s, k + 1);
        assert(s.take(k + 1).drop_last() =~= s.take(k));
    } else {
        assert(s.take(k) =~= s);
    }
}

/// The value of a run of digits, if it is at most `max`.
pub fn parse_digits(s: &[char], max: u32) -> (r: Option<u32>)
    ensures
        match r {
            Some(v) => all_digits(s@) && v == value_of(s@) && v <= max,
            None => !all_digits(s@) || value_of(s@) > max,
        },
{
    if s.len() == 0 {
        return None;
    }
    let mut v: u64 = 0;
    let mut i: usize = 0;
    while i < s.len()
        invariant
            i <= s.len(),
            v == value_of(s@.take(i as int)),
            v <= max,
            forall|j: int| 0 <= j < i ==> is_digit(#[trigger] s@[j]),
        decreases s.len() - i,
    {
        let c: char = s[i];
        if !('0' <= c && c <= '9') {
            return None;
        }
        assert(s@.take(i + 1).drop_last() =~= s@.take(i as int));
        v = v * 10 + (c as u32 - 48) as u64;
        i += 1;
        if v > max as u64 {
            proof {
                lemma_value_grows(s@, i as int);
            }
            return None;
        }
    }
    assert(s@.take(i as int) =~= s@);
    Some(v as u32)
}

/// Reads a number of at most `max`.
pub fn parse_number(s: &[char], max: u32) -> (r: Option<u32>)
    ensures
        match r {
            Some(v) => number(s@, max as nat) == Some(v as nat),
            None => number(s@, max as nat) is None,
        },
{
    if s.len() > 0 && s[0] == '+' {
        let digits: &[char] = vstd::slice::slice_subrange(s, 1, s.len());
        assert(digits@ =~= s@.skip(1));
        parse_digits(digits, max)
    } else {
        parse_digits(s, max)
    }
}

/// The digit that stands for `d`.
pub open spec fn digit(d: nat) -> char {
    ('0' as u32 + d) as char
}

/// A natural number in decimal.
pub open spec fn decimal(n: nat) -> Seq<char>
    decreases n,
{
    if n < 10 {
        seq![digit(n)]
    } else {
        decimal(n / 10).push(digit(n % 10))
    }
}

/// An integer in decimal, with a minus sign when it is negative.
pub open spec fn decimal_int(n: int) -> Seq<char> {
    if n < 0 {
        seq!['-'] + decimal((-n) as nat)
    } else {
        decimal(n as nat)
    }
}

/// Appends a natural number in decimal.
fn push_decimal(s: &mut String, n: u32)
    ensures
        final(s)@ == old(s)@ + decimal(n as nat),
    decreases n,
{
    let ghost before = s@;
    if n >= 10 {
        push_decimal(s, n / 10);
    }
    s.push((48 + (n % 10) as u8) as char);
    assert(s@ =~= before + decimal(n as nat));
}

/// Appends an integer in decimal.
pub fn push_int(s: &mut String, n: i32)
    ensures
        final(s)@ == old(s)@ + decimal_int(n as int),
{
    let ghost before = s@;
    let magnitude: u32 = if n < 0 {
        s.push('-');
        (-(n as i64)) as u32
    } else {
        n as u32
    };
    push_decimal(s, magnitude);
    assert(s@ =~= before + decimal_int(n as int));
}

/// Reading a decimal gives back the number that was written.
pub proof fn law_decimal_reads_back(n: nat, max: nat)
    requires
        n <= max,
    ensures
        number(decimal(n), max) == Some(n),
{
    lemma_decimal(n);
}

/// A decimal is a run of digits that stands for its number.
pub proof fn lemma_decimal(n: nat)
    ensures
        all_digits(decimal(n)),
        value_of(decimal(n)) == n,
    decreases n,
{
    if n < 10 {
        let s = decimal(n);
        assert(s.drop_last() =~= seq![]);
        assert(value_of(s.drop_last()) == 0);
    } else {
        lemma_decimal(n / 10);
        let s = decimal(n);
        assert(s.drop_last() =~= decimal(n / 10));
        assert forall|i: int| 0 <= i < s.len() implies is_digit(#[trigger] s[i]) by {
            if i < s.len() - 1 {
                assert(s[i] == decimal(n / 10)[i]);
            }
        }
    }
}

} // verus!
