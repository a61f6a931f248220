//! Text as sequences of characters: comparison, trimming and rendering.

use vstd::prelude::*;
use vstd::string::*;

verus! {

/// Whether `s` ends with `suffix`.
pub open spec fn ends_with(s: Seq<char>, suffix: Seq<char>) -> bool {
    suffix.len() <= s.len() && s.skip(s.len() - suffix.len()) == suffix
}

/// `s` without its trailing run of the character `c`.
pub open spec fn trim_end(s: Seq<char>, c: char) -> Seq<char>
    decreases s.len(),
{
    if s.len() > 0 && s.last() == c {
        trim_end(s.drop_last(), c)
    } else {
        s
    }
}

/// `s` without its trailing repetitions of `suffix`: the suffix is taken off
/// as long as the text still ends with it.
pub open spec fn strip_suffix(s: Seq<char>, suffix: Seq<char>) -> Seq<char>
    decreases s.len(),
{
    if suffix.len() > 0 && ends_with(s, suffix) {
        strip_suffix(s.take(s.len() - suffix.len()), suffix)
    } else {
        s
    }
}

/// The character of a decimal digit.
pub open spec fn digit(d: nat) -> char {
    if d == 0 {
        '0'
    } else if d == 1 {
        '1'
    } else if d == 2 {
        '2'
    } else if d == 3 {
        '3'
    } else if d == 4 {
        '4'
    } else if d == 5 {
        '5'
    } else if d == 6 {
        '6'
    } else if d == 7 {
        '7'
    } else if d == 8 {
        '8'
    } else {
        '9'
    }
}

/// The decimal numeral of a natural number, without leading zeros.
pub open spec fn decimal(n: nat) -> Seq<char>
    decreases n,
{
    if n < 10 {
        seq![digit(n)]
    } else {
        decimal(n / 10).push(digit(n % 10))
    }
}

/// The decimal numeral of an integer: a minus sign before the numeral of a
/// negative number's magnitude.
pub open spec fn signed_decimal(v: int) -> Seq<char> {
    if v < 0 {
        seq!['-'] + decimal((-v) as nat)
    } else {
        decimal(v as nat)
    }
}

/// The text of a truth value.
pub open spec fn truth(b: bool) -> Seq<char> {
    if b {
        "true"@
    } else {
        "false"@
    }
}

/// Whether `a` comes before `b` in lexical order: at the first position
/// where they differ `a` has the smaller character, or `a` is a proper
/// prefix of `b`.
pub open spec fn lex_lt(a: Seq<char>, b: Seq<char>) -> bool
    decreases a.len(),
{
    if b.len() == 0 {
        false
    } else if a.len() == 0 {
        true
    } else if a[0] != b[0] {
        (a[0] as u32) < (b[0] as u32)
    } else {
        lex_lt(a.skip(1), b.skip(1))
    }
}

/// Trimming is not changed by one more of the character at the end.
pub proof fn lemma_trim_end_push(s: Seq<char>, c: char)
    ensures
        trim_end(s.push(c), c) == trim_end(s, c),
{
    assert(s.push(c).drop_last() == s);
}

/// What is left after stripping is a prefix of the text and no longer
/// ends with the suffix.
pub proof fn lemma_strip_suffix(s: Seq<char>, suffix: Seq<char>)
    requires
        suffix.len() > 0,
    ensures
        strip_suffix(s, suffix).len() <= s.len(),
        strip_suffix(s, suffix) == s.take(strip_suffix(s, suffix).len() as int),
        !ends_with(strip_suffix(s, suffix), suffix),
    decreases s.len(),
{
    if ends_with(s, suffix) {
        let shorter = s.take(s.len() - suffix.len());
        lemma_strip_suffix(shorter, suffix);
        let t = strip_suffix(s, suffix);
        assert(shorter.take(t.len() as int) == s.take(t.len() as int));
    } else {
        assert(s.take(s.len() as int) == s);
    }
}

/// Stripping is not changed by one more suffix at the end.
pub proof fn lemma_strip_suffix_append(s: Seq<char>, suffix: Seq<char>)
    requires
        suffix.len() > 0,
    ensures
        strip_suffix(s + suffix, suffix) == strip_suffix(s, suffix),
{
    let whole = s + suffix;
    assert(whole.skip(whole.len() - suffix.len()) == suffix);
    assert(whole.take(whole.len() - suffix.len()) == s);
}

/// A text that does not end with the suffix is left as it is.
pub proof fn lemma_strip_suffix_none(s: Seq<char>, suffix: Seq<char>)
    requires
        !ends_with(s, suffix),
    ensures
        strip_suffix(s, suffix) == s,
{
}

/// No text comes before itself.
pub proof fn lemma_lex_irreflexive(a: Seq<char>)
    ensures
        !lex_lt(a, a),
    decreases a.len(),
{
    if a.len() > 0 {
        lemma_lex_irreflexive(a.skip(1));
    }
}

/// Of two texts at most one comes before the other.
pub proof fn lemma_lex_asymmetric(a: Seq<char>, b: Seq<char>)
    requires
        lex_lt(a, b),
    ensures
        !lex_lt(b, a),
    decreases a.len(),
{
    if a.len() > 0 && b.len() > 0 && a[0] == b[0] {
        lemma_lex_asymmetric(a.skip(1), b.skip(1));
    }
}

/// The lexical order is transitive.
pub proof fn lemma_lex_transitive(a: Seq<char>, b: Seq<char>, c: Seq<char>)
    requires
        lex_lt(a, b),
        lex_lt(b, c),
    ensures
        lex_lt(a, c),
    decreases a.len(),
{
    if a.len() > 0 && a[0] == b[0] && b[0] == c[0] {
        lemma_lex_transitive(a.skip(1), b.skip(1), c.skip(1));
    }
}

/// Of two different texts one comes before the other.
pub proof fn lemma_lex_total(a: Seq<char>, b: Seq<char>)
    requires
        a != b,
    ensures
        lex_lt(a, b) || lex_lt(b, a),
    decreases a.len(),
{
    if a.len() > 0 && b.len() > 0 && a[0] == b[0] {
        if a.skip(1) == b.skip(1) {
            assert(a =~= seq![a[0]] + a.skip(1));
            assert(b =~= seq![b[0]] + b.skip(1));
        }
        lemma_lex_total(a.skip(1), b.skip(1));
    } else if a.len() == 0 && b.len() == 0 {
        assert(a =~= b);
    } else if a.len() > 0 && b.len() > 0 {
        vstd::utf8::char_u32_cast(a[0], a[0] as u32);
        vstd::utf8::char_u32_cast(b[0], b[0] as u32);
    }
}

/// Whether two texts hold the same characters.
pub fn same_text(a: &str, b: &str) -> (r: bool)
    ensures
        r == (a@ == b@),
{
    let n = a.unicode_len();
    if n != b.unicode_len() {
        return false;
    }
    let mut i: usize = 0;
    while i < n
        invariant
            n == a@.len(),
            n == b@.len(),
            i <= n,
            a@.take(i as int) == b@.take(i as int),
        decreases n - i,
    {
        if a.get_char(i) != b.get_char(i) {
            return false;
        }
        assert(a@.take(i + 1) == a@.take(i as int).push(a@[i as int]));
        assert(b@.take(i + 1) == b@.take(i as int).push(b@[i as int]));
        i += 1;
    }
    assert(a@.take(n as int) == a@);
    assert(b@.take(n as int) == b@);
    true
}

/// Whether the first `end` characters of `s` end with `suffix`.
pub fn ends_with_at(s: &str, end: usize, suffix: &str) -> (r: bool)
    requires
        end <= s@.len(),
    ensures
        r == ends_with(s@.take(end as int), suffix@),
{
    let m = suffix.unicode_len();
    if m > end {
        return false;
    }
    let start = end - m;
    let ghost head = s@.take(end as int);
    let mut i: usize = 0;
    while i < m
        invariant
            m == suffix@.len(),
            m <= end <= s@.len(),
            start == end - m,
            head == s@.take(end as int),
            i <= m,
            head.skip(start as int).take(i as int) == suffix@.take(i as int),
        decreases m - i,
    {
        if s.get_char(start + i) != suffix.get_char(i) {
            assert(head.skip(start as int)[i as int] != suffix@[i as int]);
            return false;
        }
        assert(head.skip(start as int).take(i + 1) == head.skip(start as int).take(i as int).push(
            head[start + i],
        ));
        assert(suffix@.take(i + 1) == suffix@.take(i as int).push(suffix@[i as int]));
        i += 1;
    }
    assert(head.skip(start as int).take(m as int) == head.skip(start as int));
    assert(suffix@.take(m as int) == suffix@);
    true
}

/// Takes the trailing run of the character `c` off `s`.
pub fn trim_end_char<'a>(s: &'a str, c: char) -> (r: &'a str)
    ensures
        r@ == trim_end(s@, c),
{
    let mut k = s.unicode_len();
    assert(s@.take(k as int) == s@);
    while k > 0 && s.get_char(k - 1) == c
        invariant
            k <= s@.len(),
            trim_end(s@, c) == trim_end(s@.take(k as int), c),
        decreases k,
    {
        assert(s@.take(k as int).drop_last() == s@.take(k - 1));
        k -= 1;
    }
    s.substring_char(0, k)
}

/// Takes the trailing repetitions of `suffix` off `s`.
pub fn strip_suffix_all<'a>(s: &'a str, suffix: &str) -> (r: &'a str)
    requires
        suffix@.len() > 0,
    ensures
        r@ == strip_suffix(s@, suffix@),
{
    let m = suffix.unicode_len();
    let mut k = s.unicode_len();
    assert(s@.take(k as int) == s@);
    while ends_with_at(s, k, suffix)
        invariant
            m == suffix@.len(),
            m > 0,
            k <= s@.len(),
            strip_suffix(s@, suffix@) == strip_suffix(s@.take(k as int), suffix@),
        decreases k,
    {
        assert(s@.take(k as int).take(k - m) == s@.take(k - m));
        k -= m;
    }
    s.substring_char(0, k)
}

/// The text of one decimal digit.
fn digit_text(d: u64) -> (r: &'static str)
    requires
        d < 10,
    ensures
        r@ == seq![digit(d as nat)],
{
    proof {
        reveal_strlit("0");
        reveal_strlit("1");
        reveal_strlit("2");
        reveal_strlit("3");
        reveal_strlit("4");
        reveal_strlit("5");
        reveal_strlit("6");
        reveal_strlit("7");
        reveal_strlit("8");
        reveal_strlit("9");
    }
    let r = if d == 0 {
        "0"
    } else if d == 1 {
        "1"
    } else if d == 2 {
        "2"
    } else if d == 3 {
        "3"
    } else if d == 4 {
        "4"
    } else if d == 5 {
        "5"
    } else if d == 6 {
        "6"
    } else if d == 7 {
        "7"
    } else if d == 8 {
        "8"
    } else {
        "9"
    };
    assert(r@ =~= seq![digit(d as nat)]);
    r
}

/// Renders a natural number as its decimal numeral.
pub fn render_u64(n: u64) -> (r: String)
    ensures
        r@ == decimal(n as nat),
    decreases n,
{
    if n < 10 {
        digit_text(n).to_owned()
    } else {
        let mut s = render_u64(n / 10);
        s.append(digit_text(n % 10));
        assert(s@ =~= decimal(n as nat));
        s
    }
}

/// Renders an integer as its decimal numeral.
pub fn render_i64(v: i64) -> (r: String)
    ensures
        r@ == signed_decimal(v as int),
{
    if v < 0 {
        let magnitude: u64 = (-(v as i128)) as u64;
        proof {
            reveal_strlit("-");
        }
        let mut s = "-".to_owned();
        let digits = render_u64(magnitude);
        s.append(digits.as_str());
        assert(s@ =~= signed_decimal(v as int));
        s
    } else {
        render_u64(v as u64)
    }
}

/// Renders a truth value as `true` or `false`.
pub fn render_bool(b: bool) -> (r: String)
    ensures
        r@ == truth(b),
{
    if b {
        "true".to_owned()
    } else {
        "false".to_owned()
    }
}

/// Whether `a` comes before `b` in lexical order.
pub fn text_lt(a: &str, b: &str) -> (r: bool)
    ensures
        r == lex_lt(a@, b@),
{
    let n = a.unicode_len();
    let m = b.unicode_len();
    let mut i: usize = 0;
    assert(a@.skip(0) == a@);
    assert(b@.skip(0) == b@);
    while i < n && i < m
        invariant
            n == a@.len(),
            m == b@.len(),
            i <= n,
            i <= m,
            lex_lt(a@, b@) == lex_lt(a@.skip(i as int), b@.skip(i as int)),
        decreases n - i,
    {
        let x = a.get_char(i);
        let y = b.get_char(i);
        assert(a@.skip(i as int)[0] == x);
        assert(b@.skip(i as int)[0] == y);
        if x != y {
            return (x as u32) < (y as u32);
        }
        assert(a@.skip(i as int).skip(1) == a@.skip(i + 1));
        assert(b@.skip(i as int).skip(1) == b@.skip(i + 1));
        i += 1;
    }
    i < m
}

} // verus!
