//! Lexical atoms: character classes, runs of a class, words, reserved words
//! and numeric literals.
use vstd::prelude::*;
use crate::ast::{Decimal, DecimalV};

verus! {

broadcast use vstd::std_specs::vec::group_vec_axioms, vstd::seq::group_seq_axioms;

/// The character classes that the grammar skips over or collects.
#[derive(Clone, Copy)]
pub enum Class {
    /// A space or a tab: the blank that may separate tokens on one line.
    Space,
    /// A space, a tab or a line break: the blank between statements.
    Blank,
    /// An ASCII letter.
    Alpha,
    /// An ASCII digit.
    Digit,
    /// The digit zero.
    Zero,
}

pub open spec fn in_class(c: char, k: Class) -> bool {
    match k {
        Class::Space => c == ' ' || c == '\t',
        Class::Blank => c == ' ' || c == '\t' || c == '\n' || c == '\r',
        Class::Alpha => ('a' <= c && c <= 'z') || ('A' <= c && c <= 'Z'),
        Class::Digit => '0' <= c && c <= '9',
        Class::Zero => c == '0',
    }
}

pub fn is_in_class(c: char, k: Class) -> (r: bool)
    ensures
        r == in_class(c, k),
{
    match k {
        Class::Space => c == ' ' || c == '\t',
        Class::Blank => c == ' ' || c == '\t' || c == '\n' || c == '\r',
        Class::Alpha => ('a' <= c && c <= 'z') || ('A' <= c && c <= 'Z'),
        Class::Digit => '0' <= c && c <= '9',
        Class::Zero => c == '0',
    }
}

/// The end of the longest run of characters of class `k` that starts at `i`.
pub open spec fn span(s: Seq<char>, i: int, k: Class) -> int
    decreases s.len() - i,
{
    if 0 <= i < s.len() && in_class(s[i], k) {
        span(s, i + 1, k)
    } else {
        i
    }
}

pub proof fn lemma_span(s: Seq<char>, i: int, k: Class)
    requires
        0 <= i <= s.len(),
    ensures
        i <= span(s, i, k) <= s.len(),
        forall|j: int| i <= j < span(s, i, k) ==> in_class(#[trigger] s[j], k),
        span(s, i, k) == s.len() || !in_class(s[span(s, i, k)], k),
    decreases s.len() - i,
{
    if i < s.len() && in_class(s[i], k) {
        lemma_span(s, i + 1, k);
    }
}

/// A run of zeros stops no later than the run of digits from the same place.
pub proof fn lemma_zeros_within_digits(s: Seq<char>, i: int)
    requires
        0 <= i <= s.len(),
    ensures
        span(s, i, Class::Zero) <= span(s, i, Class::Digit),
    decreases s.len() - i,
{
    lemma_span(s, i, Class::Digit);
    if i < s.len() && in_class(s[i], Class::Zero) {
        assert(in_class(s[i], Class::Digit));
        lemma_zeros_within_digits(s, i + 1);
    }
}

pub fn span_exec(s: &Vec<char>, i: usize, k: Class) -> (r: usize)
    requires
        i <= s.len(),
    ensures
        r == span(s@, i as int, k),
        i <= r <= s.len(),
{
    let mut j = i;
    while j < s.len() && is_in_class(s[j], k)
        invariant
            i <= j <= s.len(),
            span(s@, j as int, k) == span(s@, i as int, k),
        decreases s.len() - j,
    {
        j = j + 1;
    }
    proof {
        lemma_span(s@, i as int, k);
    }
    j
}

/// The end of `s[lo..hi]` once its trailing zeros are cut off.
pub open spec fn trim_zeros_end(s: Seq<char>, lo: int, hi: int) -> int
    decreases hi - lo,
{
    if lo < hi && s[hi - 1] == '0' {
        trim_zeros_end(s, lo, hi - 1)
    } else {
        hi
    }
}

pub fn trim_zeros_end_exec(s: &Vec<char>, lo: usize, hi: usize) -> (r: usize)
    requires
        lo <= hi <= s.len(),
    ensures
        r == trim_zeros_end(s@, lo as int, hi as int),
        lo <= r <= hi,
{
    let mut j = hi;
    while lo < j && s[j - 1] == '0'
        invariant
            lo <= j <= hi <= s.len(),
            trim_zeros_end(s@, lo as int, j as int) == trim_zeros_end(s@, lo as int, hi as int),
        decreases j,
    {
        j = j - 1;
    }
    j
}

/// The characters `s[a..b]` as a vector.
pub fn copy_range(s: &Vec<char>, a: usize, b: usize) -> (r: Vec<char>)
    requires
        a <= b <= s.len(),
    ensures
        r@ == s@.subrange(a as int, b as int),
{
    let mut r: Vec<char> = Vec::new();
    let mut j = a;
    while j < b
        invariant
            a <= j <= b <= s.len(),
            r@ == s@.subrange(a as int, j as int),
        decreases b - j,
    {
        r.push(s[j]);
        j = j + 1;
    }
    r
}

/// Whether `s[a..b]` spells exactly `w`.
pub fn range_is(s: &Vec<char>, a: usize, b: usize, w: &Vec<char>) -> (r: bool)
    requires
        a <= b <= s.len(),
    ensures
        r == (s@.subrange(a as int, b as int) == w@),
{
    if b - a != w.len() {
        return false;
    }
    let mut j: usize = 0;
    while j < w.len()
        invariant
            b - a == w.len(),
            a <= b <= s.len(),
            j <= w.len(),
            forall|t: int| 0 <= t < j ==> s@[a + t] == w@[t],
        decreases w.len() - j,
    {
        if s[a + j] != w[j] {
            assert(s@.subrange(a as int, b as int)[j as int] != w@[j as int]);
            return false;
        }
        j = j + 1;
    }
    assert(s@.subrange(a as int, b as int) =~= w@);
    true
}

/// The characters of a string, one by one.
pub fn chars_of(text: &str) -> (r: Vec<char>)
    ensures
        r@ == text@,
{
    broadcast use vstd::string::axiom_spec_iter;

    let mut r: Vec<char> = Vec::new();
    for c in it: text.chars()
        invariant
            r@ == it.seq().subrange(0, it.index() as int),
            it.seq() == text@,
    {
        r.push(c);
    }
    assert(r@ =~= text@);
    r
}

/// The reserved words of the language.
#[derive(Clone, Copy)]
pub enum Keyword {
    Circle,
    Square,
    Move,
    Color,
    For,
    If,
    Else,
    End,
    And,
    Or,
    True,
    False,
    Sin,
    Cos,
    Time,
}

pub open spec fn keyword(k: Keyword) -> Seq<char> {
    match k {
        Keyword::Circle => seq!['c', 'i', 'r', 'c', 'l', 'e'],
        Keyword::Square => seq!['s', 'q', 'u', 'a', 'r', 'e'],
        Keyword::Move => seq!['m', 'o', 'v', 'e'],
        Keyword::Color => seq!['c', 'o', 'l', 'o', 'r'],
        Keyword::For => seq!['f', 'o', 'r'],
        Keyword::If => seq!['i', 'f'],
        Keyword::Else => seq!['e', 'l', 's', 'e'],
        Keyword::End => seq!['e', 'n', 'd'],
        Keyword::And => seq!['a', 'n', 'd'],
        Keyword::Or => seq!['o', 'r'],
        Keyword::True => seq!['t', 'r', 'u', 'e'],
        Keyword::False => seq!['f', 'a', 'l', 's', 'e'],
        Keyword::Sin => seq!['s', 'i', 'n'],
        Keyword::Cos => seq!['c', 'o', 's'],
        Keyword::Time => seq!['t', 'i', 'm', 'e'],
    }
}

pub fn keyword_chars(k: Keyword) -> (r: Vec<char>)
    ensures
        r@ == keyword(k),
{
    let r = match k {
        Keyword::Circle => vec!['c', 'i', 'r', 'c', 'l', 'e'],
        Keyword::Square => vec!['s', 'q', 'u', 'a', 'r', 'e'],
        Keyword::Move => vec!['m', 'o', 'v', 'e'],
        Keyword::Color => vec!['c', 'o', 'l', 'o', 'r'],
        Keyword::For => vec!['f', 'o', 'r'],
        Keyword::If => vec!['i', 'f'],
        Keyword::Else => vec!['e', 'l', 's', 'e'],
        Keyword::End => vec!['e', 'n', 'd'],
        Keyword::And => vec!['a', 'n', 'd'],
        Keyword::Or => vec!['o', 'r'],
        Keyword::True => vec!['t', 'r', 'u', 'e'],
        Keyword::False => vec!['f', 'a', 'l', 's', 'e'],
        Keyword::Sin => vec!['s', 'i', 'n'],
        Keyword::Cos => vec!['c', 'o', 's'],
        Keyword::Time => vec!['t', 'i', 'm', 'e'],
    };
    assert(r@ =~= keyword(k));
    r
}

/// A word that cannot name a variable.
pub open spec fn is_reserved(w: Seq<char>) -> bool {
    exists|k: Keyword| w == #[trigger] keyword(k)
}

/// Whether the word `s[a..b]` is the keyword `k`.
pub fn word_is(s: &Vec<char>, a: usize, b: usize, k: Keyword) -> (r: bool)
    requires
        a <= b <= s.len(),
    ensures
        r == (s@.subrange(a as int, b as int) == keyword(k)),
{
    let w = keyword_chars(k);
    range_is(s, a, b, &w)
}

pub fn reserved_exec(s: &Vec<char>, a: usize, b: usize) -> (r: bool)
    requires
        a <= b <= s.len(),
    ensures
        r == is_reserved(s@.subrange(a as int, b as int)),
{
    let all = [
        Keyword::Circle,
        Keyword::Square,
        Keyword::Move,
        Keyword::Color,
        Keyword::For,
        Keyword::If,
        Keyword::Else,
        Keyword::End,
        Keyword::And,
        Keyword::Or,
        Keyword::True,
        Keyword::False,
        Keyword::Sin,
        Keyword::Cos,
        Keyword::Time,
    ];
    let mut j: usize = 0;
    while j < 15
        invariant
            j <= 15,
            a <= b <= s.len(),
            all@.len() == 15,
            forall|t: int| 0 <= t < j ==> s@.subrange(a as int, b as int) != keyword(#[trigger] all@[t]),
        decreases 15 - j,
    {
        if word_is(s, a, b, all[j]) {
            return true;
        }
        j = j + 1;
    }
    proof {
        assert forall|k: Keyword| s@.subrange(a as int, b as int) != #[trigger] keyword(k) by {
            match k {
                Keyword::Circle => assert(all@[0] == k),
                Keyword::Square => assert(all@[1] == k),
                Keyword::Move => assert(all@[2] == k),
                Keyword::Color => assert(all@[3] == k),
                Keyword::For => assert(all@[4] == k),
                Keyword::If => assert(all@[5] == k),
                Keyword::Else => assert(all@[6] == k),
                Keyword::End => assert(all@[7] == k),
                Keyword::And => assert(all@[8] == k),
                Keyword::Or => assert(all@[9] == k),
                Keyword::True => assert(all@[10] == k),
                Keyword::False => assert(all@[11] == k),
                Keyword::Sin => assert(all@[12] == k),
                Keyword::Cos => assert(all@[13] == k),
                Keyword::Time => assert(all@[14] == k),
            }
        }
    }
    false
}

/// The literal with sign `negative`, integer digits `s[a..b]` and fraction
/// digits `s[c..d]`, with leading and trailing zeros dropped.
pub open spec fn decimal_of(s: Seq<char>, negative: bool, a: int, b: int, c: int, d: int) -> DecimalV {
    DecimalV {
        negative,
        whole: s.subrange(span(s, a, Class::Zero), b),
        fraction: s.subrange(c, trim_zeros_end(s, c, d)),
    }
}

/// A numeric literal at `i`: an optional sign, then digits with an optional
/// fractional part (`12`, `12.`, `12.5`), or a point and digits (`.5`).
/// Exponents are not part of the language.
pub open spec fn spec_number(s: Seq<char>, i: int) -> Option<(DecimalV, int)> {
    if !(0 <= i <= s.len()) {
        None
    } else {
        let signed = i < s.len() && (s[i] == '-' || s[i] == '+');
        let negative = i < s.len() && s[i] == '-';
        let j = if signed { i + 1 } else { i };
        let d = span(s, j, Class::Digit);
        if d > j {
            if d < s.len() && s[d] == '.' {
                let f = span(s, d + 1, Class::Digit);
                Some((decimal_of(s, negative, j, d, d + 1, f), f))
            } else {
                Some((decimal_of(s, negative, j, d, d, d), d))
            }
        } else if j < s.len() && s[j] == '.' && span(s, j + 1, Class::Digit) > j + 1 {
            let f = span(s, j + 1, Class::Digit);
            Some((decimal_of(s, negative, j, j, j + 1, f), f))
        } else {
            None
        }
    }
}

fn decimal_exec(s: &Vec<char>, negative: bool, a: usize, b: usize, c: usize, d: usize) -> (r: Decimal)
    requires
        a <= b <= s.len(),
        c <= d <= s.len(),
        b == span(s@, a as int, Class::Digit),
    ensures
        r@ == decimal_of(s@, negative, a as int, b as int, c as int, d as int),
{
    let z = span_exec(s, a, Class::Zero);
    proof {
        lemma_zeros_within_digits(s@, a as int);
    }
    let e = trim_zeros_end_exec(s, c, d);
    Decimal { negative, whole: copy_range(s, z, b), fraction: copy_range(s, c, e) }
}

pub fn number_exec(s: &Vec<char>, i: usize) -> (r: Option<(Decimal, usize)>)
    requires
        i <= s.len(),
    ensures
        match r {
            Some((d, k)) => spec_number(s@, i as int) == Some((d@, k as int)) && i < k <= s.len(),
            None => spec_number(s@, i as int) is None,
        },
{
    let signed = i < s.len() && (s[i] == '-' || s[i] == '+');
    let negative = i < s.len() && s[i] == '-';
    let j = if signed { i + 1 } else { i };
    let d = span_exec(s, j, Class::Digit);
    if d > j {
        if d < s.len() && s[d] == '.' {
            let f = span_exec(s, d + 1, Class::Digit);
            Some((decimal_exec(s, negative, j, d, d + 1, f), f))
        } else {
            Some((decimal_exec(s, negative, j, d, d, d), d))
        }
    } else if j < s.len() && s[j] == '.' && span_exec(s, j + 1, Class::Digit) > j + 1 {
        let f = span_exec(s, j + 1, Class::Digit);
        proof {
            assert(span(s@, j as int, Class::Digit) == j);
        }
        Some((decimal_exec(s, negative, j, j, j + 1, f), f))
    } else {
        None
    }
}

impl Decimal {
    /// The literal with the given sign, digits before the point and digits
    /// after it; leading zeros of `whole` and trailing zeros of `fraction`
    /// are dropped.
    pub fn from_parts(negative: bool, whole: &str, fraction: &str) -> (r: Decimal)
        ensures
            r@ == (DecimalV {
                negative,
                whole: whole@.subrange(span(whole@, 0, Class::Zero), whole@.len() as int),
                fraction: fraction@.subrange(0, trim_zeros_end(fraction@, 0, fraction@.len() as int)),
            }),
    {
        let w = chars_of(whole);
        let f = chars_of(fraction);
        let z = span_exec(&w, 0, Class::Zero);
        let e = trim_zeros_end_exec(&f, 0, f.len());
        Decimal { negative, whole: copy_range(&w, z, w.len()), fraction: copy_range(&f, 0, e) }
    }
}

} // verus!
