//! The textual form of a floating-point number, as `f64::from_str` accepts it:
//!
//! ```text
//! Float  ::= Sign? ( 'inf' | 'infinity' | 'nan' | Number )
//! Number ::= ( Digit+ | Digit+ '.' Digit* | Digit* '.' Digit+ ) Exp?
//! Exp    ::= 'e' Sign? Digit+
//! Sign   ::= [+-]
//! Digit  ::= [0-9]
//! ```
//!
//! Letters are matched without regard to ASCII case. Any text of this shape
//! parses to an `f64` (very large magnitudes to an infinity), and no other does.
use vstd::prelude::*;

use crate::text::{find_stop, is_white_space, lemma_stop_index, stop_index};

verus! {

pub open spec fn is_digit(c: char) -> bool {
    '0' <= c && c <= '9'
}

pub open spec fn is_sign(c: char) -> bool {
    c == '+' || c == '-'
}

pub open spec fn all_digits(s: Seq<char>) -> bool {
    forall|i: int| 0 <= i < s.len() ==> is_digit(#[trigger] s[i])
}

/// `s` without its leading sign, if it has one.
pub open spec fn unsigned(s: Seq<char>) -> Seq<char> {
    if s.len() > 0 && is_sign(s[0]) {
        s.drop_first()
    } else {
        s
    }
}

/// `Digit+ | Digit+ '.' Digit* | Digit* '.' Digit+`
pub open spec fn is_mantissa(m: Seq<char>) -> bool {
    let dot = stop_index(m, seq!['.']);
    if dot == m.len() {
        m.len() > 0 && all_digits(m)
    } else {
        let whole = m.take(dot);
        let frac = m.skip(dot + 1);
        all_digits(whole) && all_digits(frac) && (whole.len() > 0 || frac.len() > 0)
    }
}

/// `Sign? Digit+`, what follows the exponent letter.
pub open spec fn is_exponent(x: Seq<char>) -> bool {
    unsigned(x).len() > 0 && all_digits(unsigned(x))
}

/// `( Digit+ | Digit+ '.' Digit* | Digit* '.' Digit+ ) Exp?`
pub open spec fn is_number(s: Seq<char>) -> bool {
    let e = stop_index(s, seq!['e', 'E']);
    if e == s.len() {
        is_mantissa(s)
    } else {
        is_mantissa(s.take(e)) && is_exponent(s.skip(e + 1))
    }
}

/// `c` is the lowercase ASCII letter `lower`, in either case.
pub open spec fn letter_matches(c: char, lower: char) -> bool {
    c == lower || c == upper_of(lower)
}

pub open spec fn upper_of(lower: char) -> char {
    if lower == 'a' {
        'A'
    } else if lower == 'f' {
        'F'
    } else if lower == 'i' {
        'I'
    } else if lower == 'n' {
        'N'
    } else if lower == 't' {
        'T'
    } else if lower == 'y' {
        'Y'
    } else {
        lower
    }
}

/// `s` spells the lowercase word `word`, letters in either case.
pub open spec fn spells(s: Seq<char>, word: Seq<char>) -> bool {
    s.len() == word.len() && forall|i: int| 0 <= i < s.len() ==> letter_matches(#[trigger] s[i], word[i])
}

pub open spec fn is_special(s: Seq<char>) -> bool {
    spells(s, seq!['i', 'n', 'f']) || spells(s, seq!['i', 'n', 'f', 'i', 'n', 'i', 't', 'y'])
        || spells(s, seq!['n', 'a', 'n'])
}

/// `s` is a floating-point literal that `f64::from_str` accepts.
pub open spec fn is_float_literal(s: Seq<char>) -> bool {
    is_special(unsigned(s)) || is_number(unsigned(s))
}

} // verus!

verus! {

fn digits_only(s: &[char], lo: usize, hi: usize) -> (r: bool)
    requires
        lo <= hi <= s@.len(),
    ensures
        r == all_digits(s@.subrange(lo as int, hi as int)),
{
    let ghost sub = s@.subrange(lo as int, hi as int);
    let mut i: usize = lo;
    while i < hi
        invariant
            lo <= i <= hi <= s@.len(),
            sub == s@.subrange(lo as int, hi as int),
            forall|k: int| lo <= k < i ==> is_digit(#[trigger] s@[k]),
        decreases hi - i,
    {
        if !('0' <= s[i] && s[i] <= '9') {
            assert(sub[i - lo] == s@[i as int]);
            return false;
        }
        i = i + 1;
    }
    assert forall|k: int| 0 <= k < sub.len() implies is_digit(#[trigger] sub[k]) by {
        assert(sub[k] == s@[lo + k]);
    }
    true
}

fn mantissa_at(s: &[char], lo: usize, hi: usize) -> (r: bool)
    requires
        lo <= hi <= s@.len(),
    ensures
        r == is_mantissa(s@.subrange(lo as int, hi as int)),
{
    let ghost m = s@.subrange(lo as int, hi as int);
    let dots = ['.'];
    assert(dots@ =~= seq!['.']);
    let dot = find_stop(s, lo, hi, &dots);
    if dot == hi {
        hi > lo && digits_only(s, lo, hi)
    } else {
        assert(m.take(dot - lo) =~= s@.subrange(lo as int, dot as int));
        assert(m.skip(dot - lo + 1) =~= s@.subrange(dot + 1, hi as int));
        digits_only(s, lo, dot) && digits_only(s, dot + 1, hi) && (dot > lo || hi > dot + 1)
    }
}

fn exponent_at(s: &[char], lo: usize, hi: usize) -> (r: bool)
    requires
        lo <= hi <= s@.len(),
    ensures
        r == is_exponent(s@.subrange(lo as int, hi as int)),
{
    let ghost x = s@.subrange(lo as int, hi as int);
    let start = if lo < hi && (s[lo] == '+' || s[lo] == '-') {
        lo + 1
    } else {
        lo
    };
    assert(unsigned(x) =~= s@.subrange(start as int, hi as int));
    start < hi && digits_only(s, start, hi)
}

fn number_at(s: &[char], lo: usize, hi: usize) -> (r: bool)
    requires
        lo <= hi <= s@.len(),
    ensures
        r == is_number(s@.subrange(lo as int, hi as int)),
{
    let ghost n = s@.subrange(lo as int, hi as int);
    let marks = ['e', 'E'];
    assert(marks@ =~= seq!['e', 'E']);
    let e = find_stop(s, lo, hi, &marks);
    if e == hi {
        assert(n =~= s@.subrange(lo as int, e as int));
        mantissa_at(s, lo, hi)
    } else {
        assert(n.take(e - lo) =~= s@.subrange(lo as int, e as int));
        assert(n.skip(e - lo + 1) =~= s@.subrange(e + 1, hi as int));
        mantissa_at(s, lo, e) && exponent_at(s, e + 1, hi)
    }
}

fn upper(lower: char) -> (r: char)
    ensures
        r == upper_of(lower),
{
    if lower == 'a' {
        'A'
    } else if lower == 'f' {
        'F'
    } else if lower == 'i' {
        'I'
    } else if lower == 'n' {
        'N'
    } else if lower == 't' {
        'T'
    } else if lower == 'y' {
        'Y'
    } else {
        lower
    }
}

fn spells_at(s: &[char], lo: usize, hi: usize, word: &[char]) -> (r: bool)
    requires
        lo <= hi <= s@.len(),
    ensures
        r == spells(s@.subrange(lo as int, hi as int), word@),
{
    let ghost sub = s@.subrange(lo as int, hi as int);
    if hi - lo != word.len() {
        return false;
    }
    let mut i: usize = 0;
    while i < word.len()
        invariant
            hi - lo == word@.len(),
            lo <= hi <= s@.len(),
            sub == s@.subrange(lo as int, hi as int),
            i <= word@.len(),
            forall|k: int| 0 <= k < i ==> letter_matches(#[trigger] sub[k], word@[k]),
        decreases word.len() - i,
    {
        let c = s[lo + i];
        assert(sub[i as int] == c);
        if !(c == word[i] || c == upper(word[i])) {
            return false;
        }
        i = i + 1;
    }
    true
}

fn special_at(s: &[char], lo: usize, hi: usize) -> (r: bool)
    requires
        lo <= hi <= s@.len(),
    ensures
        r == is_special(s@.subrange(lo as int, hi as int)),
{
    let inf = ['i', 'n', 'f'];
    let infinity = ['i', 'n', 'f', 'i', 'n', 'i', 't', 'y'];
    let nan = ['n', 'a', 'n'];
    assert(inf@ =~= seq!['i', 'n', 'f']);
    assert(infinity@ =~= seq!['i', 'n', 'f', 'i', 'n', 'i', 't', 'y']);
    assert(nan@ =~= seq!['n', 'a', 'n']);
    spells_at(s, lo, hi, &inf) || spells_at(s, lo, hi, &infinity) || spells_at(s, lo, hi, &nan)
}

/// Whether `s` is a floating-point literal that `f64::from_str` accepts.
pub fn is_float(s: &[char]) -> (r: bool)
    ensures
        r == is_float_literal(s@),
{
    let start: usize = if s.len() > 0 && (s[0] == '+' || s[0] == '-') {
        1
    } else {
        0
    };
    assert(unsigned(s@) =~= s@.subrange(start as int, s@.len() as int));
    special_at(s, start, s.len()) || number_at(s, start, s.len())
}

/// A character that no floating-point literal holds: a field separator of a
/// line, or white space.
pub open spec fn is_separator(c: char) -> bool {
    c == ':' || c == '|' || c == '@' || c == '#' || c == ',' || is_white_space(c)
}

proof fn lemma_digits_plain(s: Seq<char>)
    requires
        all_digits(s),
    ensures
        forall|k: int| 0 <= k < s.len() ==> !is_separator(#[trigger] s[k]),
{
    assert forall|k: int| 0 <= k < s.len() implies !is_separator(#[trigger] s[k]) by {
        assert(is_digit(s[k]));
    }
}

proof fn lemma_mantissa_plain(m: Seq<char>)
    requires
        is_mantissa(m),
    ensures
        forall|k: int| 0 <= k < m.len() ==> !is_separator(#[trigger] m[k]),
{
    let dot = stop_index(m, seq!['.']);
    lemma_stop_index(m, seq!['.']);
    if dot == m.len() {
        lemma_digits_plain(m);
    } else {
        let whole = m.take(dot);
        let frac = m.skip(dot + 1);
        lemma_digits_plain(whole);
        lemma_digits_plain(frac);
        assert forall|k: int| 0 <= k < m.len() implies !is_separator(#[trigger] m[k]) by {
            if k < dot {
                assert(m[k] == whole[k]);
            } else if k > dot {
                assert(m[k] == frac[k - dot - 1]);
            } else {
                assert(seq!['.'].contains(m[k]));
                assert(m[k] == '.');
            }
        }
    }
}

proof fn lemma_unsigned_plain(s: Seq<char>)
    requires
        forall|k: int| 0 <= k < unsigned(s).len() ==> !is_separator(#[trigger] unsigned(s)[k]),
    ensures
        forall|k: int| 0 <= k < s.len() ==> !is_separator(#[trigger] s[k]),
{
    assert forall|k: int| 0 <= k < s.len() implies !is_separator(#[trigger] s[k]) by {
        if s.len() > 0 && is_sign(s[0]) && k > 0 {
            assert(s[k] == unsigned(s)[k - 1]);
        } else if !(s.len() > 0 && is_sign(s[0])) {
            assert(s[k] == unsigned(s)[k]);
        }
    }
}

/// A floating-point literal holds no separator: no `:`, `|`, `@`, `#` or `,`,
/// and no white space.
pub proof fn lemma_float_literal_plain(s: Seq<char>)
    requires
        is_float_literal(s),
    ensures
        forall|k: int| 0 <= k < s.len() ==> !is_separator(#[trigger] s[k]),
{
    let u = unsigned(s);
    if is_special(u) {
        assert forall|k: int| 0 <= k < u.len() implies !is_separator(#[trigger] u[k]) by {
            if spells(u, seq!['i', 'n', 'f']) {
                assert(letter_matches(u[k], seq!['i', 'n', 'f'][k]));
            } else if spells(u, seq!['n', 'a', 'n']) {
                assert(letter_matches(u[k], seq!['n', 'a', 'n'][k]));
            } else {
                assert(letter_matches(u[k], seq!['i', 'n', 'f', 'i', 'n', 'i', 't', 'y'][k]));
            }
        }
    } else {
        let e = stop_index(u, seq!['e', 'E']);
        lemma_stop_index(u, seq!['e', 'E']);
        if e == u.len() {
            lemma_mantissa_plain(u);
        } else {
            let m = u.take(e);
            let x = u.skip(e + 1);
            lemma_mantissa_plain(m);
            lemma_digits_plain(unsigned(x));
            lemma_unsigned_plain(x);
            assert forall|k: int| 0 <= k < u.len() implies !is_separator(#[trigger] u[k]) by {
                if k < e {
                    assert(u[k] == m[k]);
                } else if k > e {
                    assert(u[k] == x[k - e - 1]);
                } else {
                    assert(seq!['e', 'E'].contains(u[k]));
                }
            }
        }
    }
    lemma_unsigned_plain(s);
}

} // verus!
