//! Character sequences: where a field ends, and trailing white space.
use vstd::prelude::*;

verus! {

/// Index of the first character of `s` that is one of `stops`, or `s.len()`
/// when there is none.
pub open spec fn stop_index(s: Seq<char>, stops: Seq<char>) -> int
    decreases s.len(),
{
    if s.len() == 0 {
        0
    } else if stops.contains(s[0]) {
        0
    } else {
        1 + stop_index(s.drop_first(), stops)
    }
}

/// The text of `s` before its first stop character.
pub open spec fn field(s: Seq<char>, stops: Seq<char>) -> Seq<char> {
    s.take(stop_index(s, stops))
}

/// The text of `s` after its first stop character; empty when there is none.
pub open spec fn after(s: Seq<char>, stops: Seq<char>) -> Seq<char> {
    if stop_index(s, stops) < s.len() {
        s.skip(stop_index(s, stops) + 1)
    } else {
        Seq::empty()
    }
}

/// `i` is the index of the first stop character of `s`, or `s.len()`.
pub open spec fn is_stop_index(s: Seq<char>, stops: Seq<char>, i: int) -> bool {
    &&& 0 <= i <= s.len()
    &&& forall|k: int| 0 <= k < i ==> !stops.contains(#[trigger] s[k])
    &&& i < s.len() ==> stops.contains(s[i])
}

pub proof fn lemma_stop_index(s: Seq<char>, stops: Seq<char>)
    ensures
        is_stop_index(s, stops, stop_index(s, stops)),
    decreases s.len(),
{
    if s.len() > 0 && !stops.contains(s[0]) {
        lemma_stop_index(s.drop_first(), stops);
        assert forall|k: int| 0 <= k < stop_index(s, stops) implies !stops.contains(#[trigger] s[k]) by {
            if k > 0 {
                assert(s[k] == s.drop_first()[k - 1]);
            }
        }
    }
}

/// The first stop character is the only index with the property.
pub proof fn lemma_stop_index_unique(s: Seq<char>, stops: Seq<char>, i: int)
    requires
        is_stop_index(s, stops, i),
    ensures
        stop_index(s, stops) == i,
{
    lemma_stop_index(s, stops);
    let j = stop_index(s, stops);
    if j < i {
        assert(!stops.contains(s[j]));
    } else if i < j {
        assert(!stops.contains(s[i]));
    }
}

/// A character with the Unicode `White_Space` property.
pub open spec fn is_white_space(c: char) -> bool {
    ('\u{9}' <= c && c <= '\u{d}') || c == ' ' || c == '\u{85}' || c == '\u{a0}' || c == '\u{1680}'
        || ('\u{2000}' <= c && c <= '\u{200a}') || c == '\u{2028}' || c == '\u{2029}'
        || c == '\u{202f}' || c == '\u{205f}' || c == '\u{3000}'
}

/// `s` without its trailing white space.
pub open spec fn trim_end_of(s: Seq<char>) -> Seq<char>
    decreases s.len(),
{
    if s.len() > 0 && is_white_space(s.last()) {
        trim_end_of(s.drop_last())
    } else {
        s
    }
}

/// Whether `c` has the Unicode `White_Space` property.
pub(crate) fn is_white_space_char(c: char) -> (r: bool)
    ensures
        r == is_white_space(c),
{
    ('\u{9}' <= c && c <= '\u{d}') || c == ' ' || c == '\u{85}' || c == '\u{a0}' || c == '\u{1680}'
        || ('\u{2000}' <= c && c <= '\u{200a}') || c == '\u{2028}' || c == '\u{2029}'
        || c == '\u{202f}' || c == '\u{205f}' || c == '\u{3000}'
}

/// Removes the trailing white space of `chars`.
pub(crate) fn trim_end(chars: &mut Vec<char>)
    ensures
        final(chars)@ == trim_end_of(old(chars)@),
{
    while chars.len() > 0 && is_white_space_char(chars[chars.len() - 1])
        invariant
            trim_end_of(chars@) == trim_end_of(old(chars)@),
        decreases chars.len(),
    {
        chars.pop();
    }
}

/// Relies on `String: FromIterator<char>`: the string holds the characters in
/// the order given.
#[verifier::external_body]
pub(crate) fn string_from_chars(chars: Vec<char>) -> (r: String)
    ensures
        r@ == chars@,
{
    chars.into_iter().collect()
}

/// The characters of `s`, in order.
pub(crate) fn chars_of(s: &str) -> (r: Vec<char>)
    ensures
        r@ == s@,
{
    let mut v: Vec<char> = Vec::new();
    for c in it: s.chars()
        invariant
            v@ == it.seq().take(it.index() as int),
    {
        v.push(c);
    }
    v
}

} // verus!

verus! {

/// Whether `c` is one of `stops`.
pub(crate) fn is_one_of(c: char, stops: &[char]) -> (r: bool)
    ensures
        r == stops@.contains(c),
{
    let mut i: usize = 0;
    while i < stops.len()
        invariant
            i <= stops.len(),
            forall|k: int| 0 <= k < i ==> stops@[k] != c,
        decreases stops.len() - i,
    {
        if stops[i] == c {
            assert(stops@[i as int] == c);
            return true;
        }
        i = i + 1;
    }
    proof {
        if stops@.contains(c) {
            let k = choose|k: int| 0 <= k < stops@.len() && stops@[k] == c;
            assert(stops@[k] != c);
        }
    }
    false
}

/// Index of the first of `stops` in `s[lo..hi]`, or `hi` when there is none.
pub(crate) fn find_stop(s: &[char], lo: usize, hi: usize, stops: &[char]) -> (r: usize)
    requires
        lo <= hi <= s@.len(),
    ensures
        lo <= r <= hi,
        r - lo == stop_index(s@.subrange(lo as int, hi as int), stops@),
{
    let ghost sub = s@.subrange(lo as int, hi as int);
    let mut i: usize = lo;
    while i < hi && !is_one_of(s[i], stops)
        invariant
            lo <= i <= hi <= s@.len(),
            sub == s@.subrange(lo as int, hi as int),
            forall|k: int| lo <= k < i ==> !stops@.contains(#[trigger] s@[k]),
        decreases hi - i,
    {
        i = i + 1;
    }
    proof {
        assert forall|k: int| 0 <= k < i - lo implies !stops@.contains(#[trigger] sub[k]) by {
            assert(sub[k] == s@[lo + k]);
        }
        if i < hi {
            assert(sub[i - lo] == s@[i as int]);
        }
        lemma_stop_index_unique(sub, stops@, i - lo);
    }
    i
}

} // verus!
