//! The cursor that every section of a line is read with, and the tag list.
use vstd::prelude::*;

use crate::float_literal::{is_float, is_float_literal};
use crate::tags::{pairs_map, Tags};
use crate::text::{
    after, chars_of, field, find_stop, lemma_stop_index, stop_index,
    string_from_chars, trim_end, trim_end_of,
};

pub mod metric_parser;
pub mod service_check_parser;

verus! {

/// Why a line could not be decoded.
#[derive(PartialEq, Eq, Structural, Clone, Copy, Debug)]
pub enum ParseError {
    /// No content in the line
    EmptyInput,
    /// The line stops in the middle of a section; no line of the grammar
    /// leads here
    IncompleteInput,
    /// The name is empty
    NoName,
    /// The value, or a service check's timestamp, is not a float
    ValueNotFloat,
    /// The sample rate is not a float
    SampleRateNotFloat,
    /// The metric type is none of the known codes
    UnknownMetricType,
}

impl ParseError {
    /// A short description of the error.
    pub fn as_str(&self) -> (r: &'static str)
        ensures
            r@ == error_text(*self),
    {
        match self {
            ParseError::EmptyInput => "Empty input",
            ParseError::IncompleteInput => "Incomplete input",
            ParseError::NoName => "No name in input",
            ParseError::ValueNotFloat => "Value is not a float",
            ParseError::SampleRateNotFloat => "Sample rate is not a float",
            ParseError::UnknownMetricType => "Unknown metric type",
        }
    }
}

pub open spec fn error_text(e: ParseError) -> Seq<char> {
    match e {
        ParseError::EmptyInput => "Empty input"@,
        ParseError::IncompleteInput => "Incomplete input"@,
        ParseError::NoName => "No name in input"@,
        ParseError::ValueNotFloat => "Value is not a float"@,
        ParseError::SampleRateNotFloat => "Sample rate is not a float"@,
        ParseError::UnknownMetricType => "Unknown metric type"@,
    }
}

/// The characters that end one tag of a tag list.
pub open spec fn tag_stops() -> Seq<char> {
    seq![',', '|']
}

/// A tag split at its first colon into key and value; a tag without a colon
/// has an empty value.
pub open spec fn split_tag(tag: Seq<char>) -> (Seq<char>, Seq<char>) {
    (field(tag, seq![':']), after(tag, seq![':']))
}

/// The tag list at the start of `s` (the text after `#`): its tags in order,
/// and the text after the list. The list ends at an empty tag, at the end of
/// the text, or after a tag that a `|` ends.
pub open spec fn tag_scan(s: Seq<char>) -> (Seq<(Seq<char>, Seq<char>)>, Seq<char>)
    decreases s.len(),
    via tag_scan_decreases
{
    let i = stop_index(s, tag_stops());
    let tag = field(s, tag_stops());
    let rest = after(s, tag_stops());
    if tag.len() == 0 {
        (seq![], rest)
    } else if i < s.len() && s[i] == '|' {
        (seq![split_tag(tag)], rest)
    } else {
        let (more, left) = tag_scan(rest);
        (seq![split_tag(tag)] + more, left)
    }
}

#[via_fn]
proof fn tag_scan_decreases(s: Seq<char>) {
    lemma_stop_index(s, tag_stops());
}

/// The tags of the tag list at the start of `s` (the text after `#`).
pub open spec fn tag_section(s: Seq<char>) -> Map<Seq<char>, Seq<char>> {
    pairs_map(tag_scan(s).0)
}

/// A position in the characters of one line, without trailing white space.
#[derive(Debug)]
pub struct Parser {
    chars: Vec<char>,
    pos: usize,
}

/// The stop set that holds `c` alone.
pub(crate) fn only(c: char) -> (r: Vec<char>)
    ensures
        r@ == seq![c],
{
    let v = vec![c];
    assert(v@ =~= seq![c]);
    v
}

/// Splits a tag at its first colon into key and value.
fn split_at_colon(tag: &Vec<char>) -> (r: (String, String))
    ensures
        (r.0@, r.1@) == split_tag(tag@),
{
    let n = tag.len();
    let colon = [':'];
    assert(colon@ =~= seq![':']);
    let c = find_stop(tag.as_slice(), 0, n, &colon);
    assert(tag@.subrange(0, n as int) =~= tag@);
    let key = string_from_chars(chars_between(tag.as_slice(), 0, c));
    let value = if c < n {
        string_from_chars(chars_between(tag.as_slice(), c + 1, n))
    } else {
        String::new()
    };
    assert(key@ =~= split_tag(tag@).0);
    assert(value@ =~= split_tag(tag@).1);
    (key, value)
}

/// The characters `s[lo..hi]`.
fn chars_between(s: &[char], lo: usize, hi: usize) -> (r: Vec<char>)
    requires
        lo <= hi <= s@.len(),
    ensures
        r@ == s@.subrange(lo as int, hi as int),
{
    let mut v: Vec<char> = Vec::new();
    let mut i: usize = lo;
    while i < hi
        invariant
            lo <= i <= hi <= s@.len(),
            v@ == s@.subrange(lo as int, i as int),
        decreases hi - i,
    {
        v.push(s[i]);
        i = i + 1;
        assert(v@ =~= s@.subrange(lo as int, i as int));
    }
    v
}

impl Parser {
    /// The characters of the line.
    pub closed spec fn text(&self) -> Seq<char> {
        self.chars@
    }

    /// The index of the next character to read.
    pub closed spec fn position(&self) -> int {
        self.pos as int
    }

    /// The characters not read yet.
    /// The characters not read yet; none once the position is at or past
    /// the end.
    pub open spec fn rest(&self) -> Seq<char> {
        if self.position() < self.text().len() {
            self.text().skip(self.position())
        } else {
            Seq::empty()
        }
    }

    /// How far reading up to the first of `stops` moves the position: past the
    /// stop character, or to the end when there is none.
    pub open spec fn advance(&self, stops: Seq<char>) -> int {
        if stop_index(self.rest(), stops) < self.rest().len() {
            stop_index(self.rest(), stops) + 1
        } else {
            self.rest().len() as int
        }
    }

    /// A parser at the start of `buf`, trailing white space removed.
    pub fn new(buf: String) -> (r: Parser)
        ensures
            r.text() == trim_end_of(buf@),
            r.position() == 0,
    {
        let mut chars = chars_of(buf.as_str());
        trim_end(&mut chars);
        Parser { chars, pos: 0 }
    }

    /// The index of the next character to read.
    pub fn pos(&self) -> (r: usize)
        ensures
            r == self.position(),
    {
        self.pos
    }

    /// Moves to index `pos`, which may lie past the end.
    pub fn set_pos(&mut self, pos: usize)
        ensures
            final(self).text() == old(self).text(),
            final(self).position() == pos,
    {
        self.pos = pos;
    }

    fn take_chars_until(&mut self, stops: &[char]) -> (r: Vec<char>)
        ensures
            final(self).text() == old(self).text(),
            final(self).position() == old(self).position() + old(self).advance(stops@),
            r@ == field(old(self).rest(), stops@),
            final(self).rest() == after(old(self).rest(), stops@),
    {
        let ghost rest = self.rest();
        let len = self.chars.len();
        if self.pos >= len {
            assert(rest.len() == 0);
            return Vec::new();
        }
        let end = find_stop(self.chars.as_slice(), self.pos, len, stops);
        assert(self.chars@.subrange(self.pos as int, len as int) =~= rest);
        let taken = chars_between(self.chars.as_slice(), self.pos, end);
        assert(taken@ =~= field(rest, stops@));
        self.pos = if end < len {
            end + 1
        } else {
            end
        };
        assert(self.rest() =~= after(rest, stops@));
        taken
    }

    /// Reads up to the first of `to_match`, which is read too, or to the end;
    /// returns what came before it.
    pub fn take_until(&mut self, to_match: Vec<char>) -> (r: String)
        ensures
            final(self).text() == old(self).text(),
            final(self).position() == old(self).position() + old(self).advance(to_match@),
            r@ == field(old(self).rest(), to_match@),
            final(self).rest() == after(old(self).rest(), to_match@),
    {
        string_from_chars(self.take_chars_until(to_match.as_slice()))
    }

    /// Reads as [`Parser::take_until`] does; returns what came before the stop
    /// character if it is a floating-point literal.
    pub fn take_float_until(&mut self, to_match: Vec<char>) -> (r: Option<String>)
        ensures
            final(self).text() == old(self).text(),
            final(self).position() == old(self).position() + old(self).advance(to_match@),
            final(self).rest() == after(old(self).rest(), to_match@),
            match r {
                Some(t) => is_float_literal(field(old(self).rest(), to_match@)) && t@ == field(
                    old(self).rest(),
                    to_match@,
                ),
                None => !is_float_literal(field(old(self).rest(), to_match@)),
            },
    {
        let taken = self.take_chars_until(to_match.as_slice());
        if is_float(taken.as_slice()) {
            Some(string_from_chars(taken))
        } else {
            None
        }
    }
}

impl Parser {
    /// The next character, without reading it.
    pub fn peek(&self) -> (r: Option<char>)
        ensures
            r == (if self.rest().len() > 0 {
                Some(self.rest()[0])
            } else {
                None
            }),
    {
        if self.pos >= self.chars.len() {
            None
        } else {
            Some(self.chars[self.pos])
        }
    }

    /// The character just before the position; none at the start, and none
    /// once the position is past the end.
    pub fn last(&self) -> (r: Option<char>)
        ensures
            r == (if 0 < self.position() <= self.text().len() {
                Some(self.text()[self.position() - 1])
            } else {
                None
            }),
    {
        if self.pos == 0 || self.pos > self.chars.len() {
            None
        } else {
            Some(self.chars[self.pos - 1])
        }
    }

    /// Moves the position on by one character; at or past the end there is
    /// nothing more to read either way.
    pub fn skip(&mut self)
        requires
            old(self).rest().len() > 0 || old(self).position() < usize::MAX,
        ensures
            final(self).text() == old(self).text(),
            final(self).position() == old(self).position() + 1,
            final(self).rest() == if old(self).rest().len() > 0 {
                old(self).rest().drop_first()
            } else {
                old(self).rest()
            },
    {
        let len = self.chars.len();
        assert(self.pos < len || self.pos < usize::MAX);
        self.pos = self.pos + 1;
        assert(self.rest() =~= if old(self).rest().len() > 0 {
            old(self).rest().drop_first()
        } else {
            old(self).rest()
        });
    }

    /// Reads the tag list that starts at the `#` under the cursor, and returns
    /// its tags. A tag is split at its first colon only, so a value may hold
    /// colons.
    pub fn parse_tags(&mut self) -> (r: Tags)
        requires
            old(self).rest().len() > 0,
            old(self).rest()[0] == '#',
        ensures
            final(self).text() == old(self).text(),
            r@ == tag_section(old(self).rest().drop_first()),
            final(self).rest() == tag_scan(old(self).rest().drop_first()).1,
    {
        let ghost list = old(self).rest().drop_first();
        let mut tags = Tags::new();
        let ghost mut seen: Seq<(Seq<char>, Seq<char>)> = seq![];
        self.skip();
        let stops = [',', '|'];
        assert(stops@ =~= tag_stops());
        loop
            invariant_except_break
                self.text()[self.position() - 1] == '|' ==> tag_scan(list) == (seen, self.rest()),
                self.text()[self.position() - 1] != '|' ==> tag_scan(list) == (seen + tag_scan(
                    self.rest(),
                ).0, tag_scan(self.rest()).1),
            invariant
                self.text() == old(self).text(),
                stops@ == tag_stops(),
                0 < self.position() <= self.text().len(),
                tags@ == pairs_map(seen),
            ensures
                tag_scan(list) == (seen, self.rest()),
            decreases self.text().len() - self.position(),
        {
            if self.last() == Some('|') {
                break;
            }
            let ghost before = self.rest();
            let tag = self.take_chars_until(&stops);
            proof {
                lemma_stop_index(before, tag_stops());
            }
            if tag.len() == 0 {
                break;
            }
            let (key, value) = split_at_colon(&tag);
            proof {
                let i = stop_index(before, tag_stops());
                assert(self.text()[self.position() - 1] == if i < before.len() {
                    before[i]
                } else {
                    before[before.len() - 1]
                });
                assert(seen + seq![split_tag(tag@)] =~= seen.push(split_tag(tag@)));
                assert(seen + (seq![split_tag(tag@)] + tag_scan(self.rest()).0) =~= seen.push(
                    split_tag(tag@),
                ) + tag_scan(self.rest()).0);
                let prev = seen;
                seen = seen.push((key@, value@));
                assert(seen.drop_last() =~= prev);
            }
            tags.insert(key, value);
        }
        tags
    }
}

} // verus!
