//! Service-check lines:
//! `_sc|name|status[|d:timestamp][|h:hostname][|#tags][|m:message]`.
use vstd::prelude::*;

use crate::float_literal::is_float_literal;
use crate::parser::{only, tag_scan, tag_section, ParseError, Parser};
use crate::text::{after, field, trim_end_of};
use crate::{result_model, Message, MessageModel, Metric, MetricModel, ServiceCheck, Status};

verus! {

/// The status that a status code names: `0`, `1` and `2` are OK, WARNING and
/// CRITICAL; any other text, the empty one included, is UNKNOWN.
pub open spec fn status_of(code: Seq<char>) -> Status {
    if code == seq!['0'] {
        Status::OK
    } else if code == seq!['1'] {
        Status::WARNING
    } else if code == seq!['2'] {
        Status::CRITICAL
    } else {
        Status::UNKNOWN
    }
}

/// `s` without the two characters of a section marker such as `d:`.
pub open spec fn skip_marker(s: Seq<char>) -> Seq<char> {
    if s.len() >= 2 {
        s.skip(2)
    } else {
        Seq::empty()
    }
}

pub open spec fn starts_with(s: Seq<char>, c: char) -> bool {
    s.len() > 0 && s[0] == c
}

/// The decoding of a service-check line `s` (trailing white space already
/// removed). The marker runs to the first `|`, the name to the next, the
/// status code to the next or the end. Then, each optional and in this
/// order, each known by its first character: `d:` and a timestamp, `h:` and
/// a hostname, `#` and a tag list, `m:` and a message. Only an empty line, an
/// empty name or a timestamp that is no floating-point literal is an error.
pub open spec fn service_check_line(s: Seq<char>) -> Result<MessageModel, ParseError> {
    let after_marker = after(s, seq!['|']);
    let name = field(after_marker, seq!['|']);
    let after_name = after(after_marker, seq!['|']);
    let status = status_of(field(after_name, seq!['|']));
    let r0 = after(after_name, seq!['|']);
    let has_timestamp = starts_with(r0, 'd');
    let timestamp = field(skip_marker(r0), seq!['|']);
    let r1 = if has_timestamp {
        after(skip_marker(r0), seq!['|'])
    } else {
        r0
    };
    let has_hostname = starts_with(r1, 'h');
    let r2 = if has_hostname {
        after(skip_marker(r1), seq!['|'])
    } else {
        r1
    };
    let has_tags = starts_with(r2, '#');
    let r3 = if has_tags {
        tag_scan(r2.drop_first()).1
    } else {
        r2
    };
    let has_message = starts_with(r3, 'm');
    let metric = MetricModel::ServiceCheck {
        status,
        timestamp: if has_timestamp {
            Some(timestamp)
        } else {
            None
        },
        hostname: if has_hostname {
            Some(field(skip_marker(r1), seq!['|']))
        } else {
            None
        },
        message: if has_message {
            Some(field(skip_marker(r3), seq!['|']))
        } else {
            None
        },
    };
    let tags = if has_tags {
        Some(tag_section(r2.drop_first()))
    } else {
        None
    };
    if s.len() == 0 {
        Err(ParseError::EmptyInput)
    } else if name.len() == 0 {
        Err(ParseError::NoName)
    } else if has_timestamp && !is_float_literal(timestamp) {
        Err(ParseError::ValueNotFloat)
    } else {
        Ok(MessageModel { name, tags, metric })
    }
}

fn status_for_code(code: &Vec<char>) -> (r: Status)
    ensures
        r == status_of(code@),
{
    if code.len() == 1 {
        let c = code[0];
        assert(code@ =~= seq![c]);
        if c == '0' {
            Status::OK
        } else if c == '1' {
            Status::WARNING
        } else if c == '2' {
            Status::CRITICAL
        } else {
            Status::UNKNOWN
        }
    } else {
        assert(seq!['0'].len() == 1 && seq!['1'].len() == 1 && seq!['2'].len() == 1);
        Status::UNKNOWN
    }
}

/// Reads the one-letter marker of a section under the cursor and the
/// character after it, the `:`.
fn skip_section_marker(p: &mut Parser)
    requires
        old(p).rest().len() > 0,
    ensures
        final(p).text() == old(p).text(),
        final(p).rest() == skip_marker(old(p).rest()),
{
    p.skip();
    if p.peek().is_some() {
        p.skip();
    }
    assert(p.rest() =~= skip_marker(old(p).rest()));
}

/// Reads a section that a one-letter marker and `:` open, up to the next `|`
/// or the end.
fn marked_section(p: &mut Parser) -> (r: String)
    requires
        old(p).rest().len() > 0,
    ensures
        final(p).text() == old(p).text(),
        r@ == field(skip_marker(old(p).rest()), seq!['|']),
        final(p).rest() == after(skip_marker(old(p).rest()), seq!['|']),
{
    skip_section_marker(p);
    p.take_until(only('|'))
}

/// Decodes a service-check line, trailing white space ignored.
#[verifier::rlimit(40)]
pub fn parse(input: String) -> (r: Result<Message, ParseError>)
    ensures
        result_model(r) == service_check_line(trim_end_of(input@)),
{
    let mut p = Parser::new(input);
    assert(p.rest() =~= p.text());
    if p.peek().is_none() {
        return Err(ParseError::EmptyInput);
    }
    let pipe = ['|'];
    assert(pipe@ =~= seq!['|']);
    p.take_chars_until(&pipe);
    let name = p.take_until(only('|'));
    if name.as_str().is_empty() {
        return Err(ParseError::NoName);
    }
    let status = status_for_code(&p.take_chars_until(&pipe));
    let timestamp = if p.peek() == Some('d') {
        skip_section_marker(&mut p);
        match p.take_float_until(only('|')) {
            Some(v) => Some(v),
            None => {
                return Err(ParseError::ValueNotFloat);
            },
        }
    } else {
        None
    };
    let hostname = if p.peek() == Some('h') {
        Some(marked_section(&mut p))
    } else {
        None
    };
    let tags = if p.peek() == Some('#') {
        Some(p.parse_tags())
    } else {
        None
    };
    let message = if p.peek() == Some('m') {
        Some(marked_section(&mut p))
    } else {
        None
    };
    let check = ServiceCheck { status, timestamp, hostname, message };
    Ok(Message { name, tags, metric: Metric::ServiceCheck(check) })
}

} // verus!
