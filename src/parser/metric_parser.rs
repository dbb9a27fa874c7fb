//! Metric lines: `name:value|type[|@rate][|#tags]`.
use vstd::prelude::*;

use crate::float_literal::is_float_literal;
use crate::parser::{only, tag_section, ParseError, Parser};
use crate::text::{after, field, trim_end_of};
use crate::{
    Counter, Distribution, Gauge, Histogram, Message, Meter, Metric, MetricModel, MessageModel,
    SetMetric, Timing, result_model,
};

verus! {

/// The metric that type code `code` names, or none for an unknown code.
pub open spec fn metric_of(code: Seq<char>, value: Seq<char>, sample_rate: Option<Seq<char>>) -> Option<
    MetricModel,
> {
    if code == seq!['m', 's'] {
        Some(MetricModel::Timing { value, sample_rate })
    } else if code == seq!['c'] {
        Some(MetricModel::Counter { value, sample_rate })
    } else if code == seq!['g'] {
        Some(MetricModel::Gauge { value, sample_rate })
    } else if code == seq!['m'] {
        Some(MetricModel::Meter { value, sample_rate })
    } else if code == seq!['h'] {
        Some(MetricModel::Histogram { value, sample_rate })
    } else if code == seq!['d'] {
        Some(MetricModel::Distribution { value, sample_rate })
    } else if code == seq!['s'] {
        Some(MetricModel::SetMetric { value, sample_rate })
    } else {
        None
    }
}

/// The decoding of a metric line `s` (trailing white space already removed).
/// The name runs to the first `:`, the value to the next `|`, the type code
/// to the next `|` or the end. A sample rate follows if the next character
/// is `@`, then a tag list if the next is `#`. Checks are made left to right
/// and the first that fails gives the error; the type code is checked last.
pub open spec fn metric_line(s: Seq<char>) -> Result<MessageModel, ParseError> {
    let name = field(s, seq![':']);
    let after_name = after(s, seq![':']);
    let value = field(after_name, seq!['|']);
    let after_value = after(after_name, seq!['|']);
    let code = field(after_value, seq!['|']);
    let after_code = after(after_value, seq!['|']);
    let has_rate = after_code.len() > 0 && after_code[0] == '@';
    let rate = field(after_code.drop_first(), seq!['|']);
    let after_rate = if has_rate {
        after(after_code.drop_first(), seq!['|'])
    } else {
        after_code
    };
    let tags = if after_rate.len() > 0 && after_rate[0] == '#' {
        Some(tag_section(after_rate.drop_first()))
    } else {
        None
    };
    let sample_rate = if has_rate {
        Some(rate)
    } else {
        None
    };
    if s.len() == 0 {
        Err(ParseError::EmptyInput)
    } else if name.len() == 0 {
        Err(ParseError::NoName)
    } else if !is_float_literal(value) {
        Err(ParseError::ValueNotFloat)
    } else if has_rate && !is_float_literal(rate) {
        Err(ParseError::SampleRateNotFloat)
    } else {
        match metric_of(code, value, sample_rate) {
            Some(metric) => Ok(MessageModel { name, tags, metric }),
            None => Err(ParseError::UnknownMetricType),
        }
    }
}

/// The metric that type code `code` names, holding `value` and `sample_rate`.
fn metric_for_code(code: &Vec<char>, value: String, sample_rate: Option<String>) -> (r: Option<Metric>)
    ensures
        match r {
            Some(m) => metric_of(code@, value@, crate::text_of(sample_rate)) == Some(m@),
            None => metric_of(code@, value@, crate::text_of(sample_rate)) is None,
        },
{
    let n = code.len();
    if n == 2 && code[0] == 'm' && code[1] == 's' {
        assert(code@ =~= seq!['m', 's']);
        return Some(Metric::Timing(Timing { value, sample_rate }));
    }
    assert(code@ != seq!['m', 's']);
    if n == 1 {
        let c = code[0];
        assert(code@ =~= seq![c]);
        if c == 'c' {
            return Some(Metric::Counter(Counter { value, sample_rate }));
        } else if c == 'g' {
            return Some(Metric::Gauge(Gauge { value, sample_rate }));
        } else if c == 'm' {
            return Some(Metric::Meter(Meter { value, sample_rate }));
        } else if c == 'h' {
            return Some(Metric::Histogram(Histogram { value, sample_rate }));
        } else if c == 'd' {
            return Some(Metric::Distribution(Distribution { value, sample_rate }));
        } else if c == 's' {
            return Some(Metric::SetMetric(SetMetric { value, sample_rate }));
        }
        assert(seq!['c'] != code@ && seq!['g'] != code@ && seq!['m'] != code@ && seq!['h'] != code@);
        assert(seq!['d'] != code@ && seq!['s'] != code@);
    } else {
        assert(seq!['c'].len() == 1);
    }
    None
}

/// Decodes a metric line, trailing white space ignored.
pub fn parse(input: String) -> (r: Result<Message, ParseError>)
    ensures
        result_model(r) == metric_line(trim_end_of(input@)),
{
    let mut p = Parser::new(input);
    assert(p.rest() =~= p.text());
    if p.peek().is_none() {
        return Err(ParseError::EmptyInput);
    }
    let name = p.take_until(only(':'));
    if name.as_str().is_empty() {
        return Err(ParseError::NoName);
    }
    let value = match p.take_float_until(only('|')) {
        Some(v) => v,
        None => {
            return Err(ParseError::ValueNotFloat);
        },
    };
    let pipe = ['|'];
    assert(pipe@ =~= seq!['|']);
    let code = p.take_chars_until(&pipe);
    let sample_rate = if p.peek() == Some('@') {
        p.skip();
        match p.take_float_until(only('|')) {
            Some(v) => Some(v),
            None => {
                return Err(ParseError::SampleRateNotFloat);
            },
        }
    } else {
        None
    };
    let tags = if p.peek() == Some('#') {
        Some(p.parse_tags())
    } else {
        None
    };
    match metric_for_code(&code, value, sample_rate) {
        Some(metric) => Ok(Message { name, tags, metric }),
        None => Err(ParseError::UnknownMetricType),
    }
}

} // verus!
