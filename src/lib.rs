//! Decoding of StatsD-style lines into typed messages.
//!
//! A line is either a metric, `name:value|type[|@rate][|#tags]`, or a service
//! check, `_sc|name|status[|d:timestamp][|h:hostname][|#tags][|m:message]`.
//! Numbers are kept as the literal text of the line, checked to be a
//! floating-point literal that `f64::from_str` accepts; callers convert them.
use vstd::prelude::*;

pub mod float_literal;
pub mod laws;
pub mod parser;
pub mod tags;
pub mod text;

pub use parser::ParseError;
pub use tags::Tags;

use parser::metric_parser::metric_line;
use parser::service_check_parser::service_check_line;
use text::trim_end_of;

verus! {

/// One decoded line.
#[derive(Debug, PartialEq)]
pub struct Message {
    /// The metric's or the check's name; never empty.
    pub name: String,
    /// The tags, when the line has a tag section.
    pub tags: Option<Tags>,
    pub metric: Metric,
}

/// What a line reports.
#[derive(Debug, PartialEq)]
pub enum Metric {
    Gauge(Gauge),
    Counter(Counter),
    Timing(Timing),
    Histogram(Histogram),
    Meter(Meter),
    Distribution(Distribution),
    SetMetric(SetMetric),
    ServiceCheck(ServiceCheck),
}

/// Health of a service, as reported by a service check.
#[derive(PartialEq, Eq, Structural, Clone, Copy, Debug)]
pub enum Status {
    OK,
    WARNING,
    CRITICAL,
    UNKNOWN,
}

/// A gauge reading. `value` and `sample_rate` are floating-point literals.
#[derive(Debug, PartialEq)]
pub struct Gauge {
    pub value: String,
    pub sample_rate: Option<String>,
}

/// A counter increment. `value` and `sample_rate` are floating-point literals.
#[derive(Debug, PartialEq)]
pub struct Counter {
    pub value: String,
    pub sample_rate: Option<String>,
}

/// A timing. `value` and `sample_rate` are floating-point literals.
#[derive(Debug, PartialEq)]
pub struct Timing {
    pub value: String,
    pub sample_rate: Option<String>,
}

/// A histogram sample. `value` and `sample_rate` are floating-point literals.
#[derive(Debug, PartialEq)]
pub struct Histogram {
    pub value: String,
    pub sample_rate: Option<String>,
}

/// A meter mark. `value` and `sample_rate` are floating-point literals.
#[derive(Debug, PartialEq)]
pub struct Meter {
    pub value: String,
    pub sample_rate: Option<String>,
}

/// A distribution sample. `value` and `sample_rate` are floating-point
/// literals.
#[derive(Debug, PartialEq)]
pub struct Distribution {
    pub value: String,
    pub sample_rate: Option<String>,
}

/// A member of a set of unique values. `value` and `sample_rate` are
/// floating-point literals.
#[derive(Debug, PartialEq)]
pub struct SetMetric {
    pub value: String,
    pub sample_rate: Option<String>,
}

/// A service check. `timestamp` is a floating-point literal.
#[derive(Debug, PartialEq)]
pub struct ServiceCheck {
    pub status: Status,
    pub timestamp: Option<String>,
    pub hostname: Option<String>,
    pub message: Option<String>,
}

/// A [`Metric`] with its texts as character sequences.
pub enum MetricModel {
    Gauge { value: Seq<char>, sample_rate: Option<Seq<char>> },
    Counter { value: Seq<char>, sample_rate: Option<Seq<char>> },
    Timing { value: Seq<char>, sample_rate: Option<Seq<char>> },
    Histogram { value: Seq<char>, sample_rate: Option<Seq<char>> },
    Meter { value: Seq<char>, sample_rate: Option<Seq<char>> },
    Distribution { value: Seq<char>, sample_rate: Option<Seq<char>> },
    SetMetric { value: Seq<char>, sample_rate: Option<Seq<char>> },
    ServiceCheck {
        status: Status,
        timestamp: Option<Seq<char>>,
        hostname: Option<Seq<char>>,
        message: Option<Seq<char>>,
    },
}

/// A [`Message`] with its texts as character sequences and its tags as a map.
pub struct MessageModel {
    pub name: Seq<char>,
    pub tags: Option<Map<Seq<char>, Seq<char>>>,
    pub metric: MetricModel,
}

pub open spec fn text_of(o: Option<String>) -> Option<Seq<char>> {
    match o {
        Some(s) => Some(s@),
        None => None,
    }
}

impl View for Metric {
    type V = MetricModel;

    open spec fn view(&self) -> MetricModel {
        match self {
            Metric::Gauge(m) => MetricModel::Gauge { value: m.value@, sample_rate: text_of(m.sample_rate) },
            Metric::Counter(m) => MetricModel::Counter {
                value: m.value@,
                sample_rate: text_of(m.sample_rate),
            },
            Metric::Timing(m) => MetricModel::Timing { value: m.value@, sample_rate: text_of(m.sample_rate) },
            Metric::Histogram(m) => MetricModel::Histogram {
                value: m.value@,
                sample_rate: text_of(m.sample_rate),
            },
            Metric::Meter(m) => MetricModel::Meter { value: m.value@, sample_rate: text_of(m.sample_rate) },
            Metric::Distribution(m) => MetricModel::Distribution {
                value: m.value@,
                sample_rate: text_of(m.sample_rate),
            },
            Metric::SetMetric(m) => MetricModel::SetMetric { value: m.value@, sample_rate: text_of(m.sample_rate) },
            Metric::ServiceCheck(c) => MetricModel::ServiceCheck {
                status: c.status,
                timestamp: text_of(c.timestamp),
                hostname: text_of(c.hostname),
                message: text_of(c.message),
            },
        }
    }
}

impl View for Message {
    type V = MessageModel;

    open spec fn view(&self) -> MessageModel {
        MessageModel {
            name: self.name@,
            tags: match self.tags {
                Some(t) => Some(t@),
                None => None,
            },
            metric: self.metric@,
        }
    }
}

/// A decoding result with its message as a model.
pub open spec fn result_model(r: Result<Message, ParseError>) -> Result<MessageModel, ParseError> {
    match r {
        Ok(m) => Ok(m@),
        Err(e) => Err(e),
    }
}

/// The line starts with the service-check marker `_sc`.
pub open spec fn is_service_check(s: Seq<char>) -> bool {
    s.len() >= 3 && s[0] == '_' && s[1] == 's' && s[2] == 'c'
}

/// The decoding of a whole line: as a service check if it starts with `_sc`,
/// else as a metric, trailing white space dropped either way.
pub open spec fn decode(input: Seq<char>) -> Result<MessageModel, ParseError> {
    let line = trim_end_of(input);
    if is_service_check(input) {
        service_check_line(line)
    } else {
        metric_line(line)
    }
}

fn starts_with_service_check(s: &str) -> (r: bool)
    ensures
        r == is_service_check(s@),
{
    s.unicode_len() >= 3 && s.get_char(0) == '_' && s.get_char(1) == 's' && s.get_char(2) == 'c'
}

/// Decodes one line: a service check if it starts with `_sc`, else a metric.
/// Trailing white space, such as a line terminator, is ignored.
pub fn parse(input: &str) -> (r: Result<Message, ParseError>)
    ensures
        result_model(r) == decode(input@),
{
    let line = input.to_owned();
    if starts_with_service_check(input) {
        parser::service_check_parser::parse(line)
    } else {
        parser::metric_parser::parse(line)
    }
}

} // verus!
