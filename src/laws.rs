//! Properties of decoding that relate several calls or hold of all lines.
use vstd::prelude::*;

use crate::float_literal::{is_float_literal, is_separator, lemma_float_literal_plain};
use crate::parser::metric_parser::metric_of;
use crate::parser::ParseError;
use crate::text::{after, field, is_stop_index, is_white_space, lemma_stop_index_unique, trim_end_of};
use crate::{decode, is_service_check, result_model, Message, MessageModel, MetricModel};

verus! {

/// What every decoded message satisfies: its name is not empty, and each
/// number it holds is a floating-point literal.
pub open spec fn is_valid_model(m: MessageModel) -> bool {
    &&& m.name.len() > 0
    &&& match m.metric {
        MetricModel::Gauge { value, sample_rate }
        | MetricModel::Counter { value, sample_rate }
        | MetricModel::Timing { value, sample_rate }
        | MetricModel::Histogram { value, sample_rate }
        | MetricModel::Meter { value, sample_rate }
        | MetricModel::Distribution { value, sample_rate }
        | MetricModel::SetMetric { value, sample_rate } => {
            &&& is_float_literal(value)
            &&& sample_rate matches Some(rate) ==> is_float_literal(rate)
        },
        MetricModel::ServiceCheck { timestamp, .. } => timestamp matches Some(t) ==> is_float_literal(t),
    }
}

/// Every message that a line decodes to has a non-empty name, and numbers
/// that are floating-point literals.
pub proof fn lemma_decoded_is_valid(input: Seq<char>)
    ensures
        decode(input) matches Ok(m) ==> is_valid_model(m),
{
}

/// Decoding is a function of the line alone: two decodings of the same line
/// give the same result.
pub proof fn lemma_decoding_deterministic(
    input: Seq<char>,
    first: Result<Message, ParseError>,
    second: Result<Message, ParseError>,
)
    requires
        result_model(first) == decode(input),
        result_model(second) == decode(input),
    ensures
        result_model(first) == result_model(second),
{
}

/// A trailing white-space character, such as a line terminator, does not
/// change how a line decodes.
pub proof fn lemma_trailing_white_space(input: Seq<char>, c: char)
    requires
        is_white_space(c),
    ensures
        decode(input.push(c)) == decode(input),
{
    let longer = input.push(c);
    assert(longer.drop_last() =~= input);
    assert(trim_end_of(longer) == trim_end_of(input));
    if input.len() >= 3 {
        assert(longer[0] == input[0] && longer[1] == input[1] && longer[2] == input[2]);
    } else if longer.len() == 3 {
        assert(longer[2] == c);
    }
    assert(is_service_check(longer) == is_service_check(input));
}

/// A counter line `name:value|c` decodes to a counter of `value` with neither
/// sample rate nor tags, for every name that holds no `:` and does not start
/// with the service-check marker, and every floating-point literal `value`.
pub proof fn lemma_counter_line(name: Seq<char>, value: Seq<char>)
    requires
        name.len() > 0,
        !name.contains(':'),
        !is_service_check(name),
        is_float_literal(value),
    ensures
        decode(name + seq![':'] + value + seq!['|', 'c']) == Ok::<MessageModel, ParseError>(
            MessageModel {
                name,
                tags: None,
                metric: MetricModel::Counter { value, sample_rate: None },
            },
        ),
{
    let tail = value + seq!['|', 'c'];
    let line = name + seq![':'] + tail;
    assert(name + seq![':'] + value + seq!['|', 'c'] =~= line);
    let n = name.len() as int;
    assert(trim_end_of(line) == line) by {
        assert(line.last() == 'c');
    }
    assert(!is_service_check(line)) by {
        if n >= 3 {
            assert(line[0] == name[0] && line[1] == name[1] && line[2] == name[2]);
        } else {
            assert(line[n] == ':');
        }
    }
    assert(is_stop_index(line, seq![':'], n)) by {
        assert forall|k: int| 0 <= k < n implies !seq![':'].contains(#[trigger] line[k]) by {
            assert(line[k] == name[k]);
            if seq![':'].contains(line[k]) {
                assert(seq![':'][0] == ':');
                assert(name[k] == ':');
            }
        }
        assert(line[n] == ':');
        assert(seq![':'].contains(line[n])) by {
            assert(seq![':'][0] == ':');
        }
    }
    lemma_stop_index_unique(line, seq![':'], n);
    assert(field(line, seq![':']) =~= name);
    assert(after(line, seq![':']) =~= tail);
    let v = value.len() as int;
    lemma_float_literal_plain(value);
    assert(is_stop_index(tail, seq!['|'], v)) by {
        assert forall|k: int| 0 <= k < v implies !seq!['|'].contains(#[trigger] tail[k]) by {
            assert(tail[k] == value[k]);
            assert(!is_separator(value[k]));
            if seq!['|'].contains(tail[k]) {
                assert(seq!['|'][0] == '|');
            }
        }
        assert(tail[v] == '|');
        assert(seq!['|'].contains(tail[v])) by {
            assert(seq!['|'][0] == '|');
        }
    }
    lemma_stop_index_unique(tail, seq!['|'], v);
    assert(field(tail, seq!['|']) =~= value);
    assert(after(tail, seq!['|']) =~= seq!['c']);
    assert(is_stop_index(seq!['c'], seq!['|'], 1)) by {
        assert(!seq!['|'].contains('c'));
    }
    lemma_stop_index_unique(seq!['c'], seq!['|'], 1);
    assert(field(seq!['c'], seq!['|']) =~= seq!['c']);
    assert(after(seq!['c'], seq!['|']) =~= Seq::<char>::empty());
    assert(metric_of(seq!['c'], value, None) == Some(MetricModel::Counter { value, sample_rate: None }));
}

} // verus!
