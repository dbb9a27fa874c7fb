use statsd_parser::float_literal::is_float;
use statsd_parser::parser::Parser;
use statsd_parser::{parse, Counter, Message, Metric, ParseError, ServiceCheck, Status, Tags};

fn counter(name: &str, value: &str) -> Result<Message, ParseError> {
    Ok(Message {
        name: name.to_string(),
        tags: None,
        metric: Metric::Counter(Counter { value: value.to_string(), sample_rate: None }),
    })
}

fn tags_of(pairs: &[(&str, &str)]) -> Tags {
    let mut tags = Tags::new();
    for (k, v) in pairs {
        tags.insert(k.to_string(), v.to_string());
    }
    tags
}

#[test]
fn counter_lines_decode_to_their_value() {
    for (name, value) in [("gorets", "1"), ("a.b-c", "-2.5e3"), ("x", ".5"), ("y", "inf"), ("日本", "7.")] {
        let line = format!("{}:{}|c", name, value);
        assert_eq!(parse(&line), counter(name, value));
        assert!(value.parse::<f64>().is_ok());
    }
}

#[test]
fn each_error_has_an_input() {
    assert_eq!(parse(""), Err(ParseError::EmptyInput));
    assert_eq!(parse("   \n"), Err(ParseError::EmptyInput));
    assert_eq!(parse(":1|c"), Err(ParseError::NoName));
    assert_eq!(parse("gorets:aaa|h"), Err(ParseError::ValueNotFloat));
    assert_eq!(parse("gorets:|h"), Err(ParseError::ValueNotFloat));
    assert_eq!(parse("gorets:1|c|@aaa"), Err(ParseError::SampleRateNotFloat));
    assert_eq!(parse("gorets:1|c|@"), Err(ParseError::SampleRateNotFloat));
    assert_eq!(parse("gorets:1|bogus"), Err(ParseError::UnknownMetricType));
    assert_eq!(parse("gorets:1"), Err(ParseError::UnknownMetricType));
    assert_eq!(parse("_sc|"), Err(ParseError::NoName));
    assert_eq!(parse("_sc|check|0|d:soon"), Err(ParseError::ValueNotFloat));
}

#[test]
fn errors_come_left_to_right() {
    // A bad value is reported before a bad type code.
    assert_eq!(parse("gorets:x|bogus"), Err(ParseError::ValueNotFloat));
    // A bad sample rate is reported before a bad type code.
    assert_eq!(parse("gorets:1|bogus|@x"), Err(ParseError::SampleRateNotFloat));
}

#[test]
fn sample_rate_without_tags() {
    let expected = Message {
        name: "gorets".to_string(),
        tags: None,
        metric: Metric::Counter(Counter {
            value: "1".to_string(),
            sample_rate: Some("0.5".to_string()),
        }),
    };
    assert_eq!(parse("gorets:1|c|@0.5"), Ok(expected));
}

#[test]
fn tag_pairs_hold_each_key_once() {
    let tags = tags_of(&[("a", "1"), ("b", "2"), ("a", "3")]);
    assert_eq!(tags.pairs().len(), 2);
    assert_eq!(tags.get("a"), Some(&"3".to_string()));
}

#[test]
fn tags_compare_as_sets() {
    let result = parse("gorets:1|c|#foo:bar,moo:maa").unwrap();
    let tags = result.tags.unwrap();
    assert_eq!(tags, tags_of(&[("moo", "maa"), ("foo", "bar")]));
    assert_eq!(tags.get("foo"), Some(&"bar".to_string()));
    assert_eq!(tags.get("moo"), Some(&"maa".to_string()));
    assert_eq!(tags.get("zoo"), None);
    assert_ne!(tags, tags_of(&[("foo", "bar")]));
    assert_ne!(tags, tags_of(&[("foo", "bar"), ("moo", "mee")]));
}

#[test]
fn tag_value_keeps_its_colons() {
    let result = parse("x:1|c|#redis:10.0.0.16:6379").unwrap();
    assert_eq!(result.tags.unwrap().get("redis"), Some(&"10.0.0.16:6379".to_string()));
}

#[test]
fn later_tag_replaces_earlier() {
    let result = parse("x:1|c|#a:1,b,a:2").unwrap();
    assert_eq!(result.tags, Some(tags_of(&[("a", "2"), ("b", "")])));
}

#[test]
fn empty_tag_section_is_present_and_empty() {
    let result = parse("x:1|c|#").unwrap();
    assert_eq!(result.tags, Some(Tags::new()));
}

#[test]
fn empty_tag_ends_the_list() {
    let result = parse("x:1|c|#a:1,,b:2").unwrap();
    assert_eq!(result.tags, Some(tags_of(&[("a", "1")])));
}

#[test]
fn non_ascii_name_is_kept() {
    assert_eq!(parse("goretsβ:1|c"), counter("goretsβ", "1"));
    assert_eq!(parse("ünïcødé:2|c"), counter("ünïcødé", "2"));
}

#[test]
fn trailing_white_space_is_ignored() {
    let plain = parse("gorets:1|c");
    assert_eq!(parse("gorets:1|c\n"), plain);
    assert_eq!(parse("gorets:1|c\r\n"), plain);
    assert_eq!(parse("gorets:1|c \t"), plain);
    assert_eq!(parse("_sc|check|1\n"), parse("_sc|check|1"));
}

#[test]
fn full_service_check() {
    let result = parse("_sc|Redis connection|2|d:10101|h:frontend1|#redis_instance:10.0.0.16:6379|m:Redis connection timed out after 10s");
    let expected = Message {
        name: "Redis connection".to_string(),
        tags: Some(tags_of(&[("redis_instance", "10.0.0.16:6379")])),
        metric: Metric::ServiceCheck(ServiceCheck {
            status: Status::CRITICAL,
            timestamp: Some("10101".to_string()),
            hostname: Some("frontend1".to_string()),
            message: Some("Redis connection timed out after 10s".to_string()),
        }),
    };
    assert_eq!(result, Ok(expected));
}

#[test]
fn minimal_service_check() {
    let expected = Message {
        name: "Redis connection".to_string(),
        tags: None,
        metric: Metric::ServiceCheck(ServiceCheck {
            status: Status::UNKNOWN,
            timestamp: None,
            hostname: None,
            message: None,
        }),
    };
    assert_eq!(parse("_sc|Redis connection"), Ok(expected));
}

#[test]
fn unknown_status_codes_are_unknown() {
    for line in ["_sc|c|3", "_sc|c|", "_sc|c|00", "_sc|c|ok"] {
        match parse(line).unwrap().metric {
            Metric::ServiceCheck(check) => assert_eq!(check.status, Status::UNKNOWN),
            other => panic!("not a service check: {:?}", other),
        }
    }
}

#[test]
fn truncated_sections_do_not_fail() {
    let expected = Message {
        name: "c".to_string(),
        tags: None,
        metric: Metric::ServiceCheck(ServiceCheck {
            status: Status::OK,
            timestamp: None,
            hostname: Some("".to_string()),
            message: None,
        }),
    };
    assert_eq!(parse("_sc|c|0|h"), Ok(expected));
    assert_eq!(parse("_sc|c|0|d"), Err(ParseError::ValueNotFloat));
    match parse("_sc|c|0|m").unwrap().metric {
        Metric::ServiceCheck(check) => assert_eq!(check.message, Some("".to_string())),
        other => panic!("not a service check: {:?}", other),
    }
}

#[test]
fn decoding_twice_gives_the_same_result() {
    for line in ["gorets:1|c|@0.1|#a:b", "_sc|x|1|m:hi", "bad", ""] {
        assert_eq!(parse(line), parse(line));
    }
}

#[test]
fn float_literals_match_the_standard_parser() {
    let cases = [
        "1", "1.", ".5", "1.5", "-1", "+1", "1e5", "1E5", "1e+5", "1e-5", "-.5e-3", "inf", "-inf",
        "+Infinity", "INF", "NaN", "nan", "infinity", "iNfInItY", "", ".", "e5", "1e", "1e+",
        "--1", "+", "1.2.3", "1_0", " 1", "1 ", "0x10", "in", "infinit", "nana", "1e5.5", "١",
        "1.e3", ".e3", "12345678901234567890", "1e400",
    ];
    for case in cases {
        let chars: Vec<char> = case.chars().collect();
        assert_eq!(is_float(&chars), case.parse::<f64>().is_ok(), "{:?}", case);
    }
}

#[test]
fn skip_moves_past_the_end() {
    let mut parser = Parser::new("ab".to_string());
    parser.set_pos(2);
    parser.skip();
    assert_eq!(parser.pos(), 3);
    assert_eq!(parser.peek(), None);
    assert_eq!(parser.last(), None);
    assert_eq!(parser.take_until(vec!['|']), "");
    assert_eq!(parser.pos(), 3);

    let mut empty = Parser::new("".to_string());
    empty.skip();
    assert_eq!(empty.pos(), 1);
    assert_eq!(empty.peek(), None);
}

#[test]
fn take_until_stops_at_any_of_several() {
    let mut parser = Parser::new("a,b|c".to_string());
    assert_eq!(parser.take_until(vec![',', '|']), "a");
    assert_eq!(parser.take_until(vec![',', '|']), "b");
    assert_eq!(parser.last(), Some('|'));
    assert_eq!(parser.take_until(vec![',', '|']), "c");
    assert_eq!(parser.take_until(vec![',', '|']), "");
}

#[test]
fn parser_trims_the_end_only() {
    let mut parser = Parser::new("  ab \n".to_string());
    assert_eq!(parser.take_until(vec!['|']), "  ab");
    let mut wide = Parser::new("ab\u{3000}\u{a0}\u{2029}".to_string());
    assert_eq!(wide.take_until(vec!['|']), "ab");
    let mut zero_width = Parser::new("ab\u{200b}".to_string());
    assert_eq!(zero_width.take_until(vec!['|']), "ab\u{200b}");
}

#[test]
fn tags_stop_before_the_next_section() {
    let mut parser = Parser::new("#a:1,b|m:x".to_string());
    assert_eq!(parser.parse_tags(), tags_of(&[("a", "1"), ("b", "")]));
    assert_eq!(parser.peek(), Some('m'));
}

#[test]
fn error_texts() {
    assert_eq!(ParseError::EmptyInput.as_str(), "Empty input");
    assert_eq!(ParseError::IncompleteInput.as_str(), "Incomplete input");
    assert_eq!(ParseError::NoName.as_str(), "No name in input");
    assert_eq!(ParseError::ValueNotFloat.as_str(), "Value is not a float");
    assert_eq!(ParseError::SampleRateNotFloat.as_str(), "Sample rate is not a float");
    assert_eq!(ParseError::UnknownMetricType.as_str(), "Unknown metric type");
}
