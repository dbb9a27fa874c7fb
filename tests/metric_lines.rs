use statsd_parser::parser::metric_parser::parse;
use statsd_parser::{Message, Metric, ParseError, Tags, Timing};

fn timing_numbers(result: &Result<Message, ParseError>) -> (f64, Option<f64>) {
    match &result.as_ref().unwrap().metric {
        Metric::Timing(t) => (
            t.value.parse().unwrap(),
            t.sample_rate.as_ref().map(|r| r.parse().unwrap()),
        ),
        other => panic!("not a timing: {:?}", other),
    }
}

#[test]
fn parser_test_parse_with_tags() {
    let result =
        parse("service.duration:101|ms|@0.9|#hostname:frontend1,namespace:web".to_string());

    let mut tags = Tags::new();
    tags.insert("hostname".to_string(), "frontend1".to_string());
    tags.insert("namespace".to_string(), "web".to_string());

    let expected = Message {
        name: "service.duration".to_string(),
        tags: Some(tags),
        metric: Metric::Timing(Timing {
            value: "101".to_string(),
            sample_rate: Some("0.9".to_string()),
        }),
    };

    assert_eq!(timing_numbers(&result), (101.0, Some(0.9)));
    assert_eq!(result, Ok(expected));
}

#[test]
fn parser_test_parse_without_tags() {
    let result = parse("service.duration:101|ms|@0.9|".to_string());

    let expected = Message {
        name: "service.duration".to_string(),
        tags: None,
        metric: Metric::Timing(Timing {
            value: "101".to_string(),
            sample_rate: Some("0.9".to_string()),
        }),
    };

    assert_eq!(timing_numbers(&result), (101.0, Some(0.9)));
    assert_eq!(result, Ok(expected));
}

#[test]
fn parser_test_parse_invalid() {
    let result = parse("service.duration:101|aaa|@0.9|".to_string());
    assert!(result.is_err());
}

#[test]
fn metric_parser_test_parse_with_tags() {
    let result =
        parse("service.duration:101|ms|@0.9|#hostname:frontend1,namespace:web".to_string());

    let mut tags = Tags::new();
    tags.insert("hostname".to_string(), "frontend1".to_string());
    tags.insert("namespace".to_string(), "web".to_string());

    let expected = Message {
        name: "service.duration".to_string(),
        tags: Some(tags),
        metric: Metric::Timing(Timing {
            value: "101".to_string(),
            sample_rate: Some("0.9".to_string()),
        }),
    };

    assert_eq!(timing_numbers(&result), (101.0, Some(0.9)));
    assert_eq!(result, Ok(expected));
}

#[test]
fn metric_parser_test_parse_without_tags() {
    let result = parse("service.duration:101|ms|@0.9|".to_string());

    let expected = Message {
        name: "service.duration".to_string(),
        tags: None,
        metric: Metric::Timing(Timing {
            value: "101".to_string(),
            sample_rate: Some("0.9".to_string()),
        }),
    };

    assert_eq!(timing_numbers(&result), (101.0, Some(0.9)));
    assert_eq!(result, Ok(expected));
}

#[test]
fn metric_parser_test_parse_invalid() {
    let result = parse("service.duration:101|aaa|@0.9|".to_string());
    assert!(result.is_err());
}
