use statsd_parser::parser::service_check_parser::parse;
use statsd_parser::{Message, Metric, ServiceCheck, Status, Tags};

#[test]
fn service_check_parser_test_parse_with_tags() {
    let result = parse("_sc|Redis connection|2|d:10101|h:frontend1|#redis_instance:10.0.0.16:6379|m:Redis connection timed out after 10s".to_string());

    let mut tags = Tags::new();
    tags.insert("redis_instance".to_string(), "10.0.0.16:6379".to_string());

    let expected = Message {
        name: "Redis connection".to_string(),
        tags: Some(tags),
        metric: Metric::ServiceCheck(ServiceCheck {
            status: Status::CRITICAL,
            timestamp: Some("10101".to_string()),
            hostname: Some("frontend1".to_string()),
            message: Some("Redis connection timed out after 10s".to_string()),
        }),
    };

    assert_eq!(result, Ok(expected));
    if let Ok(Message { metric: Metric::ServiceCheck(check), .. }) = &result {
        assert_eq!(check.timestamp.as_ref().unwrap().parse::<f64>(), Ok(10101f64));
    }
}

#[test]
fn service_check_parser_test_parse_without_tags() {
    let result = parse("_sc|Redis connection|0|d:10101|h:frontend1|m:Redis connection timed out after 10s".to_string());

    let expected = Message {
        name: "Redis connection".to_string(),
        tags: None,
        metric: Metric::ServiceCheck(ServiceCheck {
            status: Status::OK,
            timestamp: Some("10101".to_string()),
            hostname: Some("frontend1".to_string()),
            message: Some("Redis connection timed out after 10s".to_string()),
        }),
    };

    assert_eq!(result, Ok(expected));
    if let Ok(Message { metric: Metric::ServiceCheck(check), .. }) = &result {
        assert_eq!(check.timestamp.as_ref().unwrap().parse::<f64>(), Ok(10101f64));
    }
}

#[test]
fn test_parse_without_duration() {
    let result = parse("_sc|Redis connection|1|h:frontend1|m:Redis connection timed out after 10s".to_string());

    let expected = Message {
        name: "Redis connection".to_string(),
        tags: None,
        metric: Metric::ServiceCheck(ServiceCheck {
            status: Status::WARNING,
            timestamp: None,
            hostname: Some("frontend1".to_string()),
            message: Some("Redis connection timed out after 10s".to_string()),
        }),
    };

    assert_eq!(result, Ok(expected));
}

#[test]
fn test_parse_minimum_required() {
    let result = parse("_sc|Redis connection".to_string());

    let expected = Message {
        name: "Redis connection".to_string(),
        tags: None,
        metric: Metric::ServiceCheck(ServiceCheck {
            status: Status::UNKNOWN,
            timestamp: None,
            hostname: None,
            message: None,
        }),
    };

    assert_eq!(result, Ok(expected));
}

#[test]
fn service_check_parser_test_parse_invalid() {
    let result = parse("Redis connection".to_string());
    println!("{:?}", result);
    assert!(result.is_err());
}
