use mbta_to_compacted_kafka::config::{consistency_topic_name, Config};
use mbta_to_compacted_kafka::events::{digits_within_limit, parse_line, strip_data_prefix};

#[test]
fn line_without_data_prefix_has_no_events() {
    assert!(parse_line("event: update").is_empty());
    assert!(parse_line("{\"id\":\"a\"}").is_empty());
    assert!(parse_line("").is_empty());
    assert!(parse_line("data:{\"id\":\"a\"}").is_empty());
}

#[test]
fn array_of_two_objects_gives_two_events_in_order() {
    let events = parse_line("data: [{\"id\":\"first\",\"type\":\"vehicle\",\"x\":1},{\"id\":\"second\",\"y\":\"z\"}]");
    assert_eq!(events.len(), 2);
    assert_eq!(events[0], ("first".to_string(), Some("{\"x\":1}".to_string())));
    assert_eq!(events[1], ("second".to_string(), Some("{\"y\":\"z\"}".to_string())));
}

#[test]
fn object_with_only_type_and_id_has_no_value() {
    let events = parse_line("data: {\"type\":\"vehicle\",\"id\":\"v1\"}");
    assert_eq!(events, vec![("v1".to_string(), None)]);
}

#[test]
fn residual_fields_keep_order_and_nesting() {
    let events = parse_line("data: {\"attributes\":{\"lat\":42,\"lon\":-71},\"id\":\"y1\",\"relationships\":[1,2]}");
    assert_eq!(
        events,
        vec![("y1".to_string(), Some("{\"attributes\":{\"lat\":42,\"lon\":-71},\"relationships\":[1,2]}".to_string()))]
    );
}

#[test]
fn residual_field_names_are_escaped() {
    let events = parse_line("data: {\"id\":\"k\",\"we\\\"ird\":true}");
    assert_eq!(events, vec![("k".to_string(), Some("{\"we\\\"ird\":true}".to_string()))]);
}

#[test]
fn malformed_payloads_have_no_events() {
    assert!(parse_line("data: {not json").is_empty());
    assert!(parse_line("data: {\"id\":5}").is_empty());
    assert!(parse_line("data: {\"type\":\"x\"}").is_empty());
    assert!(parse_line("data: [{\"id\":\"a\"},3]").is_empty());
    assert!(parse_line("data: 7").is_empty());
}

#[test]
fn empty_array_has_no_events() {
    assert!(parse_line("data: []").is_empty());
}

#[test]
fn prefix_is_stripped() {
    assert_eq!(strip_data_prefix("data: [1]"), Some("[1]"));
    assert_eq!(strip_data_prefix("data: "), Some(""));
    assert_eq!(strip_data_prefix("data"), None);
}

#[test]
fn broker_address_defaults_to_localhost() {
    assert_eq!(Config { kafka_addr: None }.bootstrap_servers(), "localhost:9092");
    assert_eq!(Config { kafka_addr: Some("kafka:9093".to_string()) }.bootstrap_servers(), "kafka:9093");
}

#[test]
fn consistency_topic_defaults_from_data_topic() {
    assert_eq!(consistency_topic_name("mbta", None), "mbta-data-consistency");
    assert_eq!(consistency_topic_name("mbta", Some("c".to_string())), "c");
}

#[test]
fn overlong_digit_run_is_malformed() {
    let mut line = String::from("data: {\"id\":\"a\",\"x\":0.");
    line.push_str(&"0".repeat(32768));
    line.push_str("1}");
    assert!(parse_line(&line).is_empty());
    assert!(!digits_within_limit(&line));
}

#[test]
fn digit_run_at_the_limit_is_parsed() {
    let mut line = String::from("data: {\"id\":\"a\",\"x\":0.");
    line.push_str(&"0".repeat(32766));
    line.push_str("1}");
    assert!(digits_within_limit(&line));
    let events = parse_line(&line);
    assert_eq!(events.len(), 1);
    assert_eq!(events[0].0, "a");
}

#[test]
fn control_characters_in_names_are_escaped() {
    let events = parse_line("data: {\"id\":\"k\",\"a\\nb\\u0001\\t\":null}");
    assert_eq!(events, vec![("k".to_string(), Some("{\"a\\nb\\u0001\\t\":null}".to_string()))]);
}

#[test]
fn single_non_object_value_is_malformed() {
    assert!(parse_line("data: \"text\"").is_empty());
    assert!(parse_line("data: null").is_empty());
}
