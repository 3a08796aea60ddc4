use mbta_to_compacted_kafka::sequencer::{
    consistency_value, push_decimal, wire_bytes, Sequencer, Stage, PARTITION,
};

fn ok() -> Result<(), String> {
    Ok(())
}

#[test]
fn consistency_record_format() {
    assert_eq!(consistency_value("mbta", 5), "mbta,1,0,5,6");
}

#[test]
fn consistency_value_crosses_a_power_of_ten() {
    assert_eq!(consistency_value("t", 0), "t,1,0,0,1");
    assert_eq!(consistency_value("t", 9), "t,1,0,9,10");
    assert_eq!(consistency_value("feed", 1999), "feed,1,0,1999,2000");
}

#[test]
fn decimal_of_large_values() {
    let mut s = String::from("n=");
    push_decimal(&mut s, u64::MAX);
    assert_eq!(s, "n=18446744073709551615");
}

#[test]
fn clock_counts_events_without_gaps() {
    let mut seq = Sequencer::new("mbta".to_string(), "mbta-data-consistency".to_string());
    for ts in 0..4u64 {
        assert_eq!(seq.clock(), ts);
        let data = seq.begin_event(format!("e{}", ts), None);
        assert_eq!(data.topic, "mbta");
        assert_eq!(data.key, Some(format!("e{}", ts)));
        let cons = seq.data_sent(ok()).unwrap();
        assert_eq!(cons.value, Some(format!("mbta,1,0,{},{}", ts, ts + 1)));
        assert!(seq.consistency_sent(ok()).is_ok());
    }
    assert_eq!(seq.clock(), 4);
    assert!(matches!(seq.stage(), Stage::Idle));
}

#[test]
fn data_is_acknowledged_before_consistency_is_issued() {
    let mut seq = Sequencer::new("d".to_string(), "c".to_string());
    let data = seq.begin_event("k".to_string(), Some("{\"a\":1}".to_string()));
    assert_eq!(data.topic, "d");
    assert_eq!(data.partition, PARTITION);
    assert_eq!(data.value, Some("{\"a\":1}".to_string()));
    assert!(matches!(seq.stage(), Stage::AwaitingData));
    let cons = seq.data_sent(ok()).unwrap();
    assert!(matches!(seq.stage(), Stage::AwaitingConsistency));
    assert_eq!(cons.topic, "c");
    assert_eq!(cons.partition, 0);
    assert_eq!(cons.key, None);
    assert_eq!(cons.value, Some("d,1,0,0,1".to_string()));
}

#[test]
fn failed_data_send_issues_no_consistency_record() {
    let mut seq = Sequencer::new("d".to_string(), "c".to_string());
    seq.begin_event("k".to_string(), None);
    let err = seq.data_sent(Err("timed out".to_string())).unwrap_err();
    assert_eq!(err.message, "timed out");
    assert_eq!(seq.clock(), 0);
    assert!(matches!(seq.stage(), Stage::Failed));
}

#[test]
fn failed_consistency_send_keeps_clock() {
    let mut seq = Sequencer::new("d".to_string(), "c".to_string());
    for _ in 0..2 {
        seq.begin_event("k".to_string(), None);
        seq.data_sent(ok()).unwrap();
        seq.consistency_sent(ok()).unwrap();
    }
    seq.begin_event("k".to_string(), None);
    let cons = seq.data_sent(ok()).unwrap();
    assert_eq!(cons.value, Some("d,1,0,2,3".to_string()));
    let err = seq.consistency_sent(Err("broker down".to_string())).unwrap_err();
    assert_eq!(err.message, "broker down");
    assert_eq!(seq.clock(), 2);
    assert!(matches!(seq.stage(), Stage::Failed));
}

#[test]
fn absent_fields_are_sent_as_empty_bytes() {
    assert_eq!(wire_bytes(None), Vec::<u8>::new());
    assert_eq!(wire_bytes(Some("")), Vec::<u8>::new());
    assert_eq!(wire_bytes(Some("ab")), vec![b'a', b'b']);
}
