use mbta_to_compacted_kafka::backoff::Backoff;
use mbta_to_compacted_kafka::provision::{
    check_metadata, creation_status, CreateOutcome, MetadataMismatch, PollStep, ProvisionError,
    Provisioner, TopicInfo,
};

fn topic(name: &str, partitions: usize) -> TopicInfo {
    TopicInfo { name: name.to_string(), partitions }
}

#[test]
fn creation_accepts_created_and_already_exists() {
    assert!(creation_status(vec![CreateOutcome::Created]).is_ok());
    assert!(creation_status(vec![CreateOutcome::AlreadyExists]).is_ok());
}

#[test]
fn repeated_provisioning_succeeds_twice() {
    let first = creation_status(vec![CreateOutcome::Created]);
    let second = creation_status(vec![CreateOutcome::AlreadyExists]);
    assert!(first.is_ok() && second.is_ok());
    let listing = vec![topic("other", 3), topic("mbta", 1)];
    assert!(check_metadata(&listing, "mbta", 1).is_ok());
    assert!(check_metadata(&listing, "mbta", 1).is_ok());
}

#[test]
fn creation_reports_other_failures() {
    match creation_status(vec![CreateOutcome::Failed("invalid config".to_string())]) {
        Err(ProvisionError::Creation(m)) => assert_eq!(m, "invalid config"),
        other => panic!("unexpected {:?}", other),
    }
    assert!(matches!(creation_status(vec![]), Err(ProvisionError::UnexpectedResultCount(0))));
    assert!(matches!(
        creation_status(vec![CreateOutcome::Created, CreateOutcome::Created]),
        Err(ProvisionError::UnexpectedResultCount(2))
    ));
}

#[test]
fn metadata_mismatches() {
    assert!(matches!(check_metadata(&vec![], "t", 1), Err(MetadataMismatch::NoTopics)));
    let listing = vec![topic("a", 1), topic("t", 0), topic("u", 4)];
    assert!(matches!(check_metadata(&listing, "missing", 1), Err(MetadataMismatch::TopicMissing)));
    assert!(matches!(check_metadata(&listing, "t", 1), Err(MetadataMismatch::NoPartitions)));
    assert!(matches!(check_metadata(&listing, "u", 1), Err(MetadataMismatch::WrongPartitionCount(4))));
    assert!(check_metadata(&listing, "u", 4).is_ok());
    assert!(check_metadata(&listing, "a", 1).is_ok());
}

#[test]
fn convergence_times_out_after_seven_polls() {
    let mut p = Provisioner::new("mbta".to_string(), 1);
    let mut delays = Vec::new();
    loop {
        match p.next_step() {
            PollStep::WaitThenFetch(ms) => {
                delays.push(ms);
                p.record_poll(Ok(vec![topic("mbta", 3)]));
            }
            PollStep::Converged => panic!("cannot converge"),
            PollStep::TimedOut => break,
        }
    }
    assert_eq!(delays, vec![100, 200, 400, 800, 1600, 3200, 6400]);
    assert_eq!(delays.iter().sum::<u64>(), 12700);
    assert!(matches!(p.timeout_error(), ProvisionError::ConvergenceTimeout(Some(3))));
}

#[test]
fn fetch_failures_are_retried() {
    let mut p = Provisioner::new("t".to_string(), 2);
    assert!(matches!(p.next_step(), PollStep::WaitThenFetch(100)));
    p.record_poll(Err("broker unreachable".to_string()));
    assert!(matches!(p.next_step(), PollStep::WaitThenFetch(200)));
    p.record_poll(Ok(vec![topic("t", 1)]));
    assert!(matches!(p.next_step(), PollStep::WaitThenFetch(400)));
    p.record_poll(Ok(vec![topic("t", 2)]));
    assert!(matches!(p.next_step(), PollStep::Converged));
}

#[test]
fn timeout_without_sighting_reports_no_count() {
    let mut p = Provisioner::new("t".to_string(), 1);
    for _ in 0..7 {
        assert!(matches!(p.next_step(), PollStep::WaitThenFetch(_)));
        p.record_poll(Ok(vec![topic("other", 1)]));
    }
    assert!(matches!(p.next_step(), PollStep::TimedOut));
    assert!(matches!(p.timeout_error(), ProvisionError::ConvergenceTimeout(None)));
}

#[test]
fn backoff_schedule_is_geometric() {
    let mut b = Backoff::new(3, 10, 3);
    let mut seen = Vec::new();
    while let Some(d) = b.next_delay() {
        seen.push(d);
        b.record_attempt();
    }
    assert_eq!(seen, vec![10, 30, 90]);
    assert_eq!(b.attempts(), 3);
    assert_eq!(b.waited_ms(), 130);
}
