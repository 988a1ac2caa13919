use integrity_verification::performance::{load_test_method, CallOutcome, Commands, ResponseTimes, Stats, WorkerState, WorkerStep};

#[test]
fn stats_count_calls() {
    let mut s = Stats::new();
    assert_eq!(s.response_times(), None);
    s.record_call(30, CallOutcome::Success);
    s.record_call(10, CallOutcome::StatusCode(503));
    s.record_call(20, CallOutcome::StatusCode(503));
    s.record_call(60, CallOutcome::OtherError);
    assert_eq!(s.successful_requests(), 1);
    assert_eq!(s.failed_requests(), 3);
    assert_eq!(s.error_codes().get(&503), Some(&2));
    assert_eq!(s.error_codes().len(), 1);
    assert_eq!(s.response_times(), Some(ResponseTimes { average: 30, max: 60, min: 10 }));
}

#[test]
fn stats_increments() {
    let mut s = Stats::new();
    s.inc_successful_requests();
    s.inc_failed_requests();
    s.inc_error_code(404);
    s.add_response_time(7);
    assert_eq!(s.successful_requests(), 1);
    assert_eq!(s.failed_requests(), 1);
    assert_eq!(s.error_codes().get(&404), Some(&1));
    assert_eq!(s.response_times(), Some(ResponseTimes { average: 7, max: 7, min: 7 }));
}

#[test]
fn worker_follows_commands() {
    let mut w = WorkerState::new(2);
    assert!(!w.is_active());
    assert_eq!(w.on_command(&Commands::Init), WorkerStep::Continue);
    assert_eq!(w.on_command(&Commands::Start(vec![0, 1])), WorkerStep::Continue);
    assert!(!w.is_active());
    assert_eq!(w.on_command(&Commands::Start(vec![2])), WorkerStep::Continue);
    assert!(w.is_active());
    assert_eq!(w.on_command(&Commands::Stop(vec![1])), WorkerStep::Continue);
    assert_eq!(w.on_command(&Commands::Stop(vec![1, 2])), WorkerStep::Exit);
}

#[test]
fn worker_gives_up_on_a_broken_channel() {
    let mut w = WorkerState::new(0);
    for _ in 0..5 {
        assert_eq!(w.on_channel_error(), WorkerStep::Continue);
    }
    assert_eq!(w.on_channel_error(), WorkerStep::Exit);
}

#[test]
fn load_test_methods() {
    assert_eq!(load_test_method("getAsset"), Some("getAsset"));
    assert_eq!(load_test_method("getSignaturesForAsset"), Some("getSignaturesForAsset"));
    assert_eq!(load_test_method("getTokenAccountsByOwnerAndMint"), Some("getTokenAccounts"));
    assert_eq!(load_test_method("getTokenAccountsByMint"), Some("getTokenAccounts"));
    assert_eq!(load_test_method("unknown"), None);
}
