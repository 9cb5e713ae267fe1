use spyro_node::resilience::{Action, BackoffPolicy, Phase, Reconnector, StreamEvent};

#[test]
fn standard_policy_bounds() {
    let p = BackoffPolicy::standard();
    assert_eq!((p.floor_ms, p.ceiling_ms), (1000, 30000));
}

#[test]
fn backoff_doubles_up_to_ceiling() {
    let mut r = Reconnector::new(BackoffPolicy::standard());
    assert_eq!(r.phase(), Phase::Connecting);
    assert_eq!(r.backoff_ms(), 1000);
    let mut sleeps = Vec::new();
    let mut after = Vec::new();
    for _ in 0..7 {
        match r.step(StreamEvent::OpenFailed) {
            Action::Sleep(ms) => sleeps.push(ms),
            other => panic!("unexpected {:?}", other),
        }
        after.push(r.backoff_ms());
        assert_eq!(r.step(StreamEvent::Woke), Action::Open);
    }
    assert_eq!(sleeps, vec![1000, 2000, 4000, 8000, 16000, 30000, 30000]);
    assert_eq!(after, vec![2000, 4000, 8000, 16000, 30000, 30000, 30000]);
}

#[test]
fn delivered_event_resets_backoff() {
    let mut r = Reconnector::new(BackoffPolicy { floor_ms: 100, ceiling_ms: 1000 });
    r.step(StreamEvent::OpenFailed);
    r.step(StreamEvent::Woke);
    assert_eq!(r.step(StreamEvent::Opened), Action::Poll);
    assert_eq!(r.step(StreamEvent::Disconnected), Action::Sleep(200));
    assert_eq!(r.backoff_ms(), 400);
    r.step(StreamEvent::Woke);
    r.step(StreamEvent::Opened);
    assert_eq!(r.step(StreamEvent::Delivered), Action::Forward);
    assert_eq!(r.phase(), Phase::Streaming);
    assert_eq!(r.backoff_ms(), 100);
    assert_eq!(r.step(StreamEvent::Disconnected), Action::Sleep(100));
    assert_eq!(r.phase(), Phase::Backoff);
}

#[test]
fn odd_ceiling_is_reached_exactly() {
    let mut r = Reconnector::new(BackoffPolicy { floor_ms: 3, ceiling_ms: 10 });
    r.step(StreamEvent::Disconnected);
    assert_eq!(r.backoff_ms(), 6);
    r.step(StreamEvent::Disconnected);
    assert_eq!(r.backoff_ms(), 10);
}

#[test]
fn largest_ceiling_does_not_overflow() {
    let mut r = Reconnector::new(BackoffPolicy { floor_ms: u64::MAX / 2 + 1, ceiling_ms: u64::MAX });
    assert_eq!(r.step(StreamEvent::OpenFailed), Action::Sleep(u64::MAX / 2 + 1));
    assert_eq!(r.backoff_ms(), u64::MAX);
    assert_eq!(r.step(StreamEvent::OpenFailed), Action::Sleep(u64::MAX));
    assert_eq!(r.backoff_ms(), u64::MAX);
}

#[test]
fn always_failing_source_is_retried_forever() {
    let mut r = Reconnector::new(BackoffPolicy::standard());
    let mut attempts: u64 = 0;
    for _ in 0..10_000 {
        match r.step(StreamEvent::OpenFailed) {
            Action::Sleep(ms) => assert!((1000..=30000).contains(&ms)),
            other => panic!("unexpected {:?}", other),
        }
        assert_eq!(r.step(StreamEvent::Woke), Action::Open);
        attempts += 1;
    }
    assert_eq!(attempts, 10_000);
    assert_eq!(r.phase(), Phase::Connecting);
}

#[test]
fn start_opens_first() {
    let (r, a) = Reconnector::start(BackoffPolicy::standard());
    assert_eq!(a, Action::Open);
    assert_eq!(r.phase(), Phase::Connecting);
    assert_eq!(r.backoff_ms(), 1000);
}

#[test]
fn failing_source_attempt_times() {
    let (mut r, mut a) = Reconnector::start(BackoffPolicy::standard());
    let mut now: u64 = 0;
    let mut attempts = Vec::new();
    while now <= 121_000 {
        match a {
            Action::Open => {
                attempts.push(now);
                a = r.step(StreamEvent::OpenFailed);
            }
            Action::Sleep(ms) => {
                assert!(ms <= 30_000);
                now += ms;
                a = r.step(StreamEvent::Woke);
            }
            other => panic!("unexpected {:?}", other),
        }
    }
    assert_eq!(attempts, vec![0, 1000, 3000, 7000, 15000, 31000, 61000, 91000, 121000]);
}
