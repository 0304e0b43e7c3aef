use nix_weather::probe::{
    classify, next_backoff, probe_step, run_probe_script, ProbeEvent, ProbeOutcome, ProbeStep,
    INITIAL_BACKOFF_MS, MAX_BACKOFF_MS,
};

#[test]
fn classify_200_is_hit() {
    assert_eq!(classify(&ProbeEvent::Status(200)), Some(ProbeOutcome::Hit));
}

#[test]
fn classify_404_is_miss() {
    assert_eq!(classify(&ProbeEvent::Status(404)), Some(ProbeOutcome::Miss));
}

#[test]
fn classify_other_statuses_are_transient() {
    assert_eq!(classify(&ProbeEvent::Status(503)), None);
    assert_eq!(classify(&ProbeEvent::Status(429)), None);
    assert_eq!(classify(&ProbeEvent::Status(500)), None);
    assert_eq!(classify(&ProbeEvent::Status(301)), None);
    assert_eq!(classify(&ProbeEvent::TransportError), None);
}

#[test]
fn backoff_doubles_until_the_ceiling() {
    assert_eq!(next_backoff(100), 200);
    assert_eq!(next_backoff(200), 400);
    assert_eq!(next_backoff(400), 800);
    assert_eq!(next_backoff(800), 1000);
    assert_eq!(next_backoff(1000), 1000);
    assert_eq!(next_backoff(0), 0);
}

#[test]
fn probe_step_terminal_and_retry() {
    assert_eq!(
        probe_step(&ProbeEvent::Status(200), 100),
        ProbeStep::Done(ProbeOutcome::Hit)
    );
    assert_eq!(
        probe_step(&ProbeEvent::Status(404), 100),
        ProbeStep::Done(ProbeOutcome::Miss)
    );
    assert_eq!(
        probe_step(&ProbeEvent::Status(503), 100),
        ProbeStep::RetryAfter {
            wait_ms: 100,
            next_backoff_ms: 200
        }
    );
    assert_eq!(
        probe_step(&ProbeEvent::TransportError, 1000),
        ProbeStep::RetryAfter {
            wait_ms: 1000,
            next_backoff_ms: 1000
        }
    );
}

#[test]
fn hit_on_first_attempt_has_zero_retries() {
    let events = vec![ProbeEvent::Status(200)];
    let sim = run_probe_script(&events, INITIAL_BACKOFF_MS).unwrap();
    assert_eq!(sim.outcome, ProbeOutcome::Hit);
    assert_eq!(sim.retries, 0);
    assert!(sim.waits.is_empty());
}

#[test]
fn miss_on_first_attempt_has_zero_retries() {
    let events = vec![ProbeEvent::Status(404)];
    let sim = run_probe_script(&events, INITIAL_BACKOFF_MS).unwrap();
    assert_eq!(sim.outcome, ProbeOutcome::Miss);
    assert_eq!(sim.retries, 0);
    assert!(sim.waits.is_empty());
}

#[test]
fn n_transient_responses_mean_n_retries_with_doubling_waits() {
    let events = vec![
        ProbeEvent::Status(503),
        ProbeEvent::TransportError,
        ProbeEvent::Status(503),
        ProbeEvent::Status(200),
    ];
    let sim = run_probe_script(&events, INITIAL_BACKOFF_MS).unwrap();
    assert_eq!(sim.outcome, ProbeOutcome::Hit);
    assert_eq!(sim.retries, 3);
    // The k-th wait is min(initial * 2^(k-1), MAX_BACKOFF_MS).
    assert_eq!(sim.waits, vec![100, 200, 400]);
}

#[test]
fn waits_are_capped_at_the_ceiling() {
    let mut events = vec![ProbeEvent::Status(503); 6];
    events.push(ProbeEvent::Status(404));
    let sim = run_probe_script(&events, INITIAL_BACKOFF_MS).unwrap();
    assert_eq!(sim.outcome, ProbeOutcome::Miss);
    assert_eq!(sim.retries, 6);
    assert_eq!(sim.waits, vec![100, 200, 400, 800, 1000, 1000]);
    assert!(sim.waits.iter().all(|w| *w <= MAX_BACKOFF_MS));
}

#[test]
fn a_script_without_a_terminal_response_reports_nothing() {
    let events = vec![
        ProbeEvent::Status(503),
        ProbeEvent::Status(429),
        ProbeEvent::TransportError,
    ];
    assert!(run_probe_script(&events, INITIAL_BACKOFF_MS).is_none());
    assert!(run_probe_script(&Vec::new(), INITIAL_BACKOFF_MS).is_none());
}
