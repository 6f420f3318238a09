use anonpaste::limiter::{client_key, AdmissionController};

#[test]
fn burst_then_throttle_then_refill() {
    // Burst 2, rate 4 tokens per second: two immediate requests from one
    // client succeed, a third immediate one is throttled, and after waiting
    // 250 ms (one token at 4/s) a further request succeeds.
    let mut limiter = AdmissionController::new(4, 2);
    let client = "127.0.0.1".to_string();

    assert!(limiter.try_admit(&client, 1_000));
    assert!(limiter.try_admit(&client, 1_000));
    assert!(!limiter.try_admit(&client, 1_000));
    assert!(limiter.try_admit(&client, 1_250));
}

#[test]
fn clients_have_separate_buckets() {
    let mut limiter = AdmissionController::new(4, 1);
    let a = "10.0.0.1".to_string();
    let b = "10.0.0.2".to_string();

    assert!(limiter.try_admit(&a, 0));
    assert!(!limiter.try_admit(&a, 0));
    assert!(limiter.try_admit(&b, 0));
    assert!(!limiter.try_admit(&b, 0));
}

#[test]
fn refill_is_capped_at_the_burst() {
    let mut limiter = AdmissionController::new(4, 2);
    let client = "10.0.0.9".to_string();

    assert!(limiter.try_admit(&client, 0));
    assert!(limiter.try_admit(&client, 0));
    assert!(!limiter.try_admit(&client, 0));

    // A very long wait accrues no more than the burst of 2.
    assert!(limiter.try_admit(&client, 3_600_000));
    assert!(limiter.try_admit(&client, 3_600_000));
    assert!(!limiter.try_admit(&client, 3_600_000));
}

#[test]
fn partial_refill_buys_nothing() {
    // 100 ms at 4/s is 0.4 of a token: not enough for admission.
    let mut limiter = AdmissionController::new(4, 1);
    let client = "10.1.1.1".to_string();

    assert!(limiter.try_admit(&client, 0));
    assert!(!limiter.try_admit(&client, 100));
    // The partial refill was settled, so 150 ms later the token is whole.
    assert!(limiter.try_admit(&client, 250));
}

#[test]
fn a_clock_running_backwards_buys_nothing() {
    let mut limiter = AdmissionController::new(4, 1);
    let client = "10.2.2.2".to_string();

    assert!(limiter.try_admit(&client, 10_000));
    assert!(!limiter.try_admit(&client, 5_000));
}

#[test]
fn the_real_ip_header_outranks_the_peer_address() {
    assert_eq!(
        client_key(Some("203.0.113.7".to_string()), "127.0.0.1".to_string()),
        "203.0.113.7".to_string()
    );
    assert_eq!(
        client_key(None, "127.0.0.1".to_string()),
        "127.0.0.1".to_string()
    );
}

#[test]
fn zero_burst_throttles_everything() {
    let mut limiter = AdmissionController::new(4, 0);
    let client = "10.3.3.3".to_string();

    assert!(!limiter.try_admit(&client, 0));
    assert!(!limiter.try_admit(&client, 1_000_000));
}
