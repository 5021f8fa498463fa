use indonesian_media_crawler::limiter::RateLimiter;

#[test]
fn first_caller_passes_without_waiting() {
    let mut limiter = RateLimiter::new(50);
    assert_eq!(limiter.throttle(1_000), 0);
    assert_eq!(limiter.last_request_ms, Some(1_000));
}

#[test]
fn second_caller_within_delay_waits_for_the_rest() {
    let mut limiter = RateLimiter::new(50);
    assert_eq!(limiter.throttle(1_000), 0);
    // 20 ms elapsed of a 50 ms delay: the second caller must wait 30 ms.
    assert_eq!(limiter.throttle(1_020), 30);
    assert_eq!(limiter.last_request_ms, Some(1_020));
}

#[test]
fn caller_after_the_delay_passes() {
    let mut limiter = RateLimiter::new(50);
    limiter.throttle(1_000);
    assert_eq!(limiter.throttle(1_050), 0);
    assert_eq!(limiter.throttle(1_200), 0);
}

#[test]
fn back_to_back_callers_wait_the_full_delay() {
    let mut limiter = RateLimiter::new(50);
    limiter.throttle(2_000);
    assert_eq!(limiter.throttle(2_000), 50);
}
