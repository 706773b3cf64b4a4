use stubr::resolve::effective_delay;

#[test]
fn global_delay_applies_when_no_local_delay() {
    // a 5000 ms default delay: longer than 1 s, well within 30 s
    let wait = effective_delay(None, Some(5000), None);
    assert_eq!(wait, 5000);
    assert!(wait > 1000);
    assert!(wait < 30000);
}

#[test]
fn local_delay_replaces_global_delay() {
    // the local 5000 ms wins outright over the 2000 ms default; a 4 s client
    // timeout only makes sense because the two are never added
    assert_eq!(effective_delay(Some(5000), Some(2000), None), 5000);
    assert_eq!(effective_delay(Some(1000), Some(9000), None), 1000);
}

#[test]
fn latency_alone_delays_the_response() {
    let wait = effective_delay(None, None, Some(5000));
    assert_eq!(wait, 5000);
    assert!(wait > 1000);
    assert!(wait < 30000);
}

#[test]
fn latency_adds_to_local_delay() {
    // 5000 ms latency on top of a 5000 ms local delay: beyond a 7 s timeout,
    // within a 30 s one
    let wait = effective_delay(Some(5000), None, Some(5000));
    assert_eq!(wait, 10000);
    assert!(wait > 7000);
    assert!(wait < 30000);
}

#[test]
fn latency_adds_to_global_delay_too() {
    assert_eq!(effective_delay(None, Some(2000), Some(3000)), 5000);
}

#[test]
fn no_knobs_means_no_wait() {
    assert_eq!(effective_delay(None, None, None), 0);
}

#[test]
fn wait_saturates_instead_of_wrapping() {
    assert_eq!(effective_delay(Some(u64::MAX), None, Some(1)), u64::MAX);
}
