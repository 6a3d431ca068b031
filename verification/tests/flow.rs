use dendrite::flow_control::{PermitCounter, PERMITS_BATCH_SIZE};

#[test]
fn permits_are_granted_in_batches() {
    let (mut counter, initial) = PermitCounter::new();
    assert_eq!(initial, 2 * PERMITS_BATCH_SIZE);
    assert_eq!(counter.permits(), 6);
    assert_eq!(counter.message_handled(), None);
    assert_eq!(counter.permits(), 5);
    assert_eq!(counter.message_handled(), None);
    assert_eq!(counter.permits(), 4);
    // The third message brings the outstanding permits down to one batch.
    assert_eq!(counter.message_handled(), Some(3));
    assert_eq!(counter.permits(), 6);
}

#[test]
fn permits_stay_between_one_and_two_batches() {
    let (mut counter, _) = PermitCounter::new();
    let mut granted = 6;
    for handled in 1..=100 {
        if let Some(n) = counter.message_handled() {
            granted += n;
        }
        let p = counter.permits();
        assert!(p > PERMITS_BATCH_SIZE && p <= 2 * PERMITS_BATCH_SIZE);
        assert_eq!(granted - handled, p);
    }
}

#[test]
fn a_batch_is_granted_after_every_third_message() {
    let (mut counter, initial) = PermitCounter::new();
    let mut granted = initial;
    for handled in 1..=30i64 {
        let grant = counter.message_handled();
        assert_eq!(grant.is_some(), handled % 3 == 0);
        granted += grant.unwrap_or(0);
        assert_eq!(granted, 6 + 3 * (handled / 3));
        assert_eq!(counter.permits(), 6 - handled % 3);
    }
}
