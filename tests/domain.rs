use baby_bear_dft::{Action, BabyBear, BabyBearIcicleDft, DftError, DomainSession, Event, Phase, RowMajorMatrix};

#[test]
fn release_follows_failed_transform() {
    let mut s = DomainSession::new();
    let root = s.request(2).unwrap();
    assert_eq!(root.value, BabyBear::two_adic_generator(2).value);
    assert_eq!(s.phase, Phase::Establishing { log_h: 2 });
    assert_eq!(s.step(Event::DomainEstablished), Action::Transform);
    assert_eq!(s.step(Event::TransformFailed), Action::Release);
    assert_eq!(s.phase, Phase::Releasing { failed: true });
    assert_eq!(s.step(Event::DomainReleased), Action::Fail(DftError::Accelerator));
    assert_eq!(s.phase, Phase::Idle);
}

#[test]
fn repeated_sessions_leave_no_domain() {
    let mut s = DomainSession::new();
    for log_h in 0..4usize {
        assert!(s.request(log_h).is_ok());
        assert_eq!(s.step(Event::DomainEstablished), Action::Transform);
        assert_eq!(s.step(Event::TransformDone), Action::Release);
        assert_eq!(s.step(Event::DomainReleased), Action::Complete);
        assert_eq!(s.phase, Phase::Idle);
    }
}

#[test]
fn one_domain_at_a_time() {
    let mut s = DomainSession::new();
    assert!(s.request(3).is_ok());
    assert_eq!(s.request(4), Err(DftError::DomainBusy));
    let m = RowMajorMatrix::new(vec![1, 2], 1).unwrap();
    assert!(matches!(BabyBearIcicleDft.prepare(&m, &mut s), Err(DftError::DomainBusy)));
    assert_eq!(s.phase, Phase::Establishing { log_h: 3 });
}

#[test]
fn rejected_domain_needs_no_release() {
    let mut s = DomainSession::new();
    assert!(s.request(1).is_ok());
    assert_eq!(s.step(Event::DomainRejected), Action::Fail(DftError::DomainRejected));
    assert_eq!(s.phase, Phase::Idle);
    assert!(s.request(1).is_ok());
}

#[test]
fn unsupported_size_is_refused() {
    let mut s = DomainSession::new();
    assert_eq!(s.request(28), Err(DftError::UnsupportedSize));
    assert_eq!(s.phase, Phase::Idle);
    assert!(s.request(27).is_ok());
}

#[test]
fn out_of_order_event_changes_nothing() {
    let mut s = DomainSession::new();
    assert_eq!(s.step(Event::TransformDone), Action::Fail(DftError::OutOfOrder));
    assert_eq!(s.phase, Phase::Idle);
    assert!(s.request(0).is_ok());
    assert_eq!(s.step(Event::DomainReleased), Action::Fail(DftError::OutOfOrder));
    assert_eq!(s.phase, Phase::Establishing { log_h: 0 });
}
