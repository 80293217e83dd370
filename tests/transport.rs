use fury_controller::transport::{is_transient, Backoff, RetryStep};

#[test]
fn only_enxio_is_transient() {
    assert!(is_transient(Some(6)));
    assert!(!is_transient(Some(5)));
    assert!(!is_transient(Some(110)));
    assert!(!is_transient(None));
}

/// Runs one operation against a fake that fails with the given codes first,
/// then succeeds; returns the outcome and the waits made.
fn run(failures: &[Option<i32>]) -> (Result<(), Option<i32>>, Vec<u64>) {
    let mut backoff = Backoff::new();
    let mut waits = Vec::new();
    let mut attempt = 0;
    loop {
        let outcome = match failures.get(attempt) {
            Some(code) => Err(*code),
            None => Ok(()),
        };
        attempt += 1;
        match outcome {
            Ok(()) => return (Ok(()), waits),
            Err(code) => match backoff.on_failure(is_transient(code)) {
                RetryStep::RetryAfter(ms) => waits.push(ms),
                RetryStep::GiveUpAfter(ms) => {
                    waits.push(ms);
                    return (Err(code), waits);
                }
                RetryStep::GiveUp => return (Err(code), waits),
            },
        }
    }
}

#[test]
fn two_transient_failures_then_success() {
    let (r, waits) = run(&[Some(6), Some(6)]);
    assert_eq!(r, Ok(()));
    assert_eq!(waits, vec![1, 2]);
}

#[test]
fn continuous_transient_failure_surfaces_original_fault() {
    let (r, waits) = run(&[Some(6); 100]);
    assert_eq!(r, Err(Some(6)));
    let expected: Vec<u64> = (0..14).map(|k| 1u64 << k).collect();
    assert_eq!(waits, expected);
    assert_eq!(*waits.last().unwrap(), 8192);
}

#[test]
fn other_failure_is_not_retried() {
    let (r, waits) = run(&[Some(5)]);
    assert_eq!(r, Err(Some(5)));
    assert!(waits.is_empty());
    let (r, waits) = run(&[Some(6), None]);
    assert_eq!(r, Err(None));
    assert_eq!(waits, vec![1]);
}

#[test]
fn backoff_doubles_then_gives_up() {
    let mut b = Backoff::new();
    for k in 0..13 {
        assert_eq!(b.on_failure(true), RetryStep::RetryAfter(1 << k));
    }
    assert_eq!(b.on_failure(true), RetryStep::GiveUpAfter(8192));
    assert_eq!(b.on_failure(false), RetryStep::GiveUp);
}
