use gadget_shell::submitter::{classify_submission, JobResult, SubmissionOutcome};

#[test]
fn finalized_submission_is_confirmed_with_its_block() {
    let block = [0x42u8; 32];
    let outcome = classify_submission(Ok(block));
    match outcome {
        SubmissionOutcome::Confirmed { block: b } => assert_eq!(b, block),
        _ => panic!("a finalized submission must be confirmed"),
    }
    assert!(!classify_submission(Ok(block)).is_error());
}

#[test]
fn stale_job_failure_is_already_resolved_not_an_error() {
    let msg = b"Runtime error: Module { index: 31, error: JobNotFound }".to_vec();
    let outcome = classify_submission(Err(msg));
    assert!(matches!(outcome, SubmissionOutcome::AlreadyResolved));
    assert!(!outcome.is_error());
}

#[test]
fn other_failure_is_rejected_with_its_reason() {
    let msg = b"connection reset by peer".to_vec();
    let outcome = classify_submission(Err(msg.clone()));
    match &outcome {
        SubmissionOutcome::Rejected { reason } => assert_eq!(reason, &msg),
        _ => panic!("an unrecognized failure must be rejected"),
    }
    assert!(outcome.is_error());
}

#[test]
fn signal_matching_is_exact_not_partial() {
    // A message naming something else entirely is a hard failure.
    let outcome = classify_submission(Err(b"JobNotFinished".to_vec()));
    assert!(matches!(outcome, SubmissionOutcome::Rejected { .. }));
    // The signal counts wherever it appears in the message.
    let outcome = classify_submission(Err(b"JobNotFound".to_vec()));
    assert!(matches!(outcome, SubmissionOutcome::AlreadyResolved));
}

#[test]
fn job_result_carries_its_coordinates() {
    let result = JobResult { scope: 7, job: 3, call_id: 11, payload: vec![1, 2, 3] };
    assert_eq!(result.scope, 7);
    assert_eq!(result.job, 3);
    assert_eq!(result.call_id, 11);
    assert_eq!(result.payload, vec![1, 2, 3]);
}
