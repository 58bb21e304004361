use router::adapter::{CanonicalResult, Capabilities, Operation};
use router::routing::{route, ConnectorAccount, PaymentContext, RoutingRule};
use router::lifecycle::{apply_transition, is_edge, PaymentStatus, TransitionOutcome};
use router::payment::{CallOutcome, CaptureMethod, ExecutionPolicy, FailureKind, PaymentIntent, PipelineError, Step};

const STRICT: ExecutionPolicy = ExecutionPolicy { fall_back_on_decline: false };

fn in_flight_count(intent: &PaymentIntent) -> usize {
    intent.attempts.iter().filter(|a| a.status == PaymentStatus::Processing).count()
}

#[test]
fn transient_then_authorized() {
    let mut intent = PaymentIntent::new(1, 1000, 978, CaptureMethod::Automatic);
    let outcomes = vec![
        CallOutcome::TimedOut,
        CallOutcome::Responded(CanonicalResult::Authorized(b"tx123".to_vec())),
    ];
    let r = intent.execute(&vec![100, 200], &outcomes, STRICT);
    assert_eq!(r, Ok((Step::Finished(PaymentStatus::Authorized), 2)));
    assert_eq!(intent.attempts.len(), 2);
    assert_eq!(intent.status, PaymentStatus::Authorized);
    assert_eq!(intent.attempts[0].connector_id, 100);
    assert_eq!(intent.attempts[0].status, PaymentStatus::Failed);
    assert_eq!(intent.attempts[0].failure, Some(FailureKind::TimedOut));
    assert_eq!(intent.attempts[1].connector_id, 200);
    assert_eq!(intent.attempts[1].seq, 1);
    assert_eq!(intent.attempts[1].connector_reference, Some(b"tx123".to_vec()));
}

#[test]
fn all_transient_fails_after_every_candidate() {
    let mut intent = PaymentIntent::new(2, 500, 840, CaptureMethod::Automatic);
    let outcomes = vec![
        CallOutcome::Responded(CanonicalResult::TransientError),
        CallOutcome::Responded(CanonicalResult::TransientError),
        CallOutcome::Responded(CanonicalResult::TransientError),
    ];
    let r = intent.execute(&vec![1, 2, 3], &outcomes, STRICT);
    assert_eq!(r, Ok((Step::Finished(PaymentStatus::Failed), 3)));
    assert_eq!(intent.attempts.len(), 3);
    assert_eq!(intent.status, PaymentStatus::Failed);
    assert_eq!(in_flight_count(&intent), 0);
}

#[test]
fn decline_stops_iteration() {
    let mut intent = PaymentIntent::new(3, 500, 840, CaptureMethod::Automatic);
    let outcomes = vec![
        CallOutcome::Responded(CanonicalResult::Declined(51)),
        CallOutcome::Responded(CanonicalResult::Authorized(b"tx".to_vec())),
    ];
    let r = intent.execute(&vec![1, 2], &outcomes, STRICT);
    assert_eq!(r, Ok((Step::Finished(PaymentStatus::Failed), 1)));
    assert_eq!(intent.attempts.len(), 1);
    assert_eq!(intent.attempts[0].failure, Some(FailureKind::Declined(51)));
}

#[test]
fn decline_falls_back_only_when_configured() {
    let mut intent = PaymentIntent::new(4, 500, 840, CaptureMethod::Manual);
    let outcomes = vec![
        CallOutcome::Responded(CanonicalResult::Declined(51)),
        CallOutcome::Responded(CanonicalResult::Authorized(b"tx".to_vec())),
    ];
    let r = intent.execute(&vec![1, 2], &outcomes, ExecutionPolicy { fall_back_on_decline: true });
    assert_eq!(r, Ok((Step::Finished(PaymentStatus::RequiresCapture), 2)));
    assert_eq!(intent.attempts.len(), 2);
}

#[test]
fn permanent_error_stops_iteration() {
    let mut intent = PaymentIntent::new(5, 500, 840, CaptureMethod::Automatic);
    let outcomes = vec![CallOutcome::Responded(CanonicalResult::PermanentError), CallOutcome::TimedOut];
    assert_eq!(intent.execute(&vec![1, 2], &outcomes, STRICT), Ok((Step::Finished(PaymentStatus::Failed), 1)));
    assert_eq!(intent.attempts[0].failure, Some(FailureKind::Permanent));
}

#[test]
fn unsupported_skips_to_next_candidate() {
    let mut intent = PaymentIntent::new(6, 500, 840, CaptureMethod::Automatic);
    let outcomes = vec![CallOutcome::Unsupported, CallOutcome::Responded(CanonicalResult::Authorized(b"t".to_vec()))];
    assert_eq!(intent.execute(&vec![1, 2], &outcomes, STRICT), Ok((Step::Finished(PaymentStatus::Authorized), 2)));
    assert_eq!(intent.attempts[0].failure, Some(FailureKind::Unsupported));
}

#[test]
fn pending_leaves_one_attempt_in_flight() {
    let mut intent = PaymentIntent::new(7, 500, 840, CaptureMethod::Automatic);
    let outcomes = vec![CallOutcome::Responded(CanonicalResult::Pending(b"p1".to_vec()))];
    assert_eq!(intent.execute(&vec![9], &outcomes, STRICT), Ok((Step::Finished(PaymentStatus::Processing), 1)));
    assert_eq!(intent.in_flight_attempt(), Some(0));
    // A client retry sees the existing attempt rather than a new one.
    assert_eq!(intent.begin_attempt(10), Err(PipelineError::AttemptInFlight(0)));
    assert_eq!(intent.execute(&vec![10], &outcomes, STRICT), Err(PipelineError::AttemptInFlight(0)));
    assert_eq!(intent.attempts.len(), 1);
    assert_eq!(in_flight_count(&intent), 1);
}

#[test]
fn step_by_step_pipeline() {
    let mut intent = PaymentIntent::new(8, 500, 840, CaptureMethod::Automatic);
    assert_eq!(intent.record_outcome(CallOutcome::TimedOut, STRICT, true), Err(PipelineError::NoAttemptInFlight));
    assert_eq!(intent.begin_attempt(1), Ok(0));
    assert_eq!(intent.status, PaymentStatus::Processing);
    assert_eq!(intent.record_outcome(CallOutcome::TimedOut, STRICT, true), Ok(Step::Continue));
    assert_eq!(intent.status, PaymentStatus::Processing);
    assert_eq!(intent.begin_attempt(2), Ok(1));
    assert_eq!(intent.record_outcome(CallOutcome::TimedOut, STRICT, false), Ok(Step::Finished(PaymentStatus::Failed)));
    assert_eq!(intent.begin_attempt(3), Err(PipelineError::NotPayable));
    assert_eq!(intent.attempts.len(), 2);
}

#[test]
fn empty_candidate_list() {
    let mut intent = PaymentIntent::new(9, 500, 840, CaptureMethod::Automatic);
    assert_eq!(intent.execute(&vec![], &vec![], STRICT), Err(PipelineError::NoCandidates));
}

#[test]
fn amount_fixed_after_first_attempt() {
    let mut intent = PaymentIntent::new(10, 500, 840, CaptureMethod::Automatic);
    assert_eq!(intent.adjust_amount(700), Ok(()));
    assert_eq!(intent.amount, 700);
    intent.begin_attempt(1).unwrap();
    assert_eq!(intent.adjust_amount(900), Err(PipelineError::AmountLocked));
    assert_eq!(intent.amount, 700);
}

#[test]
fn lifecycle_transitions_are_guarded() {
    let mut s = PaymentStatus::Processing;
    assert_eq!(apply_transition(&mut s, PaymentStatus::Authorized), TransitionOutcome::Applied);
    assert_eq!(apply_transition(&mut s, PaymentStatus::Captured), TransitionOutcome::Applied);
    assert_eq!(apply_transition(&mut s, PaymentStatus::Captured), TransitionOutcome::Duplicate);
    assert_eq!(apply_transition(&mut s, PaymentStatus::Cancelled), TransitionOutcome::Rejected);
    assert_eq!(apply_transition(&mut s, PaymentStatus::Settled), TransitionOutcome::Applied);
    assert_eq!(apply_transition(&mut s, PaymentStatus::Refunded), TransitionOutcome::Applied);
    assert_eq!(apply_transition(&mut s, PaymentStatus::Processing), TransitionOutcome::Rejected);
    assert_eq!(s, PaymentStatus::Refunded);
    assert!(is_edge(PaymentStatus::Created, PaymentStatus::Cancelled));
    assert!(!is_edge(PaymentStatus::Captured, PaymentStatus::Cancelled));
    assert!(!is_edge(PaymentStatus::Failed, PaymentStatus::Processing));
}

#[test]
fn routed_fallback_from_timeout_to_authorized() {
    let caps = Capabilities { authorize: true, capture: true, refund: true, void: true, partial_capture: false, webhooks: true };
    let b = ConnectorAccount { connector_id: 2, enabled: true, currencies: vec![978], payment_methods: vec![1], capabilities: caps, priority: 2, weight: 1 };
    let a = ConnectorAccount { connector_id: 1, enabled: true, currencies: vec![978], payment_methods: vec![1], capabilities: caps, priority: 1, weight: 1 };
    let accounts = vec![b, a];
    let ctx = PaymentContext { amount: 1000, currency: 978, payment_method: 1, operation: Operation::Authorize };
    let order = route(&accounts, &ctx, &RoutingRule::Priority, 0).unwrap();
    assert_eq!(order, vec![1, 0]);
    let candidates: Vec<u64> = order.iter().map(|&k| accounts[k].connector_id).collect();
    let mut intent = PaymentIntent::new(11, 1000, 978, CaptureMethod::Automatic);
    let outcomes = vec![
        CallOutcome::TimedOut,
        CallOutcome::Responded(CanonicalResult::Authorized(b"tx123".to_vec())),
    ];
    assert_eq!(intent.execute(&candidates, &outcomes, STRICT), Ok((Step::Finished(PaymentStatus::Authorized), 2)));
    assert_eq!(intent.attempts.len(), 2);
    assert_eq!(intent.attempts[0].connector_id, 1);
    assert_eq!(intent.attempts[1].connector_id, 2);
    assert_eq!(intent.status, PaymentStatus::Authorized);
    assert_eq!(intent.attempts[1].connector_reference, Some(b"tx123".to_vec()));
}
