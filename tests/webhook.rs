use router::adapter::{AdapterError, CanonicalResult, Capabilities, ReferenceConnector, WebhookOutcome};
use router::lifecycle::{PaymentStatus, TransitionOutcome};
use router::payment::{CallOutcome, CaptureMethod, ExecutionPolicy, PaymentIntent};
use router::shutdown::{AdmissionError, ShutdownCoordinator};
use router::store::PaymentStore;
use router::webhook::{unmatched_retry, RetryDecision, WebhookEffect};

fn connector() -> ReferenceConnector {
    let caps = Capabilities { authorize: true, capture: true, refund: true, void: true, partial_capture: true, webhooks: true };
    ReferenceConnector::new(caps, b"s3".to_vec())
}

fn authorized_intent(reference: &[u8]) -> PaymentIntent {
    let mut intent = PaymentIntent::new(1, 1000, 978, CaptureMethod::Automatic);
    let outcomes = vec![CallOutcome::Responded(CanonicalResult::Authorized(reference.to_vec()))];
    intent.execute(&vec![1], &outcomes, ExecutionPolicy { fall_back_on_decline: false }).unwrap();
    intent
}

#[test]
fn webhook_applied_once() {
    let mut intent = authorized_intent(b"tx1");
    let event = WebhookOutcome { status: PaymentStatus::Captured, connector_reference: b"tx1".to_vec() };
    assert_eq!(intent.apply_webhook(&event), WebhookEffect::Matched(0, TransitionOutcome::Applied));
    assert_eq!(intent.status, PaymentStatus::Captured);
    let status_after_one = intent.status;
    assert_eq!(intent.apply_webhook(&event), WebhookEffect::Matched(0, TransitionOutcome::Duplicate));
    assert_eq!(intent.status, status_after_one);
    assert_eq!(intent.attempts[0].status, PaymentStatus::Captured);
}

#[test]
fn captured_reasserted_is_a_no_op() {
    let mut intent = authorized_intent(b"tx9");
    let c = connector();
    assert_eq!(intent.handle_webhook(&c, &b"Ctx9".to_vec(), &b"s3".to_vec()), WebhookEffect::Matched(0, TransitionOutcome::Applied));
    assert_eq!(intent.handle_webhook(&c, &b"Ctx9".to_vec(), &b"s3".to_vec()), WebhookEffect::Matched(0, TransitionOutcome::Duplicate));
    assert_eq!(intent.status, PaymentStatus::Captured);
}

#[test]
fn out_of_order_webhook_is_ignored() {
    let mut intent = authorized_intent(b"tx2");
    let refund = WebhookOutcome { status: PaymentStatus::Refunded, connector_reference: b"tx2".to_vec() };
    assert_eq!(intent.apply_webhook(&refund), WebhookEffect::Matched(0, TransitionOutcome::Rejected));
    assert_eq!(intent.status, PaymentStatus::Authorized);
}

#[test]
fn bad_signature_changes_nothing() {
    let mut intent = authorized_intent(b"tx3");
    assert_eq!(
        intent.handle_webhook(&connector(), &b"Ctx3".to_vec(), &b"nope".to_vec()),
        WebhookEffect::Rejected(AdapterError::SignatureInvalid)
    );
    assert_eq!(intent.status, PaymentStatus::Authorized);
}

#[test]
fn unknown_reference_is_unmatched() {
    let mut intent = authorized_intent(b"tx4");
    assert_eq!(intent.handle_webhook(&connector(), &b"Cother".to_vec(), &b"s3".to_vec()), WebhookEffect::Unmatched);
    assert_eq!(unmatched_retry(3), RetryDecision::RetryLater(2));
    assert_eq!(unmatched_retry(0), RetryDecision::Discard);
}

#[test]
fn store_routes_webhooks_to_their_intent() {
    let gate = ShutdownCoordinator::new(30_000);
    let mut store = PaymentStore::new();
    assert_eq!(store.create_intent(&gate, 100, 978, CaptureMethod::Automatic), Ok(0));
    assert_eq!(store.create_intent(&gate, 200, 978, CaptureMethod::Automatic), Ok(1));
    let outcomes = vec![CallOutcome::Responded(CanonicalResult::Pending(b"p2".to_vec()))];
    store.intents[1].execute(&vec![5], &outcomes, ExecutionPolicy { fall_back_on_decline: false }).unwrap();
    let c = connector();
    assert_eq!(
        store.reconcile_webhook(&c, &b"Ap2".to_vec(), &b"s3".to_vec()),
        (Some(1), WebhookEffect::Matched(0, TransitionOutcome::Applied))
    );
    assert_eq!(store.intents[1].status, PaymentStatus::Authorized);
    assert_eq!(store.intents[0].status, PaymentStatus::Created);
    assert_eq!(store.reconcile_webhook(&c, &b"Ap3".to_vec(), &b"s3".to_vec()), (None, WebhookEffect::Unmatched));
}

#[test]
fn store_refuses_new_intents_while_draining() {
    let mut gate = ShutdownCoordinator::new(30_000);
    gate.try_admission().unwrap();
    gate.on_dependency_failure(0);
    let mut store = PaymentStore::new();
    assert_eq!(store.create_intent(&gate, 100, 978, CaptureMethod::Automatic), Err(AdmissionError::ServiceDraining));
    assert!(store.intents.is_empty());
}
