use router::adapter::{
    idempotency_key, AdapterError, CanonicalRequest, CanonicalResult, Capabilities, Operation, RawResponse,
    ReferenceConnector, WireRequest,
};
use router::lifecycle::PaymentStatus;

fn connector() -> ReferenceConnector {
    let caps = Capabilities {
        authorize: true,
        capture: true,
        refund: true,
        void: false,
        partial_capture: false,
        webhooks: true,
    };
    ReferenceConnector::new(caps, b"whsec".to_vec())
}

fn raw(http_status: u16, code: u32, reference: &[u8]) -> RawResponse {
    RawResponse { http_status, code, reference: reference.to_vec() }
}

#[test]
fn idempotency_key_packs_intent_and_sequence() {
    assert_eq!(idempotency_key(1, 2), (1u128 << 64) + 2);
    assert_eq!(idempotency_key(0, 0), 0);
    assert_ne!(idempotency_key(1, 0), idempotency_key(0, 1));
}

#[test]
fn build_request_translates_supported_operations() {
    let req = CanonicalRequest { intent_id: 5, attempt_seq: 1, amount: 1000, currency: 978, operation: Operation::Authorize };
    assert_eq!(
        connector().build_request(&req),
        Ok(WireRequest { operation: Operation::Authorize, amount: 1000, currency: 978, idempotency_key: (5u128 << 64) + 1 })
    );
}

#[test]
fn build_request_refuses_unsupported_operations() {
    let mut req = CanonicalRequest { intent_id: 5, attempt_seq: 1, amount: 1000, currency: 978, operation: Operation::Void };
    assert_eq!(connector().build_request(&req), Err(AdapterError::UnsupportedOperation));
    req.operation = Operation::PartialCapture;
    assert_eq!(connector().build_request(&req), Err(AdapterError::UnsupportedOperation));
}

#[test]
fn parse_response_classifies() {
    let c = connector();
    assert_eq!(c.parse_response(&raw(200, 0, b"tx1")), CanonicalResult::Authorized(b"tx1".to_vec()));
    assert_eq!(c.parse_response(&raw(202, 0, b"tx2")), CanonicalResult::Pending(b"tx2".to_vec()));
    assert_eq!(c.parse_response(&raw(402, 51, b"")), CanonicalResult::Declined(51));
    for s in [408u16, 429, 500, 502, 503, 504] {
        assert_eq!(c.parse_response(&raw(s, 0, b"")), CanonicalResult::TransientError);
    }
    assert_eq!(c.parse_response(&raw(200, 0, b"")), CanonicalResult::PermanentError);
    assert_eq!(c.parse_response(&raw(400, 0, b"x")), CanonicalResult::PermanentError);
    assert_eq!(c.parse_response(&raw(599, 0, b"x")), CanonicalResult::PermanentError);
}

#[test]
fn webhook_with_wrong_signature_is_rejected() {
    assert_eq!(
        connector().verify_and_parse_webhook(&b"Ctx1".to_vec(), &b"whsex".to_vec()),
        Err(AdapterError::SignatureInvalid)
    );
}

#[test]
fn malformed_webhook_is_rejected() {
    let c = connector();
    assert_eq!(c.verify_and_parse_webhook(&b"C".to_vec(), &b"whsec".to_vec()), Err(AdapterError::MalformedPayload));
    assert_eq!(c.verify_and_parse_webhook(&b"Ztx1".to_vec(), &b"whsec".to_vec()), Err(AdapterError::MalformedPayload));
}

#[test]
fn webhook_is_parsed() {
    let out = connector().verify_and_parse_webhook(&b"Ctx123".to_vec(), &b"whsec".to_vec()).unwrap();
    assert_eq!(out.status, PaymentStatus::Captured);
    assert_eq!(out.connector_reference, b"tx123".to_vec());
    let out = connector().verify_and_parse_webhook(&b"rab".to_vec(), &b"whsec".to_vec()).unwrap();
    assert_eq!(out.status, PaymentStatus::PartiallyRefunded);
    assert_eq!(out.connector_reference, b"ab".to_vec());
}
