use vstd::prelude::*;

use crate::lifecycle::PaymentStatus;

verus! {

/// Operations a connector may be asked to perform.
#[derive(Debug, Clone, Copy, PartialEq, Eq, Structural)]
pub enum Operation {
    Authorize,
    Capture,
    Refund,
    Void,
    PartialCapture,
}

/// The capability set a connector declares.
#[derive(Debug, Clone, Copy, PartialEq, Eq, Structural)]
pub struct Capabilities {
    pub authorize: bool,
    pub capture: bool,
    pub refund: bool,
    pub void: bool,
    pub partial_capture: bool,
    pub webhooks: bool,
}

impl Capabilities {
    pub open spec fn allows(self, op: Operation) -> bool {
        match op {
            Operation::Authorize => self.authorize,
            Operation::Capture => self.capture,
            Operation::Refund => self.refund,
            Operation::Void => self.void,
            Operation::PartialCapture => self.partial_capture,
        }
    }

    /// Whether the connector can perform `op`.
    pub fn supports(&self, op: Operation) -> (r: bool)
        ensures
            r == self.allows(op),
    {
        match op {
            Operation::Authorize => self.authorize,
            Operation::Capture => self.capture,
            Operation::Refund => self.refund,
            Operation::Void => self.void,
            Operation::PartialCapture => self.partial_capture,
        }
    }
}

/// The idempotency key of attempt `seq` of intent `intent_id`.
pub open spec fn idempotency_key_of(intent_id: u64, seq: u64) -> int {
    intent_id as int * 0x1_0000_0000_0000_0000 + seq as int
}

/// Idempotency key of an attempt: the intent id in the high half, the
/// attempt's sequence number in the low half.
pub fn idempotency_key(intent_id: u64, seq: u64) -> (r: u128)
    ensures
        r == idempotency_key_of(intent_id, seq),
{
    (intent_id as u128) * 0x1_0000_0000_0000_0000u128 + (seq as u128)
}

/// Two attempts share an idempotency key only if they are the same attempt of
/// the same intent.
pub proof fn lemma_idempotency_key_injective(i1: u64, s1: u64, i2: u64, s2: u64)
    requires
        idempotency_key_of(i1, s1) == idempotency_key_of(i2, s2),
    ensures
        i1 == i2,
        s1 == s2,
{
    assert(i1 == i2) by (nonlinear_arith)
        requires
            i1 as int * 0x1_0000_0000_0000_0000 + s1 as int == i2 as int
                * 0x1_0000_0000_0000_0000 + s2 as int,
            0 <= s1 < 0x1_0000_0000_0000_0000,
            0 <= s2 < 0x1_0000_0000_0000_0000,
    ;
}

/// A protocol-neutral request for one operation of one attempt.
#[derive(Debug, Clone, Copy, PartialEq, Eq, Structural)]
pub struct CanonicalRequest {
    pub intent_id: u64,
    pub attempt_seq: u64,
    pub amount: u64,
    pub currency: u16,
    pub operation: Operation,
}

/// The request as the reference connector expects it on the wire.
#[derive(Debug, Clone, Copy, PartialEq, Eq, Structural)]
pub struct WireRequest {
    pub operation: Operation,
    pub amount: u64,
    pub currency: u16,
    pub idempotency_key: u128,
}

#[derive(Debug, Clone, Copy, PartialEq, Eq, Structural)]
pub enum AdapterError {
    /// The connector cannot express the requested operation.
    UnsupportedOperation,
    /// The webhook's signature material did not verify.
    SignatureInvalid,
    /// The webhook verified but its payload could not be read.
    MalformedPayload,
}

/// A connector's answer, in canonical form.
#[derive(Debug, Clone, PartialEq, Eq)]
pub enum CanonicalResult {
    Authorized(Vec<u8>),
    Declined(u32),
    Pending(Vec<u8>),
    TransientError,
    PermanentError,
}

/// A raw connector response: transport status, processor code, reference.
#[derive(Debug, Clone, PartialEq, Eq)]
pub struct RawResponse {
    pub http_status: u16,
    pub code: u32,
    pub reference: Vec<u8>,
}

/// Transport statuses that say the connector may succeed on another try.
pub open spec fn is_retryable_status(s: u16) -> bool {
    s == 408 || s == 429 || s == 500 || s == 502 || s == 503 || s == 504
}

/// Classification of a raw response; anything not recognised is permanent.
pub open spec fn classify(http_status: u16, code: u32, reference: Seq<u8>) -> CanonicalResultModel {
    if http_status == 200 && reference.len() > 0 {
        CanonicalResultModel::Authorized(reference)
    } else if http_status == 202 && reference.len() > 0 {
        CanonicalResultModel::Pending(reference)
    } else if http_status == 402 {
        CanonicalResultModel::Declined(code)
    } else if is_retryable_status(http_status) {
        CanonicalResultModel::TransientError
    } else {
        CanonicalResultModel::PermanentError
    }
}

/// The mathematical value of a `CanonicalResult`.
pub ghost enum CanonicalResultModel {
    Authorized(Seq<u8>),
    Declined(u32),
    Pending(Seq<u8>),
    TransientError,
    PermanentError,
}

impl View for CanonicalResult {
    type V = CanonicalResultModel;

    open spec fn view(&self) -> CanonicalResultModel {
        match self {
            CanonicalResult::Authorized(r) => CanonicalResultModel::Authorized(r@),
            CanonicalResult::Declined(c) => CanonicalResultModel::Declined(*c),
            CanonicalResult::Pending(r) => CanonicalResultModel::Pending(r@),
            CanonicalResult::TransientError => CanonicalResultModel::TransientError,
            CanonicalResult::PermanentError => CanonicalResultModel::PermanentError,
        }
    }
}

/// What a verified webhook reports.
#[derive(Debug, Clone, PartialEq, Eq)]
pub struct WebhookOutcome {
    pub status: PaymentStatus,
    pub connector_reference: Vec<u8>,
}

/// The status a webhook event tag announces.
pub open spec fn tag_status(tag: u8) -> Option<PaymentStatus> {
    if tag == 0x41 {
        Some(PaymentStatus::Authorized)
    } else if tag == 0x4b {
        Some(PaymentStatus::RequiresCapture)
    } else if tag == 0x43 {
        Some(PaymentStatus::Captured)
    } else if tag == 0x50 {
        Some(PaymentStatus::PartiallyCaptured)
    } else if tag == 0x53 {
        Some(PaymentStatus::Settled)
    } else if tag == 0x46 {
        Some(PaymentStatus::Failed)
    } else if tag == 0x58 {
        Some(PaymentStatus::Cancelled)
    } else if tag == 0x52 {
        Some(PaymentStatus::Refunded)
    } else if tag == 0x72 {
        Some(PaymentStatus::PartiallyRefunded)
    } else {
        None
    }
}

fn status_of_tag(tag: u8) -> (r: Option<PaymentStatus>)
    ensures
        r == tag_status(tag),
{
    match tag {
        0x41 => Some(PaymentStatus::Authorized),
        0x4b => Some(PaymentStatus::RequiresCapture),
        0x43 => Some(PaymentStatus::Captured),
        0x50 => Some(PaymentStatus::PartiallyCaptured),
        0x53 => Some(PaymentStatus::Settled),
        0x46 => Some(PaymentStatus::Failed),
        0x58 => Some(PaymentStatus::Cancelled),
        0x52 => Some(PaymentStatus::Refunded),
        0x72 => Some(PaymentStatus::PartiallyRefunded),
        _ => None,
    }
}

/// Byte-wise equality of two byte strings.
pub fn bytes_equal(a: &Vec<u8>, b: &Vec<u8>) -> (r: bool)
    ensures
        r == (a@ == b@),
{
    if a.len() != b.len() {
        return false;
    }
    let mut i: usize = 0;
    while i < a.len()
        invariant
            a@.len() == b@.len(),
            i <= a@.len(),
            forall|k: int| 0 <= k < i ==> a@[k] == b@[k],
        decreases a@.len() - i,
    {
        if a[i] != b[i] {
            return false;
        }
        i = i + 1;
    }
    assert(a@ =~= b@);
    true
}

/// The reference connector: a processor that speaks the wire format above and
/// authenticates its webhooks with a shared secret sent beside the payload.
#[derive(Debug, Clone)]
pub struct ReferenceConnector {
    pub capabilities: Capabilities,
    pub webhook_secret: Vec<u8>,
}

impl ReferenceConnector {
    pub fn new(capabilities: Capabilities, webhook_secret: Vec<u8>) -> (r: Self)
        ensures
            r.capabilities == capabilities,
            r.webhook_secret@ == webhook_secret@,
    {
        ReferenceConnector { capabilities, webhook_secret }
    }

    pub fn supported_capabilities(&self) -> (r: Capabilities)
        ensures
            r == self.capabilities,
    {
        self.capabilities
    }

    /// Translates a canonical request into the connector's wire request; an
    /// operation the connector lacks is refused.
    pub fn build_request(&self, req: &CanonicalRequest) -> (r: Result<WireRequest, AdapterError>)
        ensures
            !self.capabilities.allows(req.operation) ==> r == Err::<WireRequest, AdapterError>(
                AdapterError::UnsupportedOperation,
            ),
            self.capabilities.allows(req.operation) ==> r == Ok::<WireRequest, AdapterError>(
                (WireRequest {
                    operation: req.operation,
                    amount: req.amount,
                    currency: req.currency,
                    idempotency_key: idempotency_key_of(req.intent_id, req.attempt_seq) as u128,
                }),
            ),
    {
        if !self.capabilities.supports(req.operation) {
            return Err(AdapterError::UnsupportedOperation);
        }
        Ok(
            WireRequest {
                operation: req.operation,
                amount: req.amount,
                currency: req.currency,
                idempotency_key: idempotency_key(req.intent_id, req.attempt_seq),
            },
        )
    }

    /// Classifies a raw response. A success without a reference, and every
    /// status not listed as retryable, is treated as permanent.
    pub fn parse_response(&self, raw: &RawResponse) -> (r: CanonicalResult)
        ensures
            r@ == classify(raw.http_status, raw.code, raw.reference@),
    {
        if raw.http_status == 200 && raw.reference.len() > 0 {
            CanonicalResult::Authorized(raw.reference.clone())
        } else if raw.http_status == 202 && raw.reference.len() > 0 {
            CanonicalResult::Pending(raw.reference.clone())
        } else if raw.http_status == 402 {
            CanonicalResult::Declined(raw.code)
        } else if matches!(raw.http_status, 408 | 429 | 500 | 502 | 503 | 504) {
            CanonicalResult::TransientError
        } else {
            CanonicalResult::PermanentError
        }
    }

    /// Checks the signature material, then reads the payload: one tag byte
    /// naming the new status, followed by the connector's transaction reference.
    pub fn verify_and_parse_webhook(&self, payload: &Vec<u8>, signature: &Vec<u8>) -> (r: Result<
        WebhookOutcome,
        AdapterError,
    >)
        ensures
            signature@ != self.webhook_secret@ ==> r == Err::<WebhookOutcome, AdapterError>(
                AdapterError::SignatureInvalid,
            ),
            signature@ == self.webhook_secret@ && (payload@.len() < 2 || tag_status(
                payload@[0],
            ).is_none()) ==> r == Err::<WebhookOutcome, AdapterError>(
                AdapterError::MalformedPayload,
            ),
            signature@ == self.webhook_secret@ && payload@.len() >= 2 && tag_status(
                payload@[0],
            ).is_some() ==> r is Ok && r->Ok_0.status == tag_status(payload@[0]).unwrap()
                && r->Ok_0.connector_reference@ == payload@.subrange(1, payload@.len() as int),
    {
        if !bytes_equal(signature, &self.webhook_secret) {
            return Err(AdapterError::SignatureInvalid);
        }
        if payload.len() < 2 {
            return Err(AdapterError::MalformedPayload);
        }
        match status_of_tag(payload[0]) {
            None => Err(AdapterError::MalformedPayload),
            Some(status) => {
                let mut reference: Vec<u8> = Vec::new();
                let mut i: usize = 1;
                while i < payload.len()
                    invariant
                        1 <= i <= payload@.len(),
                        reference@ == payload@.subrange(1, i as int),
                    decreases payload@.len() - i,
                {
                    reference.push(payload[i]);
                    i = i + 1;
                    assert(reference@ =~= payload@.subrange(1, i as int));
                }
                Ok(WebhookOutcome { status, connector_reference: reference })
            },
        }
    }
}

} // verus!
