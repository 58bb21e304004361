use vstd::prelude::*;

use crate::adapter::{tag_status, AdapterError, ReferenceConnector};
use crate::lifecycle::PaymentStatus;
use crate::payment::{CaptureMethod, IntentView, PaymentIntent};
use crate::shutdown::{AdmissionError, GateState, ShutdownCoordinator};
use crate::webhook::{after_webhook, find_ref, WebhookEffect};

verus! {

/// The payment intents, each addressed by its position as a stable id.
#[derive(Debug, Clone)]
pub struct PaymentStore {
    pub intents: Vec<PaymentIntent>,
}

/// Position of the first intent from `k` on with an attempt carrying `r`, or
/// the number of intents.
pub open spec fn intent_with_ref(intents: Seq<IntentView>, r: Seq<u8>, k: int) -> int
    decreases intents.len() - k,
{
    if k < 0 || k >= intents.len() {
        intents.len() as int
    } else if find_ref(intents[k].attempts, r, 0) < intents[k].attempts.len() {
        k
    } else {
        intent_with_ref(intents, r, k + 1)
    }
}

impl View for PaymentStore {
    type V = Seq<IntentView>;

    open spec fn view(&self) -> Seq<IntentView> {
        self.intents@.map_values(|i: PaymentIntent| i@)
    }
}

impl PaymentStore {
    pub open spec fn wf(&self) -> bool {
        forall|k: int| 0 <= k < self@.len() ==> (#[trigger] self@[k]).wf() && self@[k].id == k
    }

    pub fn new() -> (r: Self)
        ensures
            r@ == Seq::<IntentView>::empty(),
            r.wf(),
    {
        let r = PaymentStore { intents: Vec::new() };
        assert(r@ =~= Seq::<IntentView>::empty());
        r
    }

    /// Creates an intent while admission is open; its id is its position.
    pub fn create_intent(&mut self, gate: &ShutdownCoordinator, amount: u64, currency: u16, capture_method: CaptureMethod) -> (r: Result<u64, AdmissionError>)
        requires
            old(self).wf(),
        ensures
            final(self).wf(),
            gate.state != GateState::Running ==> r == Err::<u64, AdmissionError>(
                AdmissionError::ServiceDraining,
            ) && final(self)@ == old(self)@,
            gate.state == GateState::Running ==> r == Ok::<u64, AdmissionError>(
                old(self)@.len() as u64,
            ) && final(self)@ == old(self)@.push(
                IntentView {
                    id: old(self)@.len() as u64,
                    amount,
                    currency,
                    capture_method,
                    status: PaymentStatus::Created,
                    attempts: Seq::empty(),
                },
            ),
    {
        if gate.state != GateState::Running {
            return Err(AdmissionError::ServiceDraining);
        }
        let id = self.intents.len() as u64;
        let intent = PaymentIntent::new(id, amount, currency, capture_method);
        self.intents.push(intent);
        assert(self@ =~= old(self)@.push(intent@));
        Ok(id)
    }

    /// Position of the first intent with an attempt carrying `r`.
    pub fn locate(&self, r: &Vec<u8>) -> (k: Option<usize>)
        ensures
            intent_with_ref(self@, r@, 0) < self@.len() ==> k == Some(
                intent_with_ref(self@, r@, 0) as usize,
            ),
            intent_with_ref(self@, r@, 0) >= self@.len() ==> k is None,
    {
        let mut i: usize = 0;
        while i < self.intents.len()
            invariant
                i <= self@.len(),
                intent_with_ref(self@, r@, i as int) == intent_with_ref(self@, r@, 0),
            decreases self@.len() - i,
        {
            if self.intents[i].find_by_reference(r).is_some() {
                return Some(i);
            }
            i = i + 1;
        }
        None
    }

    /// Verifies a raw event with the connector's adapter, finds the intent whose
    /// attempt it names, and reconciles it there. Returns that intent's id, if
    /// any, and the effect.
    pub fn reconcile_webhook(&mut self, connector: &ReferenceConnector, payload: &Vec<u8>, signature: &Vec<u8>) -> (r: (Option<usize>, WebhookEffect))
        requires
            old(self).wf(),
        ensures
            final(self).wf(),
            signature@ != connector.webhook_secret@ ==> r == (None::<usize>, WebhookEffect::Rejected(
                AdapterError::SignatureInvalid,
            )) && final(self)@ == old(self)@,
            signature@ == connector.webhook_secret@ && (payload@.len() < 2 || tag_status(
                payload@[0],
            ).is_none()) ==> r == (None::<usize>, WebhookEffect::Rejected(
                AdapterError::MalformedPayload,
            )) && final(self)@ == old(self)@,
            signature@ == connector.webhook_secret@ && payload@.len() >= 2 && tag_status(
                payload@[0],
            ).is_some() ==> ({
                let to = tag_status(payload@[0]).unwrap();
                let reference = payload@.subrange(1, payload@.len() as int);
                let k = intent_with_ref(old(self)@, reference, 0);
                if k < old(self)@.len() {
                    &&& r.0 == Some(k as usize)
                    &&& r.1 == after_webhook(old(self)@[k], to, reference).1
                    &&& final(self)@ == old(self)@.update(k, after_webhook(old(self)@[k], to, reference).0)
                } else {
                    r == (None::<usize>, WebhookEffect::Unmatched) && final(self)@ == old(self)@
                }
            }),
    {
        let event = match connector.verify_and_parse_webhook(payload, signature) {
            Err(e) => {
                return (None, WebhookEffect::Rejected(e));
            },
            Ok(event) => event,
        };
        match self.locate(&event.connector_reference) {
            None => (None, WebhookEffect::Unmatched),
            Some(k) => {
                let n = self.intents.len();
                proof {
                    lemma_intent_with_ref_bound(self@, event.connector_reference@, 0);
                    assert(self@.len() == n);
                }
                let ghost before = self.intents@;
                assert(self@[k as int].wf());
                let e = self.intents[k].apply_webhook(&event);
                proof {
                    assert(self.intents@ == before.update(k as int, self.intents@[k as int]));
                    assert(self@ =~= old(self)@.update(k as int, self.intents@[k as int]@));
                    assert forall|j: int| 0 <= j < self@.len() implies (#[trigger] self@[j]).wf()
                        && self@[j].id == j by {
                        if j != k {
                            assert(self@[j] == old(self)@[j]);
                        }
                    }
                    let w = after_webhook(old(self)@[k as int], event.status, event.connector_reference@);
                    assert(self@ == old(self)@.update(k as int, w.0));
                    assert(e == w.1);
                }
                (Some(k), e)
            },
        }
    }
}

proof fn lemma_intent_with_ref_bound(intents: Seq<IntentView>, r: Seq<u8>, k: int)
    requires
        0 <= k <= intents.len(),
    ensures
        k <= intent_with_ref(intents, r, k) <= intents.len(),
    decreases intents.len() - k,
{
    if k < intents.len() {
        lemma_intent_with_ref_bound(intents, r, k + 1);
    }
}

} // verus!
