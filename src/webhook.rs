use vstd::prelude::*;

use crate::adapter::{bytes_equal, AdapterError, ReferenceConnector, WebhookOutcome};
use crate::lifecycle::{
    apply_transition, next_status, transition_outcome, PaymentStatus, TransitionOutcome,
};
use crate::payment::{AttemptView, IntentView, PaymentIntent};

verus! {

/// What reconciling one webhook event did.
#[derive(Debug, Clone, Copy, PartialEq, Eq, Structural)]
pub enum WebhookEffect {
    /// The event names the attempt at this position; the guarded transition
    /// had this outcome (a `Duplicate` or `Rejected` one changed nothing).
    Matched(usize, TransitionOutcome),
    /// No attempt carries the event's connector reference (yet).
    Unmatched,
    /// The event failed verification or could not be read; nothing changed.
    Rejected(AdapterError),
}

/// Position of the first attempt from `k` on with the reference `r`, or the
/// number of attempts.
pub open spec fn find_ref(attempts: Seq<AttemptView>, r: Seq<u8>, k: int) -> int
    decreases attempts.len() - k,
{
    if k < 0 || k >= attempts.len() {
        attempts.len() as int
    } else if attempts[k].reference == Some(r) {
        k
    } else {
        find_ref(attempts, r, k + 1)
    }
}

/// The intent after a verified event announcing `to` for the attempt with
/// reference `r`, and the effect reported.
pub open spec fn after_webhook(v: IntentView, to: PaymentStatus, r: Seq<u8>) -> (IntentView, WebhookEffect) {
    let k = find_ref(v.attempts, r, 0);
    if k >= v.attempts.len() {
        (v, WebhookEffect::Unmatched)
    } else {
        let a = v.attempts[k];
        let out = transition_outcome(a.status, to);
        (
            IntentView {
                attempts: v.attempts.update(k, AttemptView { status: next_status(a.status, to), ..a }),
                status: if k == v.attempts.len() - 1 && out == TransitionOutcome::Applied {
                    to
                } else {
                    v.status
                },
                ..v
            },
            WebhookEffect::Matched(k as usize, out),
        )
    }
}

proof fn lemma_find_ref_bounds(attempts: Seq<AttemptView>, r: Seq<u8>, k: int)
    requires
        0 <= k <= attempts.len(),
    ensures
        k <= find_ref(attempts, r, k) <= attempts.len(),
        find_ref(attempts, r, k) < attempts.len() ==> attempts[find_ref(attempts, r, k)].reference
            == Some(r),
    decreases attempts.len() - k,
{
    if k < attempts.len() {
        lemma_find_ref_bounds(attempts, r, k + 1);
    }
}

proof fn lemma_find_ref_same_refs(a: Seq<AttemptView>, b: Seq<AttemptView>, r: Seq<u8>, k: int)
    requires
        a.len() == b.len(),
        forall|i: int| 0 <= i < a.len() ==> a[i].reference == b[i].reference,
    ensures
        find_ref(a, r, k) == find_ref(b, r, k),
    decreases a.len() - k,
{
    if 0 <= k < a.len() {
        lemma_find_ref_same_refs(a, b, r, k + 1);
    }
}

/// Reconciling the same event twice leaves the intent as reconciling it once.
pub proof fn lemma_webhook_idempotent(v: IntentView, to: PaymentStatus, r: Seq<u8>)
    ensures
        after_webhook(after_webhook(v, to, r).0, to, r).0 == after_webhook(v, to, r).0,
        match after_webhook(after_webhook(v, to, r).0, to, r).1 {
            WebhookEffect::Matched(_, out) => out != TransitionOutcome::Applied,
            _ => true,
        },
{
    let (v1, e1) = after_webhook(v, to, r);
    lemma_find_ref_bounds(v.attempts, r, 0);
    lemma_find_ref_same_refs(v.attempts, v1.attempts, r, 0);
    let k = find_ref(v.attempts, r, 0);
    if k < v.attempts.len() {
        let (v2, e2) = after_webhook(v1, to, r);
        assert(v2.attempts =~= v1.attempts);
    }
}

/// A well-formed intent stays well formed through reconciliation.
proof fn lemma_webhook_keeps_wf(v: IntentView, to: PaymentStatus, r: Seq<u8>)
    requires
        v.wf(),
    ensures
        after_webhook(v, to, r).0.wf(),
{
    lemma_find_ref_bounds(v.attempts, r, 0);
}

impl PaymentIntent {
    /// Position of the first attempt carrying the connector reference `r`.
    pub fn find_by_reference(&self, r: &Vec<u8>) -> (k: Option<usize>)
        ensures
            find_ref(self@.attempts, r@, 0) < self@.attempts.len() ==> k == Some(
                find_ref(self@.attempts, r@, 0) as usize,
            ),
            find_ref(self@.attempts, r@, 0) >= self@.attempts.len() ==> k is None,
    {
        let mut i: usize = 0;
        while i < self.attempts.len()
            invariant
                i <= self@.attempts.len(),
                find_ref(self@.attempts, r@, i as int) == find_ref(self@.attempts, r@, 0),
            decreases self@.attempts.len() - i,
        {
            let found = match &self.attempts[i].connector_reference {
                Some(x) => bytes_equal(x, r),
                None => false,
            };
            if found {
                return Some(i);
            }
            i = i + 1;
        }
        None
    }

    /// Applies a verified webhook event through the guarded transition of the
    /// lifecycle. A repeated or out-of-order event changes nothing.
    pub fn apply_webhook(&mut self, event: &WebhookOutcome) -> (r: WebhookEffect)
        requires
            old(self)@.wf(),
        ensures
            final(self)@.wf(),
            (final(self)@, r) == after_webhook(old(self)@, event.status, event.connector_reference@),
    {
        proof {
            lemma_find_ref_bounds(self@.attempts, event.connector_reference@, 0);
            lemma_webhook_keeps_wf(self@, event.status, event.connector_reference@);
        }
        match self.find_by_reference(&event.connector_reference) {
            None => WebhookEffect::Unmatched,
            Some(k) => {
                let ghost before = self.attempts@;
                let last = self.attempts.len() - 1;
                let out = apply_transition(&mut self.attempts[k].status, event.status);
                if k == last && out == TransitionOutcome::Applied {
                    self.status = event.status;
                }
                proof {
                    assert(self.attempts@ == before.update(k as int, self.attempts@[k as int]));
                    assert(self@.attempts =~= after_webhook(
                        old(self)@,
                        event.status,
                        event.connector_reference@,
                    ).0.attempts);
                }
                WebhookEffect::Matched(k, out)
            },
        }
    }

    /// Verifies and reads a raw event with the connector's adapter, then
    /// reconciles it. An event that fails verification changes nothing.
    pub fn handle_webhook(&mut self, connector: &ReferenceConnector, payload: &Vec<u8>, signature: &Vec<u8>) -> (r: WebhookEffect)
        requires
            old(self)@.wf(),
        ensures
            final(self)@.wf(),
            signature@ != connector.webhook_secret@ ==> r == WebhookEffect::Rejected(
                AdapterError::SignatureInvalid,
            ) && final(self)@ == old(self)@,
            signature@ == connector.webhook_secret@ && (payload@.len() < 2
                || crate::adapter::tag_status(payload@[0]).is_none()) ==> r
                == WebhookEffect::Rejected(AdapterError::MalformedPayload) && final(self)@ == old(
                self,
            )@,
            signature@ == connector.webhook_secret@ && payload@.len() >= 2
                && crate::adapter::tag_status(payload@[0]).is_some() ==> (final(self)@, r)
                == after_webhook(
                old(self)@,
                crate::adapter::tag_status(payload@[0]).unwrap(),
                payload@.subrange(1, payload@.len() as int),
            ),
    {
        match connector.verify_and_parse_webhook(payload, signature) {
            Err(e) => WebhookEffect::Rejected(e),
            Ok(event) => self.apply_webhook(&event),
        }
    }
}

/// What to do with an event that matched no attempt.
#[derive(Debug, Clone, Copy, PartialEq, Eq, Structural)]
pub enum RetryDecision {
    /// Queue it again, with this many retries left afterwards.
    RetryLater(u32),
    /// The retry budget is spent: drop it as unmatched.
    Discard,
}

/// Bounded retry of unmatched events: the attempt record may not be committed yet.
pub fn unmatched_retry(retries_left: u32) -> (r: RetryDecision)
    ensures
        retries_left > 0 ==> r == RetryDecision::RetryLater((retries_left - 1) as u32),
        retries_left == 0 ==> r == RetryDecision::Discard,
{
    if retries_left > 0 {
        RetryDecision::RetryLater(retries_left - 1)
    } else {
        RetryDecision::Discard
    }
}

} // verus!
