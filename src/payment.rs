use vstd::prelude::*;

use crate::adapter::{CanonicalResult, CanonicalResultModel};
use crate::lifecycle::{is_pre_processing, PaymentStatus};

verus! {

#[derive(Debug, Clone, Copy, PartialEq, Eq, Structural)]
pub enum CaptureMethod {
    Automatic,
    Manual,
}

/// Why an attempt ended without success.
#[derive(Debug, Clone, Copy, PartialEq, Eq, Structural)]
pub enum FailureKind {
    /// The connector could not express the operation; no call was made.
    Unsupported,
    /// The call did not answer within its timeout.
    TimedOut,
    Transient,
    Permanent,
    Declined(u32),
}

/// One execution try against one connector.
#[derive(Debug, Clone)]
pub struct PaymentAttempt {
    pub seq: u64,
    pub connector_id: u64,
    pub status: PaymentStatus,
    pub connector_reference: Option<Vec<u8>>,
    pub failure: Option<FailureKind>,
}

pub ghost struct AttemptView {
    pub seq: u64,
    pub connector_id: u64,
    pub status: PaymentStatus,
    pub reference: Option<Seq<u8>>,
    pub failure: Option<FailureKind>,
}

impl View for PaymentAttempt {
    type V = AttemptView;

    open spec fn view(&self) -> AttemptView {
        AttemptView {
            seq: self.seq,
            connector_id: self.connector_id,
            status: self.status,
            reference: match self.connector_reference {
                Some(r) => Some(r@),
                None => None,
            },
            failure: self.failure,
        }
    }
}

/// A merchant's request for a payment outcome, with its attempts in
/// creation order.
#[derive(Debug, Clone)]
pub struct PaymentIntent {
    pub id: u64,
    pub amount: u64,
    pub currency: u16,
    pub capture_method: CaptureMethod,
    pub status: PaymentStatus,
    pub attempts: Vec<PaymentAttempt>,
}

pub ghost struct IntentView {
    pub id: u64,
    pub amount: u64,
    pub currency: u16,
    pub capture_method: CaptureMethod,
    pub status: PaymentStatus,
    pub attempts: Seq<AttemptView>,
}

impl View for PaymentIntent {
    type V = IntentView;

    open spec fn view(&self) -> IntentView {
        IntentView {
            id: self.id,
            amount: self.amount,
            currency: self.currency,
            capture_method: self.capture_method,
            status: self.status,
            attempts: self.attempts@.map_values(|a: PaymentAttempt| a@),
        }
    }
}

/// An attempt still waiting for its connector's final answer.
pub open spec fn in_flight(a: AttemptView) -> bool {
    a.status == PaymentStatus::Processing
}

impl IntentView {
    /// Attempts are numbered by position, none sits in a state before dispatch,
    /// and only the latest may be in flight.
    pub open spec fn wf(self) -> bool {
        &&& forall|i: int| 0 <= i < self.attempts.len() ==> self.attempts[i].seq == i
        &&& forall|i: int|
            0 <= i < self.attempts.len() ==> !is_pre_processing(#[trigger] self.attempts[i].status)
        &&& forall|i: int| 0 <= i < self.attempts.len() - 1 ==> !in_flight(#[trigger] self.attempts[i])
    }

    pub open spec fn has_in_flight(self) -> bool {
        self.attempts.len() > 0 && in_flight(self.attempts.last())
    }

    /// Whether a new attempt may be dispatched.
    pub open spec fn payable(self) -> bool {
        is_pre_processing(self.status) || self.status == PaymentStatus::Processing
    }
}

/// At most one attempt of a well-formed intent is in flight.
pub proof fn lemma_single_in_flight(v: IntentView, i: int, j: int)
    requires
        v.wf(),
        0 <= i < v.attempts.len(),
        0 <= j < v.attempts.len(),
        in_flight(v.attempts[i]),
        in_flight(v.attempts[j]),
    ensures
        i == j,
        i == v.attempts.len() - 1,
{
}

/// What the pipeline learned from one candidate.
#[derive(Debug, Clone, PartialEq, Eq)]
pub enum CallOutcome {
    /// `build_request` refused the operation.
    Unsupported,
    /// The call did not complete within the per-candidate timeout.
    TimedOut,
    /// The connector answered, classified by its adapter.
    Responded(CanonicalResult),
}

pub ghost enum OutcomeView {
    Unsupported,
    TimedOut,
    Responded(CanonicalResultModel),
}

impl View for CallOutcome {
    type V = OutcomeView;

    open spec fn view(&self) -> OutcomeView {
        match self {
            CallOutcome::Unsupported => OutcomeView::Unsupported,
            CallOutcome::TimedOut => OutcomeView::TimedOut,
            CallOutcome::Responded(r) => OutcomeView::Responded(r@),
        }
    }
}

/// Merchant policy for the pipeline.
#[derive(Debug, Clone, Copy, PartialEq, Eq, Structural)]
pub struct ExecutionPolicy {
    /// Whether a decline may move on to the next candidate. Off by default:
    /// a decline is a business answer, and retrying it risks a second
    /// authorisation of the same funds.
    pub fall_back_on_decline: bool,
}

/// What the pipeline does after recording an outcome.
#[derive(Debug, Clone, Copy, PartialEq, Eq, Structural)]
pub enum Step {
    /// Dispatch the next candidate.
    Continue,
    /// Stop; the intent now has this status.
    Finished(PaymentStatus),
}

#[derive(Debug, Clone, Copy, PartialEq, Eq, Structural)]
pub enum PipelineError {
    /// An attempt is already in flight: this is its position.
    AttemptInFlight(usize),
    /// The intent's status admits no new attempt.
    NotPayable,
    /// There is no in-flight attempt to record an outcome for.
    NoAttemptInFlight,
    /// The amount may change only before the first attempt.
    AmountLocked,
    /// The candidate list is empty.
    NoCandidates,
}

pub open spec fn success_status(cm: CaptureMethod) -> PaymentStatus {
    match cm {
        CaptureMethod::Automatic => PaymentStatus::Authorized,
        CaptureMethod::Manual => PaymentStatus::RequiresCapture,
    }
}

/// Whether the outcome sends the pipeline on to the next candidate.
pub open spec fn advances(o: OutcomeView, policy: ExecutionPolicy) -> bool {
    match o {
        OutcomeView::Unsupported | OutcomeView::TimedOut => true,
        OutcomeView::Responded(CanonicalResultModel::TransientError) => true,
        OutcomeView::Responded(CanonicalResultModel::Declined(_)) => policy.fall_back_on_decline,
        _ => false,
    }
}

/// The attempt once the outcome is recorded on it.
pub open spec fn settled(a: AttemptView, o: OutcomeView, cm: CaptureMethod) -> AttemptView {
    match o {
        OutcomeView::Unsupported => AttemptView {
            status: PaymentStatus::Failed,
            failure: Some(FailureKind::Unsupported),
            ..a
        },
        OutcomeView::TimedOut => AttemptView {
            status: PaymentStatus::Failed,
            failure: Some(FailureKind::TimedOut),
            ..a
        },
        OutcomeView::Responded(CanonicalResultModel::Authorized(r)) => AttemptView {
            status: success_status(cm),
            reference: Some(r),
            ..a
        },
        OutcomeView::Responded(CanonicalResultModel::Pending(r)) => AttemptView {
            reference: Some(r),
            ..a
        },
        OutcomeView::Responded(CanonicalResultModel::Declined(c)) => AttemptView {
            status: PaymentStatus::Failed,
            failure: Some(FailureKind::Declined(c)),
            ..a
        },
        OutcomeView::Responded(CanonicalResultModel::TransientError) => AttemptView {
            status: PaymentStatus::Failed,
            failure: Some(FailureKind::Transient),
            ..a
        },
        OutcomeView::Responded(CanonicalResultModel::PermanentError) => AttemptView {
            status: PaymentStatus::Failed,
            failure: Some(FailureKind::Permanent),
            ..a
        },
    }
}

/// The step taken after the outcome, `more` telling whether candidates remain.
pub open spec fn step_after(o: OutcomeView, policy: ExecutionPolicy, cm: CaptureMethod, more: bool) -> Step {
    if advances(o, policy) {
        if more {
            Step::Continue
        } else {
            Step::Finished(PaymentStatus::Failed)
        }
    } else {
        match o {
            OutcomeView::Responded(CanonicalResultModel::Authorized(_)) => Step::Finished(
                success_status(cm),
            ),
            OutcomeView::Responded(CanonicalResultModel::Pending(_)) => Step::Finished(
                PaymentStatus::Processing,
            ),
            _ => Step::Finished(PaymentStatus::Failed),
        }
    }
}

/// The intent after recording the outcome on its in-flight attempt.
pub open spec fn after_outcome(v: IntentView, o: OutcomeView, policy: ExecutionPolicy, more: bool) -> IntentView {
    let last = v.attempts.len() - 1;
    IntentView {
        status: match step_after(o, policy, v.capture_method, more) {
            Step::Continue => v.status,
            Step::Finished(s) => s,
        },
        attempts: v.attempts.update(last, settled(v.attempts[last], o, v.capture_method)),
        ..v
    }
}

/// The intent after a new attempt against `connector_id` is dispatched.
pub open spec fn after_begin(v: IntentView, connector_id: u64) -> IntentView {
    IntentView {
        status: PaymentStatus::Processing,
        attempts: v.attempts.push(
            AttemptView {
                seq: v.attempts.len() as u64,
                connector_id,
                status: PaymentStatus::Processing,
                reference: None,
                failure: None,
            },
        ),
        ..v
    }
}

proof fn lemma_view_push(s: Seq<PaymentAttempt>, a: PaymentAttempt)
    ensures
        s.push(a).map_values(|x: PaymentAttempt| x@) =~= s.map_values(|x: PaymentAttempt| x@).push(a@),
{
}

/// The run of the pipeline from candidate `i` on: dispatch it, record its
/// outcome, and go on while the step says so. Gives the intent, the last step
/// and how many candidates were tried in all.
pub open spec fn run_from(v: IntentView, cands: Seq<u64>, outs: Seq<OutcomeView>, policy: ExecutionPolicy, i: int) -> (IntentView, Step, int)
    decreases cands.len() - i,
{
    if i < 0 || i >= cands.len() {
        (v, Step::Continue, i)
    } else {
        let more = i + 1 < cands.len();
        let v2 = after_outcome(after_begin(v, cands[i]), outs[i], policy, more);
        let step = step_after(outs[i], policy, v.capture_method, more);
        if step == Step::Continue {
            run_from(v2, cands, outs, policy, i + 1)
        } else {
            (v2, step, i + 1)
        }
    }
}

pub open spec fn outcome_views(outs: Seq<CallOutcome>) -> Seq<OutcomeView> {
    outs.map_values(|o: CallOutcome| o@)
}

/// When every candidate answers with a transient error, each is tried once and
/// the intent fails.
pub proof fn lemma_all_transient_fails(v: IntentView, cands: Seq<u64>, outs: Seq<OutcomeView>, policy: ExecutionPolicy, i: int)
    requires
        0 <= i < cands.len(),
        outs.len() >= cands.len(),
        forall|j: int| i <= j < cands.len() ==> outs[j] == OutcomeView::Responded(
            CanonicalResultModel::TransientError,
        ),
    ensures
        run_from(v, cands, outs, policy, i).0.status == PaymentStatus::Failed,
        run_from(v, cands, outs, policy, i).0.attempts.len() == v.attempts.len() + cands.len() - i,
        run_from(v, cands, outs, policy, i).1 == Step::Finished(PaymentStatus::Failed),
        run_from(v, cands, outs, policy, i).2 == cands.len(),
    decreases cands.len() - i,
{
    if i + 1 < cands.len() {
        lemma_all_transient_fails(
            after_outcome(after_begin(v, cands[i]), outs[i], policy, true),
            cands,
            outs,
            policy,
            i + 1,
        );
    }
}

/// A decline from the first candidate ends the run with one attempt, unless the
/// policy allows falling back on a decline.
pub proof fn lemma_decline_stops(v: IntentView, cands: Seq<u64>, outs: Seq<OutcomeView>, policy: ExecutionPolicy)
    requires
        cands.len() > 0,
        outs.len() >= cands.len(),
        outs[0] is Responded && outs[0]->Responded_0 is Declined,
        !policy.fall_back_on_decline,
    ensures
        run_from(v, cands, outs, policy, 0).0.attempts.len() == v.attempts.len() + 1,
        run_from(v, cands, outs, policy, 0).0.status == PaymentStatus::Failed,
        run_from(v, cands, outs, policy, 0).2 == 1,
{
}

fn copy_bytes(b: &Vec<u8>) -> (r: Vec<u8>)
    ensures
        r@ == b@,
{
    b.clone()
}

fn copy_outcome(o: &CallOutcome) -> (r: CallOutcome)
    ensures
        r@ == o@,
{
    match o {
        CallOutcome::Unsupported => CallOutcome::Unsupported,
        CallOutcome::TimedOut => CallOutcome::TimedOut,
        CallOutcome::Responded(CanonicalResult::Authorized(r)) => CallOutcome::Responded(
            CanonicalResult::Authorized(copy_bytes(r)),
        ),
        CallOutcome::Responded(CanonicalResult::Pending(r)) => CallOutcome::Responded(
            CanonicalResult::Pending(copy_bytes(r)),
        ),
        CallOutcome::Responded(CanonicalResult::Declined(c)) => CallOutcome::Responded(
            CanonicalResult::Declined(*c),
        ),
        CallOutcome::Responded(CanonicalResult::TransientError) => CallOutcome::Responded(
            CanonicalResult::TransientError,
        ),
        CallOutcome::Responded(CanonicalResult::PermanentError) => CallOutcome::Responded(
            CanonicalResult::PermanentError,
        ),
    }
}

impl PaymentIntent {
    pub fn new(id: u64, amount: u64, currency: u16, capture_method: CaptureMethod) -> (r: Self)
        ensures
            r@ == (IntentView {
                id,
                amount,
                currency,
                capture_method,
                status: PaymentStatus::Created,
                attempts: Seq::empty(),
            }),
            r@.wf(),
    {
        let r = PaymentIntent {
            id,
            amount,
            currency,
            capture_method,
            status: PaymentStatus::Created,
            attempts: Vec::new(),
        };
        assert(r@.attempts =~= Seq::empty());
        r
    }

    /// Changes the amount; refused once an attempt exists.
    pub fn adjust_amount(&mut self, amount: u64) -> (r: Result<(), PipelineError>)
        ensures
            old(self)@.attempts.len() == 0 ==> r is Ok && final(self)@ == (IntentView {
                amount,
                ..old(self)@
            }),
            old(self)@.attempts.len() > 0 ==> r == Err::<(), PipelineError>(
                PipelineError::AmountLocked,
            ) && final(self)@ == old(self)@,
    {
        if self.attempts.len() > 0 {
            return Err(PipelineError::AmountLocked);
        }
        self.amount = amount;
        Ok(())
    }

    /// Whether the intent's attempts are numbered by position, none is in a
    /// state before dispatch, and only the latest may be in flight.
    pub fn is_well_formed(&self) -> (r: bool)
        ensures
            r == self@.wf(),
    {
        let n = self.attempts.len();
        let mut i: usize = 0;
        while i < n
            invariant
                n == self@.attempts.len(),
                i <= n,
                forall|k: int| 0 <= k < i ==> self@.attempts[k].seq == k,
                forall|k: int| 0 <= k < i ==> !is_pre_processing(#[trigger] self@.attempts[k].status),
                forall|k: int| 0 <= k < i && k < n - 1 ==> !in_flight(#[trigger] self@.attempts[k]),
            decreases n - i,
        {
            let a = &self.attempts[i];
            assert(self@.attempts[i as int] == a@);
            if a.seq != i as u64 {
                return false;
            }
            if matches!(
                a.status,
                PaymentStatus::Created | PaymentStatus::RequiresPaymentMethod
                    | PaymentStatus::RequiresConfirmation
            ) {
                assert(is_pre_processing(self@.attempts[i as int].status));
                return false;
            }
            if i + 1 < n && a.status == PaymentStatus::Processing {
                return false;
            }
            i = i + 1;
        }
        true
    }

    /// Position of the in-flight attempt, if there is one.
    pub fn in_flight_attempt(&self) -> (r: Option<usize>)
        ensures
            self@.has_in_flight() ==> r == Some((self@.attempts.len() - 1) as usize),
            !self@.has_in_flight() ==> r is None,
    {
        let n = self.attempts.len();
        if n > 0 && self.attempts[n - 1].status == PaymentStatus::Processing {
            Some(n - 1)
        } else {
            None
        }
    }

    /// Dispatches a new attempt against `connector_id`. While an attempt is in
    /// flight no second one is made: its position is returned as the error.
    pub fn begin_attempt(&mut self, connector_id: u64) -> (r: Result<usize, PipelineError>)
        requires
            old(self)@.wf(),
        ensures
            final(self)@.wf(),
            old(self)@.has_in_flight() ==> r == Err::<usize, PipelineError>(
                PipelineError::AttemptInFlight((old(self)@.attempts.len() - 1) as usize),
            ) && final(self)@ == old(self)@,
            !old(self)@.has_in_flight() && !old(self)@.payable() ==> r == Err::<
                usize,
                PipelineError,
            >(PipelineError::NotPayable) && final(self)@ == old(self)@,
            !old(self)@.has_in_flight() && old(self)@.payable() ==> r == Ok::<usize, PipelineError>(
                old(self)@.attempts.len() as usize,
            ) && final(self)@ == after_begin(old(self)@, connector_id),
    {
        if let Some(k) = self.in_flight_attempt() {
            return Err(PipelineError::AttemptInFlight(k));
        }
        if !matches!(
            self.status,
            PaymentStatus::Created | PaymentStatus::RequiresPaymentMethod
                | PaymentStatus::RequiresConfirmation | PaymentStatus::Processing
        ) {
            return Err(PipelineError::NotPayable);
        }
        let n = self.attempts.len();
        let a = PaymentAttempt {
            seq: n as u64,
            connector_id,
            status: PaymentStatus::Processing,
            connector_reference: None,
            failure: None,
        };
        proof {
            lemma_view_push(self.attempts@, a);
        }
        self.attempts.push(a);
        self.status = PaymentStatus::Processing;
        assert(self@ =~= after_begin(old(self)@, connector_id));
        Ok(n)
    }

    /// Records the outcome of the in-flight attempt and decides the next step;
    /// `more` tells whether untried candidates remain.
    pub fn record_outcome(&mut self, outcome: CallOutcome, policy: ExecutionPolicy, more: bool) -> (r: Result<Step, PipelineError>)
        requires
            old(self)@.wf(),
        ensures
            final(self)@.wf(),
            !old(self)@.has_in_flight() ==> r == Err::<Step, PipelineError>(
                PipelineError::NoAttemptInFlight,
            ) && final(self)@ == old(self)@,
            old(self)@.has_in_flight() ==> r == Ok::<Step, PipelineError>(
                step_after(outcome@, policy, old(self)@.capture_method, more),
            ) && final(self)@ == after_outcome(old(self)@, outcome@, policy, more),
    {
        let n = self.attempts.len();
        if n == 0 || self.attempts[n - 1].status != PaymentStatus::Processing {
            return Err(PipelineError::NoAttemptInFlight);
        }
        let ghost o = outcome@;
        let advance = match &outcome {
            CallOutcome::Unsupported | CallOutcome::TimedOut => true,
            CallOutcome::Responded(CanonicalResult::TransientError) => true,
            CallOutcome::Responded(CanonicalResult::Declined(_)) => policy.fall_back_on_decline,
            _ => false,
        };
        let success = match self.capture_method {
            CaptureMethod::Automatic => PaymentStatus::Authorized,
            CaptureMethod::Manual => PaymentStatus::RequiresCapture,
        };
        let step = if advance {
            if more {
                Step::Continue
            } else {
                Step::Finished(PaymentStatus::Failed)
            }
        } else {
            match &outcome {
                CallOutcome::Responded(CanonicalResult::Authorized(_)) => Step::Finished(success),
                CallOutcome::Responded(CanonicalResult::Pending(_)) => Step::Finished(
                    PaymentStatus::Processing,
                ),
                _ => Step::Finished(PaymentStatus::Failed),
            }
        };
        let ghost before = self.attempts@;
        let a = &mut self.attempts[n - 1];
        match outcome {
            CallOutcome::Unsupported => {
                a.status = PaymentStatus::Failed;
                a.failure = Some(FailureKind::Unsupported);
            },
            CallOutcome::TimedOut => {
                a.status = PaymentStatus::Failed;
                a.failure = Some(FailureKind::TimedOut);
            },
            CallOutcome::Responded(CanonicalResult::Authorized(reference)) => {
                a.status = success;
                a.connector_reference = Some(reference);
            },
            CallOutcome::Responded(CanonicalResult::Pending(reference)) => {
                a.connector_reference = Some(reference);
            },
            CallOutcome::Responded(CanonicalResult::Declined(code)) => {
                a.status = PaymentStatus::Failed;
                a.failure = Some(FailureKind::Declined(code));
            },
            CallOutcome::Responded(CanonicalResult::TransientError) => {
                a.status = PaymentStatus::Failed;
                a.failure = Some(FailureKind::Transient);
            },
            CallOutcome::Responded(CanonicalResult::PermanentError) => {
                a.status = PaymentStatus::Failed;
                a.failure = Some(FailureKind::Permanent);
            },
        }
        if let Step::Finished(s) = step {
            self.status = s;
        }
        proof {
            let last = n - 1;
            assert(self.attempts@ == before.update(last, self.attempts@[last]));
            assert(self@.attempts =~= old(self)@.attempts.update(
                last,
                settled(old(self)@.attempts[last], o, old(self)@.capture_method),
            ));
        }
        Ok(step)
    }

    /// Drives the intent through the candidates in order, the `i`-th
    /// candidate's call having ended with `outcomes[i]`, until a step finishes
    /// the run. Returns that step and how many candidates were tried.
    pub fn execute(&mut self, candidates: &Vec<u64>, outcomes: &Vec<CallOutcome>, policy: ExecutionPolicy) -> (r: Result<(Step, usize), PipelineError>)
        requires
            old(self)@.wf(),
            outcomes@.len() >= candidates@.len(),
        ensures
            final(self)@.wf(),
            candidates@.len() == 0 ==> r == Err::<(Step, usize), PipelineError>(
                PipelineError::NoCandidates,
            ) && final(self)@ == old(self)@,
            candidates@.len() > 0 && old(self)@.has_in_flight() ==> r == Err::<
                (Step, usize),
                PipelineError,
            >(PipelineError::AttemptInFlight((old(self)@.attempts.len() - 1) as usize))
                && final(self)@ == old(self)@,
            candidates@.len() > 0 && !old(self)@.has_in_flight() && !old(self)@.payable() ==> r
                == Err::<(Step, usize), PipelineError>(PipelineError::NotPayable) && final(self)@
                == old(self)@,
            candidates@.len() > 0 && !old(self)@.has_in_flight() && old(self)@.payable() ==> ({
                let run = run_from(old(self)@, candidates@, outcome_views(outcomes@), policy, 0);
                r == Ok::<(Step, usize), PipelineError>((run.1, run.2 as usize)) && final(self)@
                    == run.0
            }),
    {
        if candidates.len() == 0 {
            return Err(PipelineError::NoCandidates);
        }
        let ghost outs = outcome_views(outcomes@);
        let n = candidates.len();
        let mut i: usize = 0;
        loop
            invariant
                self@.wf(),
                n == candidates@.len(),
                i > 0 ==> !old(self)@.has_in_flight() && old(self)@.payable(),
                0 <= i < candidates@.len(),
                outcomes@.len() >= candidates@.len(),
                outs == outcome_views(outcomes@),
                i > 0 ==> !self@.has_in_flight() && self@.payable(),
                i == 0 ==> self@ == old(self)@,
                run_from(self@, candidates@, outs, policy, i as int) == run_from(
                    old(self)@,
                    candidates@,
                    outs,
                    policy,
                    0,
                ),
            decreases candidates@.len() - i,
        {
            let k = self.begin_attempt(candidates[i]);
            if let Err(e) = k {
                return Err(e);
            }
            let o = copy_outcome(&outcomes[i]);
            assert(o@ == outs[i as int]);
            let more = i + 1 < n;
            let step = self.record_outcome(o, policy, more);
            match step {
                Ok(Step::Continue) => {
                    i = i + 1;
                },
                Ok(st) => {
                    return Ok((st, i + 1));
                },
                Err(e) => {
                    return Err(e);
                },
            }
        }
    }
}

} // verus!
