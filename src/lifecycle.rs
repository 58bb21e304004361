use vstd::prelude::*;

verus! {

/// Canonical lifecycle status shared by payment intents and payment attempts.
#[derive(Debug, Clone, Copy, PartialEq, Eq, Structural)]
pub enum PaymentStatus {
    Created,
    RequiresPaymentMethod,
    RequiresConfirmation,
    Processing,
    Authorized,
    RequiresCapture,
    Captured,
    PartiallyCaptured,
    Settled,
    Failed,
    Cancelled,
    Refunded,
    PartiallyRefunded,
}

/// States before any connector has been dispatched.
pub open spec fn is_pre_processing(s: PaymentStatus) -> bool {
    s == PaymentStatus::Created || s == PaymentStatus::RequiresPaymentMethod
        || s == PaymentStatus::RequiresConfirmation
}

/// States in which funds have been (at least partly) captured.
pub open spec fn is_post_capture(s: PaymentStatus) -> bool {
    s == PaymentStatus::Captured || s == PaymentStatus::PartiallyCaptured
        || s == PaymentStatus::Settled || s == PaymentStatus::PartiallyRefunded
}

/// States with no way out.
pub open spec fn is_terminal(s: PaymentStatus) -> bool {
    s == PaymentStatus::Failed || s == PaymentStatus::Cancelled || s == PaymentStatus::Refunded
}

/// Non-terminal states in which no capture has happened yet.
pub open spec fn is_pre_capture(s: PaymentStatus) -> bool {
    is_pre_processing(s) || s == PaymentStatus::Processing || s == PaymentStatus::Authorized
        || s == PaymentStatus::RequiresCapture
}

/// The edges of the lifecycle graph (a self-loop is never an edge).
pub open spec fn edge(from: PaymentStatus, to: PaymentStatus) -> bool {
    match to {
        PaymentStatus::Created => false,
        PaymentStatus::RequiresPaymentMethod => from == PaymentStatus::Created,
        PaymentStatus::RequiresConfirmation => from == PaymentStatus::Created || from
            == PaymentStatus::RequiresPaymentMethod,
        PaymentStatus::Processing => is_pre_processing(from),
        PaymentStatus::Authorized => from == PaymentStatus::Processing,
        PaymentStatus::RequiresCapture => from == PaymentStatus::Processing || from
            == PaymentStatus::Authorized,
        PaymentStatus::Captured | PaymentStatus::PartiallyCaptured => from
            == PaymentStatus::Processing || from == PaymentStatus::Authorized || from
            == PaymentStatus::RequiresCapture || (from == PaymentStatus::PartiallyCaptured && to
            == PaymentStatus::Captured),
        PaymentStatus::Settled => from == PaymentStatus::Captured || from
            == PaymentStatus::PartiallyCaptured,
        PaymentStatus::Failed => from == PaymentStatus::Processing,
        PaymentStatus::Cancelled => is_pre_capture(from),
        PaymentStatus::Refunded => is_post_capture(from),
        PaymentStatus::PartiallyRefunded => is_post_capture(from) && from
            != PaymentStatus::PartiallyRefunded,
    }
}

/// What a guarded transition did.
#[derive(Debug, Clone, Copy, PartialEq, Eq, Structural)]
pub enum TransitionOutcome {
    /// The status moved along an edge of the lifecycle graph.
    Applied,
    /// The status already was the target: a repeated signal, nothing to do.
    Duplicate,
    /// No edge leads from the current status to the target: ignored.
    Rejected,
}

/// The outcome of asking to move from `from` to `to`.
pub open spec fn transition_outcome(from: PaymentStatus, to: PaymentStatus) -> TransitionOutcome {
    if from == to {
        TransitionOutcome::Duplicate
    } else if edge(from, to) {
        TransitionOutcome::Applied
    } else {
        TransitionOutcome::Rejected
    }
}

/// The status after asking to move from `from` to `to`.
pub open spec fn next_status(from: PaymentStatus, to: PaymentStatus) -> PaymentStatus {
    if edge(from, to) {
        to
    } else {
        from
    }
}

pub fn is_terminal_status(s: PaymentStatus) -> (r: bool)
    ensures
        r == is_terminal(s),
{
    matches!(s, PaymentStatus::Failed | PaymentStatus::Cancelled | PaymentStatus::Refunded)
}

fn is_post_capture_status(s: PaymentStatus) -> (r: bool)
    ensures
        r == is_post_capture(s),
{
    matches!(
        s,
        PaymentStatus::Captured | PaymentStatus::PartiallyCaptured | PaymentStatus::Settled
            | PaymentStatus::PartiallyRefunded
    )
}

fn is_pre_processing_status(s: PaymentStatus) -> (r: bool)
    ensures
        r == is_pre_processing(s),
{
    matches!(
        s,
        PaymentStatus::Created | PaymentStatus::RequiresPaymentMethod
            | PaymentStatus::RequiresConfirmation
    )
}

/// Whether the lifecycle graph has an edge from `from` to `to`.
pub fn is_edge(from: PaymentStatus, to: PaymentStatus) -> (r: bool)
    ensures
        r == edge(from, to),
{
    match to {
        PaymentStatus::Created => false,
        PaymentStatus::RequiresPaymentMethod => from == PaymentStatus::Created,
        PaymentStatus::RequiresConfirmation => matches!(
            from,
            PaymentStatus::Created | PaymentStatus::RequiresPaymentMethod
        ),
        PaymentStatus::Processing => is_pre_processing_status(from),
        PaymentStatus::Authorized => from == PaymentStatus::Processing,
        PaymentStatus::RequiresCapture => matches!(
            from,
            PaymentStatus::Processing | PaymentStatus::Authorized
        ),
        PaymentStatus::Captured | PaymentStatus::PartiallyCaptured => {
            matches!(
                from,
                PaymentStatus::Processing | PaymentStatus::Authorized
                    | PaymentStatus::RequiresCapture
            ) || (from == PaymentStatus::PartiallyCaptured && to == PaymentStatus::Captured)
        },
        PaymentStatus::Settled => matches!(
            from,
            PaymentStatus::Captured | PaymentStatus::PartiallyCaptured
        ),
        PaymentStatus::Failed => from == PaymentStatus::Processing,
        PaymentStatus::Cancelled => is_pre_processing_status(from) || matches!(
            from,
            PaymentStatus::Processing | PaymentStatus::Authorized
                | PaymentStatus::RequiresCapture
        ),
        PaymentStatus::Refunded => is_post_capture_status(from),
        PaymentStatus::PartiallyRefunded => is_post_capture_status(from) && from
            != PaymentStatus::PartiallyRefunded,
    }
}

/// Guarded transition: moves `status` to `to` along an edge of the lifecycle
/// graph; a repeated target or a move with no edge leaves it as it was.
pub fn apply_transition(status: &mut PaymentStatus, to: PaymentStatus) -> (r: TransitionOutcome)
    ensures
        r == transition_outcome(*old(status), to),
        *final(status) == next_status(*old(status), to),
{
    if *status == to {
        TransitionOutcome::Duplicate
    } else if is_edge(*status, to) {
        *status = to;
        TransitionOutcome::Applied
    } else {
        TransitionOutcome::Rejected
    }
}

/// A terminal status has no outgoing edge.
pub proof fn lemma_terminal_is_final(s: PaymentStatus, t: PaymentStatus)
    requires
        is_terminal(s),
    ensures
        !edge(s, t),
        next_status(s, t) == s,
{
}

/// Asking for the same target twice leaves the status where asking once did,
/// and the second request is never applied.
pub proof fn lemma_transition_idempotent(s: PaymentStatus, t: PaymentStatus)
    ensures
        next_status(next_status(s, t), t) == next_status(s, t),
        transition_outcome(next_status(s, t), t) != TransitionOutcome::Applied,
{
}

} // verus!
