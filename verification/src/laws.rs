use vstd::prelude::*;
use crate::errors::{
    FailReason, NoteError, PipelineFailure, Stage, SwapError, ValidationError, OracleError,
};
use crate::note::{Note, NoteView, valid_note};
use crate::oracle::OracleRate;
use crate::service::{Event, Operation, Session, StepResult, start_refusal, step_spec};

verus! {

/// Law: a note written by a completed creation is the note read back.
/// Whenever an `Add` run takes its final, successful step — the bridge
/// redemption came back with a ticket — the store afterwards holds exactly
/// the submitted note under the caller's key, so a following read of that
/// key yields a note equal to the input.
pub proof fn law_add_complete_then_get(
    s: Session,
    m0: Map<(Seq<u8>, u64), NoteView>,
    ticket: String,
    r: StepResult,
    m1: Map<(Seq<u8>, u64), NoteView>,
    id: u64,
    note: Note,
)
    requires
        s.op == (Operation::Add { id, note }),
        step_spec(s, m0, Event::Redeem(Ok(ticket)), r, m1),
    ensures
        m1.contains_key((s.caller@, id)),
        m1[(s.caller@, id)] == note@,
        r == StepResult::Done(Ok((crate::service::Outcome::NoteWritten { note, ticket }))),
{
}

/// Law: a zero note id is refused as a validation error whatever the
/// store, the quote — and the balance, which a refused run never reads.
pub proof fn law_zero_id_always_refused(
    m: Map<(Seq<u8>, u64), NoteView>,
    caller: Seq<u8>,
    note: Note,
    quote: Result<OracleRate, OracleError>,
)
    ensures
        start_refusal(m, caller, (Operation::Add { id: 0, note }), quote) == Some(
            NoteError::Validation(ValidationError::ZeroKey),
        ),
{
}

/// Law: a blank title is refused as a validation error before any
/// external call — in particular the balance gateway is never queried,
/// since a refused run hands the driver no action at all.
pub proof fn law_blank_title_refused_locally(
    m: Map<(Seq<u8>, u64), NoteView>,
    caller: Seq<u8>,
    id: u64,
    note: Note,
    quote: Result<OracleRate, OracleError>,
)
    requires
        id != 0,
        !valid_note(note@),
    ensures
        start_refusal(m, caller, (Operation::Add { id, note }), quote) == Some(
            NoteError::Validation(ValidationError::EmptyField),
        ),
{
}

/// Law: creating under an occupied key is refused as a duplicate, so the
/// store keeps the first note — a refused run is handed no action and the
/// opening step leaves the store untouched by construction.
pub proof fn law_duplicate_add_refused(
    m: Map<(Seq<u8>, u64), NoteView>,
    caller: Seq<u8>,
    id: u64,
    note: Note,
    quote: Result<OracleRate, OracleError>,
)
    requires
        id != 0,
        valid_note(note@),
        m.contains_key((caller, id)),
    ensures
        start_refusal(m, caller, (Operation::Add { id, note }), quote) == Some(
            NoteError::Validation(ValidationError::DuplicateKey),
        ),
{
}

/// Law: a verified balance below the required amount ends the run at the
/// funds-verification stage: no charge is issued — the run is done, with
/// no further action — and the store is exactly as it was.
pub proof fn law_insufficient_balance_aborts(
    s: Session,
    m0: Map<(Seq<u8>, u64), NoteView>,
    b: u64,
    r: StepResult,
    m1: Map<(Seq<u8>, u64), NoteView>,
)
    requires
        b < s.required,
        step_spec(s, m0, Event::Balance(Ok(b)), r, m1),
    ensures
        m1 == m0,
        r == StepResult::Done(
            Err(
                NoteError::Pipeline(
                    (PipelineFailure {
                        stage: Stage::FundsVerified,
                        reason: FailReason::InsufficientFunds,
                    }),
                ),
            ),
        ),
{
}

/// Law: a swap failure after a successful charge ends the run tagged at
/// the swap stage — funds have left the caller but the store is exactly
/// as it was, so no note is written for a settlement that did not finish.
pub proof fn law_swap_failure_keeps_store(
    s: Session,
    m0: Map<(Seq<u8>, u64), NoteView>,
    se: SwapError,
    r: StepResult,
    m1: Map<(Seq<u8>, u64), NoteView>,
)
    requires
        step_spec(s, m0, Event::Swap(Err(se)), r, m1),
    ensures
        m1 == m0,
        r == StepResult::Done(
            Err(
                NoteError::Pipeline(
                    (PipelineFailure { stage: Stage::Swapped, reason: FailReason::Swap(se) }),
                ),
            ),
        ),
{
}

/// Law: deleting a note the caller does not have is refused before any
/// external call — the balance gateway is never invoked for it, and
/// removal happens only after a settlement that was never opened.
pub proof fn law_delete_missing_refused(
    m: Map<(Seq<u8>, u64), NoteView>,
    caller: Seq<u8>,
    id: u64,
    quote: Result<OracleRate, OracleError>,
)
    requires
        !m.contains_key((caller, id)),
    ensures
        start_refusal(m, caller, (Operation::Delete { id }), quote) == Some(NoteError::NoteNotFound),
{
}

/// Law: only a successful redemption — the pipeline's last stage — ever
/// writes the store; every reply that ends the run in failure leaves it
/// exactly as it was.
pub proof fn law_failures_leave_store(
    s: Session,
    m0: Map<(Seq<u8>, u64), NoteView>,
    e: Event,
    r: StepResult,
    m1: Map<(Seq<u8>, u64), NoteView>,
)
    requires
        step_spec(s, m0, e, r, m1),
        !(e matches Event::Redeem(reply) && reply is Ok),
    ensures
        m1 == m0,
{
}

} // verus!
