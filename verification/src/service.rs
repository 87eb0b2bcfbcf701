use vstd::prelude::*;
use crate::errors::{
    FailReason, LedgerError, NoteError, PipelineFailure, Stage, SwapError, BridgeError,
    ValidationError,
};
use crate::note::{Note, NoteView, valid_note, check_note_valid};
use crate::oracle::{OracleRate, quote_outcome};
use crate::oracle::settlement_floor;
use crate::errors::OracleError;
use crate::owner::OwnerId;
use crate::store::NoteStore;
use crate::textfmt::{deleted_message, format_deleted};
use crate::{COST_PER_NOTE, FEE_PER_NOTE, LEDGER_TRANSFER_FEE, required_payment};

verus! {

/// One paid, store-mutating request.
pub enum Operation {
    Add { id: u64, note: Note },
    Update { id: u64, note: Note },
    Delete { id: u64 },
}

/// Where a settlement run stands: which external reply it waits for.
#[derive(Clone, Copy, PartialEq, Eq, Structural, Debug)]
pub enum Phase {
    /// The balance query is out; funds are not yet verified.
    AwaitBalance,
    /// Funds verified; the charge is out.
    AwaitCharge,
    /// Charged; the swap order is out.
    AwaitSwap,
    /// Swapped; the bridge redemption is out.
    AwaitRedeem,
}

/// The next external call the driver must perform for a settlement run.
#[derive(Clone, Copy, PartialEq, Eq, Structural, Debug)]
pub enum Action {
    /// Query the caller's spendable balance at the ledger.
    QueryBalance,
    /// Pull-transfer `amount` from the caller, at the flat ledger fee.
    Charge { amount: u64, fee: u64 },
    /// Swap `amount_in` source units, refusing less than `min_output` out.
    Swap { amount_in: u64, min_output: u64 },
    /// Redeem `amount` bridge units to the configured external address.
    Redeem { amount: u64 },
}

/// One external reply, handed back to the state machine by the driver.
pub enum Event {
    /// The ledger's answer to the balance query.
    Balance(Result<u64, LedgerError>),
    /// The ledger's answer to the charge: a transfer id, or the failure.
    Charge(Result<u64, LedgerError>),
    /// The swap venue's answer: the output amount, or the failure.
    Swap(Result<u64, SwapError>),
    /// The bridge's answer: the tracking ticket, or the failure.
    Redeem(Result<String, BridgeError>),
}

impl Event {
    /// Which phase this reply answers.
    pub open spec fn answers(&self, p: Phase) -> bool {
        match self {
            Event::Balance(_) => p is AwaitBalance,
            Event::Charge(_) => p is AwaitCharge,
            Event::Swap(_) => p is AwaitSwap,
            Event::Redeem(_) => p is AwaitRedeem,
        }
    }
}

/// What a completed request hands back to the caller.
pub enum Outcome {
    /// The written note and the redemption ticket, for a create or update.
    NoteWritten { note: Note, ticket: String },
    /// The confirmation for a deletion.
    Deleted { id: u64, message: String },
}

/// What one step of the machine yields: the run goes on with another
/// external call, or it is over.
pub enum StepResult {
    Next(Session, Action),
    Done(Result<Outcome, NoteError>),
}

/// One in-flight paid request: the settlement state machine's state.
/// Created by [`Session::start`], advanced by [`Session::step`]; the store
/// is touched only when the last stage succeeds.
pub struct Session {
    pub caller: OwnerId,
    pub op: Operation,
    pub required: u64,
    pub min_output: u64,
    pub phase: Phase,
}

/// The local checks a request must pass before any external call, in the
/// order they are made, and what each failure is reported as.
pub open spec fn validation_of(
    m: Map<(Seq<u8>, u64), NoteView>,
    caller: Seq<u8>,
    op: Operation,
) -> Option<NoteError> {
    match op {
        Operation::Add { id, note } => if id == 0 {
            Some(NoteError::Validation(ValidationError::ZeroKey))
        } else if !valid_note(note@) {
            Some(NoteError::Validation(ValidationError::EmptyField))
        } else if m.contains_key((caller, id)) {
            Some(NoteError::Validation(ValidationError::DuplicateKey))
        } else {
            None
        },
        Operation::Update { id, .. } => if !m.contains_key((caller, id)) {
            Some(NoteError::NoteNotFound)
        } else {
            None
        },
        Operation::Delete { id } => if !m.contains_key((caller, id)) {
            Some(NoteError::NoteNotFound)
        } else {
            None
        },
    }
}

/// Why a request is refused before its first external call: a local
/// validation failure, or an oracle failure while fixing the slippage
/// floor — both leave every collaborator untouched.
pub open spec fn start_refusal(
    m: Map<(Seq<u8>, u64), NoteView>,
    caller: Seq<u8>,
    op: Operation,
    quote: Result<OracleRate, OracleError>,
) -> Option<NoteError> {
    match validation_of(m, caller, op) {
        Some(e) => Some(e),
        None => match quote_outcome((COST_PER_NOTE + FEE_PER_NOTE) as u64, quote) {
            Ok(_) => None,
            Err(oe) => Some(
                NoteError::Pipeline(
                    (PipelineFailure { stage: Stage::FundsVerified, reason: FailReason::Oracle(oe) }),
                ),
            ),
        },
    }
}

/// What one step does, given the machine's state, the store before and
/// after, the reply, and the result: the settlement pipeline's whole
/// transition relation. Funds-verification failures and charge failures
/// end the run with no funds moved; swap and bridge failures end it with
/// funds held mid-pipeline; only a successful redemption touches the
/// store.
pub open spec fn step_spec(
    s: Session,
    m0: Map<(Seq<u8>, u64), NoteView>,
    e: Event,
    r: StepResult,
    m1: Map<(Seq<u8>, u64), NoteView>,
) -> bool {
    match e {
        Event::Balance(reply) => match reply {
            Ok(b) => if b >= s.required {
                &&& m1 == m0
                &&& r == StepResult::Next(
                    (Session { phase: Phase::AwaitCharge, ..s }),
                    (Action::Charge { amount: s.required, fee: LEDGER_TRANSFER_FEE }),
                )
            } else {
                &&& m1 == m0
                &&& r == StepResult::Done(
                    Err(
                        NoteError::Pipeline(
                            (PipelineFailure {
                                stage: Stage::FundsVerified,
                                reason: FailReason::InsufficientFunds,
                            }),
                        ),
                    ),
                )
            },
            Err(le) => {
                &&& m1 == m0
                &&& r == StepResult::Done(
                    Err(
                        NoteError::Pipeline(
                            (PipelineFailure {
                                stage: Stage::FundsVerified,
                                reason: FailReason::Ledger(le),
                            }),
                        ),
                    ),
                )
            },
        },
        Event::Charge(reply) => match reply {
            Ok(_tx) => {
                &&& m1 == m0
                &&& r == StepResult::Next(
                    (Session { phase: Phase::AwaitSwap, ..s }),
                    (Action::Swap { amount_in: s.required, min_output: s.min_output }),
                )
            },
            Err(le) => {
                &&& m1 == m0
                &&& r == StepResult::Done(
                    Err(
                        NoteError::Pipeline(
                            (PipelineFailure {
                                stage: Stage::Charged,
                                reason: FailReason::Ledger(le),
                            }),
                        ),
                    ),
                )
            },
        },
        Event::Swap(reply) => match reply {
            Ok(out) => {
                &&& m1 == m0
                &&& r == StepResult::Next(
                    (Session { phase: Phase::AwaitRedeem, ..s }),
                    (Action::Redeem { amount: out }),
                )
            },
            Err(se) => {
                &&& m1 == m0
                &&& r == StepResult::Done(
                    Err(
                        NoteError::Pipeline(
                            (PipelineFailure { stage: Stage::Swapped, reason: FailReason::Swap(se) }),
                        ),
                    ),
                )
            },
        },
        Event::Redeem(reply) => match reply {
            Ok(ticket) => match s.op {
                Operation::Add { id, note } => {
                    &&& m1 == m0.insert((s.caller@, id), note@)
                    &&& r == StepResult::Done(
                        Ok((Outcome::NoteWritten { note: note, ticket: ticket })),
                    )
                },
                Operation::Update { id, note } => {
                    &&& m1 == m0.insert((s.caller@, id), note@)
                    &&& r == StepResult::Done(
                        Ok((Outcome::NoteWritten { note: note, ticket: ticket })),
                    )
                },
                Operation::Delete { id } => {
                    &&& m1 == m0.remove((s.caller@, id))
                    &&& (r matches StepResult::Done(res) && res matches Ok(o) && o matches
                        Outcome::Deleted { id: rid, message } && rid == id && message@
                        == deleted_message(id))
                },
            },
            Err(be) => {
                &&& m1 == m0
                &&& r == StepResult::Done(
                    Err(
                        NoteError::Pipeline(
                            (PipelineFailure {
                                stage: Stage::Redeemed,
                                reason: FailReason::Bridge(be),
                            }),
                        ),
                    ),
                )
            },
        },
    }
}

impl Session {
    /// A session as `start` hands it out, still waiting for its first
    /// reply.
    pub open spec fn fresh(self) -> bool {
        &&& self.phase is AwaitBalance
        &&& self.required == COST_PER_NOTE + FEE_PER_NOTE
    }

    /// Validates a request and opens its settlement run. Every local check
    /// and the slippage floor are settled here, before any external call:
    /// a refused request never reaches the ledger, the swap venue or the
    /// bridge, and leaves the store untouched.
    pub fn start(
        store: &NoteStore,
        caller: OwnerId,
        op: Operation,
        quote: Result<OracleRate, OracleError>,
    ) -> (r: Result<(Session, Action), NoteError>)
        requires
            store.inv(),
        ensures
            match r {
                Ok((s, a)) => {
                    &&& start_refusal(store@, caller@, op, quote) is None
                    &&& a == Action::QueryBalance
                    &&& s.caller@ == caller@
                    &&& s.op == op
                    &&& s.fresh()
                    &&& Ok::<u64, OracleError>(s.min_output) == quote_outcome(
                        (COST_PER_NOTE + FEE_PER_NOTE) as u64,
                        quote,
                    )
                },
                Err(e) => start_refusal(store@, caller@, op, quote) == Some(e),
            },
    {
        match &op {
            Operation::Add { id, note } => {
                if *id == 0 {
                    return Err(NoteError::Validation(ValidationError::ZeroKey));
                }
                if !check_note_valid(note) {
                    return Err(NoteError::Validation(ValidationError::EmptyField));
                }
                if store.contains(&caller, *id) {
                    return Err(NoteError::Validation(ValidationError::DuplicateKey));
                }
            },
            Operation::Update { id, .. } => {
                if !store.contains(&caller, *id) {
                    return Err(NoteError::NoteNotFound);
                }
            },
            Operation::Delete { id } => {
                if !store.contains(&caller, *id) {
                    return Err(NoteError::NoteNotFound);
                }
            },
        }
        let required = required_payment();
        let min_output = match quote {
            Ok(rate) => match settlement_floor(required, rate) {
                Ok(mo) => mo,
                Err(oe) => {
                    return Err(
                        NoteError::Pipeline(
                            PipelineFailure {
                                stage: Stage::FundsVerified,
                                reason: FailReason::Oracle(oe),
                            },
                        ),
                    );
                },
            },
            Err(oe) => {
                return Err(
                    NoteError::Pipeline(
                        PipelineFailure {
                            stage: Stage::FundsVerified,
                            reason: FailReason::Oracle(oe),
                        },
                    ),
                );
            },
        };
        Ok(
            (
                Session { caller, op, required, min_output, phase: Phase::AwaitBalance },
                Action::QueryBalance,
            ),
        )
    }

    /// Feeds one external reply to the machine and takes the next step of
    /// the pipeline. The store is written only by a successful redemption;
    /// every failure leaves it exactly as it was.
    pub fn step(self, store: &mut NoteStore, event: Event) -> (r: StepResult)
        requires
            old(store).inv(),
            event.answers(self.phase),
        ensures
            final(store).inv(),
            step_spec(self, old(store)@, event, r, final(store)@),
    {
        match event {
            Event::Balance(reply) => match reply {
                Ok(b) => if b >= self.required {
                    let action = Action::Charge {
                        amount: self.required,
                        fee: LEDGER_TRANSFER_FEE,
                    };
                    StepResult::Next(Session { phase: Phase::AwaitCharge, ..self }, action)
                } else {
                    StepResult::Done(
                        Err(
                            NoteError::Pipeline(
                                PipelineFailure {
                                    stage: Stage::FundsVerified,
                                    reason: FailReason::InsufficientFunds,
                                },
                            ),
                        ),
                    )
                },
                Err(le) => StepResult::Done(
                    Err(
                        NoteError::Pipeline(
                            PipelineFailure {
                                stage: Stage::FundsVerified,
                                reason: FailReason::Ledger(le),
                            },
                        ),
                    ),
                ),
            },
            Event::Charge(reply) => match reply {
                Ok(_tx) => {
                    let action = Action::Swap {
                        amount_in: self.required,
                        min_output: self.min_output,
                    };
                    StepResult::Next(Session { phase: Phase::AwaitSwap, ..self }, action)
                },
                Err(le) => StepResult::Done(
                    Err(
                        NoteError::Pipeline(
                            PipelineFailure { stage: Stage::Charged, reason: FailReason::Ledger(le) },
                        ),
                    ),
                ),
            },
            Event::Swap(reply) => match reply {
                Ok(out) => StepResult::Next(
                    Session { phase: Phase::AwaitRedeem, ..self },
                    Action::Redeem { amount: out },
                ),
                Err(se) => StepResult::Done(
                    Err(
                        NoteError::Pipeline(
                            PipelineFailure { stage: Stage::Swapped, reason: FailReason::Swap(se) },
                        ),
                    ),
                ),
            },
            Event::Redeem(reply) => match reply {
                Ok(ticket) => match self.op {
                    Operation::Add { id, note } => {
                        let stored = note.duplicate();
                        store.put(self.caller, id, stored);
                        StepResult::Done(Ok(Outcome::NoteWritten { note, ticket }))
                    },
                    Operation::Update { id, note } => {
                        let stored = note.duplicate();
                        store.put(self.caller, id, stored);
                        StepResult::Done(Ok(Outcome::NoteWritten { note, ticket }))
                    },
                    Operation::Delete { id } => {
                        store.remove(&self.caller, id);
                        let message = format_deleted(id);
                        StepResult::Done(Ok(Outcome::Deleted { id, message }))
                    },
                },
                Err(be) => StepResult::Done(
                    Err(
                        NoteError::Pipeline(
                            PipelineFailure { stage: Stage::Redeemed, reason: FailReason::Bridge(be) },
                        ),
                    ),
                ),
            },
        }
    }
}

/// Opens a paid run that will create the note `(id, note)` for the caller.
/// A zero id, a blank field or an existing note under the same key is
/// refused here, before any external call.
pub fn add_note(
    store: &NoteStore,
    caller: OwnerId,
    id: u64,
    note: Note,
    quote: Result<OracleRate, OracleError>,
) -> (r: Result<(Session, Action), NoteError>)
    requires
        store.inv(),
    ensures
        match r {
            Ok((s, a)) => {
                &&& start_refusal(store@, caller@, (Operation::Add { id, note }), quote) is None
                &&& a == Action::QueryBalance
                &&& s.caller@ == caller@
                &&& s.op == (Operation::Add { id, note })
                &&& s.fresh()
            },
            Err(e) => start_refusal(store@, caller@, (Operation::Add { id, note }), quote) == Some(
                e,
            ),
        },
{
    Session::start(store, caller, Operation::Add { id, note }, quote)
}

/// Opens a paid run that will overwrite the caller's note under `id`; a
/// missing note is refused here, before any external call.
pub fn update_note(
    store: &NoteStore,
    caller: OwnerId,
    id: u64,
    note: Note,
    quote: Result<OracleRate, OracleError>,
) -> (r: Result<(Session, Action), NoteError>)
    requires
        store.inv(),
    ensures
        match r {
            Ok((s, a)) => {
                &&& start_refusal(store@, caller@, (Operation::Update { id, note }), quote) is None
                &&& a == Action::QueryBalance
                &&& s.caller@ == caller@
                &&& s.op == (Operation::Update { id, note })
                &&& s.fresh()
            },
            Err(e) => start_refusal(store@, caller@, (Operation::Update { id, note }), quote)
                == Some(e),
        },
{
    Session::start(store, caller, Operation::Update { id, note }, quote)
}

/// Opens a paid run that will delete the caller's note under `id`. A
/// missing note is refused here, before any external call; the note itself
/// is removed only after the settlement succeeds, so a failed settlement
/// leaves it in place.
pub fn delete_note(
    store: &NoteStore,
    caller: OwnerId,
    id: u64,
    quote: Result<OracleRate, OracleError>,
) -> (r: Result<(Session, Action), NoteError>)
    requires
        store.inv(),
    ensures
        match r {
            Ok((s, a)) => {
                &&& start_refusal(store@, caller@, (Operation::Delete { id }), quote) is None
                &&& store@.contains_key((caller@, id))
                &&& a == Action::QueryBalance
                &&& s.caller@ == caller@
                &&& s.op == (Operation::Delete { id })
                &&& s.fresh()
            },
            Err(e) => start_refusal(store@, caller@, (Operation::Delete { id }), quote) == Some(e),
        },
{
    Session::start(store, caller, Operation::Delete { id }, quote)
}

/// The caller's note under `id`, if any: an unpaid read, scoped to the
/// caller's own keys.
pub fn get_note(store: &NoteStore, caller: &OwnerId, id: u64) -> (r: Option<Note>)
    requires
        store.inv(),
    ensures
        match r {
            Some(n) => store@.contains_key((caller@, id)) && n@ == store@[(caller@, id)],
            None => !store@.contains_key((caller@, id)),
        },
{
    match store.get(caller, id) {
        Some(n) => Some(n.duplicate()),
        None => None,
    }
}

/// Every note the caller owns, as `(id, note)` pairs in
/// implementation-defined order: an unpaid read that never surfaces
/// another owner's entries.
pub fn list_notes(store: &NoteStore, caller: &OwnerId) -> (r: Vec<(u64, Note)>)
    requires
        store.inv(),
    ensures
        forall|j: int| 0 <= j < r@.len() ==> store@.contains_key((caller@, (#[trigger] r@[j]).0))
            && r@[j].1@ == store@[(caller@, r@[j].0)],
        forall|id: u64| store@.contains_key((caller@, id)) ==> exists|j: int|
            0 <= j < r@.len() && (#[trigger] r@[j]).0 == id,
        forall|j1: int, j2: int| 0 <= j1 < j2 < r@.len() ==> (#[trigger] r@[j1]).0 != (
        #[trigger] r@[j2]).0,
{
    store.list_for(caller)
}

} // verus!
