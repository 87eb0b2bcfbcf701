use vstd::prelude::*;

verus! {

/// Local request validation failures, all raised before any external call is
/// issued.
#[derive(Clone, Copy, PartialEq, Eq, Structural, Debug)]
pub enum ValidationError {
    /// The note id `0` is reserved and never accepted.
    ZeroKey,
    /// Title or content is empty or holds only white space.
    EmptyField,
    /// The caller already stores a note under the requested id.
    DuplicateKey,
}

/// The ledger's native reply errors, as the ledger reports them at its call
/// boundary. The gateway maps each of these onto a [`LedgerError`].
#[derive(Clone, Copy, PartialEq, Eq, Structural, Debug)]
pub enum LedgerReplyError {
    InsufficientFunds,
    BadFee,
    TooOld,
    Duplicate,
    Unavailable,
    Generic,
}

/// Balance-gateway failures surfaced to the settlement pipeline.
#[derive(Clone, Copy, PartialEq, Eq, Structural, Debug)]
pub enum LedgerError {
    /// The ledger reported that the caller's funds do not cover the transfer.
    InsufficientFunds,
    /// The transfer carried a fee the ledger does not accept.
    BadFee,
    /// The pre-granted allowance no longer authorises the pull-transfer.
    AllowanceExpired,
    /// The ledger recognised the transfer as one it already executed.
    DuplicateSubmission,
    /// The ledger could not be reached, or answered outside its protocol.
    LedgerUnreachable,
    /// The ledger reported a quantity wider than the local integer width.
    AmountOverflow,
}

/// Swap-venue failures, one per native error class of the venue.
#[derive(Clone, Copy, PartialEq, Eq, Structural, Debug)]
pub enum SwapError {
    Unsupported,
    InsufficientLiquidity,
    Internal,
}

/// Bridge/withdrawal-service failures.
#[derive(Clone, Copy, PartialEq, Eq, Structural, Debug)]
pub enum BridgeError {
    /// The bridge could not be reached, or the call itself failed.
    Unreachable,
    /// The bridge answered, but its reply could not be decoded.
    MalformedReply,
}

/// Price-oracle failures observed before any funds move.
#[derive(Clone, Copy, PartialEq, Eq, Structural, Debug)]
pub enum OracleError {
    /// The oracle could not be reached or its reply held no price.
    Unavailable,
    /// The quoted price has a zero denominator.
    PriceZero,
    /// The estimated output does not fit the settlement asset's integer unit.
    EstimateOverflow,
}

/// The stage of the settlement pipeline a failure is attributed to.
#[derive(Clone, Copy, PartialEq, Eq, Structural, Debug)]
pub enum Stage {
    FundsVerified,
    Charged,
    Swapped,
    Redeemed,
}

/// Why a settlement pipeline run failed at its stage.
#[derive(Clone, Copy, PartialEq, Eq, Structural, Debug)]
pub enum FailReason {
    /// The verified balance does not cover the required amount.
    InsufficientFunds,
    /// The price oracle failed before any charge was issued.
    Oracle(OracleError),
    /// The balance gateway failed.
    Ledger(LedgerError),
    /// The swap venue failed.
    Swap(SwapError),
    /// The bridge/withdrawal service failed.
    Bridge(BridgeError),
}

/// One terminal pipeline failure: the stage it happened in and its reason.
/// Failures at `Swapped` or `Redeemed` mean funds have already left the
/// caller and are held mid-pipeline; earlier stages mean no funds moved.
#[derive(Clone, Copy, PartialEq, Eq, Structural, Debug)]
pub struct PipelineFailure {
    pub stage: Stage,
    pub reason: FailReason,
}

/// Everything a paid note operation can fail with.
#[derive(Clone, Copy, PartialEq, Eq, Structural, Debug)]
pub enum NoteError {
    /// The request was rejected locally, before any external call.
    Validation(ValidationError),
    /// The addressed note does not exist under the caller's key.
    NoteNotFound,
    /// The settlement pipeline failed at the given stage.
    Pipeline(PipelineFailure),
}

/// True for failures after which no funds have moved: validation, a missing
/// note, and pipeline failures at `FundsVerified` or `Charged`.
pub open spec fn no_funds_moved(e: NoteError) -> bool {
    match e {
        NoteError::Validation(_) => true,
        NoteError::NoteNotFound => true,
        NoteError::Pipeline(f) => f.stage is FundsVerified || f.stage is Charged,
    }
}

/// Whether funds have left the caller and now sit mid-pipeline under this
/// failure: exactly the pipeline failures at the swap or redemption stage.
/// Every other failure means nothing happened economically, so an operator
/// can tell the two classes apart.
pub fn failure_leaves_funds_stuck(e: &NoteError) -> (r: bool)
    ensures
        r == !no_funds_moved(*e),
{
    match e {
        NoteError::Pipeline(f) => match f.stage {
            Stage::Swapped => true,
            Stage::Redeemed => true,
            Stage::FundsVerified => false,
            Stage::Charged => false,
        },
        NoteError::Validation(_) => false,
        NoteError::NoteNotFound => false,
    }
}

/// How the gateway reads the ledger's native reply errors: fund shortfalls,
/// fee complaints and duplicates keep their identity, a stale transfer means
/// the allowance window has lapsed, and everything the ledger cannot act on
/// counts as unreachable.
pub open spec fn spec_map_ledger_reply(e: LedgerReplyError) -> LedgerError {
    match e {
        LedgerReplyError::InsufficientFunds => LedgerError::InsufficientFunds,
        LedgerReplyError::BadFee => LedgerError::BadFee,
        LedgerReplyError::TooOld => LedgerError::AllowanceExpired,
        LedgerReplyError::Duplicate => LedgerError::DuplicateSubmission,
        LedgerReplyError::Unavailable => LedgerError::LedgerUnreachable,
        LedgerReplyError::Generic => LedgerError::LedgerUnreachable,
    }
}

/// Maps a native ledger reply error onto the gateway's own taxonomy.
pub fn map_ledger_reply(e: LedgerReplyError) -> (r: LedgerError)
    ensures
        r == spec_map_ledger_reply(e),
{
    match e {
        LedgerReplyError::InsufficientFunds => LedgerError::InsufficientFunds,
        LedgerReplyError::BadFee => LedgerError::BadFee,
        LedgerReplyError::TooOld => LedgerError::AllowanceExpired,
        LedgerReplyError::Duplicate => LedgerError::DuplicateSubmission,
        LedgerReplyError::Unavailable => LedgerError::LedgerUnreachable,
        LedgerReplyError::Generic => LedgerError::LedgerUnreachable,
    }
}

} // verus!
