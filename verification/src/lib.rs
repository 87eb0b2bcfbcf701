pub mod errors;
pub mod hexaddr;
pub mod laws;
pub mod note;
pub mod oracle;
pub mod owner;
pub mod service;
pub mod store;
pub mod textfmt;

use vstd::prelude::*;

verus! {

/// Tokens charged to the caller for each paid note operation, before the
/// service fee.
pub const COST_PER_NOTE: u64 = 10_000;

/// Service fee collected on top of the per-note cost.
pub const FEE_PER_NOTE: u64 = 5_000;

/// Flat network fee the ledger takes for executing one pull-transfer.
pub const LEDGER_TRANSFER_FEE: u64 = 10_000;

/// Total amount a caller must hold (and is charged) for one paid operation.
pub fn required_payment() -> (r: u64)
    ensures
        r == COST_PER_NOTE + FEE_PER_NOTE,
{
    COST_PER_NOTE + FEE_PER_NOTE
}

} // verus!
