use vstd::prelude::*;

verus! {

/// What the mempool made of a transaction that was offered to it.
#[derive(Clone, Copy, Debug, PartialEq, Eq, Structural)]
pub enum AddTransactionResult {
    Accepted,
    Exists,
    Invalid,
    Rejected,
}

} // verus!
