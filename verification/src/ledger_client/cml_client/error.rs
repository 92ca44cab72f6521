use vstd::prelude::*;

verus! {

/// An error of the ledger client built on the Cardano multiplatform library.
pub enum CMLLCError {
    /// The library refused an input; the text is its message.
    JsError(String),
    /// The ledger service failed; the text describes the failure.
    LedgerError(String),
    /// An address is not a base address.
    InvalidBaseAddr,
}

} // verus!
