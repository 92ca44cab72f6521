pub mod cml_client;

use crate::address::Address;
use crate::ledger_client::cml_client::error::CMLLCError;
use vstd::prelude::*;

verus! {

/// An error of a ledger client.
pub enum LedgerClientError {
    /// The outputs at an address could not be read; the cause says why.
    FailedToRetrieveOutputsAt(Address, CMLLCError),
}

} // verus!
