pub mod context;
pub mod raw_validator_script;

use crate::address::Address;
use crate::values::PolicyId;
use vstd::prelude::*;

verus! {

/// What a script learns of the transaction that runs it: who signed it.
pub struct TxContext {
    pub signer: Address,
}

impl Clone for TxContext {
    fn clone(&self) -> (r: Self)
        ensures
            r == *self,
    {
        TxContext { signer: self.signer.clone() }
    }
}

/// The code of a spending validator, for datums `D` and redeemers `R`.
pub trait ValidatorCode<D, R>: Send + Sync {
    /// Runs the validator on a datum, a redeemer and the transaction context.
    fn execute(&self, datum: D, redeemer: R, ctx: TxContext) -> ScriptResult<()>;

    /// The address of the script.
    fn address(&self) -> Address;

    /// The script's code, in hexadecimal.
    fn script_hex(&self) -> &str;
}

/// The code of a minting policy.
pub trait MintingPolicy: Send + Sync {
    /// Runs the policy on the transaction context.
    fn execute(&self, ctx: TxContext) -> ScriptResult<()>;

    /// The id of the policy.
    fn id(&self) -> PolicyId;
}

/// An error raised while running a script or decoding its inputs.
pub enum ScriptError {
    FailedToExecute(String),
    DatumDeserialization(String),
}

/// The result of running a script.
pub type ScriptResult<T> = Result<T, ScriptError>;

} // verus!
