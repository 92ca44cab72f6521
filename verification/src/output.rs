use crate::address::{Address, AddressModel};
use crate::values::{PolicyModel, Values};
use vstd::prelude::*;

verus! {

/// An unspent output held by a wallet: where it comes from, who owns it and
/// what it holds.
pub struct Output {
    tx_hash: String,
    index: u64,
    owner: Address,
    values: Values,
}

/// Model of an `Output`.
pub struct OutputModel {
    pub tx_hash: Seq<char>,
    pub index: u64,
    pub owner: AddressModel,
    pub values: Seq<(PolicyModel, u64)>,
}

impl View for Output {
    type V = OutputModel;

    closed spec fn view(&self) -> OutputModel {
        OutputModel {
            tx_hash: self.tx_hash@,
            index: self.index,
            owner: self.owner@,
            values: self.values@,
        }
    }
}

impl Output {
    /// A wallet output.
    pub fn new_wallet(tx_hash: String, index: u64, owner: Address, values: Values) -> (r: Output)
        ensures
            r@ == (OutputModel {
                tx_hash: tx_hash@,
                index,
                owner: owner@,
                values: values@,
            }),
    {
        Output { tx_hash, index, owner, values }
    }

    /// The id of the transaction that made the output.
    pub fn tx_hash(&self) -> (r: &String)
        ensures
            r@ == self@.tx_hash,
    {
        &self.tx_hash
    }

    /// The position of the output in that transaction.
    pub fn index(&self) -> (r: u64)
        ensures
            r == self@.index,
    {
        self.index
    }

    /// The owner of the output.
    pub fn owner(&self) -> (r: &Address)
        ensures
            r@ == self@.owner,
    {
        &self.owner
    }

    /// What the output holds.
    pub fn values(&self) -> (r: &Values)
        ensures
            r@ == self@.values,
    {
        &self.values
    }
}

} // verus!
