use vstd::prelude::*;

verus! {

/// A Cardano address as the library passes it around: a bech32 base address,
/// or a raw string that names an address in some other way.
#[derive(Debug, PartialEq, Eq)]
pub enum Address {
    Base(String),
    Raw(String),
}

/// The mathematical model of an `Address`.
pub enum AddressModel {
    Base(Seq<char>),
    Raw(Seq<char>),
}

impl View for Address {
    type V = AddressModel;

    open spec fn view(&self) -> AddressModel {
        match self {
            Address::Base(s) => AddressModel::Base(s@),
            Address::Raw(s) => AddressModel::Raw(s@),
        }
    }
}

impl Address {
    /// A base address written as the given text.
    pub fn new(addr: &str) -> (r: Address)
        ensures
            r@ == AddressModel::Base(addr@),
    {
        Address::Base(addr.to_string())
    }
}

impl Clone for Address {
    fn clone(&self) -> (r: Self)
        ensures
            r == *self,
    {
        match self {
            Address::Base(s) => Address::Base(s.clone()),
            Address::Raw(s) => Address::Raw(s.clone()),
        }
    }
}

} // verus!
