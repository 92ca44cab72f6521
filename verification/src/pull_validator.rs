use vstd::prelude::*;

verus! {

/// The datum of the checking account's pull validator: the earliest time of
/// the next pull.
pub struct Datum {
    next_pull: u64,
}

} // verus!
