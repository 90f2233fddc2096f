//! Verified core of a personal finance service: the domain records, the
//! wire format of timestamps, the ownership rules of every request, the
//! credential checks and the in-memory ledger that the service keeps.
use vstd::prelude::*;

pub mod datetime;
pub mod records;
pub mod table;
pub mod error;
pub mod auth;
pub mod ledger;

verus! {

} // verus!
