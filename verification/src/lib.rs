//! A betting-room ledger: private betting rooms on scheduled games, result
//! submission and voting, a supreme-court dispute layer, and the payout rules
//! that split the pools between winners, honest voters, the court and the
//! protocol.
#![allow(non_snake_case, non_camel_case_types)]
use vstd::prelude::*;

pub mod table;
pub mod types;
pub mod outcome;
pub mod ledger;
pub mod lists;
pub mod storage;
pub mod arith;
pub mod board;
pub mod constants;
pub mod rules;
pub mod signature;
pub mod distribution;
pub mod contract;
pub mod claims;
pub mod court;
pub mod laws;
pub mod history;
pub mod outcomes;

verus! {

} // verus!
