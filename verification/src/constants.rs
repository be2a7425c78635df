//! The rates, points and time windows of the contract.
use vstd::prelude::*;

verus! {

/// Seconds in an hour.
pub const ONE_HOUR_SECONDS: u32 = 3600;

/// The protocol's fee, in percent of the pool taken from losers.
pub const FIVE_PERCENT: i128 = 5;

/// The supreme court's fee, in percent of that pool, when a complaint was made.
pub const THREE_PERCENT: i128 = 3;

/// The TRUST collateral, in percent of the bet.
pub const TEN_PERCENT: i128 = 10;

/// The USD collateral, in percent of the bet.
pub const TWENTY_PERCENT: i128 = 20;

/// The honesty points returned with a refund.
pub const TWENTY_POINTS: i128 = 20;

/// The honesty points charged for placing a bet.
pub const MINUS_TWENTY_POINTS: i128 = -20;

/// The honesty points of an honest vote.
pub const FIFTY_POINTS: i128 = 50;

/// The honesty points of the user who submitted the result.
pub const SUMMITER_POINTS: i128 = 80;

} // verus!
