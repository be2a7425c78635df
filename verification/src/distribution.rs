//! How a room's pools are computed when its result is distributed: who
//! forfeits what, what the protocol and the court take, and what is left
//! for the winners and the honest losers.
use crate::arith::{self, overflow, tdiv};
use crate::constants::{FIVE_PERCENT, THREE_PERCENT};
use crate::ledger::{fits_i128, Tally};
use crate::outcome::Failure;
use crate::types::BetKey;
use vstd::prelude::*;

verus! {

/// The running totals of a distribution.
#[derive(Clone, Copy, Debug, PartialEq, Eq)]
pub struct Pools {
    /// Forfeited bets, to be shared among the winners (or honest losers).
    pub gain: i128,
    /// Forfeited TRUST collateral, owed to the protocol.
    pub trust: i128,
    /// Forfeited USD collateral.
    pub usd: i128,
    /// Bets of honest voters who lost.
    pub losers: i128,
    /// Bets of honest voters who won.
    pub winners: i128,
    /// Bets of winners who never voted.
    pub novote: i128,
}

/// One of the running totals.
#[derive(Clone, Copy, Debug, PartialEq, Eq)]
pub enum PoolField {
    Gain,
    Trust,
    Usd,
    Losers,
    Winners,
    Novote,
}

/// All totals zero.
pub open spec fn no_pools() -> Pools {
    Pools { gain: 0, trust: 0, usd: 0, losers: 0, winners: 0, novote: 0 }
}

pub open spec fn pool_get(p: Pools, f: PoolField) -> i128 {
    match f {
        PoolField::Gain => p.gain,
        PoolField::Trust => p.trust,
        PoolField::Usd => p.usd,
        PoolField::Losers => p.losers,
        PoolField::Winners => p.winners,
        PoolField::Novote => p.novote,
    }
}

pub open spec fn pool_put(p: Pools, f: PoolField, x: i128) -> Pools {
    match f {
        PoolField::Gain => Pools { gain: x, ..p },
        PoolField::Trust => Pools { trust: x, ..p },
        PoolField::Usd => Pools { usd: x, ..p },
        PoolField::Losers => Pools { losers: x, ..p },
        PoolField::Winners => Pools { winners: x, ..p },
        PoolField::Novote => Pools { novote: x, ..p },
    }
}

/// `x` added to total `f`; `None` once a sum has left the range of `i128`.
pub open spec fn bump(p: Option<Pools>, f: PoolField, x: int) -> Option<Pools> {
    match p {
        None => None,
        Some(q) => if fits_i128(pool_get(q, f) + x) {
            Some(pool_put(q, f, (pool_get(q, f) + x) as i128))
        } else {
            None
        },
    }
}

/// The not-yet-assessed bets on `k` forfeited: their collateral always, their
/// stake into the gain when `k` lost and into the silent winners' total when
/// `k` won.
pub open spec fn unassessed_key(p: Option<Pools>, t: Tally, r: BetKey, k: BetKey) -> Option<Pools> {
    let p2 = bump(bump(p, PoolField::Trust, t.trust.at(k) as int), PoolField::Usd, t.usd.at(k) as int);
    if r != k {
        bump(p2, PoolField::Gain, t.amount.at(k) as int)
    } else {
        bump(p2, PoolField::Novote, t.amount.at(k) as int)
    }
}

/// `unassessed_key` for the local team, a tie and the away team, in turn.
pub open spec fn unassessed(p: Option<Pools>, t: Tally, r: BetKey) -> Option<Pools> {
    unassessed_key(unassessed_key(unassessed_key(p, t, r, BetKey::Team_local), t, r, BetKey::Tie), t, r, BetKey::Team_away)
}

/// Half of the silent winners' bets added to the gain.
pub open spec fn half_novote(p: Option<Pools>) -> Option<Pools> {
    match p {
        None => None,
        Some(q) => if !fits_i128(q.novote * 50) {
            None
        } else {
            bump(Some(q), PoolField::Gain, tdiv(q.novote * 50, 100))
        },
    }
}

/// The bets and collateral of the dishonest voters (tally `t`) forfeited.
pub open spec fn dishonest(p: Option<Pools>, t: Tally) -> Option<Pools> {
    let g = bump(bump(bump(p, PoolField::Gain, t.amount.away as int), PoolField::Gain, t.amount.local as int), PoolField::Gain, t.amount.tie as int);
    let tr = bump(bump(bump(g, PoolField::Trust, t.trust.away as int), PoolField::Trust, t.trust.local as int), PoolField::Trust, t.trust.tie as int);
    bump(bump(bump(tr, PoolField::Usd, t.usd.away as int), PoolField::Usd, t.usd.local as int), PoolField::Usd, t.usd.tie as int)
}

/// The honest voters' bets on `k`: into the gain and the honest losers'
/// total when `k` lost, into the honest winners' total when `k` won.
pub open spec fn honest_key(p: Option<Pools>, t: Tally, r: BetKey, k: BetKey) -> Option<Pools> {
    if r != k {
        bump(bump(p, PoolField::Gain, t.amount.at(k) as int), PoolField::Losers, t.amount.at(k) as int)
    } else {
        bump(p, PoolField::Winners, t.amount.at(k) as int)
    }
}

/// `honest_key` for the local team, a tie and the away team, in turn.
pub open spec fn honest(p: Option<Pools>, t: Tally, r: BetKey) -> Option<Pools> {
    honest_key(honest_key(honest_key(p, t, r, BetKey::Team_local), t, r, BetKey::Tie), t, r, BetKey::Team_away)
}

/// The fees out of the gain `q.gain`: the protocol's 5% (all of it when
/// there is neither an honest winner nor an honest loser) and, after a
/// complaint, the court's 3%; the gain that is left, the protocol's fee and
/// the court's fee. When nobody voted honestly after a complaint, the two
/// fees come to 103% of the gain, and the gain left is minus 3% of it.
pub open spec fn fees(q: Pools, complain: i128) -> Option<(i128, i128, i128)> {
    let nobody = q.winners == 0 && q.losers == 0;
    let complained = complain == 0 || complain == 1;
    if !fits_i128(q.gain * FIVE_PERCENT) {
        None
    } else if nobody && !fits_i128(q.gain * 100) {
        None
    } else if complained && !fits_i128(q.gain * THREE_PERCENT) {
        None
    } else {
        let protocol = if nobody { tdiv(q.gain * 100, 100) } else { tdiv(q.gain * FIVE_PERCENT, 100) };
        let supreme = if complained { tdiv(q.gain * THREE_PERCENT, 100) } else { 0 };
        if !fits_i128(q.gain - supreme) || !fits_i128(q.gain - supreme - protocol) {
            None
        } else {
            Some(((q.gain - supreme - protocol) as i128, protocol as i128, supreme as i128))
        }
    }
}

/// `x` added to total `f` of `p`, or the overflow trap.
pub fn bump_pool(p: Pools, f: PoolField, x: i128) -> (r: Result<Pools, Failure>)
    ensures
        match r {
            Ok(q) => bump(Some(p), f, x as int) == Some(q),
            Err(e) => bump(Some(p), f, x as int) is None && e == overflow(),
        },
{
    let cur = match f {
        PoolField::Gain => p.gain,
        PoolField::Trust => p.trust,
        PoolField::Usd => p.usd,
        PoolField::Losers => p.losers,
        PoolField::Winners => p.winners,
        PoolField::Novote => p.novote,
    };
    let n = arith::plus(cur, x)?;
    Ok(match f {
        PoolField::Gain => Pools { gain: n, ..p },
        PoolField::Trust => Pools { trust: n, ..p },
        PoolField::Usd => Pools { usd: n, ..p },
        PoolField::Losers => Pools { losers: n, ..p },
        PoolField::Winners => Pools { winners: n, ..p },
        PoolField::Novote => Pools { novote: n, ..p },
    })
}

/// `bump` over an absent total stays absent.
pub proof fn lemma_bump_none(f: PoolField, x: int)
    ensures
        bump(None, f, x) is None,
{
}

/// `unassessed_key`, computed.
pub fn unassessed_key_exec(p: Pools, t: Tally, r: BetKey, k: BetKey) -> (res: Result<Pools, Failure>)
    ensures
        match res {
            Ok(q) => unassessed_key(Some(p), t, r, k) == Some(q),
            Err(e) => unassessed_key(Some(p), t, r, k) is None && e == overflow(),
        },
{
    let p1 = bump_pool(p, PoolField::Trust, t.trust.get(k))?;
    let p2 = bump_pool(p1, PoolField::Usd, t.usd.get(k))?;
    if r != k {
        bump_pool(p2, PoolField::Gain, t.amount.get(k))
    } else {
        bump_pool(p2, PoolField::Novote, t.amount.get(k))
    }
}

/// `unassessed`, computed.
pub fn unassessed_exec(p: Pools, t: Tally, r: BetKey) -> (res: Result<Pools, Failure>)
    ensures
        match res {
            Ok(q) => unassessed(Some(p), t, r) == Some(q),
            Err(e) => unassessed(Some(p), t, r) is None && e == overflow(),
        },
{
    let p1 = unassessed_key_exec(p, t, r, BetKey::Team_local)?;
    let p2 = unassessed_key_exec(p1, t, r, BetKey::Tie)?;
    unassessed_key_exec(p2, t, r, BetKey::Team_away)
}

/// `half_novote`, computed.
pub fn half_novote_exec(p: Pools) -> (res: Result<Pools, Failure>)
    ensures
        match res {
            Ok(q) => half_novote(Some(p)) == Some(q),
            Err(e) => half_novote(Some(p)) is None && e == overflow(),
        },
{
    let w = arith::times(p.novote, 50)?;
    let h = arith::quot(w, 100);
    let h = match h {
        Ok(h) => h,
        Err(e) => {
            assert(fits_i128(tdiv(w as int, 100))) by (nonlinear_arith)
                requires
                    fits_i128(w as int),
            {
            }
            return Err(e);
        },
    };
    bump_pool(p, PoolField::Gain, h)
}

/// `dishonest`, computed.
pub fn dishonest_exec(p: Pools, t: Tally) -> (res: Result<Pools, Failure>)
    ensures
        match res {
            Ok(q) => dishonest(Some(p), t) == Some(q),
            Err(e) => dishonest(Some(p), t) is None && e == overflow(),
        },
{
    let p1 = bump_pool(p, PoolField::Gain, t.amount.away)?;
    let p2 = bump_pool(p1, PoolField::Gain, t.amount.local)?;
    let p3 = bump_pool(p2, PoolField::Gain, t.amount.tie)?;
    let p4 = bump_pool(p3, PoolField::Trust, t.trust.away)?;
    let p5 = bump_pool(p4, PoolField::Trust, t.trust.local)?;
    let p6 = bump_pool(p5, PoolField::Trust, t.trust.tie)?;
    let p7 = bump_pool(p6, PoolField::Usd, t.usd.away)?;
    let p8 = bump_pool(p7, PoolField::Usd, t.usd.local)?;
    bump_pool(p8, PoolField::Usd, t.usd.tie)
}

/// `honest_key`, computed.
pub fn honest_key_exec(p: Pools, t: Tally, r: BetKey, k: BetKey) -> (res: Result<Pools, Failure>)
    ensures
        match res {
            Ok(q) => honest_key(Some(p), t, r, k) == Some(q),
            Err(e) => honest_key(Some(p), t, r, k) is None && e == overflow(),
        },
{
    let amount = t.amount.get(k);
    if r != k {
        let p1 = bump_pool(p, PoolField::Gain, amount)?;
        bump_pool(p1, PoolField::Losers, amount)
    } else {
        bump_pool(p, PoolField::Winners, amount)
    }
}

/// `honest`, computed.
pub fn honest_exec(p: Pools, t: Tally, r: BetKey) -> (res: Result<Pools, Failure>)
    ensures
        match res {
            Ok(q) => honest(Some(p), t, r) == Some(q),
            Err(e) => honest(Some(p), t, r) is None && e == overflow(),
        },
{
    let p1 = honest_key_exec(p, t, r, BetKey::Team_local)?;
    let p2 = honest_key_exec(p1, t, r, BetKey::Tie)?;
    honest_key_exec(p2, t, r, BetKey::Team_away)
}

/// `fees`, computed.
pub fn fees_exec(q: Pools, complain: i128) -> (res: Result<(i128, i128, i128), Failure>)
    ensures
        match res {
            Ok(x) => fees(q, complain) == Some(x),
            Err(e) => fees(q, complain) is None && e == overflow(),
        },
{
    let nobody = q.winners == 0 && q.losers == 0;
    let complained = complain == 0 || complain == 1;
    let mut protocol = arith::percent_of(q.gain, FIVE_PERCENT)?;
    if nobody {
        protocol = arith::percent_of(q.gain, 100)?;
    }
    let supreme = if complained { arith::percent_of(q.gain, THREE_PERCENT)? } else { 0 };
    let g1 = arith::minus(q.gain, supreme)?;
    let g2 = arith::minus(g1, protocol)?;
    Ok((g2, protocol, supreme))
}

} // verus!
