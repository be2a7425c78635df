//! Who is owed what once a room's result is distributed, and the payments
//! of bettors, court members and the protocol.
use crate::arith;
use crate::constants::{FIFTY_POINTS, SUMMITER_POINTS, TEN_PERCENT, TWENTY_PERCENT};
use crate::contract::{bump_honesty, rank, BettingContract};
use crate::ledger::{fits_i128, Ledger};
use crate::lists;
use crate::outcome::{BettingError, Effects, Failure, PanicReason, Transfer};
use crate::rules::{agrees, claim_rule, commits, kind_rule, loser_claim, supreme_claim_rule, user_claim_rule, winner_claim};
use crate::storage;
use crate::types::{AccountId, ClaimType};
use vstd::prelude::*;

verus! {

/// `tdiv(q, 100)` of an `i128` is an `i128`.
proof fn lemma_hundredth_fits(q: int)
    requires
        fits_i128(q),
    ensures
        fits_i128(arith::tdiv(q, 100)),
{
    assert(fits_i128(arith::tdiv(q, 100))) by (nonlinear_arith)
        requires
            fits_i128(q),
    {
    }
}

/// A court member's share of the court's reward (see `supreme_claim_rule`).
fn supreme_claim_on(env: &mut Ledger, contract: AccountId, user: AccountId, setting: i128) -> (r: Result<((i128, i128), Effects), Failure>)
    requires
        old(env)@.initialized(),
    ensures
        agrees(supreme_claim_rule(old(env)@, old(env)@.config.unwrap(), contract, user, setting), r, final(env)@),
{
    if storage::get_didUserWithdrawSupreme(env, user, setting) {
        return Err(Failure::Error(BettingError::UserAlreadyClaimed));
    }
    let assestment = storage::get_ResultAssessmentSupreme(env, setting);
    if assestment.id == 0 {
        return Err(Failure::Error(BettingError::NothingToClaim));
    }
    let countVotes = storage::get_CountVoteSupreme(env, setting);
    let supreme = storage::get_supreme(env);
    if user != supreme && !lists::contains(&assestment.countHonestyUsers, user) {
        return Err(Failure::Error(BettingError::NothingToClaim));
    }
    if user == supreme && !assestment.ExternalUser {
        return Err(Failure::Error(BettingError::NothingToClaim));
    }
    let numberVoter = if assestment.Admin {
        arith::minus(countVotes.aproved, 1)?
    } else {
        countVotes.aproved
    };
    let money = storage::get_ClaimSupreme(env, setting);
    let amoutgot = arith::quot(money, numberVoter)?;
    let usd = storage::get_usd(env);
    let mut fx = Effects::new();
    fx.transfers.push(Transfer { token: usd, from: contract, to: user, amount: amoutgot });
    storage::set_didUserWithdrawSupreme(env, user, setting);
    assert(fx.transfers@ =~= seq![Transfer { token: usd, from: contract, to: user, amount: amoutgot }]);
    Ok(((amoutgot, 0), fx))
}

/// An honest loser's payment (see `loser_claim`).
fn loser_claim_on(env: &mut Ledger, contract: AccountId, user: AccountId, setting: i128, amount: i128, usdc: bool) -> (r: Result<((i128, i128), Effects), Failure>)
    requires
        old(env)@.initialized(),
    ensures
        agrees(loser_claim(old(env)@, old(env)@.config.unwrap(), contract, user, setting, amount, usdc), r, final(env)@),
{
    let usd = storage::get_usd(env);
    let trust = storage::get_trust(env);
    let winner_pool = storage::get_winnerPool(env, setting);
    let loser_pool = storage::get_loserPool(env, setting);
    let amount_share = storage::get_pool_total(env, setting);
    let rate = if usdc { TWENTY_PERCENT } else { TEN_PERCENT };
    let c = arith::percent_of(amount, rate)?;
    let mut fx = Effects::new();
    let mut usdwithdraw: i128 = 0;
    let mut trust_amount: i128 = 0;
    let token = if usdc { usd } else { trust };
    if usdc {
        usdwithdraw = c;
    } else {
        trust_amount = c;
    }
    fx.transfers.push(Transfer { token, from: contract, to: user, amount: c });
    let ghost t1 = Transfer { token, from: contract, to: user, amount: c };
    if winner_pool == 0 {
        let p = arith::times(amount, 100)?;
        let user_share = arith::quot(p, loser_pool)?;
        let q = arith::times(user_share, amount_share)?;
        proof {
            lemma_hundredth_fits(q as int);
        }
        let user_amount = arith::quot(q, 100)?;
        usdwithdraw = arith::plus(usdwithdraw, user_amount)?;
        fx.transfers.push(Transfer { token: usd, from: contract, to: user, amount: user_amount });
        assert(fx.transfers@ =~= seq![t1, Transfer { token: usd, from: contract, to: user, amount: user_amount }]);
    } else {
        assert(fx.transfers@ =~= seq![t1]);
    }
    let points = if storage::is_summiter(env, setting, user) { SUMMITER_POINTS } else { FIFTY_POINTS };
    bump_honesty(env, user, points)?;
    let ev = rank(env, user);
    fx.events.push(ev);
    storage::set_didUserWithdraw(env, user, setting);
    assert(fx.events@ =~= seq![ev]);
    Ok(((usdwithdraw, trust_amount), fx))
}

/// An honest winner's payment (see `winner_claim`).
fn winner_claim_on(env: &mut Ledger, contract: AccountId, user: AccountId, setting: i128, amount: i128, usdc: bool) -> (r: Result<((i128, i128), Effects), Failure>)
    requires
        old(env)@.initialized(),
    ensures
        agrees(winner_claim(old(env)@, old(env)@.config.unwrap(), contract, user, setting, amount, usdc), r, final(env)@),
{
    let usd = storage::get_usd(env);
    let trust = storage::get_trust(env);
    let winner_pool = storage::get_winnerPool(env, setting);
    let amount_share = storage::get_pool_total(env, setting);
    let p = arith::times(amount, 100)?;
    let user_share = arith::quot(p, winner_pool)?;
    let q = arith::times(user_share, amount_share)?;
    proof {
        lemma_hundredth_fits(q as int);
    }
    let user_amount = arith::quot(q, 100)?;
    let total = arith::plus(amount, user_amount)?;
    let mut fx = Effects::new();
    fx.transfers.push(Transfer { token: usd, from: contract, to: user, amount: total });
    let rate = if usdc { TWENTY_PERCENT } else { TEN_PERCENT };
    let c = arith::percent_of(amount, rate)?;
    let mut usdWithdraw = total;
    let mut trust_amount: i128 = 0;
    let token = if usdc { usd } else { trust };
    if usdc {
        usdWithdraw = arith::plus(total, c)?;
    } else {
        trust_amount = c;
    }
    fx.transfers.push(Transfer { token, from: contract, to: user, amount: c });
    assert(fx.transfers@ =~= seq![
        Transfer { token: usd, from: contract, to: user, amount: total },
        Transfer { token, from: contract, to: user, amount: c },
    ]);
    bump_honesty(env, user, FIFTY_POINTS)?;
    let points = if storage::is_summiter(env, setting, user) { SUMMITER_POINTS } else { FIFTY_POINTS };
    bump_honesty(env, user, points)?;
    let ev = rank(env, user);
    fx.events.push(ev);
    storage::set_didUserWithdraw(env, user, setting);
    assert(fx.events@ =~= seq![ev]);
    Ok(((usdWithdraw, trust_amount), fx))
}

/// A bettor's claim in room `setting` (see `user_claim_rule`).
fn user_claim_on(env: &mut Ledger, contract: AccountId, user: AccountId, setting: i128) -> (r: Result<((i128, i128), Effects), Failure>)
    requires
        old(env)@.initialized(),
    ensures
        agrees(user_claim_rule(old(env)@, old(env)@.config.unwrap(), contract, user, setting), r, final(env)@),
{
    if storage::get_didUserWithdraw(env, user, setting) {
        return Err(Failure::Error(BettingError::UserAlreadyClaimed));
    }
    let (kind, amount, usdc) = BettingContract::what_kind_user(env, user, setting)?;
    if kind == 6 {
        Err(Failure::Error(BettingError::NoBetHasBeenFound))
    } else if kind == 5 || kind == 3 {
        Err(Failure::Error(BettingError::NothingToClaim))
    } else if kind == 4 {
        let half = arith::percent_of(amount, 50)?;
        let usd = storage::get_usd(env);
        let mut fx = Effects::new();
        fx.transfers.push(Transfer { token: usd, from: contract, to: user, amount: half });
        storage::set_didUserWithdraw(env, user, setting);
        assert(fx.transfers@ =~= seq![Transfer { token: usd, from: contract, to: user, amount: half }]);
        Ok(((half, 0), fx))
    } else if kind == 2 {
        loser_claim_on(env, contract, user, setting, amount, usdc)
    } else if kind == 1 {
        winner_claim_on(env, contract, user, setting, amount, usdc)
    } else {
        Err(Failure::Error(BettingError::InvalidInputError))
    }
}

impl BettingContract {
    /// What `user` is owed in room `setting` (see `kind_rule`): the kind of
    /// bettor they are, the amount that counts, and whether their collateral
    /// is in USD.
    pub fn what_kind_user(env: &Ledger, user: AccountId, setting: i128) -> (r: Result<(i32, i128, bool), Failure>)
        ensures
            r == kind_rule(env@, user, setting),
    {
        if env.bets.get(user, setting).is_none() {
            return Ok((6, 0, false));
        }
        let betData = storage::get_bet(env, user, setting);
        if betData.id == 0 {
            return Ok((6, 0, betData.collateralUsd));
        }
        let (exist, _, _, _) = storage::existBet(env, betData.gameid);
        if !exist {
            return Err(Failure::Error(BettingError::GameDoesNotExist));
        }
        let xresult = storage::get_ResultGame(env, setting);
        if xresult.id == 0 {
            return Err(Failure::Error(BettingError::GameNoResult));
        }
        if xresult.pause {
            return Err(Failure::Error(BettingError::GameHasBeenPaused));
        }
        let resultAssessment = storage::get_ResultAssessment(env, setting);
        let complain = storage::get_complain(env, setting);
        let approved = lists::contains(&resultAssessment.UsersApprove, user);
        let rejected = lists::contains(&resultAssessment.UsersReject, user);
        let won = betData.bet == xresult.result;
        let honest_kind: (i32, i128, bool) = if won {
            (1, betData.amount_bet, betData.collateralUsd)
        } else {
            (2, betData.amount_bet, betData.collateralUsd)
        };
        let silent_kind: (i32, i128, bool) = if won {
            (4, betData.amount_bet, betData.collateralUsd)
        } else {
            (5, 0, betData.collateralUsd)
        };
        let dishonest_kind: (i32, i128, bool) = (3, 0, betData.collateralUsd);
        if complain == 0 {
            if approved {
                Ok(dishonest_kind)
            } else if rejected {
                Ok(honest_kind)
            } else {
                Ok(silent_kind)
            }
        } else if complain == 1 {
            if approved {
                Ok(honest_kind)
            } else if rejected {
                Ok(dishonest_kind)
            } else {
                Ok(silent_kind)
            }
        } else if complain == 2 {
            if approved {
                Ok(honest_kind)
            } else if !rejected {
                Ok(silent_kind)
            } else {
                Err(Failure::Error(BettingError::InvalidInputError))
            }
        } else {
            Err(Failure::Error(BettingError::InvalidInputError))
        }
    }

    /// Pays a court member, the protocol or a bettor (see `claim_rule`).
    pub fn claim(env: &mut Ledger, contract: AccountId, user: AccountId, typeClaim: ClaimType, setting: i128) -> (r: Result<((i128, i128), Effects), Failure>)
        ensures
            commits(claim_rule(old(env)@, contract, user, typeClaim, setting), r, old(env)@, final(env)@),
    {
        let mut work = env.duplicate();
        let r = Self::claim_on(&mut work, contract, user, typeClaim, setting);
        if r.is_ok() {
            *env = work;
        }
        r
    }

    fn claim_on(env: &mut Ledger, contract: AccountId, user: AccountId, typeClaim: ClaimType, setting: i128) -> (r: Result<((i128, i128), Effects), Failure>)
        ensures
            agrees(claim_rule(old(env)@, contract, user, typeClaim, setting), r, final(env)@),
    {
        if !storage::has_init(env) {
            return Err(Failure::Panic(PanicReason::NotInitialized));
        }
        match typeClaim {
            ClaimType::Supreme => supreme_claim_on(env, contract, user, setting),
            ClaimType::Protocol => {
                let adminAdr = storage::get_admin(env);
                let usd = storage::get_usd(env);
                let trust = storage::get_trust(env);
                let money = storage::get_ClaimProtocol(env);
                let trustAmount = storage::get_ClaimProtocolTrust(env);
                let mut fx = Effects::new();
                fx.transfers.push(Transfer { token: usd, from: contract, to: adminAdr, amount: money });
                fx.transfers.push(Transfer { token: trust, from: contract, to: adminAdr, amount: trustAmount });
                storage::zero_ClaimProtocol(env);
                assert(fx.transfers@ =~= seq![
                    Transfer { token: usd, from: contract, to: adminAdr, amount: money },
                    Transfer { token: trust, from: contract, to: adminAdr, amount: trustAmount },
                ]);
                Ok(((money, trustAmount), fx))
            },
            ClaimType::User => user_claim_on(env, contract, user, setting),
        }
    }
}

} // verus!
