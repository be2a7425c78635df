//! The contract's entry points. Each works on a copy of the storage and
//! commits it only when the call succeeds, as a failed transaction leaves
//! the ledger untouched.
use crate::arith;
use crate::board::{
    board_after, board_position, lemma_insert_index_is, lemma_user_index, lemma_user_index_is, top_two, without_user,
};
use crate::constants::{MINUS_TWENTY_POINTS, ONE_HOUR_SECONDS, TEN_PERCENT, TWENTY_PERCENT, TWENTY_POINTS};
use crate::ledger::{fits_i128, int_at, tally_at, tally_plus_fits, Ledger, LedgerView};
use crate::lists;
use crate::outcome::{BettingError, BettingEvent, Effects, Failure, PanicReason, Transfer};
use crate::rules::{
    add_user_private_bet_rule, agrees, assess_check, assess_result_rule, bet_activates, bet_check, bet_recorded,
    bet_rule, bet_stage1, bet_stage2, bet_stage3, claim_refund_rule, commits, constructor_rule, distribution_rule,
    execute_distribution_rule, move_vote, pools_rule, refund_check, set_game_checked_rule, set_game_rule,
    set_private_bet_rule, summit_check, summit_result_rule,
};
use crate::distribution::{self, PoolField, Pools};
use crate::storage;
use crate::types::{AccountId, AssessmentKey, Bet, BetKey, Game, PrivateBet, ResultGame};
use vstd::prelude::*;

verus! {

broadcast use vstd::std_specs::hash::group_hash_axioms;

/// The betting contract.
pub struct BettingContract;

/// Raises the bettor count of `k` by `n`, or reports the overflow.
pub(crate) fn bump_users_amount(env: &mut Ledger, k: i128, n: i128) -> (r: Result<(), Failure>)
    ensures
        match r {
            Ok(()) => fits_i128(int_at(old(env)@.users_amount, k) + n) && final(env)@ == old(env)@.plus_users_amount(k, n as int),
            Err(f) => !fits_i128(int_at(old(env)@.users_amount, k) + n) && f == arith::overflow() && final(env)@ == old(env)@,
        },
{
    let cur = storage::read_int(&env.users_amount, k);
    arith::plus(cur, n)?;
    storage::add_UsersAmount(env, k, n);
    Ok(())
}

/// Counts one more vote for `k`, or reports the overflow.
pub(crate) fn bump_users_voted(env: &mut Ledger, k: i128) -> (r: Result<(), Failure>)
    ensures
        match r {
            Ok(()) => fits_i128(int_at(old(env)@.users_voted, k) + 1) && final(env)@ == old(env)@.plus_users_voted(k),
            Err(f) => !fits_i128(int_at(old(env)@.users_voted, k) + 1) && f == arith::overflow() && final(env)@ == old(env)@,
        },
{
    let cur = storage::read_int(&env.users_voted, k);
    arith::plus(cur, 1)?;
    storage::add_UsersAmountVoted(env, k);
    Ok(())
}

/// Adds `n` to the total bet on `k`, or reports the overflow.
pub(crate) fn bump_total_bet(env: &mut Ledger, k: i128, n: i128) -> (r: Result<(), Failure>)
    ensures
        match r {
            Ok(()) => fits_i128(int_at(old(env)@.total_bet, k) + n) && final(env)@ == old(env)@.plus_total_bet(k, n as int),
            Err(f) => !fits_i128(int_at(old(env)@.total_bet, k) + n) && f == arith::overflow() && final(env)@ == old(env)@,
        },
{
    let cur = storage::get_total_bet(env, k);
    arith::plus(cur, n)?;
    storage::add_total_bet(env, k, n);
    Ok(())
}

/// Adds `n` honesty points to `user`, or reports the overflow.
pub(crate) fn bump_honesty(env: &mut Ledger, user: AccountId, n: i128) -> (r: Result<(), Failure>)
    ensures
        match r {
            Ok(()) => fits_i128(old(env)@.honesty_of(user) + n) && final(env)@ == old(env)@.plus_honesty(user, n as int),
            Err(f) => !fits_i128(old(env)@.honesty_of(user) + n) && f == arith::overflow() && final(env)@ == old(env)@,
        },
{
    let cur = storage::get_HonestyPoints(env, user);
    arith::plus(cur, n)?;
    storage::add_HonestyPoints(env, user, n);
    Ok(())
}

/// Whether a tally update fits, checked on the stored tally.
pub(crate) fn tally_fits(t: &crate::table::Table<i128, crate::ledger::Tally>, k: i128, bet: BetKey, amount: i128, usd: bool, c: i128, negate: bool) -> (r: bool)
    ensures
        r == tally_plus_fits(
            tally_at(t@, k),
            bet,
            if negate { -amount } else { amount as int },
            usd,
            if negate { -c } else { c as int },
        ),
{
    let cur = storage::read_tally(t, k);
    let a = if negate { arith::minus(cur.amount.get(bet), amount) } else { arith::plus(cur.amount.get(bet), amount) };
    let b = if usd {
        if negate { arith::minus(cur.usd.get(bet), c) } else { arith::plus(cur.usd.get(bet), c) }
    } else {
        if negate { arith::minus(cur.trust.get(bet), c) } else { arith::plus(cur.trust.get(bet), c) }
    };
    a.is_ok() && b.is_ok()
}

/// The first part of a valid bet (see `bet_stage1`).
fn bet_stage1_exec(env: &mut Ledger, user: AccountId, bet: Bet, room: &crate::types::PrivateBet, fx: &mut Effects) -> (r: Result<(), Failure>)
    requires
        room@ == old(env)@.private_bet(bet.Setting),
        old(fx).events@.len() == 0,
    ensures
        match r {
            Ok(()) => bet_stage1(old(env)@, user, bet) == Ok::<(LedgerView, Seq<BettingEvent>), Failure>((final(env)@, final(fx).events@)),
            Err(f) => bet_stage1(old(env)@, user, bet) == Err::<(LedgerView, Seq<BettingEvent>), Failure>(f),
        },
        final(fx).transfers@ == old(fx).transfers@,
{
    let ghost v = env@;
    storage::add_bet(env, user, bet);
    if !room.active {
        if storage::does_bet_active(env, bet) {
            storage::active_private_setting(env, bet.Setting, true);
            assert(env@ == bet_recorded(v, user, bet));
            let useramount = room.users_invated.len() as i128;
            bump_users_amount(env, bet.gameid, useramount)?;
            fx.events.push(BettingEvent::ActiveSetting { gameid: room.gameid, setting: room.id });
            assert(fx.events@ =~= seq![BettingEvent::ActiveSetting { gameid: room.gameid, setting: room.id }]);
        } else {
            assert(env@ == bet_recorded(v, user, bet));
        }
    } else {
        assert(env@ == bet_recorded(v, user, bet));
    }
    assert(fx.events@ =~= (if bet_activates(v, bet) {
        seq![BettingEvent::ActiveSetting { gameid: room.gameid, setting: room.id }]
    } else {
        Seq::empty()
    }));
    bump_users_amount(env, bet.Setting, 1)?;
    Ok(())
}

/// The second part of a valid bet (see `bet_stage2`).
fn bet_stage2_exec(env: &mut Ledger, user: AccountId, bet: Bet) -> (r: Result<(), Failure>)
    ensures
        match r {
            Ok(()) => bet_stage2(old(env)@, user, bet) == Ok::<LedgerView, Failure>(final(env)@),
            Err(f) => bet_stage2(old(env)@, user, bet) == Err::<LedgerView, Failure>(f),
        },
{
    bump_total_bet(env, bet.gameid, bet.amount_bet)?;
    bump_honesty(env, user, MINUS_TWENTY_POINTS)?;
    Ok(())
}

/// The last part of a valid bet (see `bet_stage3`).
fn bet_stage3_exec(
    env: &mut Ledger,
    usd: AccountId,
    trust: AccountId,
    contract: AccountId,
    user: AccountId,
    bet: Bet,
    fx: &mut Effects,
) -> (r: Result<(), Failure>)
    requires
        old(env)@.initialized(),
        usd == old(env)@.config.unwrap().token_usd,
        trust == old(env)@.config.unwrap().token_trust,
        old(fx).transfers@.len() == 0,
    ensures
        match r {
            Ok(()) => bet_stage3(old(env)@, old(env)@.config.unwrap(), contract, user, bet) == Ok::<(LedgerView, Seq<Transfer>), Failure>((final(env)@, final(fx).transfers@)),
            Err(f) => bet_stage3(old(env)@, old(env)@.config.unwrap(), contract, user, bet) == Err::<(LedgerView, Seq<Transfer>), Failure>(f),
        },
        final(fx).events@ == old(fx).events@,
{
    let rate = if bet.collateralUsd { TWENTY_PERCENT } else { TEN_PERCENT };
    let c = arith::percent_of(bet.amount_bet, rate)?;
    if !tally_fits(&env.not_assessed, bet.Setting, bet.bet, bet.amount_bet, bet.collateralUsd, c, false) {
        return Err(arith::overflow_failure());
    }
    storage::add_not_assesed_yet(env, bet.Setting, bet.amount_bet, bet.bet, bet.collateralUsd, c);
    let token = if bet.collateralUsd { usd } else { trust };
    fx.transfers.push(Transfer { token: usd, from: user, to: contract, amount: bet.amount_bet });
    fx.transfers.push(Transfer { token, from: user, to: contract, amount: c });
    assert(fx.transfers@ =~= seq![
        Transfer { token: usd, from: user, to: contract, amount: bet.amount_bet },
        Transfer { token, from: user, to: contract, amount: c },
    ]);
    Ok(())
}

/// A voter's bet moved from the not-assessed tally to the approvers' (or,
/// with `rejects`, the rejecters') tally (see `move_vote`).
fn move_vote_exec(env: &mut Ledger, b: Bet, rejects: bool) -> (r: Result<(), Failure>)
    ensures
        match r {
            Ok(()) => move_vote(old(env)@, b, rejects) == Ok::<LedgerView, Failure>(final(env)@),
            Err(f) => move_vote(old(env)@, b, rejects) == Err::<LedgerView, Failure>(f),
        },
{
    let rate = if b.collateralUsd { TWENTY_PERCENT } else { TEN_PERCENT };
    let c = arith::percent_of(b.amount_bet, rate)?;
    if rejects {
        if !tally_fits(&env.rejected, b.Setting, b.bet, b.amount_bet, b.collateralUsd, c, false) {
            return Err(arith::overflow_failure());
        }
        storage::add_reject_total(env, b.Setting, b.amount_bet, b.bet, b.collateralUsd, c);
    } else {
        if !tally_fits(&env.approved, b.Setting, b.bet, b.amount_bet, b.collateralUsd, c, false) {
            return Err(arith::overflow_failure());
        }
        storage::add_approve_total(env, b.Setting, b.amount_bet, b.bet, b.collateralUsd, c);
    }
    if !tally_fits(&env.not_assessed, b.Setting, b.bet, b.amount_bet, b.collateralUsd, c, true) {
        return Err(arith::overflow_failure());
    }
    storage::delete_not_assesed_yet(env, b.Setting, b.amount_bet, b.bet, b.collateralUsd, c);
    Ok(())
}

/// The honesty points of `user` placed on the leaderboard, with the event
/// that announces them.
pub(crate) fn rank(env: &mut Ledger, user: AccountId) -> (ev: BettingEvent)
    ensures
        final(env)@ == old(env)@.ranked(user),
        ev == old(env)@.rank_event(user),
{
    let points = storage::get_HonestyPoints(env, user);
    let position = BettingContract::adduser_board(env, user, points);
    BettingEvent::UserHonestyPoints { user, points, position }
}

impl BettingContract {
    /// Stores the configuration; it can run once.
    pub fn __constructor(
        env: &mut Ledger,
        admin: AccountId,
        admin_pubkey: [u8; 32],
        token_usd: AccountId,
        token_trust: AccountId,
        supreme_court: AccountId,
    ) -> (r: Result<((), Effects), Failure>)
        ensures
            commits(constructor_rule(old(env)@, admin, admin_pubkey, token_usd, token_trust, supreme_court), r, old(env)@, final(env)@),
    {
        if storage::has_init(env) {
            return Err(Failure::Error(BettingError::AlreadyInitializedError));
        }
        storage::init(env, admin, admin_pubkey, token_usd, token_trust, supreme_court);
        Ok(((), Effects::new()))
    }

    /// Places `user`'s bet in a room they are invited to (see `bet_rule`).
    pub fn bet(env: &mut Ledger, now: u64, contract: AccountId, user: AccountId, bet: Bet) -> (r: Result<(bool, Effects), Failure>)
        ensures
            commits(bet_rule(old(env)@, now, contract, user, bet), r, old(env)@, final(env)@),
    {
        let mut work = env.duplicate();
        let r = Self::bet_on(&mut work, now, contract, user, bet);
        if r.is_ok() {
            *env = work;
        }
        r
    }

    fn bet_on(env: &mut Ledger, now: u64, contract: AccountId, user: AccountId, bet: Bet) -> (r: Result<(bool, Effects), Failure>)
        ensures
            agrees(bet_rule(old(env)@, now, contract, user, bet), r, final(env)@),
    {
        let ghost v = env@;
        if !storage::has_init(env) {
            return Err(Failure::Panic(PanicReason::NotInitialized));
        }
        let usd = storage::get_usd(env);
        let trust = storage::get_trust(env);
        let betResult = storage::get_Bet(env, user, bet.Setting);
        if betResult.id != 0 {
            return Err(Failure::Error(BettingError::BetAlready));
        }
        if bet.amount_bet <= 0 {
            return Err(Failure::Error(BettingError::InvalidInputError));
        }
        if bet.id == 0 || bet.Setting == 0 || bet.gameid == 0 {
            return Err(Failure::Error(BettingError::InvalidInputError));
        }
        let (exist, startTime, _endTime, _active) = storage::existBet(env, bet.gameid);
        if !exist {
            return Err(Failure::Error(BettingError::GameDoesNotExist));
        }
        if startTime < (now as u32) {
            return Err(Failure::Error(BettingError::GameHasAlreadyStarted));
        }
        let privateBet = storage::get_PrivateBet(env, bet.Setting);
        if privateBet.id == 0 {
            return Err(Failure::Error(BettingError::SettingBetDoesNotExist));
        }
        if !lists::contains(&privateBet.users_invated, user) {
            return Err(Failure::Error(BettingError::PrivateBet_NotAllowToBet));
        }
        if bet.amount_bet != privateBet.amount_bet_min {
            return Err(Failure::Error(BettingError::PrivateBet_NotEnoughToBet));
        }
        assert(bet_check(v, now, user, bet) is None);
        let ghost cfg = v.config.unwrap();
        let mut fx = Effects::new();
        bet_stage1_exec(env, user, bet, &privateBet, &mut fx)?;
        bet_stage2_exec(env, user, bet)?;
        let ghost v2 = env@;
        let ev = rank(env, user);
        fx.events.push(ev);
        let ghost evs = fx.events@;
        bet_stage3_exec(env, usd, trust, contract, user, bet, &mut fx)?;
        assert(fx.events@ == evs);
        Ok((true, fx))
    }

    /// Gives a bettor their stake and collateral back (see `claim_refund_rule`).
    pub fn claim_refund(env: &mut Ledger, now: u64, contract: AccountId, user: AccountId, setting: i128) -> (r: Result<((i128, i128), Effects), Failure>)
        ensures
            commits(claim_refund_rule(old(env)@, now, contract, user, setting), r, old(env)@, final(env)@),
    {
        let mut work = env.duplicate();
        let r = Self::claim_refund_on(&mut work, now, contract, user, setting);
        if r.is_ok() {
            *env = work;
        }
        r
    }

    fn claim_refund_on(env: &mut Ledger, now: u64, contract: AccountId, user: AccountId, setting: i128) -> (r: Result<((i128, i128), Effects), Failure>)
        ensures
            agrees(claim_refund_rule(old(env)@, now, contract, user, setting), r, final(env)@),
    {
        let ghost v = env@;
        if !storage::has_init(env) {
            return Err(Failure::Panic(PanicReason::NotInitialized));
        }
        let usd = storage::get_usd(env);
        let trust = storage::get_trust(env);
        if env.bets.get(user, setting).is_none() {
            return Err(Failure::Panic(PanicReason::NoBetForUser));
        }
        let betData = storage::get_bet(env, user, setting);
        if betData.id == 0 {
            return Err(Failure::Error(BettingError::NoBetHasBeenFound));
        }
        let receivedResult = storage::get_ResultGame(env, betData.Setting);
        let (_, startTime, endTime, _) = storage::existBet(env, betData.gameid);
        if storage::get_didUserWithdraw(env, user, setting) {
            return Err(Failure::Error(BettingError::UserAlreadyClaimed));
        }
        if !(startTime < (now as u32)) {
            return Err(Failure::Error(BettingError::NothingToClaim));
        }
        let privateBet = storage::get_PrivateBet(env, betData.Setting);
        if privateBet.id == 0 {
            return Err(Failure::Error(BettingError::SettingBetDoesNotExist));
        }
        if privateBet.active {
            if receivedResult.id == 0 {
                let submissions_close = arith::add_u32(endTime, 5 * ONE_HOUR_SECONDS)?;
                if !(submissions_close < (now as u32)) {
                    return Err(Failure::Error(BettingError::GameIsActive));
                }
            } else {
                let deadline = arith::add_u32(endTime, 29 * ONE_HOUR_SECONDS)?;
                if !(deadline < (now as u32)) {
                    return Err(Failure::Error(BettingError::GameIsActive));
                }
                if receivedResult.distribution_executed {
                    return Err(Failure::Error(BettingError::GameIsActive));
                }
            }
        }
        assert(refund_check(v, now, user, setting) is None);
        let mut fx = Effects::new();
        let mut amountUsd = betData.amount_bet;
        let mut trust_amount: i128 = 0;
        fx.transfers.push(Transfer { token: usd, from: contract, to: user, amount: amountUsd });
        let rate = if betData.collateralUsd { TWENTY_PERCENT } else { TEN_PERCENT };
        let c = arith::percent_of(betData.amount_bet, rate)?;
        if betData.collateralUsd {
            amountUsd = arith::plus(amountUsd, c)?;
            fx.transfers.push(Transfer { token: usd, from: contract, to: user, amount: c });
        } else {
            trust_amount = c;
            fx.transfers.push(Transfer { token: trust, from: contract, to: user, amount: c });
        }
        bump_honesty(env, user, TWENTY_POINTS)?;
        let ev = rank(env, user);
        fx.events.push(ev);
        storage::set_didUserWithdraw(env, user, setting);
        assert(fx.events@ =~= seq![ev]);
        proof {
            let token = if betData.collateralUsd { usd } else { trust };
            assert(fx.transfers@ =~= seq![
                Transfer { token: usd, from: contract, to: user, amount: betData.amount_bet },
                Transfer { token, from: contract, to: user, amount: c },
            ]);
        }
        Ok(((amountUsd, trust_amount), fx))
    }

    /// Schedules a game signed by the admin: `encoded` is the game's encoding
    /// that the admin signed (see `set_game_rule`).
    pub fn set_game(env: &mut Ledger, game: Game, encoded: &[u8], signature: &[u8; 64]) -> (r: Result<(bool, Effects), Failure>)
        ensures
            commits(set_game_rule(old(env)@, game, encoded@, signature@), r, old(env)@, final(env)@),
    {
        let ok = if storage::has_init(env) {
            let pk = storage::get_admin_pubkey(env);
            crate::signature::ed25519_verify_strict(&pk, encoded, signature)
        } else {
            false
        };
        Self::set_game_checked(env, game, ok)
    }

    /// Schedules a game once the admin's signature has been checked, with
    /// `signature_ok` the outcome of that check (see `set_game_checked_rule`).
    pub fn set_game_checked(env: &mut Ledger, game: Game, signature_ok: bool) -> (r: Result<(bool, Effects), Failure>)
        ensures
            commits(set_game_checked_rule(old(env)@, game, signature_ok), r, old(env)@, final(env)@),
    {
        let (exist, _, _, _) = storage::existBet(env, game.id);
        if exist {
            return Err(Failure::Error(BettingError::GameHasAlreadySet));
        }
        if game.id == 0 || game.startTime == 0 || game.endTime == 0 || game.startTime >= game.endTime || game.active {
            return Err(Failure::Error(BettingError::InvalidInputError));
        }
        if !storage::has_init(env) {
            return Err(Failure::Panic(PanicReason::NotInitialized));
        }
        if !signature_ok {
            return Err(Failure::Panic(PanicReason::InvalidSignature));
        }
        let id = game.id;
        storage::set_game(env, game);
        let mut fx = Effects::new();
        fx.events.push(BettingEvent::GameSet { game_id: id });
        assert(fx.events@ =~= seq![BettingEvent::GameSet { game_id: id }]);
        Ok((true, fx))
    }

    /// Opens a room on a game (see `set_private_bet_rule`).
    pub fn set_private_bet(env: &mut Ledger, user: AccountId, privateData: PrivateBet, game_id: i128) -> (r: Result<(bool, Effects), Failure>)
        ensures
            commits(set_private_bet_rule(old(env)@, user, privateData, game_id), r, old(env)@, final(env)@),
    {
        let (exist, _, _, _) = storage::existBet(env, game_id);
        if !exist {
            return Err(Failure::Error(BettingError::GameDoesNotExist));
        }
        if privateData.id == 0 || privateData.gameid != game_id || privateData.amount_bet_min <= 0
            || privateData.users_invated.len() < 2 || privateData.active || privateData.settingAdmin != user {
            return Err(Failure::Error(BettingError::InvalidInputError));
        }
        if storage::get_PrivateBet(env, privateData.id).id != 0 {
            return Err(Failure::Panic(PanicReason::PrivateSettingAlreadyExists));
        }
        let id = privateData.id;
        let amount = privateData.amount_bet_min;
        storage::set_privateSetting(env, privateData);
        storage::add_privateSettingList(env, game_id, id);
        let mut fx = Effects::new();
        fx.events.push(BettingEvent::PrivateSetting { game_id, setting: id, admin: user, amount_bet_min: amount });
        assert(fx.events@ =~= seq![BettingEvent::PrivateSetting { game_id, setting: id, admin: user, amount_bet_min: amount }]);
        Ok((true, fx))
    }

    /// Invites `newUser` to room `setting` (see `add_user_private_bet_rule`).
    pub fn add_user_privateBet(env: &mut Ledger, now: u64, setting: i128, game: i128, newUser: AccountId) -> (r: Result<(bool, Effects), Failure>)
        ensures
            commits(add_user_private_bet_rule(old(env)@, now, setting, game, newUser), r, old(env)@, final(env)@),
    {
        let mut privateBet = storage::get_PrivateBet(env, setting);
        let (exist, startTime, _, _) = storage::existBet(env, game);
        if !exist {
            return Err(Failure::Error(BettingError::GameDoesNotExist));
        }
        if startTime < (now as u32) {
            return Err(Failure::Error(BettingError::GameHasAlreadyStarted));
        }
        if privateBet.id == 0 || privateBet.gameid != game {
            return Err(Failure::Error(BettingError::SettingBetDoesNotExist));
        }
        if lists::contains(&privateBet.users_invated, newUser) {
            return Err(Failure::Error(BettingError::InvalidInputError));
        }
        lists::push_front(&mut privateBet.users_invated, newUser);
        storage::replace_privateSetting(env, setting, privateBet);
        let mut fx = Effects::new();
        fx.events.push(BettingEvent::NewUserAddedPrivate { game_id: game, setting, user: newUser });
        assert(fx.events@ =~= seq![BettingEvent::NewUserAddedPrivate { game_id: game, setting, user: newUser }]);
        Ok((true, fx))
    }

    /// Submits the result of an active room (see `summit_result_rule`).
    pub fn summitResult(env: &mut Ledger, now: u64, user: AccountId, setting: i128, result: ResultGame) -> (r: Result<(bool, Effects), Failure>)
        ensures
            commits(summit_result_rule(old(env)@, now, user, setting, result), r, old(env)@, final(env)@),
    {
        let mut work = env.duplicate();
        let r = Self::summit_on(&mut work, now, user, setting, result);
        if r.is_ok() {
            *env = work;
        }
        r
    }

    fn summit_on(env: &mut Ledger, now: u64, user: AccountId, setting: i128, result: ResultGame) -> (r: Result<(bool, Effects), Failure>)
        ensures
            agrees(summit_result_rule(old(env)@, now, user, setting, result), r, final(env)@),
    {
        let ghost v = env@;
        let betResult = storage::get_Bet(env, user, setting);
        let privateBet = storage::get_PrivateBet(env, setting);
        if privateBet.id == 0 || !privateBet.active {
            return Err(Failure::Error(BettingError::SettingBetDoesNotExist));
        }
        if betResult.id == 0 {
            return Err(Failure::Error(BettingError::BetNotFound));
        }
        if result.id == 0 || result.gameid == 0 || result.setting != setting {
            return Err(Failure::Error(BettingError::InvalidInputError));
        }
        let (exist, _, endTime, _) = storage::existBet(env, betResult.gameid);
        let receivedResult = storage::get_ResultGame(env, setting);
        if receivedResult.id != 0 {
            return Err(Failure::Error(BettingError::GameResultAlreadySet));
        }
        if !exist {
            return Err(Failure::Error(BettingError::GameDoesNotExist));
        }
        if endTime > (now as u32) {
            return Err(Failure::Error(BettingError::GameHasNotFinished));
        }
        let deadline = arith::add_u32(endTime, 5 * ONE_HOUR_SECONDS)?;
        if deadline < (now as u32) {
            return Err(Failure::Error(BettingError::GameSumitionHasFinished));
        }
        if result.distribution_executed || result.pause {
            return Err(Failure::Error(BettingError::InvalidInputError));
        }
        assert(summit_check(v, now, user, setting, result) is None);
        let mut resultAssessment = storage::get_ResultAssessment(env, setting);
        lists::push_front(&mut resultAssessment.UsersApprove, user);
        resultAssessment.id = setting;
        resultAssessment.setting = setting;
        resultAssessment.gameid = betResult.gameid;
        storage::set_ResultAssessment(env, setting, resultAssessment);
        bump_users_voted(env, setting)?;
        bump_users_voted(env, betResult.gameid)?;
        move_vote_exec(env, betResult, false)?;
        let description = result.description.clone();
        let outcome = result.result;
        storage::set_ResultGame(env, result);
        let mut fx = Effects::new();
        fx.events.push(BettingEvent::GameResult { setting, result: outcome, description });
        assert(fx.events@ =~= seq![BettingEvent::GameResult { setting, result: result.result, description: result.description }]);
        Ok((true, fx))
    }

    /// Approves or rejects the result of a room (see `assess_result_rule`).
    pub fn assessResult(env: &mut Ledger, now: u64, user: AccountId, setting: i128, desition: AssessmentKey) -> (r: Result<(bool, Effects), Failure>)
        ensures
            commits(assess_result_rule(old(env)@, now, user, setting, desition), r, old(env)@, final(env)@),
    {
        let mut work = env.duplicate();
        let r = Self::assess_on(&mut work, now, user, setting, desition);
        if r.is_ok() {
            *env = work;
        }
        r
    }

    fn assess_on(env: &mut Ledger, now: u64, user: AccountId, setting: i128, desition: AssessmentKey) -> (r: Result<(bool, Effects), Failure>)
        ensures
            agrees(assess_result_rule(old(env)@, now, user, setting, desition), r, final(env)@),
    {
        let ghost v = env@;
        let betResult = storage::get_Bet(env, user, setting);
        if betResult.id == 0 {
            return Err(Failure::Error(BettingError::BetNotFound));
        }
        let (exist, _, endTime, _) = storage::existBet(env, betResult.gameid);
        if !exist {
            return Err(Failure::Error(BettingError::GameDoesNotExist));
        }
        if endTime > (now as u32) {
            return Err(Failure::Error(BettingError::GameHasNotFinished));
        }
        let deadline = arith::add_u32(endTime, 5 * ONE_HOUR_SECONDS)?;
        if deadline < (now as u32) {
            return Err(Failure::Error(BettingError::GameAssesmentHasFinished));
        }
        let results = storage::get_ResultGame(env, setting);
        if results.id == 0 {
            return Err(Failure::Error(BettingError::GameResultNotFound));
        }
        let mut resultAssessment = storage::get_ResultAssessment(env, setting);
        let approved = lists::contains(&resultAssessment.UsersApprove, user);
        if storage::get_userAssessed(env, user, setting) || lists::contains(&resultAssessment.UsersReject, user)
            || (approved && desition == AssessmentKey::reject) {
            return Err(Failure::Error(BettingError::UserCannotVote));
        }
        assert(assess_check(v, now, user, setting, desition) is None);
        if approved {
            // The submitter confirms the result they submitted.
            storage::set_userAssessed(env, user, setting);
            return Ok((true, Effects::new()));
        }
        let mut paused = results.pause;
        match desition {
            AssessmentKey::approve => {
                lists::push_front(&mut resultAssessment.UsersApprove, user);
            },
            AssessmentKey::reject => {
                lists::push_front(&mut resultAssessment.UsersReject, user);
                paused = true;
            },
        }
        let ghost ra1 = resultAssessment@;
        let mut fx = Effects::new();
        bump_users_voted(env, setting)?;
        let ghost v1 = env@;
        if storage::UsersAmount(env, setting) {
            fx.events.push(BettingEvent::AllVoteSetting { setting });
        }
        let ghost e1: Seq<BettingEvent> = if v1.all_voted(setting) { seq![BettingEvent::AllVoteSetting { setting }] } else { Seq::empty() };
        assert(fx.events@ =~= e1);
        bump_users_voted(env, betResult.gameid)?;
        let ghost v2 = env@;
        if storage::UsersAmount(env, betResult.gameid) {
            fx.events.push(BettingEvent::AllVoteGame { game_id: betResult.gameid });
        }
        let ghost e2: Seq<BettingEvent> = if v2.all_voted(betResult.gameid) { seq![BettingEvent::AllVoteGame { game_id: betResult.gameid }] } else { Seq::empty() };
        assert(fx.events@ =~= e1 + e2);
        let ghost ev12 = fx.events@;
        storage::set_ResultAssessment(env, setting, resultAssessment);
        let ghost v3 = env@;
        assert(v3 == LedgerView { assessments: v2.assessments.insert(setting, ra1), ..v2 });
        if paused {
            fx.events.push(BettingEvent::GameResultReject { setting });
            storage::puase_ResultGame(env, setting, true);
        }
        let ghost v4 = env@;
        assert(paused == (v.result(setting).pause || desition == AssessmentKey::reject));
        move_vote_exec(env, betResult, paused)?;
        storage::set_userAssessed(env, user, setting);
        proof {
            let ev3: Seq<BettingEvent> = if paused { seq![BettingEvent::GameResultReject { setting }] } else { Seq::empty() };
            assert(fx.events@ =~= e1 + e2 + ev3);
        }
        Ok((true, fx))
    }

    /// Distributes room `setting` (see `execute_distribution_rule`).
    pub fn execute_distribution(env: &mut Ledger, now: u64, setting: i128) -> (r: Result<(bool, Effects), Failure>)
        ensures
            commits(execute_distribution_rule(old(env)@, now, setting), r, old(env)@, final(env)@),
    {
        let mut work = env.duplicate();
        let r = Self::execute_distribution_on(&mut work, now, setting);
        if r.is_ok() {
            *env = work;
        }
        r
    }

    fn execute_distribution_on(env: &mut Ledger, now: u64, setting: i128) -> (r: Result<(bool, Effects), Failure>)
        ensures
            agrees(execute_distribution_rule(old(env)@, now, setting), r, final(env)@),
    {
        let ghost v = env@;
        let complain: i128 = 2;
        let result = storage::get_ResultGame(env, setting);
        let (_, _, endTime, _) = storage::existBet(env, result.gameid);
        let deadline = arith::add_u32(endTime, 5 * ONE_HOUR_SECONDS)?;
        if deadline > (now as u32) {
            if !storage::UsersAmount(env, setting) {
                return Err(Failure::Error(BettingError::GameAssesmentHasFinished));
            }
        }
        let privateBet = storage::get_PrivateBet(env, setting);
        if !privateBet.active {
            return Err(Failure::Error(BettingError::SettingNotActive));
        }
        if result.id == 0 {
            return Err(Failure::Error(BettingError::GameNoResult));
        }
        if result.pause {
            return Err(Failure::Error(BettingError::GameHasBeenPaused));
        }
        if result.distribution_executed {
            return Err(Failure::Error(BettingError::GameHasAlreadyBeenExecuted));
        }
        let mut fx = Effects::new();
        if result.result == BetKey::Cancel {
            storage::active_private_setting(env, setting, false);
        } else {
            Self::make_distribution(env, now, privateBet.gameid, setting, result.result, complain, &mut fx.events)?;
        }
        let counts = storage::read_counts(env, result.gameid);
        arith::plus(counts.get(result.result), 1)?;
        storage::set_result_team_count(env, result.gameid, result.result);
        Ok((true, fx))
    }

    /// Computes and records the pools of room `setting` (see
    /// `distribution_rule`), appending its events to `events`.
    pub fn make_distribution(
        env: &mut Ledger,
        now: u64,
        game_id: i128,
        setting: i128,
        resultBet: BetKey,
        complain: i128,
        events: &mut Vec<BettingEvent>,
    ) -> (r: Result<(), Failure>)
        ensures
            match r {
                Ok(()) => exists|evs: Seq<BettingEvent>|
                    distribution_rule(old(env)@, now, game_id, setting, resultBet, complain)
                        == Ok::<(LedgerView, Seq<BettingEvent>), Failure>((final(env)@, evs))
                    && final(events)@ == old(events)@ + evs,
                Err(f) => distribution_rule(old(env)@, now, game_id, setting, resultBet, complain)
                    == Err::<(LedgerView, Seq<BettingEvent>), Failure>(f)
                    && final(env)@ == old(env)@ && final(events)@ == old(events)@,
            },
    {
        let ghost v = env@;
        if !storage::has_init(env) {
            return Err(Failure::Panic(PanicReason::NotInitialized));
        }
        let (exist, _, endTime, _) = storage::existBet(env, game_id);
        if !exist {
            return Err(Failure::Error(BettingError::GameDoesNotExist));
        }
        if endTime > (now as u32) {
            return Err(Failure::Error(BettingError::GameHasNotFinished));
        }
        let q = Self::pools_of(env, setting, resultBet, complain)?;
        let (gain, protocol, supreme) = distribution::fees_exec(q, complain)?;
        arith::plus(storage::get_ClaimSupreme(env, game_id), supreme)?;
        arith::plus(storage::get_ClaimProtocol(env), protocol)?;
        arith::plus(storage::get_ClaimProtocolTrust(env), q.trust)?;
        let ghost e0 = events@;
        storage::add_ClaimSupreme(env, game_id, supreme);
        events.push(BettingEvent::SupremeReward { game_id, amount: supreme });
        storage::add_ClaimProtocol(env, protocol);
        storage::add_ClaimProtocolTrust(env, q.trust);
        storage::save_complain(env, setting, complain);
        storage::save_winnerPool(env, setting, q.winners);
        storage::save_loserPool(env, setting, q.losers);
        storage::set_pool_total(env, setting, gain);
        storage::distribution_ResultGame(env, setting);
        let result = ResultGame {
            id: setting,
            gameid: game_id,
            setting,
            description: "Final Score 2-1".to_owned(),
            result: resultBet,
            pause: false,
            distribution_executed: true,
        };
        storage::set_ResultGame(env, result);
        events.push(BettingEvent::GameSettingDistributed { setting });
        proof {
            let evs = seq![
                BettingEvent::SupremeReward { game_id, amount: supreme },
                BettingEvent::GameSettingDistributed { setting },
            ];
            assert(events@ =~= e0 + evs);
            assert(env@.results =~= v.results.insert(setting, crate::rules::distributed_result(game_id, setting, resultBet)));
        }
        Ok(())
    }

    /// The pools of room `setting` (see `pools_rule`).
    fn pools_of(env: &Ledger, setting: i128, resultBet: BetKey, complain: i128) -> (r: Result<Pools, Failure>)
        ensures
            match r {
                Ok(q) => pools_rule(env@, setting, resultBet, complain) == Ok::<Pools, Failure>(q),
                Err(f) => pools_rule(env@, setting, resultBet, complain) == Err::<Pools, Failure>(f),
            },
    {
        let na = storage::read_tally(&env.not_assessed, setting);
        let ap = storage::read_tally(&env.approved, setting);
        let rj = storage::read_tally(&env.rejected, setting);
        let zero = Pools { gain: 0, trust: 0, usd: 0, losers: 0, winners: 0, novote: 0 };
        let p1 = distribution::unassessed_exec(zero, na, resultBet);
        let p1 = match p1 {
            Ok(p) => p,
            Err(e) => {
                proof {
                    distribution::lemma_bump_none(PoolField::Gain, 0);
                }
                return Err(e);
            },
        };
        let p2 = distribution::half_novote_exec(p1)?;
        let p3 = if complain == 0 {
            let d = distribution::dishonest_exec(p2, ap);
            let d = match d {
                Ok(d) => d,
                Err(e) => {
                    assert(distribution::honest(None, rj, resultBet) is None);
                    return Err(e);
                },
            };
            distribution::honest_exec(d, rj, resultBet)?
        } else if complain == 1 {
            let d = distribution::dishonest_exec(p2, rj);
            let d = match d {
                Ok(d) => d,
                Err(e) => {
                    assert(distribution::honest(None, ap, resultBet) is None);
                    return Err(e);
                },
            };
            distribution::honest_exec(d, ap, resultBet)?
        } else if complain == 2 {
            distribution::honest_exec(p2, ap, resultBet)?
        } else {
            return Err(Failure::Error(BettingError::InvalidInputError));
        };
        distribution::bump_pool(p3, PoolField::Gain, p3.usd)
    }

    /// Places `user` with `points` on the leaderboard (removing their former
    /// entry), stores the users of the two leading entries as the court's
    /// honest members, and returns the user's place.
    pub fn adduser_board(env: &mut Ledger, user: AccountId, points: i128) -> (position: u32)
        ensures
            final(env)@ == (LedgerView {
                leaderboard: board_after(old(env)@.leaderboard, user, points),
                supreme_honesty: top_two(board_after(old(env)@.leaderboard, user, points)),
                ..old(env)@
            }),
            position == board_position(old(env)@.leaderboard, user, points) as u32,
    {
        let mut leaderboard = storage::get_leaderboard(env);
        let ghost lb0 = leaderboard@;
        proof {
            lemma_user_index(lb0, user);
        }
        let mut i: usize = 0;
        while i < leaderboard.len() && leaderboard[i].0 != user
            invariant
                leaderboard@ == lb0,
                i <= lb0.len(),
                forall|j: int| 0 <= j < i ==> lb0[j].0 != user,
            decreases lb0.len() - i,
        {
            i = i + 1;
        }
        proof {
            lemma_user_index_is(lb0, user, i as int);
        }
        if i < leaderboard.len() {
            leaderboard.remove(i);
        }
        assert(leaderboard@ =~= without_user(lb0, user));
        let ghost w = leaderboard@;
        let mut insert_at: usize = 0;
        while insert_at < leaderboard.len() && points < leaderboard[insert_at].1
            invariant
                leaderboard@ == w,
                insert_at <= w.len(),
                forall|j: int| 0 <= j < insert_at ==> points < w[j].1,
            decreases w.len() - insert_at,
        {
            insert_at = insert_at + 1;
        }
        proof {
            lemma_insert_index_is(w, points, insert_at as int);
        }
        leaderboard.insert(insert_at, (user, points));
        let mut honest_top: Vec<AccountId> = Vec::new();
        if leaderboard.len() < 2 {
            honest_top.push(leaderboard[0].0);
        } else {
            honest_top.push(leaderboard[0].0);
            honest_top.push(leaderboard[1].0);
        }
        assert(honest_top@ =~= top_two(leaderboard@));
        storage::save_supreme_honesty(env, honest_top);
        storage::set_leaderboard(env, leaderboard);
        #[verifier::truncate]
        (insert_at as u32)
    }
}

} // verus!
