//! The contract's rules as functions from the state before a call to the
//! state after it, the value returned, the transfers asked for and the events
//! published, or the failure.
use crate::arith::{overflow, percent, percent_fits, tdiv};
use crate::board::{board_after, board_position, top_two};
use crate::distribution::{bump, dishonest, fees, half_novote, honest, no_pools, unassessed, PoolField, Pools};
use crate::constants::{
    FIFTY_POINTS, MINUS_TWENTY_POINTS, ONE_HOUR_SECONDS, SUMMITER_POINTS, TEN_PERCENT, TWENTY_PERCENT, TWENTY_POINTS,
};
use crate::ledger::{
    amounts_at, blank_result, fits_i128, flag_at, int_at, seq_at, tally_at, tally_plus, tally_plus_fits, Config,
    LedgerView,
};
use crate::outcome::{BettingError, BettingEvent, Effects, Failure, PanicReason, Transfer};
use crate::types::{
    AccountId, AssessmentKey, Bet, BetKey, ClaimType, Game, LastB, PrivateBet, PrivateBetView,
    ResultAssessmentView, ResultGame, ResultGameView, DUMMY_ACCOUNT,
};
use vstd::prelude::*;

verus! {

/// The state after a successful call, the value it returns, and what it asks
/// its caller to do.
pub struct Step<T> {
    pub post: LedgerView,
    pub value: T,
    pub transfers: Seq<Transfer>,
    pub events: Seq<BettingEvent>,
}

/// The failure of a contract error.
pub open spec fn reject<T>(e: BettingError) -> Result<Step<T>, Failure> {
    Err(Failure::Error(e))
}

/// The failure of a panic.
pub open spec fn stop<T>(p: PanicReason) -> Result<Step<T>, Failure> {
    Err(Failure::Panic(p))
}

/// A call's result `r`, with storage `post` after it, is what the rules `s`
/// prescribe.
pub open spec fn agrees<T>(s: Result<Step<T>, Failure>, r: Result<(T, Effects), Failure>, post: LedgerView) -> bool {
    match r {
        Ok((v, fx)) => s == Ok::<Step<T>, Failure>(Step { post, value: v, transfers: fx.transfers@, events: fx.events@ }),
        Err(f) => s == Err::<Step<T>, Failure>(f),
    }
}

/// As `agrees`, and a failed call leaves storage as it was.
pub open spec fn commits<T>(
    s: Result<Step<T>, Failure>,
    r: Result<(T, Effects), Failure>,
    pre: LedgerView,
    post: LedgerView,
) -> bool {
    &&& agrees(s, r, post)
    &&& match r {
        Ok(_) => true,
        Err(_) => post == pre,
    }
}

/// The ledger timestamp as the contract reads it (truncated to 32 bits).
pub open spec fn now32(now: u64) -> u32 {
    now as u32
}

/// The collateral rate of a bet: 20% in USD, or 10% in TRUST.
pub open spec fn collateral_rate(usd: bool) -> i128 {
    if usd {
        TWENTY_PERCENT
    } else {
        TEN_PERCENT
    }
}

impl LedgerView {
    pub open spec fn put_bet(self, user: AccountId, bet: Bet) -> LedgerView {
        LedgerView { bets: self.bets.insert((user, bet.Setting), bet), ..self }
    }

    pub open spec fn put_last_bet(self, setting: i128, last: LastB) -> LedgerView {
        LedgerView { last_bets: self.last_bets.insert(setting, last), ..self }
    }

    /// Room `setting` (or the default room) stored with its `active` flag set.
    pub open spec fn set_room_active(self, setting: i128, active: bool) -> LedgerView {
        LedgerView {
            private_bets: self.private_bets.insert(setting, PrivateBetView { active, ..self.private_bet(setting) }),
            ..self
        }
    }

    pub open spec fn plus_users_amount(self, k: i128, n: int) -> LedgerView {
        LedgerView { users_amount: self.users_amount.insert(k, (int_at(self.users_amount, k) + n) as i128), ..self }
    }

    pub open spec fn plus_users_voted(self, k: i128) -> LedgerView {
        LedgerView { users_voted: self.users_voted.insert(k, (int_at(self.users_voted, k) + 1) as i128), ..self }
    }

    pub open spec fn plus_total_bet(self, k: i128, n: int) -> LedgerView {
        LedgerView { total_bet: self.total_bet.insert(k, (int_at(self.total_bet, k) + n) as i128), ..self }
    }

    pub open spec fn plus_honesty(self, user: AccountId, n: int) -> LedgerView {
        LedgerView { honesty: self.honesty.insert(user, (self.honesty_of(user) + n) as i128), ..self }
    }

    /// The leaderboard and the court's honest members once `user` is placed
    /// with their current points.
    pub open spec fn ranked(self, user: AccountId) -> LedgerView {
        let b = board_after(self.leaderboard, user, self.honesty_of(user));
        LedgerView { leaderboard: b, supreme_honesty: top_two(b), ..self }
    }

    /// The event announcing `user`'s points and place.
    pub open spec fn rank_event(self, user: AccountId) -> BettingEvent {
        BettingEvent::UserHonestyPoints {
            user,
            points: self.honesty_of(user),
            position: board_position(self.leaderboard, user, self.honesty_of(user)) as u32,
        }
    }

    pub open spec fn plus_not_assessed(self, k: i128, bet: BetKey, amount: int, usd: bool, c: int) -> LedgerView {
        LedgerView {
            not_assessed: self.not_assessed.insert(k, tally_plus(tally_at(self.not_assessed, k), bet, amount, usd, c)),
            ..self
        }
    }

    pub open spec fn plus_approved(self, k: i128, bet: BetKey, amount: int, usd: bool, c: int) -> LedgerView {
        LedgerView {
            approved: self.approved.insert(k, tally_plus(tally_at(self.approved, k), bet, amount, usd, c)),
            ..self
        }
    }

    pub open spec fn plus_rejected(self, k: i128, bet: BetKey, amount: int, usd: bool, c: int) -> LedgerView {
        LedgerView {
            rejected: self.rejected.insert(k, tally_plus(tally_at(self.rejected, k), bet, amount, usd, c)),
            ..self
        }
    }

    pub open spec fn set_assessed(self, user: AccountId, setting: i128) -> LedgerView {
        LedgerView { assessed: self.assessed.insert((user, setting), true), ..self }
    }

    pub open spec fn set_withdrawn(self, user: AccountId, setting: i128) -> LedgerView {
        LedgerView { withdrawn: self.withdrawn.insert((user, setting), true), ..self }
    }
}

/// `__constructor`: stores the configuration once.
pub open spec fn constructor_rule(
    v: LedgerView,
    admin: AccountId,
    admin_pubkey: [u8; 32],
    token_usd: AccountId,
    token_trust: AccountId,
    supreme_court: AccountId,
) -> Result<Step<()>, Failure> {
    if v.initialized() {
        reject(BettingError::AlreadyInitializedError)
    } else {
        Ok(Step {
            post: LedgerView {
                config: Some(Config { admin, admin_pubkey, token_usd, token_trust, supreme_court }),
                ..v
            },
            value: (),
            transfers: Seq::empty(),
            events: Seq::empty(),
        })
    }
}

/// The checks of `bet`, in order: the error of the first that fails.
pub open spec fn bet_check(v: LedgerView, now: u64, user: AccountId, bet: Bet) -> Option<Failure> {
    let game = v.game(bet.gameid);
    let room = v.private_bet(bet.Setting);
    if !v.initialized() {
        Some(Failure::Panic(PanicReason::NotInitialized))
    } else if v.bet(user, bet.Setting).id != 0 {
        Some(Failure::Error(BettingError::BetAlready))
    } else if bet.amount_bet <= 0 {
        Some(Failure::Error(BettingError::InvalidInputError))
    } else if bet.id == 0 || bet.Setting == 0 || bet.gameid == 0 {
        Some(Failure::Error(BettingError::InvalidInputError))
    } else if game.id == 0 {
        Some(Failure::Error(BettingError::GameDoesNotExist))
    } else if game.startTime < now32(now) {
        Some(Failure::Error(BettingError::GameHasAlreadyStarted))
    } else if room.id == 0 {
        Some(Failure::Error(BettingError::SettingBetDoesNotExist))
    } else if !room.users_invated.contains(user) {
        Some(Failure::Error(BettingError::PrivateBet_NotAllowToBet))
    } else if bet.amount_bet != room.amount_bet_min {
        Some(Failure::Error(BettingError::PrivateBet_NotEnoughToBet))
    } else {
        None
    }
}

/// Whether `bet` turns its inactive room active: it is not the first bet of
/// the room and it disagrees with the first.
pub open spec fn bet_activates(v: LedgerView, bet: Bet) -> bool {
    &&& !v.private_bet(bet.Setting).active
    &&& v.last_bet(bet.Setting).id != 0
    &&& v.last_bet(bet.Setting).lastBet != bet.bet
}

/// The storage after a bet is recorded and the room's first bet noted, with
/// the room turned active when the bet activates it (before the bettor
/// counters of the game are raised).
pub open spec fn bet_recorded(v: LedgerView, user: AccountId, bet: Bet) -> LedgerView {
    let v1 = v.put_bet(user, bet);
    if !v.private_bet(bet.Setting).active && v.last_bet(bet.Setting).id == 0 {
        v1.put_last_bet(bet.Setting, LastB { id: bet.Setting, lastBet: bet.bet })
    } else if bet_activates(v, bet) {
        v1.set_room_active(bet.Setting, true)
    } else {
        v1
    }
}

/// The first part of a valid bet: the bet and the room's first bet recorded,
/// the room activated (and its invitations counted for the game) when the
/// bet disagrees with the first, and the bettor counted for the room.
pub open spec fn bet_stage1(v: LedgerView, user: AccountId, bet: Bet) -> Result<(LedgerView, Seq<BettingEvent>), Failure> {
    let room = v.private_bet(bet.Setting);
    let activates = bet_activates(v, bet);
    let v2 = bet_recorded(v, user, bet);
    let n = room.users_invated.len() as i128;
    if activates && !fits_i128(int_at(v2.users_amount, bet.gameid) + n) {
        Err(overflow())
    } else {
        let v3 = if activates { v2.plus_users_amount(bet.gameid, n as int) } else { v2 };
        let ev0 = if activates {
            seq![BettingEvent::ActiveSetting { gameid: room.gameid, setting: room.id }]
        } else {
            Seq::empty()
        };
        if !fits_i128(int_at(v3.users_amount, bet.Setting) + 1) {
            Err(overflow())
        } else {
            Ok((v3.plus_users_amount(bet.Setting, 1), ev0))
        }
    }
}

/// The second part of a valid bet: the game's total raised by the stake and
/// 20 honesty points charged.
pub open spec fn bet_stage2(v: LedgerView, user: AccountId, bet: Bet) -> Result<LedgerView, Failure> {
    if !fits_i128(int_at(v.total_bet, bet.gameid) + bet.amount_bet) {
        Err(overflow())
    } else {
        let v5 = v.plus_total_bet(bet.gameid, bet.amount_bet as int);
        if !fits_i128(v5.honesty_of(user) + MINUS_TWENTY_POINTS) {
            Err(overflow())
        } else {
            Ok(v5.plus_honesty(user, MINUS_TWENTY_POINTS as int))
        }
    }
}

/// The last part of a valid bet: the stake and collateral counted as not yet
/// assessed, and taken from the bettor.
pub open spec fn bet_stage3(
    v: LedgerView,
    cfg: Config,
    contract: AccountId,
    user: AccountId,
    bet: Bet,
) -> Result<(LedgerView, Seq<Transfer>), Failure> {
    let rate = collateral_rate(bet.collateralUsd);
    if !percent_fits(bet.amount_bet as int, rate as int) {
        Err(overflow())
    } else {
        let c = percent(bet.amount_bet as int, rate as int);
        if !tally_plus_fits(tally_at(v.not_assessed, bet.Setting), bet.bet, bet.amount_bet as int, bet.collateralUsd, c) {
            Err(overflow())
        } else {
            let token = if bet.collateralUsd { cfg.token_usd } else { cfg.token_trust };
            Ok((
                v.plus_not_assessed(bet.Setting, bet.bet, bet.amount_bet as int, bet.collateralUsd, c),
                seq![
                    Transfer { token: cfg.token_usd, from: user, to: contract, amount: bet.amount_bet },
                    Transfer { token, from: user, to: contract, amount: c as i128 },
                ],
            ))
        }
    }
}

/// `bet`: places `user`'s bet in a room they are invited to, taking the stake
/// and the collateral (20% in USD, or 10% in TRUST) from them, and charging
/// them 20 honesty points until they vote.
pub open spec fn bet_rule(v: LedgerView, now: u64, contract: AccountId, user: AccountId, bet: Bet) -> Result<Step<bool>, Failure> {
    match bet_check(v, now, user, bet) {
        Some(f) => Err(f),
        None => match bet_stage1(v, user, bet) {
            Err(f) => Err(f),
            Ok((v1, ev0)) => match bet_stage2(v1, user, bet) {
                Err(f) => Err(f),
                Ok(v2) => match bet_stage3(v2.ranked(user), v.config.unwrap(), contract, user, bet) {
                    Err(f) => Err(f),
                    Ok((v3, transfers)) => Ok(Step {
                        post: v3,
                        value: true,
                        transfers,
                        events: ev0.push(v2.rank_event(user)),
                    }),
                },
            },
        },
    }
}

/// `claim_refund`'s checks, in order; `None` when the refund is paid. An
/// active room is refunded when no result was submitted within the 5 hours
/// after the game's end (the submission window), or when its result was
/// still not distributed 29 hours after the end (the court's window); a
/// distributed room is never refunded.
pub open spec fn refund_check(v: LedgerView, now: u64, user: AccountId, setting: i128) -> Option<Failure> {
    let b = v.bets[(user, setting)];
    let game = v.game(b.gameid);
    let room = v.private_bet(b.Setting);
    let received = v.result(b.Setting);
    if !v.initialized() {
        Some(Failure::Panic(PanicReason::NotInitialized))
    } else if !v.bets.contains_key((user, setting)) {
        Some(Failure::Panic(PanicReason::NoBetForUser))
    } else if b.id == 0 {
        Some(Failure::Error(BettingError::NoBetHasBeenFound))
    } else if flag_at(v.withdrawn, (user, setting)) {
        Some(Failure::Error(BettingError::UserAlreadyClaimed))
    } else if !(game.startTime < now32(now)) {
        Some(Failure::Error(BettingError::NothingToClaim))
    } else if room.id == 0 {
        Some(Failure::Error(BettingError::SettingBetDoesNotExist))
    } else if room.active && received.id == 0 && game.endTime + 5 * ONE_HOUR_SECONDS > u32::MAX {
        Some(overflow())
    } else if room.active && received.id == 0 && !(game.endTime + 5 * ONE_HOUR_SECONDS < now32(now)) {
        Some(Failure::Error(BettingError::GameIsActive))
    } else if room.active && received.id != 0 && game.endTime + 29 * ONE_HOUR_SECONDS > u32::MAX {
        Some(overflow())
    } else if room.active && received.id != 0 && !(game.endTime + 29 * ONE_HOUR_SECONDS < now32(now)) {
        Some(Failure::Error(BettingError::GameIsActive))
    } else if room.active && received.id != 0 && received.distribution_executed {
        Some(Failure::Error(BettingError::GameIsActive))
    } else {
        None
    }
}

/// `claim_refund`: once the game has started, gives a bettor back their
/// stake and collateral when their room never turned active, when no result
/// was submitted within 5 hours of the game's end, or when the submitted
/// result was still not distributed 29 hours after the end; the bettor gets 20
/// honesty points back. The value is the USD and the TRUST returned.
pub open spec fn claim_refund_rule(v: LedgerView, now: u64, contract: AccountId, user: AccountId, setting: i128) -> Result<Step<(i128, i128)>, Failure> {
    match refund_check(v, now, user, setting) {
        Some(f) => Err(f),
        None => {
            let cfg = v.config.unwrap();
            let b = v.bets[(user, setting)];
            let rate = collateral_rate(b.collateralUsd);
            let c = percent(b.amount_bet as int, rate as int);
            if !percent_fits(b.amount_bet as int, rate as int) {
                Err(overflow())
            } else if b.collateralUsd && !fits_i128(b.amount_bet + c) {
                Err(overflow())
            } else if !fits_i128(v.honesty_of(user) + TWENTY_POINTS) {
                Err(overflow())
            } else {
                let v1 = v.plus_honesty(user, TWENTY_POINTS as int);
                let token = if b.collateralUsd { cfg.token_usd } else { cfg.token_trust };
                Ok(Step {
                    post: v1.ranked(user).set_withdrawn(user, setting),
                    value: if b.collateralUsd { ((b.amount_bet + c) as i128, 0i128) } else { (b.amount_bet, c as i128) },
                    transfers: seq![
                        Transfer { token: cfg.token_usd, from: contract, to: user, amount: b.amount_bet },
                        Transfer { token, from: contract, to: user, amount: c as i128 },
                    ],
                    events: seq![v1.rank_event(user)],
                })
            }
        },
    }
}

/// `set_game` once the admin's signature over the game has been checked:
/// `signature_ok` is that check's outcome.
pub open spec fn set_game_checked_rule(v: LedgerView, game: Game, signature_ok: bool) -> Result<Step<bool>, Failure> {
    if v.game(game.id).id != 0 {
        reject(BettingError::GameHasAlreadySet)
    } else if game.id == 0 || game.startTime == 0 || game.endTime == 0 || game.startTime >= game.endTime || game.active {
        reject(BettingError::InvalidInputError)
    } else if !v.initialized() {
        stop(PanicReason::NotInitialized)
    } else if !signature_ok {
        stop(PanicReason::InvalidSignature)
    } else {
        Ok(Step {
            post: LedgerView { games: v.games.insert(game.id, game@), ..v },
            value: true,
            transfers: Seq::empty(),
            events: seq![BettingEvent::GameSet { game_id: game.id }],
        })
    }
}

/// `set_private_bet`: `user` opens a room on an existing game, inviting at
/// least two users, for a positive fixed amount.
pub open spec fn set_private_bet_rule(v: LedgerView, user: AccountId, data: PrivateBet, game_id: i128) -> Result<Step<bool>, Failure> {
    if v.game(game_id).id == 0 {
        reject(BettingError::GameDoesNotExist)
    } else if data.id == 0 || data.gameid != game_id || data.amount_bet_min <= 0 || data.users_invated@.len() < 2
        || data.active || data.settingAdmin != user {
        reject(BettingError::InvalidInputError)
    } else if v.private_bet(data.id).id != 0 {
        stop(PanicReason::PrivateSettingAlreadyExists)
    } else {
        let v1 = LedgerView { private_bets: v.private_bets.insert(data.id, data@), ..v };
        Ok(Step {
            post: LedgerView {
                private_lists: v1.private_lists.insert(game_id, seq_at(v1.private_lists, game_id).push(data.id)),
                ..v1
            },
            value: true,
            transfers: Seq::empty(),
            events: seq![BettingEvent::PrivateSetting { game_id, setting: data.id, admin: user, amount_bet_min: data.amount_bet_min }],
        })
    }
}

/// `add_user_privateBet`: the room's admin invites `newUser` before the game
/// starts; the room is stored with the new user put first in its invitation
/// list.
pub open spec fn add_user_private_bet_rule(v: LedgerView, now: u64, setting: i128, game: i128, newUser: AccountId) -> Result<Step<bool>, Failure> {
    let room = v.private_bet(setting);
    let g = v.game(game);
    if g.id == 0 {
        reject(BettingError::GameDoesNotExist)
    } else if g.startTime < now32(now) {
        reject(BettingError::GameHasAlreadyStarted)
    } else if room.id == 0 || room.gameid != game {
        reject(BettingError::SettingBetDoesNotExist)
    } else if room.users_invated.contains(newUser) {
        reject(BettingError::InvalidInputError)
    } else {
        Ok(Step {
            post: LedgerView {
                private_bets: v.private_bets.insert(setting, PrivateBetView { users_invated: seq![newUser] + room.users_invated, ..room }),
                ..v
            },
            value: true,
            transfers: Seq::empty(),
            events: seq![BettingEvent::NewUserAddedPrivate { game_id: game, setting, user: newUser }],
        })
    }
}

/// The checks of `summitResult`, in order.
pub open spec fn summit_check(v: LedgerView, now: u64, user: AccountId, setting: i128, result: ResultGame) -> Option<Failure> {
    let b = v.bet(user, setting);
    let room = v.private_bet(setting);
    let g = v.game(b.gameid);
    if room.id == 0 || !room.active {
        Some(Failure::Error(BettingError::SettingBetDoesNotExist))
    } else if b.id == 0 {
        Some(Failure::Error(BettingError::BetNotFound))
    } else if result.id == 0 || result.gameid == 0 || result.setting != setting {
        Some(Failure::Error(BettingError::InvalidInputError))
    } else if v.result(setting).id != 0 {
        Some(Failure::Error(BettingError::GameResultAlreadySet))
    } else if g.id == 0 {
        Some(Failure::Error(BettingError::GameDoesNotExist))
    } else if g.endTime > now32(now) {
        Some(Failure::Error(BettingError::GameHasNotFinished))
    } else if g.endTime + 5 * ONE_HOUR_SECONDS > u32::MAX {
        Some(overflow())
    } else if g.endTime + 5 * ONE_HOUR_SECONDS < now32(now) {
        Some(Failure::Error(BettingError::GameSumitionHasFinished))
    } else if result.distribution_executed || result.pause {
        Some(Failure::Error(BettingError::InvalidInputError))
    } else {
        None
    }
}

/// A voter's bet moved from the not-assessed tally of its room to the
/// approvers' tally (or, with `rejects`, the rejecters').
pub open spec fn move_vote(v: LedgerView, b: Bet, rejects: bool) -> Result<LedgerView, Failure> {
    let rate = collateral_rate(b.collateralUsd);
    let c = percent(b.amount_bet as int, rate as int);
    let t = if rejects { tally_at(v.rejected, b.Setting) } else { tally_at(v.approved, b.Setting) };
    if !percent_fits(b.amount_bet as int, rate as int) {
        Err(overflow())
    } else if !tally_plus_fits(t, b.bet, b.amount_bet as int, b.collateralUsd, c) {
        Err(overflow())
    } else {
        let v1 = if rejects {
            v.plus_rejected(b.Setting, b.bet, b.amount_bet as int, b.collateralUsd, c)
        } else {
            v.plus_approved(b.Setting, b.bet, b.amount_bet as int, b.collateralUsd, c)
        };
        if !tally_plus_fits(tally_at(v1.not_assessed, b.Setting), b.bet, -b.amount_bet, b.collateralUsd, -c) {
            Err(overflow())
        } else {
            Ok(v1.plus_not_assessed(b.Setting, b.bet, -b.amount_bet, b.collateralUsd, -c))
        }
    }
}

/// `summitResult`: a bettor of an active room submits its result within 5
/// hours of the game's end; the submitter counts as approving it.
pub open spec fn summit_result_rule(v: LedgerView, now: u64, user: AccountId, setting: i128, result: ResultGame) -> Result<Step<bool>, Failure> {
    match summit_check(v, now, user, setting, result) {
        Some(f) => Err(f),
        None => {
            let b = v.bet(user, setting);
            let ra = v.assessment(setting);
            let ra1 = ResultAssessmentView {
                UsersApprove: seq![user] + ra.UsersApprove,
                id: setting,
                setting,
                gameid: b.gameid,
                UsersReject: ra.UsersReject,
            };
            let v1 = LedgerView { assessments: v.assessments.insert(setting, ra1), ..v };
            if !fits_i128(int_at(v1.users_voted, setting) + 1) {
                Err(overflow())
            } else {
                let v2 = v1.plus_users_voted(setting);
                if !fits_i128(int_at(v2.users_voted, b.gameid) + 1) {
                    Err(overflow())
                } else {
                    match move_vote(v2.plus_users_voted(b.gameid), b, false) {
                        Err(f) => Err(f),
                        Ok(v3) => Ok(Step {
                            post: LedgerView { results: v3.results.insert(result.setting, result@), ..v3 },
                            value: true,
                            transfers: Seq::empty(),
                            events: seq![BettingEvent::GameResult { setting, result: result.result, description: result.description }],
                        }),
                    }
                }
            }
        },
    }
}

/// The checks of `assessResult`, in order.
pub open spec fn assess_check(v: LedgerView, now: u64, user: AccountId, setting: i128, desition: AssessmentKey) -> Option<Failure> {
    let b = v.bet(user, setting);
    let g = v.game(b.gameid);
    let ra = v.assessment(setting);
    if b.id == 0 {
        Some(Failure::Error(BettingError::BetNotFound))
    } else if g.id == 0 {
        Some(Failure::Error(BettingError::GameDoesNotExist))
    } else if g.endTime > now32(now) {
        Some(Failure::Error(BettingError::GameHasNotFinished))
    } else if g.endTime + 5 * ONE_HOUR_SECONDS > u32::MAX {
        Some(overflow())
    } else if g.endTime + 5 * ONE_HOUR_SECONDS < now32(now) {
        Some(Failure::Error(BettingError::GameAssesmentHasFinished))
    } else if v.result(setting).id == 0 {
        Some(Failure::Error(BettingError::GameResultNotFound))
    } else if flag_at(v.assessed, (user, setting)) || ra.UsersReject.contains(user)
        || (ra.UsersApprove.contains(user) && desition == AssessmentKey::reject) {
        Some(Failure::Error(BettingError::UserCannotVote))
    } else {
        None
    }
}

/// `assessResult`: a bettor of the room approves or rejects the submitted
/// result within 5 hours of the game's end, once; a rejection pauses the
/// result. The submitter, listed as approving since the submission,
/// confirms with their one approval, which changes no tally; they cannot
/// reject. An approval of a result already paused by a rejection is added
/// to the rejecters' tally, as the pause decides which tally a vote joins.
pub open spec fn assess_result_rule(v: LedgerView, now: u64, user: AccountId, setting: i128, desition: AssessmentKey) -> Result<Step<bool>, Failure> {
    match assess_check(v, now, user, setting, desition) {
        Some(f) => Err(f),
        None => if v.assessment(setting).UsersApprove.contains(user) {
            Ok(Step { post: v.set_assessed(user, setting), value: true, transfers: Seq::empty(), events: Seq::empty() })
        } else {
            let b = v.bet(user, setting);
            let ra = v.assessment(setting);
            let paused = v.result(setting).pause || desition == AssessmentKey::reject;
            let ra1 = if desition == AssessmentKey::approve {
                ResultAssessmentView { UsersApprove: seq![user] + ra.UsersApprove, ..ra }
            } else {
                ResultAssessmentView { UsersReject: seq![user] + ra.UsersReject, ..ra }
            };
            if !fits_i128(int_at(v.users_voted, setting) + 1) {
                Err(overflow())
            } else {
                let v1 = v.plus_users_voted(setting);
                let ev1: Seq<BettingEvent> = if v1.all_voted(setting) { seq![BettingEvent::AllVoteSetting { setting }] } else { Seq::empty() };
                if !fits_i128(int_at(v1.users_voted, b.gameid) + 1) {
                    Err(overflow())
                } else {
                    let v2 = v1.plus_users_voted(b.gameid);
                    let ev2: Seq<BettingEvent> = if v2.all_voted(b.gameid) { seq![BettingEvent::AllVoteGame { game_id: b.gameid }] } else { Seq::empty() };
                    let v3 = LedgerView { assessments: v2.assessments.insert(setting, ra1), ..v2 };
                    let v4 = if paused {
                        LedgerView {
                            results: v3.results.insert(
                                setting,
                                ResultGameView { pause: true, ..(if v3.results.contains_key(setting) { v3.results[setting] } else { blank_result() }) },
                            ),
                            ..v3
                        }
                    } else {
                        v3
                    };
                    let ev3: Seq<BettingEvent> = if paused { seq![BettingEvent::GameResultReject { setting }] } else { Seq::empty() };
                    match move_vote(v4, b, paused) {
                        Err(f) => Err(f),
                        Ok(v5) => Ok(Step { post: v5.set_assessed(user, setting), value: true, transfers: Seq::empty(), events: ev1 + ev2 + ev3 }),
                    }
                }
            }
        },
    }
}

/// `set_game`: the admin's signature over the game's encoding `encoded`
/// is checked with the stored public key.
pub open spec fn set_game_rule(v: LedgerView, game: Game, encoded: Seq<u8>, signature: Seq<u8>) -> Result<Step<bool>, Failure> {
    set_game_checked_rule(
        v,
        game,
        v.initialized() && crate::signature::ed25519_strict_valid(v.config.unwrap().admin_pubkey@, encoded, signature),
    )
}

/// The pools of room `setting` once its result `r` is known: the forfeited
/// collateral and stakes of the silent bettors, half of the silent winners'
/// stakes, and the stakes of the dishonest voters, with the honest voters'
/// stakes split between winners and losers. Complaint 0 means the court
/// upheld the rejecters (the approvers were dishonest), 1 that it overruled
/// them, 2 that nobody complained.
pub open spec fn pools_rule(v: LedgerView, setting: i128, r: BetKey, complain: i128) -> Result<Pools, Failure> {
    let na = tally_at(v.not_assessed, setting);
    let ap = tally_at(v.approved, setting);
    let rj = tally_at(v.rejected, setting);
    match half_novote(unassessed(Some(no_pools()), na, r)) {
        None => Err(overflow()),
        Some(q2) => {
            let p3 = if complain == 0 {
                honest(dishonest(Some(q2), ap), rj, r)
            } else if complain == 1 {
                honest(dishonest(Some(q2), rj), ap, r)
            } else {
                honest(Some(q2), ap, r)
            };
            if !(0 <= complain <= 2) {
                Err(Failure::Error(BettingError::InvalidInputError))
            } else {
                match p3 {
                    None => Err(overflow()),
                    Some(q3) => match bump(Some(q3), PoolField::Gain, q3.usd as int) {
                        None => Err(overflow()),
                        Some(q4) => Ok(q4),
                    },
                }
            }
        },
    }
}

/// The result a distribution stores for room `setting`.
pub open spec fn distributed_result(game_id: i128, setting: i128, r: BetKey) -> ResultGameView {
    ResultGameView {
        id: setting,
        gameid: game_id,
        setting,
        description: "Final Score 2-1"@,
        result: r,
        pause: false,
        distribution_executed: true,
    }
}

/// `make_distribution`: computes the pools of room `setting` of game
/// `game_id` once the game has ended, credits the protocol's and the court's
/// fees and the forfeited TRUST, and records the pools and the result.
pub open spec fn distribution_rule(v: LedgerView, now: u64, game_id: i128, setting: i128, r: BetKey, complain: i128) -> Result<(LedgerView, Seq<BettingEvent>), Failure> {
    let g = v.game(game_id);
    if !v.initialized() {
        Err(Failure::Panic(PanicReason::NotInitialized))
    } else if g.id == 0 {
        Err(Failure::Error(BettingError::GameDoesNotExist))
    } else if g.endTime > now32(now) {
        Err(Failure::Error(BettingError::GameHasNotFinished))
    } else {
        match pools_rule(v, setting, r, complain) {
            Err(f) => Err(f),
            Ok(q) => match fees(q, complain) {
                None => Err(overflow()),
                Some((gain, protocol, supreme)) => {
                    if !fits_i128(int_at(v.claim_supreme, game_id) + supreme) || !fits_i128(v.claim_protocol + protocol)
                        || !fits_i128(v.claim_protocol_trust + q.trust) {
                        Err(overflow())
                    } else {
                        Ok((
                            LedgerView {
                                claim_supreme: v.claim_supreme.insert(game_id, (int_at(v.claim_supreme, game_id) + supreme) as i128),
                                claim_protocol: (v.claim_protocol + protocol) as i128,
                                claim_protocol_trust: (v.claim_protocol_trust + q.trust) as i128,
                                complains: v.complains.insert(setting, complain),
                                winner_pools: v.winner_pools.insert(setting, q.winners),
                                loser_pools: v.loser_pools.insert(setting, q.losers),
                                pools: v.pools.insert(setting, gain),
                                results: v.results.insert(setting, distributed_result(game_id, setting, r)),
                                ..v
                            },
                            seq![
                                BettingEvent::SupremeReward { game_id, amount: supreme },
                                BettingEvent::GameSettingDistributed { setting },
                            ],
                        ))
                    }
                },
            },
        }
    }
}

/// `execute_distribution`: distributes an active room whose unpaused result
/// has not been distributed, once every bettor has voted or 5 hours after
/// the game's end (a cancelled game only deactivates the room); the room's
/// result is counted for the game.
pub open spec fn execute_distribution_rule(v: LedgerView, now: u64, setting: i128) -> Result<Step<bool>, Failure> {
    let result = v.result(setting);
    let g = v.game(result.gameid);
    let room = v.private_bet(setting);
    if g.endTime + 5 * ONE_HOUR_SECONDS > u32::MAX {
        Err(overflow())
    } else if g.endTime + 5 * ONE_HOUR_SECONDS > now32(now) && !v.all_voted(setting) {
        reject(BettingError::GameAssesmentHasFinished)
    } else if !room.active {
        reject(BettingError::SettingNotActive)
    } else if result.id == 0 {
        reject(BettingError::GameNoResult)
    } else if result.pause {
        reject(BettingError::GameHasBeenPaused)
    } else if result.distribution_executed {
        reject(BettingError::GameHasAlreadyBeenExecuted)
    } else {
        let d = if result.result == BetKey::Cancel {
            Ok((v.set_room_active(setting, false), Seq::<BettingEvent>::empty()))
        } else {
            distribution_rule(v, now, room.gameid, setting, result.result, 2)
        };
        match d {
            Err(f) => Err(f),
            Ok((v1, evs)) => {
                let c = amounts_at(v1.result_counts, result.gameid);
                if !fits_i128(c.at(result.result) + 1) {
                    Err(overflow())
                } else {
                    Ok(Step {
                        post: LedgerView {
                            result_counts: v1.result_counts.insert(result.gameid, c.put(result.result, (c.at(result.result) + 1) as i128)),
                            ..v1
                        },
                        value: true,
                        transfers: Seq::empty(),
                        events: evs,
                    })
                }
            },
        }
    }
}

/// `what_kind_user`: what a bettor is owed in room `setting` once it has a
/// result: 1 an honest winner, 2 an honest loser, 3 a dishonest voter, 4 a
/// winner who did not vote, 5 a loser who did not vote, 6 no bet; with the
/// amount that counts (their bet, or 0) and whether their collateral is USD.
/// Under complaint 0 the approvers were dishonest, under 1 the rejecters;
/// under 2 (no complaint) a rejecter is an invalid case.
pub open spec fn kind_rule(v: LedgerView, user: AccountId, setting: i128) -> Result<(i32, i128, bool), Failure> {
    let b = v.bets[(user, setting)];
    let x = v.result(setting);
    let ra = v.assessment(setting);
    let c = int_at(v.complains, setting);
    let approved = ra.UsersApprove.contains(user);
    let rejected = ra.UsersReject.contains(user);
    let won = b.bet == x.result;
    let honest_kind: (i32, i128, bool) = if won { (1, b.amount_bet, b.collateralUsd) } else { (2, b.amount_bet, b.collateralUsd) };
    let silent_kind: (i32, i128, bool) = if won { (4, b.amount_bet, b.collateralUsd) } else { (5, 0, b.collateralUsd) };
    let dishonest_kind: (i32, i128, bool) = (3, 0, b.collateralUsd);
    if !v.bets.contains_key((user, setting)) {
        Ok((6, 0, false))
    } else if b.id == 0 {
        Ok((6, 0, b.collateralUsd))
    } else if v.game(b.gameid).id == 0 {
        Err(Failure::Error(BettingError::GameDoesNotExist))
    } else if x.id == 0 {
        Err(Failure::Error(BettingError::GameNoResult))
    } else if x.pause {
        Err(Failure::Error(BettingError::GameHasBeenPaused))
    } else if c == 0 {
        if approved { Ok(dishonest_kind) } else if rejected { Ok(honest_kind) } else { Ok(silent_kind) }
    } else if c == 1 {
        if approved { Ok(honest_kind) } else if rejected { Ok(dishonest_kind) } else { Ok(silent_kind) }
    } else if c == 2 {
        if approved {
            Ok(honest_kind)
        } else if !rejected {
            Ok(silent_kind)
        } else {
            Err(Failure::Error(BettingError::InvalidInputError))
        }
    } else {
        Err(Failure::Error(BettingError::InvalidInputError))
    }
}

/// An honest bettor's share of `pool`: their stake's percentage of
/// `stakes_pool` (rounded toward zero), then that percentage of the pool.
pub open spec fn pool_share(stake: int, stakes_pool: int, pool: int) -> int {
    tdiv(tdiv(stake * 100, stakes_pool) * pool, 100)
}

/// The user recorded as the submitter of room `setting` ("nobody" if none).
pub open spec fn summiter_of(v: LedgerView, setting: i128) -> AccountId {
    if v.summiters.contains_key(setting) {
        v.summiters[setting]
    } else {
        DUMMY_ACCOUNT
    }
}

/// The honesty points of an honest vote, more for the result's submitter.
pub open spec fn vote_points(v: LedgerView, user: AccountId, setting: i128) -> i128 {
    if summiter_of(v, setting) == user {
        SUMMITER_POINTS
    } else {
        FIFTY_POINTS
    }
}

/// What an honest loser is paid: their collateral back, and when nobody won
/// honestly their share of the pool in proportion to their bet among the
/// honest losers; they earn the points of an honest vote.
pub open spec fn loser_claim(v: LedgerView, cfg: Config, contract: AccountId, user: AccountId, setting: i128, amount: i128, usdc: bool) -> Result<Step<(i128, i128)>, Failure> {
    let winner_pool = int_at(v.winner_pools, setting);
    let loser_pool = int_at(v.loser_pools, setting);
    let share_pool = int_at(v.pools, setting);
    let rate = collateral_rate(usdc);
    let c = percent(amount as int, rate as int);
    let usd0: int = if usdc { c } else { 0 };
    let trust0: int = if usdc { 0 } else { c };
    let t1 = Transfer { token: if usdc { cfg.token_usd } else { cfg.token_trust }, from: contract, to: user, amount: c as i128 };
    let share = tdiv(amount * 100, loser_pool as int);
    let ua = pool_share(amount as int, loser_pool as int, share_pool as int);
    let points = vote_points(v, user, setting);
    if !percent_fits(amount as int, rate as int) {
        Err(overflow())
    } else if winner_pool == 0 && !fits_i128(amount * 100) {
        Err(overflow())
    } else if winner_pool == 0 && loser_pool == 0 {
        stop(PanicReason::DivisionByZero)
    } else if winner_pool == 0 && !fits_i128(share) {
        Err(overflow())
    } else if winner_pool == 0 && !fits_i128(share * share_pool) {
        Err(overflow())
    } else if winner_pool == 0 && !fits_i128(usd0 + ua) {
        Err(overflow())
    } else if !fits_i128(v.honesty_of(user) + points) {
        Err(overflow())
    } else {
        let v1 = v.plus_honesty(user, points as int);
        Ok(Step {
            post: v1.ranked(user).set_withdrawn(user, setting),
            value: if winner_pool == 0 { ((usd0 + ua) as i128, trust0 as i128) } else { (usd0 as i128, trust0 as i128) },
            transfers: if winner_pool == 0 {
                seq![t1, Transfer { token: cfg.token_usd, from: contract, to: user, amount: ua as i128 }]
            } else {
                seq![t1]
            },
            events: seq![v1.rank_event(user)],
        })
    }
}

/// What an honest winner is paid: their bet, their share of the pool in
/// proportion to their bet among the honest winners, and their collateral;
/// they earn 50 points and the points of an honest vote.
pub open spec fn winner_claim(v: LedgerView, cfg: Config, contract: AccountId, user: AccountId, setting: i128, amount: i128, usdc: bool) -> Result<Step<(i128, i128)>, Failure> {
    let winner_pool = int_at(v.winner_pools, setting);
    let share_pool = int_at(v.pools, setting);
    let share = tdiv(amount * 100, winner_pool as int);
    let ua = pool_share(amount as int, winner_pool as int, share_pool as int);
    let total = amount + ua;
    let rate = collateral_rate(usdc);
    let c = percent(amount as int, rate as int);
    if !fits_i128(amount * 100) {
        Err(overflow())
    } else if winner_pool == 0 {
        stop(PanicReason::DivisionByZero)
    } else if !fits_i128(share) || !fits_i128(share * share_pool) || !fits_i128(total) {
        Err(overflow())
    } else if !percent_fits(amount as int, rate as int) {
        Err(overflow())
    } else if usdc && !fits_i128(total + c) {
        Err(overflow())
    } else if !fits_i128(v.honesty_of(user) + FIFTY_POINTS) {
        Err(overflow())
    } else {
        let v1 = v.plus_honesty(user, FIFTY_POINTS as int);
        let points = vote_points(v1, user, setting);
        if !fits_i128(v1.honesty_of(user) + points) {
            Err(overflow())
        } else {
            let v2 = v1.plus_honesty(user, points as int);
            Ok(Step {
                post: v2.ranked(user).set_withdrawn(user, setting),
                value: if usdc { ((total + c) as i128, 0i128) } else { (total as i128, c as i128) },
                transfers: seq![
                    Transfer { token: cfg.token_usd, from: contract, to: user, amount: total as i128 },
                    Transfer { token: if usdc { cfg.token_usd } else { cfg.token_trust }, from: contract, to: user, amount: c as i128 },
                ],
                events: seq![v2.rank_event(user)],
            })
        }
    }
}

/// A bettor's claim in room `setting`, paid once.
pub open spec fn user_claim_rule(v: LedgerView, cfg: Config, contract: AccountId, user: AccountId, setting: i128) -> Result<Step<(i128, i128)>, Failure> {
    if flag_at(v.withdrawn, (user, setting)) {
        reject(BettingError::UserAlreadyClaimed)
    } else {
        match kind_rule(v, user, setting) {
            Err(f) => Err(f),
            Ok((kind, amount, usdc)) => {
                if kind == 6 {
                    reject(BettingError::NoBetHasBeenFound)
                } else if kind == 5 || kind == 3 {
                    reject(BettingError::NothingToClaim)
                } else if kind == 4 {
                    if !percent_fits(amount as int, 50) {
                        Err(overflow())
                    } else {
                        let h = percent(amount as int, 50) as i128;
                        Ok(Step {
                            post: v.set_withdrawn(user, setting),
                            value: (h, 0i128),
                            transfers: seq![Transfer { token: cfg.token_usd, from: contract, to: user, amount: h }],
                            events: Seq::empty(),
                        })
                    }
                } else if kind == 2 {
                    loser_claim(v, cfg, contract, user, setting, amount, usdc)
                } else if kind == 1 {
                    winner_claim(v, cfg, contract, user, setting, amount, usdc)
                } else {
                    reject(BettingError::InvalidInputError)
                }
            },
        }
    }
}

/// A court member's share of the court's reward for game `setting`, paid
/// once: the reward divided among the approving votes other than the
/// admin's. Every listed honest member and the external member may claim a
/// share, whichever way they voted, so the shares paid can add up to more
/// than the reward.
pub open spec fn supreme_claim_rule(v: LedgerView, cfg: Config, contract: AccountId, user: AccountId, setting: i128) -> Result<Step<(i128, i128)>, Failure> {
    let a = v.supreme_assessment(setting);
    let votes = v.votes(setting);
    let n: int = if a.Admin { votes.aproved - 1 } else { votes.aproved as int };
    let money = int_at(v.claim_supreme, setting);
    if flag_at(v.supreme_withdrawn, (user, setting)) {
        reject(BettingError::UserAlreadyClaimed)
    } else if a.id == 0 {
        reject(BettingError::NothingToClaim)
    } else if user != cfg.supreme_court && !a.countHonestyUsers.contains(user) {
        reject(BettingError::NothingToClaim)
    } else if user == cfg.supreme_court && !a.ExternalUser {
        reject(BettingError::NothingToClaim)
    } else if !fits_i128(n) {
        Err(overflow())
    } else if n == 0 {
        stop(PanicReason::DivisionByZero)
    } else if !fits_i128(tdiv(money as int, n)) {
        Err(overflow())
    } else {
        let got = tdiv(money as int, n) as i128;
        Ok(Step {
            post: LedgerView { supreme_withdrawn: v.supreme_withdrawn.insert((user, setting), true), ..v },
            value: (got, 0i128),
            transfers: seq![Transfer { token: cfg.token_usd, from: contract, to: user, amount: got }],
            events: Seq::empty(),
        })
    }
}

/// `claim`: pays a court member (`Supreme`), the protocol's fees to the
/// admin (`Protocol`, which then owes nothing), or a bettor (`User`). The
/// value is the USD and the TRUST paid.
pub open spec fn claim_rule(v: LedgerView, contract: AccountId, user: AccountId, typeClaim: ClaimType, setting: i128) -> Result<Step<(i128, i128)>, Failure> {
    if !v.initialized() {
        stop(PanicReason::NotInitialized)
    } else {
        let cfg = v.config.unwrap();
        match typeClaim {
            ClaimType::Supreme => supreme_claim_rule(v, cfg, contract, user, setting),
            ClaimType::Protocol => Ok(Step {
                post: LedgerView { claim_protocol: 0, claim_protocol_trust: 0, ..v },
                value: (v.claim_protocol, v.claim_protocol_trust),
                transfers: seq![
                    Transfer { token: cfg.token_usd, from: contract, to: cfg.admin, amount: v.claim_protocol },
                    Transfer { token: cfg.token_trust, from: contract, to: cfg.admin, amount: v.claim_protocol_trust },
                ],
                events: Seq::empty(),
            }),
            ClaimType::User => user_claim_rule(v, cfg, contract, user, setting),
        }
    }
}

} // verus!
