//! Properties of the contract that span calls: what one call leaves for the
//! next, and what a distribution keeps.
use crate::arith::{percent, tdiv};
use vstd::arithmetic::div_mod::{
    lemma_div_by_multiple, lemma_div_is_ordered, lemma_div_pos_is_pos, lemma_fundamental_div_mod,
};
use vstd::arithmetic::div_mod::lemma_mod_pos_bound;
use crate::constants::{FIVE_PERCENT, THREE_PERCENT};
use crate::ledger::{fits_i128, flag_at, int_at, seq_at, tally_at, tally_plus_fits, LedgerView};
use crate::storage::overall_of;
use crate::types::KeyAmounts;
use crate::outcome::{BettingError, Failure, PanicReason, Transfer};
use crate::court::{
    assess_supreme_rule, court_window_check, result_pending, set_result_supreme_rule, submission_needed,
};
use crate::rules::{
    assess_result_rule, bet_rule, claim_refund_rule, claim_rule, constructor_rule, distribution_rule,
    execute_distribution_rule, move_vote, pools_rule, reject, set_game_checked_rule, set_private_bet_rule, stop,
    kind_rule, summit_result_rule, pool_share, Step,
};
use crate::types::{
    AccountId, AssessmentKey, Bet, BetKey, ClaimType, Game, PrivateBet, ResultAssessmentView, ResultGame,
};
use vstd::prelude::*;

verus! {

/// A distribution splits the room's gain exactly: what is left to share in
/// the room, plus the protocol's fee, plus the court's fee, is the whole
/// gain; the forfeited TRUST all goes to the protocol; the court takes 3%
/// only after a complaint, and the protocol 5% unless nobody voted
/// honestly (then it takes the whole gain).
pub proof fn law_distribution_splits_gain(v: LedgerView, now: u64, game_id: i128, setting: i128, r: BetKey, complain: i128)
    requires
        distribution_rule(v, now, game_id, setting, r, complain) is Ok,
    ensures
        pools_rule(v, setting, r, complain) is Ok,
        ({
            let q = pools_rule(v, setting, r, complain)->Ok_0;
            let w = (distribution_rule(v, now, game_id, setting, r, complain)->Ok_0).0;
            let protocol = w.claim_protocol - v.claim_protocol;
            let court = int_at(w.claim_supreme, game_id) - int_at(v.claim_supreme, game_id);
            &&& int_at(w.pools, setting) + protocol + court == q.gain
            &&& w.claim_protocol_trust - v.claim_protocol_trust == q.trust
            &&& court == (if complain == 2 { 0 } else { percent(q.gain as int, THREE_PERCENT as int) })
            &&& protocol == (if q.winners == 0 && q.losers == 0 { q.gain as int } else { percent(q.gain as int, FIVE_PERCENT as int) })
        }),
{
    let q = pools_rule(v, setting, r, complain)->Ok_0;
    assert(0 <= complain <= 2);
    assert(crate::arith::tdiv(q.gain * 100, 100) == q.gain) by (nonlinear_arith);
}

/// A bettor is paid once per room: after a successful claim, claiming again
/// or asking for a refund fails with `UserAlreadyClaimed`.
pub proof fn law_user_paid_once(v: LedgerView, contract: AccountId, user: AccountId, setting: i128, contract2: AccountId, now2: u64)
    requires
        claim_rule(v, contract, user, ClaimType::User, setting) is Ok,
    ensures
        ({
            let w = (claim_rule(v, contract, user, ClaimType::User, setting)->Ok_0).post;
            &&& claim_rule(w, contract2, user, ClaimType::User, setting) == reject::<(i128, i128)>(BettingError::UserAlreadyClaimed)
            &&& claim_refund_rule(w, now2, contract2, user, setting) == reject::<(i128, i128)>(BettingError::UserAlreadyClaimed)
        }),
{
}

/// A refund is paid once, and a refunded bettor has nothing left to claim:
/// after a successful refund, another refund or a claim fails with
/// `UserAlreadyClaimed`.
pub proof fn law_refund_paid_once(v: LedgerView, now: u64, contract: AccountId, user: AccountId, setting: i128, contract2: AccountId, now2: u64)
    requires
        claim_refund_rule(v, now, contract, user, setting) is Ok,
    ensures
        ({
            let w = (claim_refund_rule(v, now, contract, user, setting)->Ok_0).post;
            &&& claim_refund_rule(w, now2, contract2, user, setting) == reject::<(i128, i128)>(BettingError::UserAlreadyClaimed)
            &&& claim_rule(w, contract2, user, ClaimType::User, setting) == reject::<(i128, i128)>(BettingError::UserAlreadyClaimed)
        }),
{
}

/// A court member takes their share of a game's court reward once.
pub proof fn law_court_share_paid_once(v: LedgerView, contract: AccountId, user: AccountId, gameid: i128, contract2: AccountId)
    requires
        claim_rule(v, contract, user, ClaimType::Supreme, gameid) is Ok,
    ensures
        claim_rule((claim_rule(v, contract, user, ClaimType::Supreme, gameid)->Ok_0).post, contract2, user, ClaimType::Supreme, gameid)
            == reject::<(i128, i128)>(BettingError::UserAlreadyClaimed),
{
}

/// The protocol's claim pays out everything the protocol is owed, so an
/// immediate second claim pays nothing.
pub proof fn law_protocol_claim_empties(v: LedgerView, contract: AccountId, user: AccountId, setting: i128, contract2: AccountId, user2: AccountId, setting2: i128)
    requires
        claim_rule(v, contract, user, ClaimType::Protocol, setting) is Ok,
    ensures
        (claim_rule(v, contract, user, ClaimType::Protocol, setting)->Ok_0).value == (v.claim_protocol, v.claim_protocol_trust),
        claim_rule((claim_rule(v, contract, user, ClaimType::Protocol, setting)->Ok_0).post, contract2, user2, ClaimType::Protocol, setting2) is Ok,
        (claim_rule((claim_rule(v, contract, user, ClaimType::Protocol, setting)->Ok_0).post, contract2, user2, ClaimType::Protocol, setting2)->Ok_0).value
            == (0i128, 0i128),
{
}

/// The configuration is stored once: after the constructor has run, running
/// it again fails with `AlreadyInitializedError`.
pub proof fn law_configured_once(
    v: LedgerView,
    admin: AccountId,
    admin_pubkey: [u8; 32],
    token_usd: AccountId,
    token_trust: AccountId,
    supreme_court: AccountId,
    admin2: AccountId,
    admin_pubkey2: [u8; 32],
    token_usd2: AccountId,
    token_trust2: AccountId,
    supreme_court2: AccountId,
)
    requires
        constructor_rule(v, admin, admin_pubkey, token_usd, token_trust, supreme_court) is Ok,
    ensures
        constructor_rule(
            (constructor_rule(v, admin, admin_pubkey, token_usd, token_trust, supreme_court)->Ok_0).post,
            admin2,
            admin_pubkey2,
            token_usd2,
            token_trust2,
            supreme_court2,
        ) == reject::<()>(BettingError::AlreadyInitializedError),
{
}

/// A room id is used once: opening a second room with the same id stops
/// the call.
pub proof fn law_room_opened_once(v: LedgerView, user: AccountId, data: PrivateBet, game_id: i128, user2: AccountId, data2: PrivateBet, game_id2: i128)
    requires
        set_private_bet_rule(v, user, data, game_id) is Ok,
        set_private_bet_rule(v, user2, data2, game_id2) is Ok,
        data2.id == data.id,
    ensures
        set_private_bet_rule((set_private_bet_rule(v, user, data, game_id)->Ok_0).post, user2, data2, game_id2)
            == stop::<bool>(PanicReason::PrivateSettingAlreadyExists),
{
}

/// A user bets once per room: after a successful bet, any other bet of the
/// same user in the same room fails with `BetAlready`.
pub proof fn law_one_bet_per_room(v: LedgerView, now: u64, contract: AccountId, user: AccountId, bet: Bet, now2: u64, contract2: AccountId, bet2: Bet)
    requires
        bet_rule(v, now, contract, user, bet) is Ok,
        bet2.Setting == bet.Setting,
    ensures
        bet_rule((bet_rule(v, now, contract, user, bet)->Ok_0).post, now2, contract2, user, bet2) == reject::<bool>(BettingError::BetAlready),
{
}

/// A game is scheduled once: after a game is set, setting a game with the
/// same id fails with `GameHasAlreadySet`.
pub proof fn law_game_set_once(v: LedgerView, game: Game, ok: bool, game2: Game, ok2: bool)
    requires
        set_game_checked_rule(v, game, ok) is Ok,
        game2.id == game.id,
    ensures
        set_game_checked_rule((set_game_checked_rule(v, game, ok)->Ok_0).post, game2, ok2) == reject::<bool>(BettingError::GameHasAlreadySet),
{
}

/// Moving a vote between tallies touches nothing but the tallies.
proof fn lemma_move_vote_keeps(v: LedgerView, b: Bet, rejects: bool)
    requires
        move_vote(v, b, rejects) is Ok,
    ensures
        ({
            let w = move_vote(v, b, rejects)->Ok_0;
            &&& w.assessments == v.assessments
            &&& w.results == v.results
            &&& w.bets == v.bets
            &&& w.games == v.games
            &&& w.summiters == v.summiters
        }),
{
}

/// The bettor who submits a room's result approves it by submitting: they
/// confirm it with one approval, which changes nothing but the record that
/// they have assessed; they cannot reject it, and after the confirmation
/// any further assessment of theirs fails with `UserCannotVote`. (Stated for
/// a submitter with no earlier vote in the room: nobody can vote before a
/// result is submitted.)
pub proof fn law_submitter_confirms_once(v: LedgerView, now: u64, user: AccountId, setting: i128, result: ResultGame, desition: AssessmentKey)
    requires
        summit_result_rule(v, now, user, setting, result) is Ok,
        !v.assessment(setting).UsersReject.contains(user),
        !flag_at(v.assessed, (user, setting)),
    ensures
        ({
            let w = (summit_result_rule(v, now, user, setting, result)->Ok_0).post;
            let confirmed = w.set_assessed(user, setting);
            &&& assess_result_rule(w, now, user, setting, AssessmentKey::approve)
                == Ok::<Step<bool>, Failure>(Step { post: confirmed, value: true, transfers: Seq::empty(), events: Seq::empty() })
            &&& assess_result_rule(w, now, user, setting, AssessmentKey::reject) == reject::<bool>(BettingError::UserCannotVote)
            &&& assess_result_rule(confirmed, now, user, setting, desition) == reject::<bool>(BettingError::UserCannotVote)
        }),
{
    let b = v.bet(user, setting);
    let ra = v.assessment(setting);
    let ra1 = ResultAssessmentView {
        UsersApprove: seq![user] + ra.UsersApprove,
        id: setting,
        setting,
        gameid: b.gameid,
        UsersReject: ra.UsersReject,
    };
    let v1 = LedgerView { assessments: v.assessments.insert(setting, ra1), ..v };
    let v2 = v1.plus_users_voted(setting).plus_users_voted(b.gameid);
    lemma_move_vote_keeps(v2, b, false);
    let w = (summit_result_rule(v, now, user, setting, result)->Ok_0).post;
    assert(w.assessment(setting) == ra1);
    assert(ra1.UsersApprove[0] == user);
    assert(w.assessment(setting).UsersApprove.contains(user));
    assert(w.result(setting).id != 0);
    assert(w.bet(user, setting) == b);
    assert(w.game(b.gameid) == v.game(b.gameid));
    assert(!ra1.UsersReject.contains(user));
    assert(!flag_at(w.assessed, (user, setting)));
}

/// A bettor assesses a room's result once: after a successful assessment,
/// any further assessment of theirs fails with `UserCannotVote`.
pub proof fn law_one_assessment(v: LedgerView, now: u64, user: AccountId, setting: i128, desition: AssessmentKey, desition2: AssessmentKey)
    requires
        assess_result_rule(v, now, user, setting, desition) is Ok,
    ensures
        assess_result_rule((assess_result_rule(v, now, user, setting, desition)->Ok_0).post, now, user, setting, desition2)
            == reject::<bool>(BettingError::UserCannotVote),
{
    let b = v.bet(user, setting);
    let w = (assess_result_rule(v, now, user, setting, desition)->Ok_0).post;
    assert(flag_at(w.assessed, (user, setting)));
    assert(w.result(setting).id != 0);
    assert(w.bet(user, setting) == b);
}

/// A transfer sent back: the same token and amount, the other way.
pub open spec fn sent_back(t: Transfer) -> Transfer {
    Transfer { token: t.token, from: t.to, to: t.from, amount: t.amount }
}

/// A refund gives back exactly what the bet took: the refund's transfers
/// are the bet's transfers sent back, for the bet the refund finds stored
/// and the tokens the bet was made with.
pub proof fn law_refund_returns_stake(
    v: LedgerView,
    now: u64,
    contract: AccountId,
    user: AccountId,
    bet: Bet,
    w: LedgerView,
    now2: u64,
)
    requires
        bet_rule(v, now, contract, user, bet) is Ok,
        claim_refund_rule(w, now2, contract, user, bet.Setting) is Ok,
        w.config == v.config,
        w.bets.contains_key((user, bet.Setting)),
        w.bets[(user, bet.Setting)] == bet,
    ensures
        (claim_refund_rule(w, now2, contract, user, bet.Setting)->Ok_0).transfers
            == (bet_rule(v, now, contract, user, bet)->Ok_0).transfers.map_values(|t: Transfer| sent_back(t)),
{
    let a = (claim_refund_rule(w, now2, contract, user, bet.Setting)->Ok_0).transfers;
    let b = (bet_rule(v, now, contract, user, bet)->Ok_0).transfers;
    assert(a =~= b.map_values(|t: Transfer| sent_back(t)));
}

/// A bettor who bets and, before anything else happens, takes a refund, has
/// the honesty points they had before the bet.
pub proof fn law_refund_restores_points(v: LedgerView, now: u64, contract: AccountId, user: AccountId, bet: Bet, now2: u64)
    requires
        bet_rule(v, now, contract, user, bet) is Ok,
        claim_refund_rule((bet_rule(v, now, contract, user, bet)->Ok_0).post, now2, contract, user, bet.Setting) is Ok,
    ensures
        (claim_refund_rule((bet_rule(v, now, contract, user, bet)->Ok_0).post, now2, contract, user, bet.Setting)->Ok_0).post.honesty_of(user)
            == v.honesty_of(user),
{
}

/// A room is distributed at most once: calling the distribution again
/// with the same clock fails.
pub proof fn law_distributed_once(v: LedgerView, now: u64, setting: i128)
    requires
        execute_distribution_rule(v, now, setting) is Ok,
    ensures
        execute_distribution_rule((execute_distribution_rule(v, now, setting)->Ok_0).post, now, setting) is Err,
{
}

/// While the court's vote on a game is open, each member votes once: after
/// a vote that decides nothing, the same member's next vote fails with
/// `UserhasAlreadyVoted`.
pub proof fn law_court_member_votes_once(v: LedgerView, now: u64, user: AccountId, gameid: i128, desition: AssessmentKey, desition2: AssessmentKey)
    requires
        assess_supreme_rule(v, now, user, gameid, desition) is Ok,
        !(assess_supreme_rule(v, now, user, gameid, desition)->Ok_0).value,
    ensures
        assess_supreme_rule((assess_supreme_rule(v, now, user, gameid, desition)->Ok_0).post, now, user, gameid, desition2)
            == reject::<bool>(BettingError::UserhasAlreadyVoted),
{
    let a = v.supreme_assessment(gameid);
    let w = (assess_supreme_rule(v, now, user, gameid, desition)->Ok_0).post;
    assert(seq![user].add(a.countHonestyUsers)[0] == user);
    assert(w.results == v.results && w.private_lists == v.private_lists);
    assert(forall|x: i128| #[trigger] w.result(x) == v.result(x));
    let rooms = seq_at(v.private_lists, gameid);
    if submission_needed(v, gameid) {
        let i = choose|i: int| 0 <= i < rooms.len() && #[trigger] result_pending(v.result(rooms[i]));
        assert(result_pending(w.result(rooms[i])));
    }
    assert(submission_needed(w, gameid) == submission_needed(v, gameid));
    assert(court_window_check(w, now, gameid) == court_window_check(v, now, gameid));
}

/// The court submits one result per game: once a member has submitted it,
/// a member's further submission for the game fails with
/// `GameResultAlreadySet` (its approval count aside, which must not
/// overflow).
pub proof fn law_court_result_set_once(v: LedgerView, now: u64, user: AccountId, result: ResultGame, user2: AccountId, result2: ResultGame)
    requires
        set_result_supreme_rule(v, now, user, result) is Ok,
        result2.gameid == result.gameid,
        v.votes(result.gameid).aproved + 2 <= i128::MAX,
        v.config is Some,
        user2 == v.config.unwrap().supreme_court || user2 == v.config.unwrap().admin || v.supreme_honesty.contains(user2),
    ensures
        set_result_supreme_rule((set_result_supreme_rule(v, now, user, result)->Ok_0).post, now, user2, result2)
            == reject::<bool>(BettingError::GameResultAlreadySet),
{
}

/// The stake bet on `k` in room `setting`, over the three tallies (not yet
/// assessed, approved, rejected).
pub open spec fn room_stake(v: LedgerView, setting: i128, k: BetKey) -> int {
    tally_at(v.not_assessed, setting).amount.at(k) + tally_at(v.approved, setting).amount.at(k)
        + tally_at(v.rejected, setting).amount.at(k)
}

/// The collateral (USD and TRUST) of the bets on `k` in room `setting`,
/// over the three tallies.
pub open spec fn room_collateral(v: LedgerView, setting: i128, k: BetKey) -> int {
    tally_at(v.not_assessed, setting).usd.at(k) + tally_at(v.approved, setting).usd.at(k)
        + tally_at(v.rejected, setting).usd.at(k) + tally_at(v.not_assessed, setting).trust.at(k)
        + tally_at(v.approved, setting).trust.at(k) + tally_at(v.rejected, setting).trust.at(k)
}

/// A vote moves the voter's stake and collateral between the tallies of
/// their room: for every outcome, the room's stake and collateral summed
/// over the tallies stay as they were.
pub proof fn law_vote_keeps_room_totals(v: LedgerView, now: u64, user: AccountId, setting: i128, desition: AssessmentKey, k: BetKey)
    requires
        assess_result_rule(v, now, user, setting, desition) is Ok,
    ensures
        ({
            let w = (assess_result_rule(v, now, user, setting, desition)->Ok_0).post;
            let room = v.bet(user, setting).Setting;
            room_stake(w, room, k) == room_stake(v, room, k) && room_collateral(w, room, k) == room_collateral(v, room, k)
        }),
{
}

/// Submitting a result counts as the submitter's approving vote, which
/// likewise keeps the room's totals over the tallies.
pub proof fn law_submission_keeps_room_totals(v: LedgerView, now: u64, user: AccountId, setting: i128, result: ResultGame, k: BetKey)
    requires
        summit_result_rule(v, now, user, setting, result) is Ok,
    ensures
        ({
            let w = (summit_result_rule(v, now, user, setting, result)->Ok_0).post;
            let room = v.bet(user, setting).Setting;
            room_stake(w, room, k) == room_stake(v, room, k) && room_collateral(w, room, k) == room_collateral(v, room, k)
        }),
{
}

/// A dishonest voter is paid nothing: once the room's result stands, a
/// bettor who approved a result the court overturned (complaint 0), or
/// rejected one it upheld (complaint 1), claims in vain.
pub proof fn law_dishonest_voter_paid_nothing(v: LedgerView, contract: AccountId, user: AccountId, setting: i128)
    requires
        v.initialized(),
        !flag_at(v.withdrawn, (user, setting)),
        v.bets.contains_key((user, setting)),
        v.bets[(user, setting)].id != 0,
        v.game(v.bets[(user, setting)].gameid).id != 0,
        v.result(setting).id != 0,
        !v.result(setting).pause,
        (int_at(v.complains, setting) == 0 && v.assessment(setting).UsersApprove.contains(user))
            || (int_at(v.complains, setting) == 1 && !v.assessment(setting).UsersApprove.contains(user)
            && v.assessment(setting).UsersReject.contains(user)),
    ensures
        claim_rule(v, contract, user, ClaimType::User, setting) == reject::<(i128, i128)>(BettingError::NothingToClaim),
{
}

/// The sum of a sequence of integers.
pub open spec fn total(s: Seq<int>) -> int
    decreases s.len(),
{
    if s.len() == 0 {
        0
    } else {
        total(s.drop_last()) + s.last()
    }
}

/// The pool shares paid for the stakes `stakes`, each as `claim` pays an
/// honest bettor (see `pool_share`).
pub open spec fn shares_paid(stakes: Seq<int>, stakes_pool: int, pool: int) -> int
    decreases stakes.len(),
{
    if stakes.len() == 0 {
        0
    } else {
        shares_paid(stakes.drop_last(), stakes_pool, pool) + pool_share(stakes.last(), stakes_pool, pool)
    }
}

/// Each bettor's percentage of the stakes pool, as `pool_share` rounds it.
pub open spec fn percents(stakes: Seq<int>, stakes_pool: int) -> int
    decreases stakes.len(),
{
    if stakes.len() == 0 {
        0
    } else {
        percents(stakes.drop_last(), stakes_pool) + (stakes.last() * 100) / stakes_pool
    }
}

/// Rounding each part down loses nothing against rounding the sum down.
proof fn lemma_floor_sum(x: int, y: int, d: int)
    requires
        0 <= x,
        0 <= y,
        0 < d,
    ensures
        x / d + y / d <= (x + y) / d,
{
    lemma_fundamental_div_mod(x, d);
    lemma_fundamental_div_mod(y, d);
    lemma_mod_pos_bound(x, d);
    lemma_mod_pos_bound(y, d);
    lemma_div_pos_is_pos(x, d);
    lemma_div_pos_is_pos(y, d);
    let q = x / d + y / d;
    assert(d * q <= x + y) by (nonlinear_arith)
        requires
            x == d * (x / d) + x % d,
            y == d * (y / d) + y % d,
            x % d >= 0,
            y % d >= 0,
            q == x / d + y / d,
    {
    }
    lemma_div_is_ordered(d * q, x + y, d);
    assert(d * q == q * d) by (nonlinear_arith);
    lemma_div_by_multiple(q, d);
}

/// The rounded percentages of stakes within the pool add up to at most 100.
proof fn lemma_percents(stakes: Seq<int>, stakes_pool: int)
    requires
        0 < stakes_pool,
        forall|i: int| 0 <= i < stakes.len() ==> 0 <= #[trigger] stakes[i],
    ensures
        0 <= percents(stakes, stakes_pool) <= (total(stakes) * 100) / stakes_pool,
        total(stakes) >= 0,
    decreases stakes.len(),
{
    if stakes.len() > 0 {
        let init = stakes.drop_last();
        assert forall|i: int| 0 <= i < init.len() implies 0 <= #[trigger] init[i] by {
            assert(init[i] == stakes[i]);
        }
        lemma_percents(init, stakes_pool);
        let a = stakes.last();
        assert(a >= 0);
        assert(total(init) * 100 >= 0 && a * 100 >= 0) by (nonlinear_arith)
            requires
                total(init) >= 0,
                a >= 0,
        {
        }
        lemma_div_pos_is_pos(a * 100, stakes_pool);
        lemma_floor_sum(total(init) * 100, a * 100, stakes_pool);
        assert(total(init) * 100 + a * 100 == total(stakes) * 100) by (nonlinear_arith)
            requires
                total(stakes) == total(init) + a,
        {
        }
    }
}

/// The shares paid are at most the rounded share of the summed percentages.
proof fn lemma_shares(stakes: Seq<int>, stakes_pool: int, pool: int)
    requires
        0 < stakes_pool,
        0 <= pool,
        forall|i: int| 0 <= i < stakes.len() ==> 0 <= #[trigger] stakes[i],
    ensures
        shares_paid(stakes, stakes_pool, pool) <= (percents(stakes, stakes_pool) * pool) / 100,
        0 <= percents(stakes, stakes_pool),
    decreases stakes.len(),
{
    lemma_percents(stakes, stakes_pool);
    if stakes.len() > 0 {
        let init = stakes.drop_last();
        assert forall|i: int| 0 <= i < init.len() implies 0 <= #[trigger] init[i] by {
            assert(init[i] == stakes[i]);
        }
        lemma_shares(init, stakes_pool, pool);
        let a = stakes.last();
        assert(a >= 0);
        let pa = (a * 100) / stakes_pool;
        assert(a * 100 >= 0) by (nonlinear_arith)
            requires
                a >= 0,
        {
        }
        lemma_div_pos_is_pos(a * 100, stakes_pool);
        lemma_tdiv_nonneg(a * 100, stakes_pool);
        let pi = percents(init, stakes_pool);
        assert(pi * pool >= 0 && pa * pool >= 0) by (nonlinear_arith)
            requires
                pi >= 0,
                pa >= 0,
                pool >= 0,
        {
        }
        lemma_tdiv_nonneg(pa * pool, 100);
        lemma_floor_sum(pi * pool, pa * pool, 100);
        assert(pi * pool + pa * pool == (pi + pa) * pool) by (nonlinear_arith);
    }
}

/// Truncating division of a nonnegative number is floor division.
proof fn lemma_tdiv_nonneg(x: int, d: int)
    requires
        0 <= x,
        0 < d,
    ensures
        tdiv(x, d) == x / d,
{
    if x == 0 {
        lemma_div_by_multiple(0, d);
    }
}

/// The pool shares paid to honest bettors never exceed the pool: when the
/// bettors' stakes add up to at most the stakes pool they are counted in,
/// their shares of the pool (each computed as `claim` computes it) add up
/// to at most the pool.
pub proof fn law_pool_shares_within_pool(stakes: Seq<int>, stakes_pool: int, pool: int)
    requires
        0 < stakes_pool,
        0 <= pool,
        forall|i: int| 0 <= i < stakes.len() ==> 0 <= #[trigger] stakes[i],
        total(stakes) <= stakes_pool,
    ensures
        shares_paid(stakes, stakes_pool, pool) <= pool,
{
    lemma_shares(stakes, stakes_pool, pool);
    lemma_percents(stakes, stakes_pool);
    lemma_div_is_ordered(total(stakes) * 100, stakes_pool * 100, stakes_pool);
    assert(total(stakes) * 100 <= stakes_pool * 100) by (nonlinear_arith)
        requires
            total(stakes) <= stakes_pool,
    {
    }
    lemma_div_by_multiple(100, stakes_pool);
    assert(stakes_pool * 100 == 100 * stakes_pool) by (nonlinear_arith);
    let pc = percents(stakes, stakes_pool);
    assert(pc * pool <= 100 * pool) by (nonlinear_arith)
        requires
            pc <= 100,
            pool >= 0,
    {
    }
    lemma_div_is_ordered(pc * pool, 100 * pool, 100);
    lemma_div_by_multiple(pool, 100);
    assert(100 * pool == pool * 100) by (nonlinear_arith);
}

/// Counting a distributed room's result grows that result's counter by one
/// and leaves the other three as they are; counted on zero counters, the
/// community verdict is then 1, 2, 3 or 4 for a local win, an away win, a
/// cancellation or a tie.
pub proof fn law_count_grows_one_counter(c: KeyAmounts, r: BetKey)
    requires
        fits_i128(c.at(r) + 1),
    ensures
        c.put(r, (c.at(r) + 1) as i128).at(r) == c.at(r) + 1,
        forall|k: BetKey| k != r ==> #[trigger] c.put(r, (c.at(r) + 1) as i128).at(k) == c.at(k),
        c == (KeyAmounts { local: 0, away: 0, tie: 0, cancel: 0 }) ==> overall_of(c.put(r, (c.at(r) + 1) as i128)) == match r {
            BetKey::Team_local => 1i128,
            BetKey::Team_away => 2i128,
            BetKey::Cancel => 3i128,
            BetKey::Tie => 4i128,
        },
{
}

/// Taking a bet back out of a room's not-yet-assessed tally undoes putting
/// it in: the room's three totals for the outcome are restored, the removal
/// cannot overflow, and no other room's tally is touched.
pub proof fn law_delete_undoes_add(v: LedgerView, room: i128, amount: i128, k: BetKey, usd: bool, collateral: i128)
    requires
        tally_plus_fits(tally_at(v.not_assessed, room), k, amount as int, usd, collateral as int),
    ensures
        ({
            let w = v.plus_not_assessed(room, k, amount as int, usd, collateral as int);
            let w2 = w.plus_not_assessed(room, k, -amount, usd, -collateral);
            &&& tally_plus_fits(tally_at(w.not_assessed, room), k, -amount, usd, -collateral)
            &&& tally_at(w2.not_assessed, room) == tally_at(v.not_assessed, room)
            &&& forall|g: i128| g != room ==> #[trigger] tally_at(w2.not_assessed, g) == tally_at(v.not_assessed, g)
        }),
{
    let t = tally_at(v.not_assessed, room);
    let w = v.plus_not_assessed(room, k, amount as int, usd, collateral as int);
    let w2 = w.plus_not_assessed(room, k, -amount, usd, -collateral);
    assert(tally_at(w2.not_assessed, room).amount == t.amount);
    assert(tally_at(w2.not_assessed, room).usd == t.usd);
    assert(tally_at(w2.not_assessed, room).trust == t.trust);
}

/// The storage after the bettors `users` claim in turn in room `setting`
/// (a failed claim leaves the storage as it was).
pub open spec fn after_user_claims(v: LedgerView, contract: AccountId, users: Seq<AccountId>, setting: i128) -> LedgerView
    decreases users.len(),
{
    if users.len() == 0 {
        v
    } else {
        let w = after_user_claims(v, contract, users.drop_last(), setting);
        match claim_rule(w, contract, users.last(), ClaimType::User, setting) {
            Ok(st) => st.post,
            Err(_) => w,
        }
    }
}

/// The stakes pool of honest bettors of kind `k` in room `setting`: the
/// honest winners' pool for kind 1, the honest losers' for kind 2.
pub open spec fn honest_pool(w: LedgerView, setting: i128, k: i32) -> int {
    if k == 1 {
        int_at(w.winner_pools, setting) as int
    } else {
        int_at(w.loser_pools, setting) as int
    }
}

/// The part of the USD that `user`'s claim on storage `w` pays them, as an
/// honest bettor of kind `k` (1 a winner, 2 a loser), beyond their own stake
/// (given back to a winner) and USD collateral: their share of the pool.
/// Zero when the claim fails or they are of another kind.
pub open spec fn honest_share_paid(w: LedgerView, contract: AccountId, user: AccountId, setting: i128, k: i32) -> int {
    let kind = kind_rule(w, user, setting);
    if claim_rule(w, contract, user, ClaimType::User, setting) is Ok && kind is Ok && (kind->Ok_0).0 == k {
        let a = (kind->Ok_0).1 as int;
        let paid = (claim_rule(w, contract, user, ClaimType::User, setting)->Ok_0).value.0;
        paid - (if k == 1 { a } else { 0 }) - crate::outcomes::usd_collateral(a, (kind->Ok_0).2)
    } else {
        0
    }
}

/// The pool shares paid to honest bettors of kind `k` while `users` claim
/// in turn.
pub open spec fn honest_shares_paid(v: LedgerView, contract: AccountId, users: Seq<AccountId>, setting: i128, k: i32) -> int
    decreases users.len(),
{
    if users.len() == 0 {
        0
    } else {
        honest_shares_paid(v, contract, users.drop_last(), setting, k)
            + honest_share_paid(after_user_claims(v, contract, users.drop_last(), setting), contract, users.last(), setting, k)
    }
}

/// `user`'s stake in room `setting` if they are an honest bettor of kind
/// `k` there, and zero otherwise.
pub open spec fn honest_stake(v: LedgerView, user: AccountId, setting: i128, k: i32) -> int {
    let kind = kind_rule(v, user, setting);
    if kind is Ok && (kind->Ok_0).0 == k {
        (kind->Ok_0).1 as int
    } else {
        0
    }
}

/// `w` agrees with `v` on everything a bettor's kind and pool share are
/// read from.
pub open spec fn same_shares_basis(v: LedgerView, w: LedgerView) -> bool {
    &&& w.bets == v.bets
    &&& w.results == v.results
    &&& w.assessments == v.assessments
    &&& w.complains == v.complains
    &&& w.games == v.games
    &&& w.winner_pools == v.winner_pools
    &&& w.loser_pools == v.loser_pools
    &&& w.pools == v.pools
}

/// A bettor's claim changes nothing a kind or a pool share is read from.
proof fn lemma_claim_keeps_basis(w: LedgerView, contract: AccountId, user: AccountId, setting: i128)
    requires
        claim_rule(w, contract, user, ClaimType::User, setting) is Ok,
    ensures
        same_shares_basis(w, (claim_rule(w, contract, user, ClaimType::User, setting)->Ok_0).post),
{
}

/// Claims in turn change nothing a kind or a pool share is read from.
proof fn lemma_claims_keep_basis(v: LedgerView, contract: AccountId, users: Seq<AccountId>, setting: i128)
    ensures
        same_shares_basis(v, after_user_claims(v, contract, users, setting)),
    decreases users.len(),
{
    if users.len() > 0 {
        let w = after_user_claims(v, contract, users.drop_last(), setting);
        lemma_claims_keep_basis(v, contract, users.drop_last(), setting);
        if claim_rule(w, contract, users.last(), ClaimType::User, setting) is Ok {
            lemma_claim_keeps_basis(w, contract, users.last(), setting);
        }
    }
}

/// A pool share of a nonnegative stake is nonnegative, and zero for a zero
/// stake.
proof fn lemma_pool_share_nonneg(a: int, d: int, p: int)
    requires
        0 <= a,
        0 < d,
        0 <= p,
    ensures
        0 <= pool_share(a, d, p),
        a == 0 ==> pool_share(a, d, p) == 0,
{
    assert(a * 100 >= 0) by (nonlinear_arith)
        requires
            a >= 0,
    {
    }
    lemma_div_pos_is_pos(a * 100, d);
    lemma_tdiv_nonneg(a * 100, d);
    let q = tdiv(a * 100, d);
    assert(q * p >= 0) by (nonlinear_arith)
        requires
            q >= 0,
            p >= 0,
    {
    }
    lemma_div_pos_is_pos(q * p, 100);
    lemma_tdiv_nonneg(q * p, 100);
    if a == 0 {
        lemma_div_by_multiple(0, d);
        assert(q == 0);
        assert(q * p == 0) by (nonlinear_arith)
            requires
                q == 0,
        {
        }
        lemma_div_by_multiple(0, 100);
    }
}

/// The shares paid while `users` claim are at most the shares of their
/// stakes as honest bettors of kind `k` in the storage they start from.
proof fn lemma_honest_shares_bounded(v: LedgerView, contract: AccountId, users: Seq<AccountId>, setting: i128, k: i32)
    requires
        k == 1 || k == 2,
        0 < honest_pool(v, setting, k),
        0 <= int_at(v.pools, setting),
        forall|i: int| 0 <= i < users.len() ==> 0 <= #[trigger] honest_stake(v, users[i], setting, k),
    ensures
        honest_shares_paid(v, contract, users, setting, k) <= shares_paid(
            users.map_values(|u: AccountId| honest_stake(v, u, setting, k)),
            honest_pool(v, setting, k),
            int_at(v.pools, setting) as int,
        ),
    decreases users.len(),
{
    let hp = honest_pool(v, setting, k);
    let p = int_at(v.pools, setting) as int;
    let stakes = users.map_values(|u: AccountId| honest_stake(v, u, setting, k));
    if users.len() > 0 {
        let init = users.drop_last();
        let u = users.last();
        assert forall|i: int| 0 <= i < init.len() implies 0 <= #[trigger] honest_stake(v, init[i], setting, k) by {
            assert(init[i] == users[i]);
        }
        lemma_honest_shares_bounded(v, contract, init, setting, k);
        assert(init.map_values(|x: AccountId| honest_stake(v, x, setting, k)) =~= stakes.drop_last());
        let w = after_user_claims(v, contract, init, setting);
        lemma_claims_keep_basis(v, contract, init, setting);
        assert(kind_rule(w, u, setting) == kind_rule(v, u, setting));
        assert(honest_pool(w, setting, k) == hp);
        assert(0 <= honest_stake(v, users[users.len() - 1], setting, k));
        lemma_pool_share_nonneg(honest_stake(v, u, setting, k), hp, p);
        if claim_rule(w, contract, u, ClaimType::User, setting) is Ok {
            crate::outcomes::law_claim_pays(w, contract, u, setting);
        }
        assert(stakes.last() == honest_stake(v, u, setting, k));
    }
}

/// The claims of honest bettors never pay out more than the pool: while any
/// bettors claim in turn in a distributed room, the USD their claims pay
/// beyond their own stakes and USD collateral, to its honest winners
/// (kind 1), or to its honest losers when nobody won honestly (kind 2),
/// adds up to at most the pool shared out, as long as those bettors' stakes
/// add up to at most the pool of stakes their shares are counted against.
pub proof fn law_honest_claims_within_pool(v: LedgerView, contract: AccountId, users: Seq<AccountId>, setting: i128, k: i32)
    requires
        k == 1 || k == 2,
        0 < honest_pool(v, setting, k),
        0 <= int_at(v.pools, setting),
        forall|i: int| 0 <= i < users.len() ==> 0 <= #[trigger] honest_stake(v, users[i], setting, k),
        total(users.map_values(|u: AccountId| honest_stake(v, u, setting, k))) <= honest_pool(v, setting, k),
    ensures
        honest_shares_paid(v, contract, users, setting, k) <= int_at(v.pools, setting),
{
    let stakes = users.map_values(|u: AccountId| honest_stake(v, u, setting, k));
    lemma_honest_shares_bounded(v, contract, users, setting, k);
    assert forall|i: int| 0 <= i < stakes.len() implies 0 <= #[trigger] stakes[i] by {
        assert(stakes[i] == honest_stake(v, users[i], setting, k));
    }
    law_pool_shares_within_pool(stakes, honest_pool(v, setting, k), int_at(v.pools, setting) as int);
}

} // verus!
