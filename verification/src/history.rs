//! Any sequence of calls of the entry points, and what every call keeps:
//! the configuration once stored, and each bet once placed.
use crate::court::{
    assess_supreme_rule, court_distribute, court_settle, set_result_supreme_rule,
};
use crate::arith::percent;
use crate::constants::{TEN_PERCENT, TWENTY_PERCENT};
use crate::laws::sent_back;
use crate::ledger::{seq_at, LedgerView};
use crate::outcome::Transfer;
use crate::rules::{
    add_user_private_bet_rule, assess_result_rule, bet_rule, claim_refund_rule, claim_rule, constructor_rule,
    distribution_rule, execute_distribution_rule, set_game_checked_rule, set_private_bet_rule,
    summit_result_rule,
};
use crate::types::{AccountId, AssessmentKey, Bet, BetKey, ClaimType, Game, PrivateBet, ResultGame};
use vstd::prelude::*;

verus! {

/// A call of one of the contract's entry points, with its arguments (the
/// admin's signature over a game given by its outcome `signature_ok`).
pub enum Call {
    Constructor { admin: AccountId, admin_pubkey: [u8; 32], token_usd: AccountId, token_trust: AccountId, supreme_court: AccountId },
    PlaceBet { now: u64, contract: AccountId, user: AccountId, bet: Bet },
    ClaimRefund { now: u64, contract: AccountId, user: AccountId, setting: i128 },
    SetGame { game: Game, signature_ok: bool },
    SetPrivateBet { user: AccountId, data: PrivateBet, game_id: i128 },
    AddUser { now: u64, setting: i128, game_id: i128, new_user: AccountId },
    Summit { now: u64, user: AccountId, setting: i128, result: ResultGame },
    Assess { now: u64, user: AccountId, setting: i128, desition: AssessmentKey },
    Claim { contract: AccountId, user: AccountId, kind: ClaimType, setting: i128 },
    SetResultSupreme { now: u64, user: AccountId, result: ResultGame },
    AssessSupreme { now: u64, user: AccountId, gameid: i128, desition: AssessmentKey },
    ExecuteDistribution { now: u64, setting: i128 },
}

/// The storage after call `c` on storage `v`: the rule's new storage when
/// the call succeeds, `v` itself when it fails.
pub open spec fn after_call(v: LedgerView, c: Call) -> LedgerView {
    match c {
        Call::Constructor { admin, admin_pubkey, token_usd, token_trust, supreme_court } =>
            match constructor_rule(v, admin, admin_pubkey, token_usd, token_trust, supreme_court) {
                Ok(st) => st.post,
                Err(_) => v,
            },
        Call::PlaceBet { now, contract, user, bet } => match bet_rule(v, now, contract, user, bet) {
            Ok(st) => st.post,
            Err(_) => v,
        },
        Call::ClaimRefund { now, contract, user, setting } => match claim_refund_rule(v, now, contract, user, setting) {
            Ok(st) => st.post,
            Err(_) => v,
        },
        Call::SetGame { game, signature_ok } => match set_game_checked_rule(v, game, signature_ok) {
            Ok(st) => st.post,
            Err(_) => v,
        },
        Call::SetPrivateBet { user, data, game_id } => match set_private_bet_rule(v, user, data, game_id) {
            Ok(st) => st.post,
            Err(_) => v,
        },
        Call::AddUser { now, setting, game_id, new_user } => match add_user_private_bet_rule(v, now, setting, game_id, new_user) {
            Ok(st) => st.post,
            Err(_) => v,
        },
        Call::Summit { now, user, setting, result } => match summit_result_rule(v, now, user, setting, result) {
            Ok(st) => st.post,
            Err(_) => v,
        },
        Call::Assess { now, user, setting, desition } => match assess_result_rule(v, now, user, setting, desition) {
            Ok(st) => st.post,
            Err(_) => v,
        },
        Call::Claim { contract, user, kind, setting } => match claim_rule(v, contract, user, kind, setting) {
            Ok(st) => st.post,
            Err(_) => v,
        },
        Call::SetResultSupreme { now, user, result } => match set_result_supreme_rule(v, now, user, result) {
            Ok(st) => st.post,
            Err(_) => v,
        },
        Call::AssessSupreme { now, user, gameid, desition } => match assess_supreme_rule(v, now, user, gameid, desition) {
            Ok(st) => st.post,
            Err(_) => v,
        },
        Call::ExecuteDistribution { now, setting } => match execute_distribution_rule(v, now, setting) {
            Ok(st) => st.post,
            Err(_) => v,
        },
    }
}

/// The storage after the calls `calls`, made in turn on storage `v`.
pub open spec fn after_calls(v: LedgerView, calls: Seq<Call>) -> LedgerView
    decreases calls.len(),
{
    if calls.len() == 0 {
        v
    } else {
        after_call(after_calls(v, calls.drop_last()), calls.last())
    }
}

/// `w` has the configuration of `v` (once `v` has one) and every bet placed
/// in `v`, unchanged.
pub open spec fn keeps_bets_and_config(v: LedgerView, w: LedgerView) -> bool {
    &&& v.config is Some ==> w.config == v.config
    &&& forall|k: (AccountId, i128)|
        v.bets.contains_key(k) && v.bets[k].id != 0 ==> #[trigger] w.bets.contains_key(k) && w.bets[k] == v.bets[k]
}

/// Distributing a room touches neither the configuration nor the bets.
proof fn lemma_distribution_keeps(v: LedgerView, now: u64, game_id: i128, setting: i128, r: BetKey, complain: i128)
    requires
        distribution_rule(v, now, game_id, setting, r, complain) is Ok,
    ensures
        (distribution_rule(v, now, game_id, setting, r, complain)->Ok_0).0.bets == v.bets,
        (distribution_rule(v, now, game_id, setting, r, complain)->Ok_0).0.config == v.config,
        (distribution_rule(v, now, game_id, setting, r, complain)->Ok_0).0.private_lists == v.private_lists,
{
}

/// Applying the court's result to rooms touches neither the configuration
/// nor the bets.
proof fn lemma_court_distribute_keeps(v: LedgerView, now: u64, rooms: Seq<i128>, i: int, r: BetKey)
    requires
        court_distribute(v, now, rooms, i, r) is Ok,
    ensures
        (court_distribute(v, now, rooms, i, r)->Ok_0).0.bets == v.bets,
        (court_distribute(v, now, rooms, i, r)->Ok_0).0.config == v.config,
    decreases rooms.len() - i,
{
    reveal(court_settle);
    if 0 <= i < rooms.len() {
        let x = v.result(rooms[i]);
        let room = v.private_bet(rooms[i]);
        let complain: i128 = if x.result != r { 0 } else { 1 };
        if !(!crate::court::result_pending(x) || !room.active) && r != BetKey::Cancel {
            lemma_distribution_keeps(v, now, room.gameid, rooms[i], r, complain);
        }
        let v1 = (court_settle(v, now, rooms[i], r)->Ok_0).0;
        lemma_court_distribute_keeps(v1, now, rooms, i + 1, r);
    }
}

/// A successful court vote keeps the configuration and the bets.
proof fn lemma_court_vote_keeps(v: LedgerView, now: u64, user: AccountId, gameid: i128, desition: AssessmentKey)
    requires
        assess_supreme_rule(v, now, user, gameid, desition) is Ok,
    ensures
        keeps_bets_and_config(v, (assess_supreme_rule(v, now, user, gameid, desition)->Ok_0).post),
{
    let result = v.supreme_result(gameid);
    let cfg = v.config.unwrap();
    let a = v.supreme_assessment(gameid);
    let cv = v.votes(gameid);
    let a1 = if user == cfg.supreme_court {
        crate::types::ResultAssessmentSupremeView { ExternalUser: true, ..a }
    } else if user == cfg.admin {
        crate::types::ResultAssessmentSupremeView { Admin: true, ..a }
    } else {
        crate::types::ResultAssessmentSupremeView { countHonestyUsers: seq![user] + a.countHonestyUsers, ..a }
    };
    let cv1 = if desition == AssessmentKey::approve {
        crate::types::CountVotesResult { aproved: (cv.aproved + 1) as i128, ..cv }
    } else {
        crate::types::CountVotesResult { rejected: (cv.rejected + 1) as i128, ..cv }
    };
    let v1 = LedgerView {
        supreme_assessments: v.supreme_assessments.insert(gameid, a1),
        supreme_votes: v.supreme_votes.insert(gameid, cv1),
        ..v
    };
    if court_distribute(v1, now, seq_at(v1.private_lists, result.gameid), 0, result.result) is Ok {
        lemma_court_distribute_keeps(v1, now, seq_at(v1.private_lists, result.gameid), 0, result.result);
    }
}

/// A successful distribution call keeps the configuration and the bets.
proof fn lemma_execute_keeps(v: LedgerView, now: u64, setting: i128)
    requires
        execute_distribution_rule(v, now, setting) is Ok,
    ensures
        keeps_bets_and_config(v, (execute_distribution_rule(v, now, setting)->Ok_0).post),
{
    let result = v.result(setting);
    let room = v.private_bet(setting);
    if distribution_rule(v, now, room.gameid, setting, result.result, 2) is Ok {
        lemma_distribution_keeps(v, now, room.gameid, setting, result.result, 2);
    }
}

/// A successful bet adds the bettor's bet under a key that held none.
proof fn lemma_bet_keeps(v: LedgerView, now: u64, contract: AccountId, user: AccountId, bet: Bet)
    requires
        bet_rule(v, now, contract, user, bet) is Ok,
    ensures
        keeps_bets_and_config(v, (bet_rule(v, now, contract, user, bet)->Ok_0).post),
{
}

/// A successful claim keeps the configuration and the bets.
proof fn lemma_claim_keeps(v: LedgerView, contract: AccountId, user: AccountId, kind: ClaimType, setting: i128)
    requires
        claim_rule(v, contract, user, kind, setting) is Ok,
    ensures
        keeps_bets_and_config(v, (claim_rule(v, contract, user, kind, setting)->Ok_0).post),
{
}

/// A successful vote keeps the configuration and the bets.
proof fn lemma_vote_keeps(v: LedgerView, now: u64, user: AccountId, setting: i128, desition: AssessmentKey)
    ensures
        assess_result_rule(v, now, user, setting, desition) is Ok
            ==> keeps_bets_and_config(v, (assess_result_rule(v, now, user, setting, desition)->Ok_0).post),
{
}

/// A successful submission keeps the configuration and the bets.
proof fn lemma_submission_keeps(v: LedgerView, now: u64, user: AccountId, setting: i128, result: ResultGame)
    ensures
        summit_result_rule(v, now, user, setting, result) is Ok
            ==> keeps_bets_and_config(v, (summit_result_rule(v, now, user, setting, result)->Ok_0).post),
{
}

/// Every call keeps the configuration once stored and every bet once placed.
pub proof fn law_call_keeps_bets_and_config(v: LedgerView, c: Call)
    ensures
        keeps_bets_and_config(v, after_call(v, c)),
{
    match c {
        Call::PlaceBet { now, contract, user, bet } => {
            if bet_rule(v, now, contract, user, bet) is Ok {
                lemma_bet_keeps(v, now, contract, user, bet);
            }
        },
        Call::Claim { contract, user, kind, setting } => {
            if claim_rule(v, contract, user, kind, setting) is Ok {
                lemma_claim_keeps(v, contract, user, kind, setting);
            }
        },
        Call::Summit { now, user, setting, result } => {
            lemma_submission_keeps(v, now, user, setting, result);
        },
        Call::Assess { now, user, setting, desition } => {
            lemma_vote_keeps(v, now, user, setting, desition);
        },
        Call::AssessSupreme { now, user, gameid, desition } => {
            if assess_supreme_rule(v, now, user, gameid, desition) is Ok {
                lemma_court_vote_keeps(v, now, user, gameid, desition);
            }
        },
        Call::ExecuteDistribution { now, setting } => {
            if execute_distribution_rule(v, now, setting) is Ok {
                lemma_execute_keeps(v, now, setting);
            }
        },
        _ => {},
    }
}

/// Any sequence of calls keeps the configuration once stored and every bet
/// once placed.
pub proof fn law_calls_keep_bets_and_config(v: LedgerView, calls: Seq<Call>)
    ensures
        keeps_bets_and_config(v, after_calls(v, calls)),
    decreases calls.len(),
{
    if calls.len() > 0 {
        let u = after_calls(v, calls.drop_last());
        law_calls_keep_bets_and_config(v, calls.drop_last());
        law_call_keeps_bets_and_config(u, calls.last());
    }
}

/// A refund gives back exactly what the bet took, whatever calls came in
/// between: the refund's transfers are the bet's transfers sent back, and
/// it returns the USD and the TRUST given back (the stake, plus 20% in USD
/// or 10% in TRUST).
pub proof fn law_refund_returns_stake_after_any_calls(
    v: LedgerView,
    now: u64,
    contract: AccountId,
    user: AccountId,
    bet: Bet,
    calls: Seq<Call>,
    now2: u64,
)
    requires
        bet_rule(v, now, contract, user, bet) is Ok,
        claim_refund_rule(after_calls((bet_rule(v, now, contract, user, bet)->Ok_0).post, calls), now2, contract, user, bet.Setting) is Ok,
    ensures
        (claim_refund_rule(after_calls((bet_rule(v, now, contract, user, bet)->Ok_0).post, calls), now2, contract, user, bet.Setting)->Ok_0).transfers
            == (bet_rule(v, now, contract, user, bet)->Ok_0).transfers.map_values(|t: Transfer| sent_back(t)),
        (claim_refund_rule(after_calls((bet_rule(v, now, contract, user, bet)->Ok_0).post, calls), now2, contract, user, bet.Setting)->Ok_0).value
            == (if bet.collateralUsd {
                ((bet.amount_bet + percent(bet.amount_bet as int, TWENTY_PERCENT as int)) as i128, 0i128)
            } else {
                (bet.amount_bet, percent(bet.amount_bet as int, TEN_PERCENT as int) as i128)
            }),
{
    let p = (bet_rule(v, now, contract, user, bet)->Ok_0).post;
    let w = after_calls(p, calls);
    assert(p.bets.contains_key((user, bet.Setting)) && p.bets[(user, bet.Setting)] == bet);
    law_calls_keep_bets_and_config(p, calls);
    assert(w.bets.contains_key((user, bet.Setting)));
    crate::laws::law_refund_returns_stake(v, now, contract, user, bet, w, now2);
}

} // verus!
