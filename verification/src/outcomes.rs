//! What distributions, claims and court votes give, stated over the room's
//! tallies, bets and votes: who counts as honest, what a distribution
//! gathers, what an honest bettor is paid, and when the court decides.
use crate::arith::tdiv;
use crate::distribution::{bump, dishonest, half_novote, honest, honest_key, no_pools, unassessed, unassessed_key, PoolField, Pools};
use crate::court::{assess_supreme_rule, court_distribute, court_settle, result_pending, set_result_supreme_rule};
use crate::ledger::{amounts_at, int_at, seq_at, tally_at, LedgerView, Tally};
use crate::outcome::{BettingError, BettingEvent};
use crate::rules::{claim_rule, distribution_rule, kind_rule, pools_rule, reject};
use crate::types::{AccountId, AssessmentKey, BetKey, ClaimType, CountVotesResult, ResultAssessmentSupremeView, ResultGame};
use vstd::prelude::*;

verus! {

/// The bettor `user` has a bet in room `setting`, whose game exists and
/// whose result is known and not paused.
pub open spec fn settled_bettor(v: LedgerView, user: AccountId, setting: i128) -> bool {
    &&& v.bets.contains_key((user, setting))
    &&& v.bets[(user, setting)].id != 0
    &&& v.game(v.bets[(user, setting)].gameid).id != 0
    &&& v.result(setting).id != 0
    &&& !v.result(setting).pause
}

/// Who is honest once a room's result stands. After a complaint the court
/// upheld (complaint 0) the rejecters were right; after one it overruled
/// (complaint 1), or with no complaint (2), the approvers were. An honest
/// voter is an honest winner (kind 1) when their bet matches the result and
/// an honest loser (kind 2) otherwise, counted with their stake; a voter on
/// the wrong side is dishonest (kind 3, nothing counted). A bettor who never
/// voted is a silent winner (kind 4, with their stake) or a silent loser
/// (kind 5, nothing counted).
pub proof fn law_honest_and_dishonest_voters(v: LedgerView, user: AccountId, setting: i128)
    requires
        settled_bettor(v, user, setting),
    ensures
        ({
            let b = v.bets[(user, setting)];
            let approved = v.assessment(setting).UsersApprove.contains(user);
            let rejected = v.assessment(setting).UsersReject.contains(user);
            let c = int_at(v.complains, setting);
            let honest = if b.bet == v.result(setting).result {
                (1i32, b.amount_bet, b.collateralUsd)
            } else {
                (2i32, b.amount_bet, b.collateralUsd)
            };
            &&& c == 0 && rejected && !approved ==> kind_rule(v, user, setting) == Ok::<(i32, i128, bool), crate::outcome::Failure>(honest)
            &&& c == 0 && approved ==> kind_rule(v, user, setting) == Ok::<(i32, i128, bool), crate::outcome::Failure>((3i32, 0i128, b.collateralUsd))
            &&& (c == 1 || c == 2) && approved ==> kind_rule(v, user, setting) == Ok::<(i32, i128, bool), crate::outcome::Failure>(honest)
            &&& c == 1 && rejected && !approved ==> kind_rule(v, user, setting) == Ok::<(i32, i128, bool), crate::outcome::Failure>((3i32, 0i128, b.collateralUsd))
            &&& 0 <= c <= 2 && !approved && !rejected ==> kind_rule(v, user, setting) == Ok::<(i32, i128, bool), crate::outcome::Failure>(
                if b.bet == v.result(setting).result { (4i32, b.amount_bet, b.collateralUsd) } else { (5i32, 0i128, b.collateralUsd) })
        }),
{
}

/// A court member who submits the court's result for a game has voted on
/// it: an honest member is listed among the game's honest voters (so a
/// share of the court's reward is theirs to claim), and any vote of theirs
/// on that result at the same time fails with `UserhasAlreadyVoted`.
pub proof fn law_court_submitter_has_voted(v: LedgerView, now: u64, user: AccountId, result: ResultGame, desition: AssessmentKey)
    requires
        set_result_supreme_rule(v, now, user, result) is Ok,
    ensures
        user != v.config.unwrap().supreme_court && user != v.config.unwrap().admin
            ==> (set_result_supreme_rule(v, now, user, result)->Ok_0).post.supreme_assessment(result.gameid).countHonestyUsers.contains(user),
        user == v.config.unwrap().supreme_court
            ==> (set_result_supreme_rule(v, now, user, result)->Ok_0).post.supreme_assessment(result.gameid).ExternalUser,
        user == v.config.unwrap().admin && user != v.config.unwrap().supreme_court
            ==> (set_result_supreme_rule(v, now, user, result)->Ok_0).post.supreme_assessment(result.gameid).Admin,
        assess_supreme_rule((set_result_supreme_rule(v, now, user, result)->Ok_0).post, now, user, result.gameid, desition)
            == reject::<bool>(BettingError::UserhasAlreadyVoted),
{
    let g = result.gameid;
    let w = (set_result_supreme_rule(v, now, user, result)->Ok_0).post;
    let a = v.supreme_assessment(g);
    assert(seq![user].add(a.countHonestyUsers)[0] == user);
    assert(w.results == v.results && w.private_lists == v.private_lists);
    assert(forall|x: i128| #[trigger] w.result(x) == v.result(x));
    let rooms = crate::ledger::seq_at(v.private_lists, g);
    if crate::court::submission_needed(v, g) {
        let i = choose|i: int| 0 <= i < rooms.len() && #[trigger] crate::court::result_pending(v.result(rooms[i]));
        assert(crate::court::result_pending(w.result(rooms[i])));
    }
    assert(crate::court::submission_needed(w, g));
    assert(crate::court::court_window_check(w, now, g) == crate::court::court_window_check(v, now, g));
}

/// `r` is the strict leader of the community's counted room results `c`.
pub open spec fn strict_leader(c: crate::types::KeyAmounts, r: BetKey) -> bool {
    forall|k: BetKey| k != r ==> #[trigger] c.at(k) < c.at(r)
}

/// Room `x` no longer waits for the court: its result is not pending or the
/// room is inactive.
pub open spec fn room_settled(v: LedgerView, x: i128) -> bool {
    !(result_pending(v.result(x)) && v.private_bet(x).active)
}

proof fn lemma_court_settle_settles(v: LedgerView, now: u64, s: i128, r: BetKey, x: i128)
    requires
        court_settle(v, now, s, r) is Ok,
    ensures
        room_settled((court_settle(v, now, s, r)->Ok_0).0, s),
        room_settled(v, x) ==> room_settled((court_settle(v, now, s, r)->Ok_0).0, x),
{
    reveal(court_settle);
}

proof fn lemma_court_distribute_settles(v: LedgerView, now: u64, rooms: Seq<i128>, i: int, r: BetKey)
    requires
        court_distribute(v, now, rooms, i, r) is Ok,
        0 <= i,
    ensures
        forall|j: int| i <= j < rooms.len() ==> room_settled((court_distribute(v, now, rooms, i, r)->Ok_0).0, #[trigger] rooms[j]),
        forall|x: i128| room_settled(v, x) ==> #[trigger] room_settled((court_distribute(v, now, rooms, i, r)->Ok_0).0, x),
    decreases rooms.len() - i,
{
    if i < rooms.len() {
        let v1 = (court_settle(v, now, rooms[i], r)->Ok_0).0;
        lemma_court_distribute_settles(v1, now, rooms, i + 1, r);
        assert forall|x: i128| room_settled(v, x) implies #[trigger] room_settled(v1, x) by {
            lemma_court_settle_settles(v, now, rooms[i], r, x);
        }
        lemma_court_settle_settles(v, now, rooms[i], r, rooms[i]);
    }
}

/// The court decides with three approvals, or with two when the
/// community's counted room results lead strictly to the court's result:
/// an approving vote that brings the approvals to that count confirms the
/// result. The call returns `true`, every room of the result's game that
/// waited for the court is settled (distributed, or deactivated when the
/// game is cancelled), and the last event announces the court's result.
pub proof fn law_court_confirms(v: LedgerView, now: u64, user: AccountId, gameid: i128)
    requires
        assess_supreme_rule(v, now, user, gameid, AssessmentKey::approve) is Ok,
        v.votes(gameid).aproved + 1 >= 3
            || (v.votes(gameid).aproved + 1 == 2
                && strict_leader(amounts_at(v.result_counts, gameid), v.supreme_result(gameid).result)),
    ensures
        ({
            let st = assess_supreme_rule(v, now, user, gameid, AssessmentKey::approve)->Ok_0;
            let res = v.supreme_result(gameid);
            let rooms = seq_at(v.private_lists, res.gameid);
            &&& st.value
            &&& forall|j: int| 0 <= j < rooms.len() ==> room_settled(st.post, #[trigger] rooms[j])
            &&& st.events.len() > 0
            &&& st.events.last() == BettingEvent::GameResultSupreme { game_id: res.gameid, result: res.result }
        }),
{
    let c = amounts_at(v.result_counts, gameid);
    let r = v.supreme_result(gameid).result;
    if v.votes(gameid).aproved + 1 == 2 {
        assert(c.at(BetKey::Team_local) <= c.at(r));
        assert(c.at(BetKey::Team_away) <= c.at(r));
        assert(c.at(BetKey::Tie) <= c.at(r));
        assert(c.at(BetKey::Cancel) <= c.at(r));
    }
    let res = v.supreme_result(gameid);
    let cfg = v.config.unwrap();
    let a = v.supreme_assessment(gameid);
    let cv = v.votes(gameid);
    let a1 = if user == cfg.supreme_court {
        ResultAssessmentSupremeView { ExternalUser: true, ..a }
    } else if user == cfg.admin {
        ResultAssessmentSupremeView { Admin: true, ..a }
    } else {
        ResultAssessmentSupremeView { countHonestyUsers: seq![user] + a.countHonestyUsers, ..a }
    };
    let cv1 = CountVotesResult { aproved: (cv.aproved + 1) as i128, ..cv };
    let v1 = LedgerView {
        supreme_assessments: v.supreme_assessments.insert(gameid, a1),
        supreme_votes: v.supreme_votes.insert(gameid, cv1),
        ..v
    };
    lemma_court_distribute_settles(v1, now, seq_at(v1.private_lists, res.gameid), 0, res.result);
}

/// The court removes its result with three rejections, or with two when
/// the community's counted room results lead strictly to another outcome:
/// while the approvals stand below two, a rejecting vote that brings the
/// rejections to that count returns `true`, removes the court's result for
/// the game and announces it.
pub proof fn law_court_removes(v: LedgerView, now: u64, user: AccountId, gameid: i128)
    requires
        assess_supreme_rule(v, now, user, gameid, AssessmentKey::reject) is Ok,
        v.votes(gameid).aproved < 2,
        v.votes(gameid).rejected + 1 >= 3
            || (v.votes(gameid).rejected + 1 == 2 && exists|k: BetKey| k != v.supreme_result(gameid).result
                && #[trigger] strict_leader(amounts_at(v.result_counts, gameid), k)),
    ensures
        ({
            let st = assess_supreme_rule(v, now, user, gameid, AssessmentKey::reject)->Ok_0;
            let res = v.supreme_result(gameid);
            &&& st.value
            &&& st.post.supreme_result(gameid).id == 0
            &&& st.events == seq![BettingEvent::GameResultBySupremeRemoved { game_id: res.gameid, result: res.result }]
        }),
{
    let c = amounts_at(v.result_counts, gameid);
    if v.votes(gameid).rejected + 1 == 2 {
        let k = choose|k: BetKey| k != v.supreme_result(gameid).result && #[trigger] strict_leader(c, k);
        assert(c.at(BetKey::Team_local) <= c.at(k));
        assert(c.at(BetKey::Team_away) <= c.at(k));
        assert(c.at(BetKey::Tie) <= c.at(k));
        assert(c.at(BetKey::Cancel) <= c.at(k));
    }
}

/// A court vote that decides nothing is counted once: when the approvals
/// and rejections it leaves stay below two, the call returns `false` with no
/// event, adds one to the count of its side, and any later vote of the same
/// member on that result fails with `UserhasAlreadyVoted`.
pub proof fn law_court_vote_counted(v: LedgerView, now: u64, user: AccountId, gameid: i128, desition: AssessmentKey, again: AssessmentKey)
    requires
        assess_supreme_rule(v, now, user, gameid, desition) is Ok,
        v.votes(gameid).aproved + (if desition == AssessmentKey::approve { 1int } else { 0 }) < 2,
        v.votes(gameid).rejected + (if desition == AssessmentKey::reject { 1int } else { 0 }) < 2,
    ensures
        ({
            let st = assess_supreme_rule(v, now, user, gameid, desition)->Ok_0;
            let cv = v.votes(gameid);
            &&& !st.value
            &&& st.events.len() == 0
            &&& desition == AssessmentKey::approve ==> st.post.votes(gameid) == (CountVotesResult { aproved: (cv.aproved + 1) as i128, ..cv })
            &&& desition == AssessmentKey::reject ==> st.post.votes(gameid) == (CountVotesResult { rejected: (cv.rejected + 1) as i128, ..cv })
            &&& assess_supreme_rule(st.post, now, user, gameid, again) == reject::<bool>(BettingError::UserhasAlreadyVoted)
        }),
{
    let st = assess_supreme_rule(v, now, user, gameid, desition)->Ok_0;
    let w = st.post;
    let a = v.supreme_assessment(gameid);
    assert(seq![user].add(a.countHonestyUsers)[0] == user);
    assert(w.results == v.results && w.private_lists == v.private_lists);
    assert(forall|x: i128| #[trigger] w.result(x) == v.result(x));
    let rooms = seq_at(v.private_lists, gameid);
    let i = choose|i: int| 0 <= i < rooms.len() && #[trigger] result_pending(v.result(rooms[i]));
    assert(result_pending(w.result(rooms[i])));
    assert(crate::court::submission_needed(w, gameid));
    assert(crate::court::court_window_check(w, now, gameid) == crate::court::court_window_check(v, now, gameid));
}

/// The USD collateral of a bet of `stake` (20% when the collateral is in
/// USD, nothing otherwise) and its TRUST collateral (10% when in TRUST).
pub open spec fn usd_collateral(stake: int, usd: bool) -> int {
    if usd { tdiv(stake * 20, 100) } else { 0 }
}

pub open spec fn trust_collateral(stake: int, usd: bool) -> int {
    if usd { 0 } else { tdiv(stake * 10, 100) }
}

/// What a bettor's claim pays, by kind. An honest winner gets their stake,
/// their percentage of the winners' pool (rounded toward zero) applied to
/// the pool shared out, and their collateral; an honest loser gets their
/// collateral, and their percentage of the losers' pool applied to the pool
/// shared out when nobody won honestly; a winner who did not vote gets half
/// their stake. The value is the USD and the TRUST paid, and the transfers
/// pay exactly that to the claimant.
pub proof fn law_claim_pays(v: LedgerView, contract: AccountId, user: AccountId, setting: i128)
    requires
        claim_rule(v, contract, user, ClaimType::User, setting) is Ok,
    ensures
        ({
            let st = claim_rule(v, contract, user, ClaimType::User, setting)->Ok_0;
            let k = kind_rule(v, user, setting)->Ok_0;
            let a = k.1 as int;
            let usd = k.2;
            let wp = int_at(v.winner_pools, setting) as int;
            let lp = int_at(v.loser_pools, setting) as int;
            let pool = int_at(v.pools, setting) as int;
            let winner_share = tdiv(tdiv(a * 100, wp) * pool, 100);
            let loser_share = if wp == 0 { tdiv(tdiv(a * 100, lp) * pool, 100) } else { 0 };
            let cfg = v.config.unwrap();
            let collateral_token = if usd { cfg.token_usd } else { cfg.token_trust };
            &&& kind_rule(v, user, setting) is Ok
            &&& k.0 == 1 || k.0 == 2 || k.0 == 4
            &&& k.0 == 1 ==> st.value.0 == a + winner_share + usd_collateral(a, usd) && st.value.1 == trust_collateral(a, usd)
            &&& k.0 == 1 ==> st.transfers == seq![
                crate::outcome::Transfer { token: cfg.token_usd, from: contract, to: user, amount: (a + winner_share) as i128 },
                crate::outcome::Transfer { token: collateral_token, from: contract, to: user, amount: (usd_collateral(a, usd) + trust_collateral(a, usd)) as i128 },
            ]
            &&& k.0 == 1 ==> st.transfers[0].amount == a + winner_share
            &&& k.0 == 2 ==> st.value.0 == usd_collateral(a, usd) + loser_share && st.value.1 == trust_collateral(a, usd)
            &&& k.0 == 2 ==> st.transfers[0] == (crate::outcome::Transfer {
                token: collateral_token, from: contract, to: user, amount: (usd_collateral(a, usd) + trust_collateral(a, usd)) as i128 })
            &&& k.0 == 2 && wp == 0 ==> st.transfers == seq![st.transfers[0],
                crate::outcome::Transfer { token: cfg.token_usd, from: contract, to: user, amount: loser_share as i128 }]
            &&& k.0 == 2 && wp != 0 ==> st.transfers == seq![st.transfers[0]]
            &&& k.0 == 4 ==> st.value.0 == tdiv(a * 50, 100) && st.value.1 == 0
            &&& k.0 == 4 ==> st.transfers == seq![
                crate::outcome::Transfer { token: cfg.token_usd, from: contract, to: user, amount: tdiv(a * 50, 100) as i128 }]
        }),
{
}

/// The stakes of tally `t` on the three outcomes a room is settled on.
pub open spec fn stakes(t: Tally) -> int {
    t.amount.local + t.amount.tie + t.amount.away
}

/// The stakes of tally `t` on the outcomes other than the result `r`.
pub open spec fn lost(t: Tally, r: BetKey) -> int {
    if r == BetKey::Cancel { stakes(t) } else { stakes(t) - t.amount.at(r) }
}

/// The stakes of tally `t` on the result `r`.
pub open spec fn won(t: Tally, r: BetKey) -> int {
    if r == BetKey::Cancel { 0 } else { t.amount.at(r) as int }
}

/// The USD collateral of tally `t`.
pub open spec fn usd_held(t: Tally) -> int {
    t.usd.local + t.usd.tie + t.usd.away
}

/// The TRUST collateral of tally `t`.
pub open spec fn trust_held(t: Tally) -> int {
    t.trust.local + t.trust.tie + t.trust.away
}

/// What room `setting` gathers when it is distributed with result `r`: the
/// losing stakes of the bettors who never voted, half the winning stakes of
/// those who never voted, and all their USD collateral; the stakes and USD
/// collateral of the dishonest voters (the approvers after complaint 0, the
/// rejecters after complaint 1); and the losing stakes of the honest
/// voters.
pub open spec fn gathered(v: LedgerView, setting: i128, r: BetKey, complain: i128) -> int {
    let na = tally_at(v.not_assessed, setting);
    let ap = tally_at(v.approved, setting);
    let rj = tally_at(v.rejected, setting);
    let silent = lost(na, r) + tdiv(won(na, r) * 50, 100) + usd_held(na);
    if complain == 0 {
        silent + stakes(ap) + usd_held(ap) + lost(rj, r)
    } else if complain == 1 {
        silent + stakes(rj) + usd_held(rj) + lost(ap, r)
    } else {
        silent + lost(ap, r)
    }
}

/// The TRUST collateral room `setting` forfeits: that of the bettors who
/// never voted and that of the dishonest voters.
pub open spec fn trust_forfeited(v: LedgerView, setting: i128, complain: i128) -> int {
    let na = tally_at(v.not_assessed, setting);
    trust_held(na) + if complain == 0 {
        trust_held(tally_at(v.approved, setting))
    } else if complain == 1 {
        trust_held(tally_at(v.rejected, setting))
    } else {
        0
    }
}

/// The honest voters' tally of room `setting` under complaint `complain`.
pub open spec fn honest_tally(v: LedgerView, setting: i128, complain: i128) -> Tally {
    if complain == 0 { tally_at(v.rejected, setting) } else { tally_at(v.approved, setting) }
}

/// `q` is `p` with `dg`, `dt`, `du`, `dl`, `dw` and `dn` added to its gain,
/// TRUST, USD, losers', winners' and silent winners' totals.
pub open spec fn grown(p: Pools, q: Pools, dg: int, dt: int, du: int, dl: int, dw: int, dn: int) -> bool {
    &&& q.gain == p.gain + dg
    &&& q.trust == p.trust + dt
    &&& q.usd == p.usd + du
    &&& q.losers == p.losers + dl
    &&& q.winners == p.winners + dw
    &&& q.novote == p.novote + dn
}

proof fn lemma_bump(p: Option<Pools>, f: PoolField, x: int)
    requires
        bump(p, f, x) is Some,
    ensures
        p is Some,
        grown(p->Some_0, bump(p, f, x)->Some_0,
            if f == PoolField::Gain { x } else { 0 },
            if f == PoolField::Trust { x } else { 0 },
            if f == PoolField::Usd { x } else { 0 },
            if f == PoolField::Losers { x } else { 0 },
            if f == PoolField::Winners { x } else { 0 },
            if f == PoolField::Novote { x } else { 0 }),
{
}

proof fn lemma_unassessed_key(p: Option<Pools>, t: Tally, r: BetKey, k: BetKey)
    requires
        unassessed_key(p, t, r, k) is Some,
    ensures
        p is Some,
        grown(p->Some_0, unassessed_key(p, t, r, k)->Some_0,
            if r != k { t.amount.at(k) as int } else { 0 },
            t.trust.at(k) as int, t.usd.at(k) as int, 0, 0,
            if r == k { t.amount.at(k) as int } else { 0 }),
{
    let p1 = bump(p, PoolField::Trust, t.trust.at(k) as int);
    let p2 = bump(p1, PoolField::Usd, t.usd.at(k) as int);
    if r != k {
        lemma_bump(p2, PoolField::Gain, t.amount.at(k) as int);
    } else {
        lemma_bump(p2, PoolField::Novote, t.amount.at(k) as int);
    }
    lemma_bump(p1, PoolField::Usd, t.usd.at(k) as int);
    lemma_bump(p, PoolField::Trust, t.trust.at(k) as int);
}

proof fn lemma_unassessed(p: Option<Pools>, t: Tally, r: BetKey)
    requires
        unassessed(p, t, r) is Some,
    ensures
        p is Some,
        grown(p->Some_0, unassessed(p, t, r)->Some_0, lost(t, r), trust_held(t), usd_held(t), 0, 0, won(t, r)),
{
    let p1 = unassessed_key(p, t, r, BetKey::Team_local);
    let p2 = unassessed_key(p1, t, r, BetKey::Tie);
    lemma_unassessed_key(p2, t, r, BetKey::Team_away);
    lemma_unassessed_key(p1, t, r, BetKey::Tie);
    lemma_unassessed_key(p, t, r, BetKey::Team_local);
}

proof fn lemma_dishonest(p: Option<Pools>, t: Tally)
    requires
        dishonest(p, t) is Some,
    ensures
        p is Some,
        grown(p->Some_0, dishonest(p, t)->Some_0, stakes(t), trust_held(t), usd_held(t), 0, 0, 0),
{
    let g1 = bump(p, PoolField::Gain, t.amount.away as int);
    let g2 = bump(g1, PoolField::Gain, t.amount.local as int);
    let g = bump(g2, PoolField::Gain, t.amount.tie as int);
    let t1 = bump(g, PoolField::Trust, t.trust.away as int);
    let t2 = bump(t1, PoolField::Trust, t.trust.local as int);
    let tr = bump(t2, PoolField::Trust, t.trust.tie as int);
    let u1 = bump(tr, PoolField::Usd, t.usd.away as int);
    let u2 = bump(u1, PoolField::Usd, t.usd.local as int);
    lemma_bump(u2, PoolField::Usd, t.usd.tie as int);
    lemma_bump(u1, PoolField::Usd, t.usd.local as int);
    lemma_bump(tr, PoolField::Usd, t.usd.away as int);
    lemma_bump(t2, PoolField::Trust, t.trust.tie as int);
    lemma_bump(t1, PoolField::Trust, t.trust.local as int);
    lemma_bump(g, PoolField::Trust, t.trust.away as int);
    lemma_bump(g2, PoolField::Gain, t.amount.tie as int);
    lemma_bump(g1, PoolField::Gain, t.amount.local as int);
    lemma_bump(p, PoolField::Gain, t.amount.away as int);
}

proof fn lemma_honest_key(p: Option<Pools>, t: Tally, r: BetKey, k: BetKey)
    requires
        honest_key(p, t, r, k) is Some,
    ensures
        p is Some,
        grown(p->Some_0, honest_key(p, t, r, k)->Some_0,
            if r != k { t.amount.at(k) as int } else { 0 }, 0, 0,
            if r != k { t.amount.at(k) as int } else { 0 },
            if r == k { t.amount.at(k) as int } else { 0 }, 0),
{
    if r != k {
        let p1 = bump(p, PoolField::Gain, t.amount.at(k) as int);
        lemma_bump(p1, PoolField::Losers, t.amount.at(k) as int);
        lemma_bump(p, PoolField::Gain, t.amount.at(k) as int);
    } else {
        lemma_bump(p, PoolField::Winners, t.amount.at(k) as int);
    }
}

proof fn lemma_honest(p: Option<Pools>, t: Tally, r: BetKey)
    requires
        honest(p, t, r) is Some,
    ensures
        p is Some,
        grown(p->Some_0, honest(p, t, r)->Some_0, lost(t, r), 0, 0, lost(t, r), won(t, r), 0),
{
    let p1 = honest_key(p, t, r, BetKey::Team_local);
    let p2 = honest_key(p1, t, r, BetKey::Tie);
    lemma_honest_key(p2, t, r, BetKey::Team_away);
    lemma_honest_key(p1, t, r, BetKey::Tie);
    lemma_honest_key(p, t, r, BetKey::Team_local);
}

/// What a room's pools are, from its tallies: the gain is what the room
/// gathers, the TRUST is what it forfeits, the honest winners' and losers'
/// pools are the honest voters' stakes on and off the result, and the
/// silent winners' total is their stakes on the result.
pub proof fn law_pools_from_tallies(v: LedgerView, setting: i128, r: BetKey, complain: i128)
    requires
        pools_rule(v, setting, r, complain) is Ok,
    ensures
        ({
            let q = pools_rule(v, setting, r, complain)->Ok_0;
            &&& q.gain == gathered(v, setting, r, complain)
            &&& q.trust == trust_forfeited(v, setting, complain)
            &&& q.winners == won(honest_tally(v, setting, complain), r)
            &&& q.losers == lost(honest_tally(v, setting, complain), r)
            &&& q.novote == won(tally_at(v.not_assessed, setting), r)
        }),
{
    let na = tally_at(v.not_assessed, setting);
    let ap = tally_at(v.approved, setting);
    let rj = tally_at(v.rejected, setting);
    let o1 = unassessed(Some(no_pools()), na, r);
    assert(o1 is Some);
    lemma_unassessed(Some(no_pools()), na, r);
    let q1 = o1->Some_0;
    let o2 = bump(Some(q1), PoolField::Gain, tdiv(q1.novote * 50, 100));
    assert(half_novote(o1) == o2);
    lemma_bump(Some(q1), PoolField::Gain, tdiv(q1.novote * 50, 100));
    let q2 = o2->Some_0;
    let o3 = if complain == 0 {
        honest(dishonest(Some(q2), ap), rj, r)
    } else if complain == 1 {
        honest(dishonest(Some(q2), rj), ap, r)
    } else {
        honest(Some(q2), ap, r)
    };
    assert(o3 is Some);
    if complain == 0 {
        lemma_honest(dishonest(Some(q2), ap), rj, r);
        lemma_dishonest(Some(q2), ap);
    } else if complain == 1 {
        lemma_honest(dishonest(Some(q2), rj), ap, r);
        lemma_dishonest(Some(q2), rj);
    } else {
        lemma_honest(Some(q2), ap, r);
    }
    let q3 = o3->Some_0;
    lemma_bump(Some(q3), PoolField::Gain, q3.usd as int);
}

/// A distribution leaves in the room, and credits the protocol and the
/// court, exactly what the room gathers from its tallies, gives the
/// protocol the TRUST it forfeits, and records the honest voters' stakes
/// on and off the result as the winners' and losers' pools.
pub proof fn law_distribution_from_tallies(v: LedgerView, now: u64, game_id: i128, setting: i128, r: BetKey, complain: i128)
    requires
        distribution_rule(v, now, game_id, setting, r, complain) is Ok,
    ensures
        ({
            let w = (distribution_rule(v, now, game_id, setting, r, complain)->Ok_0).0;
            &&& int_at(w.pools, setting) + (w.claim_protocol - v.claim_protocol)
                + (int_at(w.claim_supreme, game_id) - int_at(v.claim_supreme, game_id)) == gathered(v, setting, r, complain)
            &&& w.claim_protocol_trust - v.claim_protocol_trust == trust_forfeited(v, setting, complain)
            &&& int_at(w.winner_pools, setting) == won(honest_tally(v, setting, complain), r)
            &&& int_at(w.loser_pools, setting) == lost(honest_tally(v, setting, complain), r)
        }),
{
    law_pools_from_tallies(v, setting, r, complain);
    crate::laws::law_distribution_splits_gain(v, now, game_id, setting, r, complain);
}

} // verus!
