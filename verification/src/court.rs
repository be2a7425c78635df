//! The supreme court: when a room's result is missing or disputed, the
//! court (its external member, the admin, and the two users with the most
//! honesty points) submits a result for the game and votes on it; a
//! confirmed result is distributed in every room still waiting for one.
use crate::arith::{self, overflow};
use crate::constants::ONE_HOUR_SECONDS;
use crate::contract::BettingContract;
use crate::ledger::{
    amounts_at, default_supreme_assessment, default_votes, fits_i128, seq_at, Ledger, LedgerView,
};
use crate::lists;
use crate::outcome::{BettingError, BettingEvent, Effects, Failure, PanicReason};
use crate::rules::{agrees, commits, distribution_rule, now32, reject, stop, Step};
use crate::storage::{self, overall_of};
use crate::types::{
    AccountId, AssessmentKey, BetKey, CountVotesResult, ResultAssessmentSupremeView, ResultGame,
    ResultGameView,
};
use vstd::prelude::*;

verus! {

/// A room's result still needs the court: it was not distributed, and it is
/// missing or paused by a rejection.
pub open spec fn result_pending(r: ResultGameView) -> bool {
    !r.distribution_executed && (r.pause || r.id == 0)
}

/// Some room of game `gameid` still needs the court.
pub open spec fn submission_needed(v: LedgerView, gameid: i128) -> bool {
    let rooms = seq_at(v.private_lists, gameid);
    exists|i: int| 0 <= i < rooms.len() && #[trigger] result_pending(v.result(rooms[i]))
}

/// The court's time window on game `gameid`: from 5 hours after the game's
/// end (or as soon as every bettor of the game has voted) until 29 hours
/// after it.
pub open spec fn court_window_check(v: LedgerView, now: u64, gameid: i128) -> Option<Failure> {
    let g = v.game(gameid);
    if g.id == 0 {
        Some(Failure::Error(BettingError::GameDoesNotExist))
    } else if g.endTime + 5 * ONE_HOUR_SECONDS > u32::MAX {
        Some(overflow())
    } else if g.endTime + 5 * ONE_HOUR_SECONDS > now32(now) && !v.all_voted(gameid) {
        Some(Failure::Error(BettingError::GameAssesmentHasFinished))
    } else if g.endTime + 29 * ONE_HOUR_SECONDS > u32::MAX {
        Some(overflow())
    } else if g.endTime + 29 * ONE_HOUR_SECONDS < now32(now) {
        Some(Failure::Error(BettingError::GameAssesmentHasFinished))
    } else {
        None
    }
}

/// `setResult_supremCourt`: a member of the court submits the result of game
/// `result.gameid`, which counts as their approving vote, while some room of
/// the game still needs it.
pub open spec fn set_result_supreme_rule(v: LedgerView, now: u64, user: AccountId, result: ResultGame) -> Result<Step<bool>, Failure> {
    let g = result.gameid;
    if !v.initialized() {
        stop(PanicReason::NotInitialized)
    } else {
        match court_window_check(v, now, g) {
            Some(f) => Err(f),
            None => {
                let cfg = v.config.unwrap();
                let a = ResultAssessmentSupremeView { id: g, gameid: g, ..v.supreme_assessment(g) };
                let cv = v.votes(g);
                if user != cfg.supreme_court && user != cfg.admin && !v.supreme_honesty.contains(user) {
                    reject(BettingError::UnauthorizedError)
                } else if !fits_i128(cv.aproved + 1) {
                    Err(overflow())
                } else if v.supreme_result(g).id != 0 {
                    reject(BettingError::GameResultAlreadySet)
                } else if !submission_needed(v, g) {
                    reject(BettingError::NotAllowToSummitResult)
                } else if result.distribution_executed || result.pause || result.id == 0 || result.gameid == 0 {
                    reject(BettingError::InvalidInputError)
                } else {
                    let a1 = if user == cfg.supreme_court {
                        ResultAssessmentSupremeView { ExternalUser: true, ..a }
                    } else if user == cfg.admin {
                        ResultAssessmentSupremeView { Admin: true, ..a }
                    } else {
                        ResultAssessmentSupremeView { countHonestyUsers: seq![user] + a.countHonestyUsers, ..a }
                    };
                    let cv1 = CountVotesResult { id: g, gameid: g, aproved: (cv.aproved + 1) as i128, rejected: cv.rejected };
                    Ok(Step {
                        post: LedgerView {
                            supreme_assessments: v.supreme_assessments.insert(g, a1),
                            supreme_votes: v.supreme_votes.insert(g, cv1),
                            supreme_results: v.supreme_results.insert(g, result@),
                            ..v
                        },
                        value: true,
                        transfers: Seq::empty(),
                        events: Seq::empty(),
                    })
                }
            },
        }
    }
}

/// What the community's counted room results say of the court's result `r`
/// for game `gameid`: 1 they agree with it, 2 they point elsewhere, 0 no
/// outcome leads.
pub open spec fn community_of(v: LedgerView, gameid: i128, r: BetKey) -> i128 {
    let o = overall_of(amounts_at(v.result_counts, gameid));
    let led = if o == 1 {
        BetKey::Team_local
    } else if o == 2 {
        BetKey::Team_away
    } else if o == 3 {
        BetKey::Cancel
    } else {
        BetKey::Tie
    };
    if o == 0 {
        0
    } else if r == led {
        1
    } else {
        2
    }
}

/// The court's confirmed result `r` applied to room `setting`: a room whose
/// result is pending and that is active is distributed (with the complaint
/// upheld when the room's result differed from `r`), or deactivated when `r`
/// cancels the game.
#[verifier::opaque]
pub open spec fn court_settle(v: LedgerView, now: u64, setting: i128, r: BetKey) -> Result<(LedgerView, Seq<BettingEvent>), Failure> {
    let x = v.result(setting);
    let room = v.private_bet(setting);
    let complain: i128 = if x.result != r { 0 } else { 1 };
    if !result_pending(x) || !room.active {
        Ok((v, Seq::empty()))
    } else if r == BetKey::Cancel {
        Ok((v.set_room_active(setting, false), Seq::empty()))
    } else {
        distribution_rule(v, now, room.gameid, setting, r, complain)
    }
}

/// `x` with `pre` published before its events.
pub open spec fn after_events(x: Result<(LedgerView, Seq<BettingEvent>), Failure>, pre: Seq<BettingEvent>) -> Result<(LedgerView, Seq<BettingEvent>), Failure> {
    match x {
        Ok((w, e)) => Ok((w, pre + e)),
        Err(f) => Err(f),
    }
}

/// The court's result `r` applied to the rooms `rooms[i..]` in turn.
pub open spec fn court_distribute(v: LedgerView, now: u64, rooms: Seq<i128>, i: int, r: BetKey) -> Result<(LedgerView, Seq<BettingEvent>), Failure>
    decreases rooms.len() - i,
{
    if i < 0 || i >= rooms.len() {
        Ok((v, Seq::empty()))
    } else {
        match court_settle(v, now, rooms[i], r) {
            Err(f) => Err(f),
            Ok((v1, e1)) => after_events(court_distribute(v1, now, rooms, i + 1, r), e1),
        }
    }
}

/// The result the court stores when it removes the one it was given.
pub open spec fn removed_result(gameid: i128) -> ResultGameView {
    ResultGameView {
        id: 0,
        gameid,
        setting: 0,
        description: Seq::empty(),
        result: BetKey::Cancel,
        pause: false,
        distribution_executed: false,
    }
}

/// `AssestResult_supremCourt`: a member of the court votes once on the
/// court's result for game `gameid`. Three approvals, or two with the
/// community agreeing, confirm it and apply it to every room still waiting;
/// three rejections, or two with the community pointing elsewhere, remove
/// it with the court's votes. The value says whether the vote decided.
pub open spec fn assess_supreme_rule(v: LedgerView, now: u64, user: AccountId, gameid: i128, desition: AssessmentKey) -> Result<Step<bool>, Failure> {
    let result = v.supreme_result(gameid);
    match court_window_check(v, now, gameid) {
        Some(f) => Err(f),
        None => {
            if !submission_needed(v, gameid) {
                reject(BettingError::GameResultAlreadyExecuted)
            } else if result.id == 0 {
                reject(BettingError::GameResultNotFound)
            } else if !v.initialized() {
                stop(PanicReason::NotInitialized)
            } else {
                let cfg = v.config.unwrap();
                let community = community_of(v, gameid, result.result);
                let a = v.supreme_assessment(gameid);
                let cv = v.votes(gameid);
                let approves = desition == AssessmentKey::approve;
                if user == cfg.supreme_court && a.ExternalUser {
                    reject(BettingError::UserhasAlreadyVoted)
                } else if user != cfg.supreme_court && user == cfg.admin && a.Admin {
                    reject(BettingError::UserhasAlreadyVoted)
                } else if user != cfg.supreme_court && user != cfg.admin && v.supreme_honesty.contains(user)
                    && (a.countHonestyUsers.contains(user) || a.countHonestyUsers.len() >= 2) {
                    reject(BettingError::UserhasAlreadyVoted)
                } else if user != cfg.supreme_court && user != cfg.admin && !v.supreme_honesty.contains(user) {
                    reject(BettingError::UnauthorizedError)
                } else if approves && !fits_i128(cv.aproved + 1) {
                    Err(overflow())
                } else if !approves && !fits_i128(cv.rejected + 1) {
                    Err(overflow())
                } else {
                    let a1 = if user == cfg.supreme_court {
                        ResultAssessmentSupremeView { ExternalUser: true, ..a }
                    } else if user == cfg.admin {
                        ResultAssessmentSupremeView { Admin: true, ..a }
                    } else {
                        ResultAssessmentSupremeView { countHonestyUsers: seq![user] + a.countHonestyUsers, ..a }
                    };
                    let cv1 = if approves {
                        CountVotesResult { aproved: (cv.aproved + 1) as i128, ..cv }
                    } else {
                        CountVotesResult { rejected: (cv.rejected + 1) as i128, ..cv }
                    };
                    let v1 = LedgerView {
                        supreme_assessments: v.supreme_assessments.insert(gameid, a1),
                        supreme_votes: v.supreme_votes.insert(gameid, cv1),
                        ..v
                    };
                    if cv1.aproved > 2 || (cv1.aproved == 2 && community == 1) {
                        match court_distribute(v1, now, seq_at(v1.private_lists, result.gameid), 0, result.result) {
                            Err(f) => Err(f),
                            Ok((v2, evs)) => Ok(Step {
                                post: v2,
                                value: true,
                                transfers: Seq::empty(),
                                events: evs.push(BettingEvent::GameResultSupreme { game_id: result.gameid, result: result.result }),
                            }),
                        }
                    } else if cv1.rejected > 2 || (cv1.rejected == 2 && community == 2) {
                        Ok(Step {
                            post: LedgerView {
                                supreme_results: v1.supreme_results.insert(gameid, removed_result(gameid)),
                                supreme_assessments: v1.supreme_assessments.insert(gameid, default_supreme_assessment()),
                                supreme_votes: v1.supreme_votes.insert(gameid, default_votes()),
                                ..v1
                            },
                            value: true,
                            transfers: Seq::empty(),
                            events: seq![BettingEvent::GameResultBySupremeRemoved { game_id: result.gameid, result: result.result }],
                        })
                    } else {
                        Ok(Step { post: v1, value: false, transfers: Seq::empty(), events: Seq::empty() })
                    }
                }
            }
        },
    }
}

/// Publishing `pre` and then `e1` before the events of `x` is publishing
/// `pre + e1` before them.
proof fn lemma_after_events(x: Result<(LedgerView, Seq<BettingEvent>), Failure>, e1: Seq<BettingEvent>, pre: Seq<BettingEvent>)
    ensures
        after_events(after_events(x, e1), pre) == after_events(x, pre + e1),
{
    match x {
        Ok((w, e)) => {
            assert(pre + (e1 + e) =~= (pre + e1) + e);
        },
        Err(_) => {},
    }
}

/// The court's time window on game `gameid` (see `court_window_check`).
fn court_window(env: &Ledger, now: u64, gameid: i128) -> (r: Result<(), Failure>)
    ensures
        match r {
            Ok(()) => court_window_check(env@, now, gameid) is None,
            Err(f) => court_window_check(env@, now, gameid) == Some(f),
        },
{
    let (exist, _, endTime, _) = storage::existBet(env, gameid);
    if !exist {
        return Err(Failure::Error(BettingError::GameDoesNotExist));
    }
    let opens = arith::add_u32(endTime, 5 * ONE_HOUR_SECONDS)?;
    if opens > (now as u32) {
        if !storage::UsersAmount(env, gameid) {
            return Err(Failure::Error(BettingError::GameAssesmentHasFinished));
        }
    }
    let closes = arith::add_u32(endTime, 29 * ONE_HOUR_SECONDS)?;
    if closes < (now as u32) {
        return Err(Failure::Error(BettingError::GameAssesmentHasFinished));
    }
    Ok(())
}

/// Whether some room of game `gameid` still needs the court.
fn is_submission_needed(env: &Ledger, gameid: i128) -> (r: bool)
    ensures
        r == submission_needed(env@, gameid),
{
    let rooms = storage::get_privateSettingList(env, gameid);
    let mut i: usize = 0;
    while i < rooms.len()
        invariant
            i <= rooms@.len(),
            rooms@ == seq_at(env@.private_lists, gameid),
            forall|j: int| 0 <= j < i ==> !#[trigger] result_pending(env@.result(rooms@[j])),
        decreases rooms.len() - i,
    {
        let x = storage::get_ResultGame(env, rooms[i]);
        if !x.distribution_executed && (x.pause || x.id == 0) {
            assert(result_pending(env@.result(rooms@[i as int])));
            return true;
        }
        i = i + 1;
    }
    false
}

impl BettingContract {
    /// A court member submits the result of a game (see
    /// `set_result_supreme_rule`).
    pub fn setResult_supremCourt(env: &mut Ledger, now: u64, user: AccountId, result: ResultGame) -> (r: Result<(bool, Effects), Failure>)
        ensures
            commits(set_result_supreme_rule(old(env)@, now, user, result), r, old(env)@, final(env)@),
    {
        let mut work = env.duplicate();
        let r = Self::set_result_supreme_on(&mut work, now, user, result);
        if r.is_ok() {
            *env = work;
        }
        r
    }

    fn set_result_supreme_on(env: &mut Ledger, now: u64, user: AccountId, result: ResultGame) -> (r: Result<(bool, Effects), Failure>)
        ensures
            agrees(set_result_supreme_rule(old(env)@, now, user, result), r, final(env)@),
    {
        let ghost v = env@;
        if !storage::has_init(env) {
            return Err(Failure::Panic(PanicReason::NotInitialized));
        }
        let supreme = storage::get_supreme(env);
        let admin = storage::get_admin(env);
        let user_honesty = storage::get_supreme_honesty(env);
        let g = result.gameid;
        court_window(env, now, g)?;
        let mut assestment = storage::get_ResultAssessmentSupreme(env, g);
        assestment.id = g;
        assestment.gameid = g;
        let mut countVotes = storage::get_CountVoteSupreme(env, g);
        countVotes.id = g;
        countVotes.gameid = g;
        if user == supreme {
            assestment.ExternalUser = true;
        } else if user == admin {
            assestment.Admin = true;
        } else if lists::contains(&user_honesty, user) {
            lists::push_front(&mut assestment.countHonestyUsers, user);
        } else {
            return Err(Failure::Error(BettingError::UnauthorizedError));
        }
        countVotes.aproved = arith::plus(countVotes.aproved, 1)?;
        let already_set = storage::get_ResultGameSupreme(env, g).id != 0;
        let needed = is_submission_needed(env, g);
        storage::set_ResultAssessmentSupreme(env, g, assestment);
        storage::set_CountVoteSupreme(env, g, countVotes);
        if already_set {
            return Err(Failure::Error(BettingError::GameResultAlreadySet));
        }
        if !needed {
            return Err(Failure::Error(BettingError::NotAllowToSummitResult));
        }
        if result.distribution_executed || result.pause || result.id == 0 || result.gameid == 0 {
            return Err(Failure::Error(BettingError::InvalidInputError));
        }
        storage::set_ResultGameSupreme(env, result);
        Ok((true, Effects::new()))
    }

    /// The court's result `r` applied to room `setting` (see `court_settle`),
    /// appending the events to `events`.
    fn court_settle_exec(env: &mut Ledger, now: u64, setting: i128, r: BetKey, events: &mut Vec<BettingEvent>) -> (res: Result<(), Failure>)
        ensures
            match res {
                Ok(()) => exists|evs: Seq<BettingEvent>|
                    court_settle(old(env)@, now, setting, r) == Ok::<(LedgerView, Seq<BettingEvent>), Failure>((final(env)@, evs))
                    && final(events)@ == old(events)@ + evs,
                Err(f) => court_settle(old(env)@, now, setting, r) == Err::<(LedgerView, Seq<BettingEvent>), Failure>(f),
            },
    {
        let ghost e0 = events@;
        reveal(court_settle);
        let xresult = storage::get_ResultGame(env, setting);
        let privateBet = storage::get_PrivateBet(env, setting);
        let pending = !xresult.distribution_executed && (xresult.pause || xresult.id == 0);
        if pending && privateBet.active {
            if r == BetKey::Cancel {
                storage::active_private_setting(env, setting, false);
                assert(events@ =~= e0 + Seq::<BettingEvent>::empty());
            } else {
                let complain: i128 = if xresult.result != r { 0 } else { 1 };
                Self::make_distribution(env, now, privateBet.gameid, setting, r, complain, events)?;
            }
        } else {
            assert(events@ =~= e0 + Seq::<BettingEvent>::empty());
        }
        Ok(())
    }

    /// The court's result `r` applied to every room in `rooms` (see
    /// `court_distribute`), appending the events to `events`.
    fn court_distribute_exec(env: &mut Ledger, now: u64, rooms: &Vec<i128>, r: BetKey, events: &mut Vec<BettingEvent>) -> (res: Result<(), Failure>)
        ensures
            match res {
                Ok(()) => exists|evs: Seq<BettingEvent>|
                    court_distribute(old(env)@, now, rooms@, 0, r) == Ok::<(LedgerView, Seq<BettingEvent>), Failure>((final(env)@, evs))
                    && final(events)@ == old(events)@ + evs,
                Err(f) => court_distribute(old(env)@, now, rooms@, 0, r) == Err::<(LedgerView, Seq<BettingEvent>), Failure>(f),
            },
    {
        let ghost v0 = env@;
        let ghost e0 = events@;
        let ghost mut acc: Seq<BettingEvent> = Seq::empty();
        assert(after_events(court_distribute(v0, now, rooms@, 0, r), acc) == court_distribute(v0, now, rooms@, 0, r)) by {
            match court_distribute(v0, now, rooms@, 0, r) {
                Ok((w, e)) => assert(acc + e =~= e),
                Err(_) => {},
            }
        }
        let mut i: usize = 0;
        while i < rooms.len()
            invariant
                v0 == old(env)@,
                e0 == old(events)@,
                i <= rooms@.len(),
                events@ == e0 + acc,
                court_distribute(v0, now, rooms@, 0, r) == after_events(court_distribute(env@, now, rooms@, i as int, r), acc),
            decreases rooms.len() - i,
        {
            let ghost cur = env@;
            let ghost before = events@;
            let setting = rooms[i];
            let settled = Self::court_settle_exec(env, now, setting, r, events);
            if let Err(f) = settled {
                assert(court_distribute(cur, now, rooms@, i as int, r) == Err::<(LedgerView, Seq<BettingEvent>), Failure>(f));
                return Err(f);
            }
            proof {
                let e1 = choose|evs: Seq<BettingEvent>|
                    court_settle(cur, now, setting, r) == Ok::<(LedgerView, Seq<BettingEvent>), Failure>((env@, evs))
                    && events@ == before + evs;
                lemma_after_events(court_distribute(env@, now, rooms@, i + 1, r), e1, acc);
                acc = acc + e1;
                assert(events@ =~= e0 + acc);
            }
            i = i + 1;
        }
        proof {
            assert(acc + Seq::<BettingEvent>::empty() =~= acc);
        }
        Ok(())
    }

    /// A court member votes on the court's result for a game (see
    /// `assess_supreme_rule`).
    pub fn AssestResult_supremCourt(env: &mut Ledger, now: u64, user: AccountId, gameid: i128, desition: AssessmentKey) -> (r: Result<(bool, Effects), Failure>)
        ensures
            commits(assess_supreme_rule(old(env)@, now, user, gameid, desition), r, old(env)@, final(env)@),
    {
        let mut work = env.duplicate();
        let r = Self::assess_supreme_on(&mut work, now, user, gameid, desition);
        if r.is_ok() {
            *env = work;
        }
        r
    }

    fn assess_supreme_on(env: &mut Ledger, now: u64, user: AccountId, gameid: i128, desition: AssessmentKey) -> (r: Result<(bool, Effects), Failure>)
        ensures
            agrees(assess_supreme_rule(old(env)@, now, user, gameid, desition), r, final(env)@),
    {
        let ghost v = env@;
        court_window(env, now, gameid)?;
        if !is_submission_needed(env, gameid) {
            return Err(Failure::Error(BettingError::GameResultAlreadyExecuted));
        }
        let result = storage::get_ResultGameSupreme(env, gameid);
        if result.id == 0 {
            return Err(Failure::Error(BettingError::GameResultNotFound));
        }
        if !storage::has_init(env) {
            return Err(Failure::Panic(PanicReason::NotInitialized));
        }
        let overall = storage::overall_result(env, gameid);
        let community: i128 = if overall == 0 {
            0
        } else if overall == 1 {
            if result.result == BetKey::Team_local { 1 } else { 2 }
        } else if overall == 2 {
            if result.result == BetKey::Team_away { 1 } else { 2 }
        } else if overall == 3 {
            if result.result == BetKey::Cancel { 1 } else { 2 }
        } else {
            if result.result == BetKey::Tie { 1 } else { 2 }
        };
        assert(community == community_of(v, gameid, result.result));
        let supreme = storage::get_supreme(env);
        let admin = storage::get_admin(env);
        let user_honesty = storage::get_supreme_honesty(env);
        let mut assestment = storage::get_ResultAssessmentSupreme(env, gameid);
        let mut countVotes = storage::get_CountVoteSupreme(env, gameid);
        if user == supreme {
            if assestment.ExternalUser {
                return Err(Failure::Error(BettingError::UserhasAlreadyVoted));
            }
            assestment.ExternalUser = true;
        } else if user == admin {
            if assestment.Admin {
                return Err(Failure::Error(BettingError::UserhasAlreadyVoted));
            }
            assestment.Admin = true;
        } else if lists::contains(&user_honesty, user) {
            if lists::contains(&assestment.countHonestyUsers, user) || assestment.countHonestyUsers.len() >= 2 {
                return Err(Failure::Error(BettingError::UserhasAlreadyVoted));
            }
            lists::push_front(&mut assestment.countHonestyUsers, user);
        } else {
            return Err(Failure::Error(BettingError::UnauthorizedError));
        }
        storage::set_ResultAssessmentSupreme(env, gameid, assestment);
        match desition {
            AssessmentKey::approve => {
                countVotes.aproved = arith::plus(countVotes.aproved, 1)?;
            },
            AssessmentKey::reject => {
                countVotes.rejected = arith::plus(countVotes.rejected, 1)?;
            },
        }
        storage::set_CountVoteSupreme(env, gameid, countVotes);
        let mut fx = Effects::new();
        if countVotes.aproved > 2 || (countVotes.aproved == 2 && community == 1) {
            let rooms = storage::get_privateSettingList(env, result.gameid);
            Self::court_distribute_exec(env, now, &rooms, result.result, &mut fx.events)?;
            fx.events.push(BettingEvent::GameResultSupreme { game_id: result.gameid, result: result.result });
            Ok((true, fx))
        } else if countVotes.rejected > 2 || (countVotes.rejected == 2 && community == 2) {
            let result_empty = ResultGame {
                id: 0,
                gameid,
                setting: 0,
                description: String::new(),
                result: BetKey::Cancel,
                pause: false,
                distribution_executed: false,
            };
            storage::set_ResultGameSupreme(env, result_empty);
            let assessment_empty = crate::types::ResultAssessmentSupreme {
                id: 0,
                gameid: 0,
                Admin: false,
                ExternalUser: false,
                countHonestyUsers: Vec::new(),
            };
            storage::set_ResultAssessmentSupreme(env, gameid, assessment_empty);
            storage::set_CountVoteSupreme(env, gameid, CountVotesResult { id: 0, gameid: 0, aproved: 0, rejected: 0 });
            fx.events.push(BettingEvent::GameResultBySupremeRemoved { game_id: result.gameid, result: result.result });
            assert(fx.events@ =~= seq![BettingEvent::GameResultBySupremeRemoved { game_id: result.gameid, result: result.result }]);
            Ok((true, fx))
        } else {
            Ok((false, fx))
        }
    }
}

} // verus!
