use betting_contract::contract::BettingContract;
use betting_contract::ledger::Ledger;
use betting_contract::outcome::{BettingError, BettingEvent, Failure, PanicReason, Transfer};
use betting_contract::storage;
use betting_contract::types::{AssessmentKey, Bet, BetKey, ClaimType, Game, PrivateBet, ResultGame};
use ed25519_dalek::{Signer, SigningKey};

const ADMIN: u64 = 1;
const USD: u64 = 2;
const TRUST: u64 = 3;
const SUPREME: u64 = 4;
const CONTRACT: u64 = 5;
const USER: u64 = 10;
const USER2: u64 = 11;
const USER3: u64 = 12;

fn game(id: i128, start: u32, end: u32) -> Game {
    Game {
        id,
        active: false,
        league: 1,
        description: "Team A vs Team B".to_string(),
        team_local: 33,
        team_away: 44,
        startTime: start,
        endTime: end,
    }
}

fn room(id: i128, gameid: i128, admin: u64, users: Vec<u64>, amount: i128) -> PrivateBet {
    PrivateBet {
        id,
        gameid,
        active: false,
        settingAdmin: admin,
        description: "Private Bet 1".to_string(),
        amount_bet_min: amount,
        users_invated: users,
    }
}

fn bet(id: i128, setting: i128, gameid: i128, key: BetKey, amount: i128, usd: bool) -> Bet {
    Bet { id, gameid, Setting: setting, bet: key, amount_bet: amount, collateralUsd: usd }
}

fn result(id: i128, gameid: i128, setting: i128, key: BetKey) -> ResultGame {
    ResultGame {
        id,
        gameid,
        setting,
        description: "Final Score 2-1".to_string(),
        result: key,
        pause: false,
        distribution_executed: false,
    }
}

fn err<T>(r: Result<T, Failure>) -> Option<Failure> {
    r.err()
}

fn e(x: BettingError) -> Option<Failure> {
    Some(Failure::Error(x))
}

fn p(x: PanicReason) -> Option<Failure> {
    Some(Failure::Panic(x))
}

fn setup() -> Ledger {
    let mut env = Ledger::new();
    BettingContract::__constructor(&mut env, ADMIN, [9u8; 32], USD, TRUST, SUPREME).unwrap();
    BettingContract::set_game_checked(&mut env, game(1, 1000, 2000), true).unwrap();
    BettingContract::set_private_bet(&mut env, USER2, room(11, 1, USER2, vec![USER, USER2], 500), 1).unwrap();
    env
}

fn active_room() -> Ledger {
    let mut env = setup();
    BettingContract::bet(&mut env, 500, CONTRACT, USER, bet(1, 11, 1, BetKey::Team_away, 500, false)).unwrap();
    BettingContract::bet(&mut env, 500, CONTRACT, USER2, bet(2, 11, 1, BetKey::Team_local, 500, false)).unwrap();
    env
}

fn voted_room() -> Ledger {
    let mut env = active_room();
    BettingContract::summitResult(&mut env, 2500, USER2, 11, result(1, 1, 11, BetKey::Team_local)).unwrap();
    BettingContract::assessResult(&mut env, 2500, USER, 11, AssessmentKey::approve).unwrap();
    env
}

fn disputed_room() -> Ledger {
    let mut env = active_room();
    BettingContract::summitResult(&mut env, 2500, USER2, 11, result(1, 1, 11, BetKey::Team_local)).unwrap();
    BettingContract::assessResult(&mut env, 2500, USER, 11, AssessmentKey::reject).unwrap();
    env
}

// ---- the admin's signature over a game ----

#[test]
fn set_game_accepts_the_admins_signature() {
    let key = SigningKey::from_bytes(&[7u8; 32]);
    let mut env = Ledger::new();
    BettingContract::__constructor(&mut env, ADMIN, key.verifying_key().to_bytes(), USD, TRUST, SUPREME).unwrap();
    let message = b"game 1: Team A vs Team B";
    let signature = key.sign(message).to_bytes();
    let (ok, fx) = BettingContract::set_game(&mut env, game(1, 1000, 2000), message, &signature).unwrap();
    assert!(ok);
    assert_eq!(fx.events, vec![BettingEvent::GameSet { game_id: 1 }]);
    assert_eq!(storage::existBet(&env, 1), (true, 1000, 2000, false));
}

#[test]
fn set_game_rejects_a_bad_signature() {
    let key = SigningKey::from_bytes(&[7u8; 32]);
    let other = SigningKey::from_bytes(&[8u8; 32]);
    let mut env = Ledger::new();
    BettingContract::__constructor(&mut env, ADMIN, key.verifying_key().to_bytes(), USD, TRUST, SUPREME).unwrap();
    let message = b"game 1: Team A vs Team B";
    let forged = other.sign(message).to_bytes();
    assert_eq!(err(BettingContract::set_game(&mut env, game(1, 1000, 2000), message, &forged)), p(PanicReason::InvalidSignature));
    let signature = key.sign(message).to_bytes();
    assert_eq!(
        err(BettingContract::set_game(&mut env, game(1, 1000, 2000), b"another message", &signature)),
        p(PanicReason::InvalidSignature)
    );
    assert_eq!(storage::existBet(&env, 1).0, false);
}

#[test]
fn set_game_rejects_invalid_games_before_the_signature() {
    let mut env = setup();
    assert_eq!(err(BettingContract::set_game_checked(&mut env, game(1, 1000, 2000), true)), e(BettingError::GameHasAlreadySet));
    assert_eq!(err(BettingContract::set_game_checked(&mut env, game(2, 2000, 2000), true)), e(BettingError::InvalidInputError));
    assert_eq!(err(BettingContract::set_game_checked(&mut env, game(0, 1000, 2000), true)), e(BettingError::InvalidInputError));
    let mut g = game(2, 1000, 2000);
    g.active = true;
    assert_eq!(err(BettingContract::set_game_checked(&mut env, g, true)), e(BettingError::InvalidInputError));
    assert_eq!(err(BettingContract::set_game_checked(&mut env, game(2, 1000, 2000), false)), p(PanicReason::InvalidSignature));
    let mut fresh = Ledger::new();
    assert_eq!(err(BettingContract::set_game_checked(&mut fresh, game(2, 1000, 2000), true)), p(PanicReason::NotInitialized));
}

// ---- errors of each call ----

#[test]
fn constructor_runs_once() {
    let mut env = setup();
    assert_eq!(err(BettingContract::__constructor(&mut env, 77, [0u8; 32], 78, 79, 80)), e(BettingError::AlreadyInitializedError));
    assert_eq!(storage::get_admin(&env), ADMIN);
    assert_eq!(storage::get_supreme(&env), SUPREME);
}

#[test]
fn bet_errors() {
    let mut fresh = Ledger::new();
    assert_eq!(
        err(BettingContract::bet(&mut fresh, 500, CONTRACT, USER, bet(1, 11, 1, BetKey::Tie, 500, false))),
        p(PanicReason::NotInitialized)
    );
    let mut env = setup();
    assert_eq!(err(BettingContract::bet(&mut env, 500, CONTRACT, USER, bet(1, 11, 1, BetKey::Tie, 0, false))), e(BettingError::InvalidInputError));
    assert_eq!(err(BettingContract::bet(&mut env, 500, CONTRACT, USER, bet(0, 11, 1, BetKey::Tie, 500, false))), e(BettingError::InvalidInputError));
    assert_eq!(err(BettingContract::bet(&mut env, 500, CONTRACT, USER, bet(1, 11, 9, BetKey::Tie, 500, false))), e(BettingError::GameDoesNotExist));
    assert_eq!(err(BettingContract::bet(&mut env, 500, CONTRACT, USER, bet(1, 12, 1, BetKey::Tie, 500, false))), e(BettingError::SettingBetDoesNotExist));
    assert_eq!(err(BettingContract::bet(&mut env, 500, CONTRACT, USER3, bet(1, 11, 1, BetKey::Tie, 500, false))), e(BettingError::PrivateBet_NotAllowToBet));
    assert_eq!(err(BettingContract::bet(&mut env, 500, CONTRACT, USER, bet(1, 11, 1, BetKey::Tie, 400, false))), e(BettingError::PrivateBet_NotEnoughToBet));
    BettingContract::bet(&mut env, 500, CONTRACT, USER, bet(1, 11, 1, BetKey::Tie, 500, false)).unwrap();
    assert_eq!(err(BettingContract::bet(&mut env, 500, CONTRACT, USER, bet(3, 11, 1, BetKey::Team_local, 500, false))), e(BettingError::BetAlready));
}

#[test]
fn bets_that_agree_leave_the_room_inactive() {
    let mut env = setup();
    BettingContract::bet(&mut env, 500, CONTRACT, USER, bet(1, 11, 1, BetKey::Tie, 500, false)).unwrap();
    let (_, fx) = BettingContract::bet(&mut env, 500, CONTRACT, USER2, bet(2, 11, 1, BetKey::Tie, 500, false)).unwrap();
    assert!(!storage::get_PrivateBet(&env, 11).active);
    assert_eq!(fx.events.len(), 1);
}

#[test]
fn room_errors() {
    let mut env = setup();
    assert_eq!(
        err(BettingContract::set_private_bet(&mut env, USER, room(12, 9, USER, vec![USER, USER2], 500), 9)),
        e(BettingError::GameDoesNotExist)
    );
    assert_eq!(
        err(BettingContract::set_private_bet(&mut env, USER, room(12, 1, USER, vec![USER], 500), 1)),
        e(BettingError::InvalidInputError)
    );
    assert_eq!(
        err(BettingContract::set_private_bet(&mut env, USER, room(12, 1, USER2, vec![USER, USER2], 500), 1)),
        e(BettingError::InvalidInputError)
    );
    assert_eq!(
        err(BettingContract::set_private_bet(&mut env, USER, room(12, 1, USER, vec![USER, USER2], 0), 1)),
        e(BettingError::InvalidInputError)
    );
    assert_eq!(
        err(BettingContract::set_private_bet(&mut env, USER, room(11, 1, USER, vec![USER, USER2], 500), 1)),
        p(PanicReason::PrivateSettingAlreadyExists)
    );
    let (ok, fx) = BettingContract::set_private_bet(&mut env, USER, room(12, 1, USER, vec![USER, USER3], 300), 1).unwrap();
    assert!(ok);
    assert_eq!(fx.events, vec![BettingEvent::PrivateSetting { game_id: 1, setting: 12, admin: USER, amount_bet_min: 300 }]);
    assert_eq!(storage::get_privateSettingList(&env, 1), vec![11, 12]);
}

#[test]
fn the_room_admin_invites_a_user() {
    let mut env = setup();
    assert_eq!(err(BettingContract::add_user_privateBet(&mut env, 500, 11, 9, USER3)), e(BettingError::GameDoesNotExist));
    assert_eq!(err(BettingContract::add_user_privateBet(&mut env, 1500, 11, 1, USER3)), e(BettingError::GameHasAlreadyStarted));
    assert_eq!(err(BettingContract::add_user_privateBet(&mut env, 500, 12, 1, USER3)), e(BettingError::SettingBetDoesNotExist));
    assert_eq!(err(BettingContract::add_user_privateBet(&mut env, 500, 11, 1, USER)), e(BettingError::InvalidInputError));
    let (ok, fx) = BettingContract::add_user_privateBet(&mut env, 500, 11, 1, USER3).unwrap();
    assert!(ok);
    assert_eq!(fx.events, vec![BettingEvent::NewUserAddedPrivate { game_id: 1, setting: 11, user: USER3 }]);
    let room = storage::get_PrivateBet(&env, 11);
    assert_eq!(room.users_invated, vec![USER3, USER, USER2]);
    assert_eq!((room.id, room.gameid, room.amount_bet_min, room.settingAdmin), (11, 1, 500, USER2));
    // The invited user can now bet in the room.
    BettingContract::bet(&mut env, 500, CONTRACT, USER3, bet(3, 11, 1, BetKey::Tie, 500, false)).unwrap();
    assert_eq!(err(BettingContract::add_user_privateBet(&mut env, 500, 11, 1, USER3)), e(BettingError::InvalidInputError));
}

#[test]
fn refund_errors() {
    let mut env = active_room();
    assert_eq!(err(BettingContract::claim_refund(&mut env, 5000, CONTRACT, USER3, 11)), p(PanicReason::NoBetForUser));
    assert_eq!(err(BettingContract::claim_refund(&mut env, 900, CONTRACT, USER, 11)), e(BettingError::NothingToClaim));
    assert_eq!(err(BettingContract::claim_refund(&mut env, 5000, CONTRACT, USER, 11)), e(BettingError::GameIsActive));
    BettingContract::claim_refund(&mut env, 200000, CONTRACT, USER, 11).unwrap();
    assert_eq!(err(BettingContract::claim_refund(&mut env, 200000, CONTRACT, USER, 11)), e(BettingError::UserAlreadyClaimed));
}

#[test]
fn submission_errors() {
    let mut env = setup();
    BettingContract::bet(&mut env, 500, CONTRACT, USER, bet(1, 11, 1, BetKey::Team_away, 500, false)).unwrap();
    assert_eq!(
        err(BettingContract::summitResult(&mut env, 2500, USER, 11, result(1, 1, 11, BetKey::Team_local))),
        e(BettingError::SettingBetDoesNotExist)
    );
    BettingContract::bet(&mut env, 500, CONTRACT, USER2, bet(2, 11, 1, BetKey::Team_local, 500, false)).unwrap();
    assert_eq!(
        err(BettingContract::summitResult(&mut env, 2500, USER, 11, result(1, 1, 12, BetKey::Team_local))),
        e(BettingError::InvalidInputError)
    );
    assert_eq!(
        err(BettingContract::summitResult(&mut env, 1500, USER, 11, result(1, 1, 11, BetKey::Team_local))),
        e(BettingError::GameHasNotFinished)
    );
    assert_eq!(
        err(BettingContract::summitResult(&mut env, 20001, USER, 11, result(1, 1, 11, BetKey::Team_local))),
        e(BettingError::GameSumitionHasFinished)
    );
    let mut paused = result(1, 1, 11, BetKey::Team_local);
    paused.pause = true;
    assert_eq!(err(BettingContract::summitResult(&mut env, 2500, USER, 11, paused)), e(BettingError::InvalidInputError));
    BettingContract::summitResult(&mut env, 20000, USER, 11, result(1, 1, 11, BetKey::Team_local)).unwrap();
    assert_eq!(
        err(BettingContract::summitResult(&mut env, 2500, USER2, 11, result(2, 1, 11, BetKey::Team_away))),
        e(BettingError::GameResultAlreadySet)
    );
}

#[test]
fn assessment_errors() {
    let mut env = active_room();
    assert_eq!(err(BettingContract::assessResult(&mut env, 2500, USER3, 11, AssessmentKey::approve)), e(BettingError::BetNotFound));
    assert_eq!(err(BettingContract::assessResult(&mut env, 1500, USER, 11, AssessmentKey::approve)), e(BettingError::GameHasNotFinished));
    assert_eq!(err(BettingContract::assessResult(&mut env, 2500, USER, 11, AssessmentKey::approve)), e(BettingError::GameResultNotFound));
    BettingContract::summitResult(&mut env, 2500, USER2, 11, result(1, 1, 11, BetKey::Team_local)).unwrap();
    assert_eq!(
        err(BettingContract::assessResult(&mut env, 30000, USER, 11, AssessmentKey::approve)),
        e(BettingError::GameAssesmentHasFinished)
    );
    assert_eq!(err(BettingContract::assessResult(&mut env, 2500, USER2, 11, AssessmentKey::reject)), e(BettingError::UserCannotVote));
}

#[test]
fn distribution_errors() {
    let mut idle = setup();
    assert_eq!(err(BettingContract::execute_distribution(&mut idle, 30000, 11)), e(BettingError::SettingNotActive));
    let mut env = voted_room();
    let mut waiting = setup();
    BettingContract::bet(&mut waiting, 500, CONTRACT, USER, bet(1, 11, 1, BetKey::Team_away, 500, false)).unwrap();
    assert_eq!(err(BettingContract::execute_distribution(&mut waiting, 2500, 11)), e(BettingError::GameAssesmentHasFinished));
    BettingContract::execute_distribution(&mut env, 2500, 11).unwrap();
    assert_eq!(err(BettingContract::execute_distribution(&mut env, 2500, 11)), e(BettingError::GameHasAlreadyBeenExecuted));
    let mut disputed = disputed_room();
    assert_eq!(err(BettingContract::execute_distribution(&mut disputed, 2500, 11)), e(BettingError::GameHasBeenPaused));
    let mut unsubmitted = active_room();
    assert_eq!(err(BettingContract::execute_distribution(&mut unsubmitted, 30000, 11)), e(BettingError::GameNoResult));
}

#[test]
fn claim_errors() {
    let mut fresh = Ledger::new();
    assert_eq!(err(BettingContract::claim(&mut fresh, CONTRACT, USER, ClaimType::Protocol, 1)), p(PanicReason::NotInitialized));
    let mut env = active_room();
    assert_eq!(err(BettingContract::claim(&mut env, CONTRACT, USER3, ClaimType::User, 11)), e(BettingError::NoBetHasBeenFound));
    assert_eq!(BettingContract::what_kind_user(&env, USER3, 11).unwrap(), (6, 0, false));
    assert_eq!(err(BettingContract::claim(&mut env, CONTRACT, USER, ClaimType::User, 11)), e(BettingError::GameNoResult));
    assert_eq!(err(BettingContract::claim(&mut env, CONTRACT, USER, ClaimType::Supreme, 1)), e(BettingError::NothingToClaim));
    let mut disputed = disputed_room();
    assert_eq!(err(BettingContract::claim(&mut disputed, CONTRACT, USER, ClaimType::User, 11)), e(BettingError::GameHasBeenPaused));
}

#[test]
fn a_bettor_who_did_not_vote_gets_half_of_a_winning_bet() {
    let mut env = setup();
    BettingContract::set_private_bet(&mut env, USER, room(12, 1, USER, vec![USER, USER2, USER3], 500), 1).unwrap();
    BettingContract::bet(&mut env, 500, CONTRACT, USER, bet(1, 12, 1, BetKey::Team_away, 500, false)).unwrap();
    BettingContract::bet(&mut env, 500, CONTRACT, USER2, bet(2, 12, 1, BetKey::Team_local, 500, false)).unwrap();
    BettingContract::bet(&mut env, 500, CONTRACT, USER3, bet(3, 12, 1, BetKey::Team_local, 500, false)).unwrap();
    BettingContract::summitResult(&mut env, 2500, USER2, 12, result(1, 1, 12, BetKey::Team_local)).unwrap();
    BettingContract::assessResult(&mut env, 2500, USER, 12, AssessmentKey::approve).unwrap();
    BettingContract::execute_distribution(&mut env, 30000, 12).unwrap();
    // USER3 won without voting: half of the stake (250) joins the gain.
    assert_eq!(storage::get_winnerPool(&env, 12), 500);
    assert_eq!(storage::get_ClaimProtocolTrust(&env), 50);
    assert_eq!(BettingContract::what_kind_user(&env, USER3, 12).unwrap(), (4, 500, false));
    let (paid, fx) = BettingContract::claim(&mut env, CONTRACT, USER3, ClaimType::User, 12).unwrap();
    assert_eq!(paid, (250, 0));
    assert_eq!(fx.transfers, vec![Transfer { token: USD, from: CONTRACT, to: USER3, amount: 250 }]);
    assert_eq!(err(BettingContract::claim(&mut env, CONTRACT, USER3, ClaimType::User, 12)), e(BettingError::UserAlreadyClaimed));
}

#[test]
fn court_errors() {
    let mut env = disputed_room();
    assert_eq!(
        err(BettingContract::setResult_supremCourt(&mut env, 2500, USER3, result(1, 1, 0, BetKey::Team_local))),
        e(BettingError::UnauthorizedError)
    );
    assert_eq!(
        err(BettingContract::setResult_supremCourt(&mut env, 2500, SUPREME, result(1, 9, 0, BetKey::Team_local))),
        e(BettingError::GameDoesNotExist)
    );
    assert_eq!(
        err(BettingContract::setResult_supremCourt(&mut env, 200000, SUPREME, result(1, 1, 0, BetKey::Team_local))),
        e(BettingError::GameAssesmentHasFinished)
    );
    assert_eq!(
        err(BettingContract::setResult_supremCourt(&mut env, 2500, SUPREME, result(0, 1, 0, BetKey::Team_local))),
        e(BettingError::InvalidInputError)
    );
    assert_eq!(
        err(BettingContract::AssestResult_supremCourt(&mut env, 2500, ADMIN, 1, AssessmentKey::approve)),
        e(BettingError::GameResultNotFound)
    );
    BettingContract::setResult_supremCourt(&mut env, 2500, SUPREME, result(1, 1, 0, BetKey::Team_local)).unwrap();
    assert_eq!(
        err(BettingContract::setResult_supremCourt(&mut env, 2500, ADMIN, result(1, 1, 0, BetKey::Team_away))),
        e(BettingError::GameResultAlreadySet)
    );
    assert_eq!(
        err(BettingContract::AssestResult_supremCourt(&mut env, 2500, SUPREME, 1, AssessmentKey::approve)),
        e(BettingError::UserhasAlreadyVoted)
    );
    assert_eq!(
        err(BettingContract::AssestResult_supremCourt(&mut env, 2500, USER3, 1, AssessmentKey::approve)),
        e(BettingError::UnauthorizedError)
    );
    // A game whose rooms are all settled needs no court.
    let mut settled = voted_room();
    BettingContract::execute_distribution(&mut settled, 2500, 11).unwrap();
    assert_eq!(
        err(BettingContract::setResult_supremCourt(&mut settled, 2500, SUPREME, result(1, 1, 0, BetKey::Team_local))),
        e(BettingError::NotAllowToSummitResult)
    );
    assert_eq!(
        err(BettingContract::AssestResult_supremCourt(&mut settled, 2500, SUPREME, 1, AssessmentKey::approve)),
        e(BettingError::GameResultAlreadyExecuted)
    );
}

#[test]
fn the_court_window_waits_for_every_vote_or_five_hours() {
    let mut env = active_room();
    assert_eq!(
        err(BettingContract::setResult_supremCourt(&mut env, 2500, SUPREME, result(1, 1, 0, BetKey::Team_local))),
        e(BettingError::GameAssesmentHasFinished)
    );
    let (ok, _) = BettingContract::setResult_supremCourt(&mut env, 20000, SUPREME, result(1, 1, 0, BetKey::Team_local)).unwrap();
    assert!(ok);
}

#[test]
fn a_court_share_with_no_other_approver_divides_by_zero() {
    let mut env = disputed_room();
    BettingContract::setResult_supremCourt(&mut env, 2500, ADMIN, result(1, 1, 0, BetKey::Team_local)).unwrap();
    BettingContract::AssestResult_supremCourt(&mut env, 2500, SUPREME, 1, AssessmentKey::reject).unwrap();
    assert_eq!(err(BettingContract::claim(&mut env, CONTRACT, SUPREME, ClaimType::Supreme, 1)), p(PanicReason::DivisionByZero));
}

#[test]
fn a_failed_call_leaves_storage_unchanged() {
    let mut env = active_room();
    // The bet is recorded before the game's total overflows; none of it
    // stays.
    BettingContract::set_private_bet(&mut env, USER, room(13, 1, USER, vec![USER, USER3], i128::MAX), 1).unwrap();
    let r = BettingContract::bet(&mut env, 500, CONTRACT, USER3, bet(5, 13, 1, BetKey::Tie, i128::MAX, false));
    assert_eq!(err(r), p(PanicReason::ArithmeticOverflow));
    assert_eq!(storage::get_Bet(&env, USER3, 13).id, 0);
    assert_eq!(storage::get_HonestyPoints(&env, USER3), 0);
    assert_eq!(storage::get_leaderboard(&env), vec![(USER2, -20), (USER, -20)]);
}

// ---- laws on concrete values ----

#[test]
fn law_paid_once_by_claim_or_refund() {
    let mut env = voted_room();
    BettingContract::execute_distribution(&mut env, 2500, 11).unwrap();
    BettingContract::claim(&mut env, CONTRACT, USER2, ClaimType::User, 11).unwrap();
    assert_eq!(err(BettingContract::claim(&mut env, CONTRACT, USER2, ClaimType::User, 11)), e(BettingError::UserAlreadyClaimed));
    assert_eq!(err(BettingContract::claim_refund(&mut env, 200000, CONTRACT, USER2, 11)), e(BettingError::UserAlreadyClaimed));

    let mut refunded = active_room();
    BettingContract::claim_refund(&mut refunded, 200000, CONTRACT, USER, 11).unwrap();
    assert_eq!(err(BettingContract::claim(&mut refunded, CONTRACT, USER, ClaimType::User, 11)), e(BettingError::UserAlreadyClaimed));
}

#[test]
fn law_court_share_paid_once() {
    let mut env = disputed_room();
    BettingContract::setResult_supremCourt(&mut env, 2500, SUPREME, result(1, 1, 0, BetKey::Team_local)).unwrap();
    BettingContract::AssestResult_supremCourt(&mut env, 2500, ADMIN, 1, AssessmentKey::approve).unwrap();
    BettingContract::AssestResult_supremCourt(&mut env, 2500, USER2, 1, AssessmentKey::approve).unwrap();
    BettingContract::claim(&mut env, CONTRACT, SUPREME, ClaimType::Supreme, 1).unwrap();
    assert_eq!(err(BettingContract::claim(&mut env, CONTRACT, SUPREME, ClaimType::Supreme, 1)), e(BettingError::UserAlreadyClaimed));
}

#[test]
fn law_protocol_claim_empties() {
    let mut env = voted_room();
    BettingContract::execute_distribution(&mut env, 2500, 11).unwrap();
    let (first, _) = BettingContract::claim(&mut env, CONTRACT, ADMIN, ClaimType::Protocol, 1).unwrap();
    assert_eq!(first, (25, 0));
    let (second, _) = BettingContract::claim(&mut env, CONTRACT, ADMIN, ClaimType::Protocol, 1).unwrap();
    assert_eq!(second, (0, 0));
}

#[test]
fn law_game_set_once_and_room_opened_once() {
    let mut env = setup();
    assert_eq!(err(BettingContract::set_game_checked(&mut env, game(1, 5000, 6000), true)), e(BettingError::GameHasAlreadySet));
    assert_eq!(
        err(BettingContract::set_private_bet(&mut env, USER3, room(11, 1, USER3, vec![USER3, USER], 10), 1)),
        p(PanicReason::PrivateSettingAlreadyExists)
    );
}

#[test]
fn law_one_vote_per_bettor() {
    let mut env = active_room();
    BettingContract::summitResult(&mut env, 2500, USER2, 11, result(1, 1, 11, BetKey::Team_local)).unwrap();
    // The submitter's approval was counted with the submission; they confirm
    // it once.
    let (ok, fx) = BettingContract::assessResult(&mut env, 2500, USER2, 11, AssessmentKey::approve).unwrap();
    assert!(ok);
    assert!(fx.events.is_empty() && fx.transfers.is_empty());
    assert!(!storage::UsersAmount(&env, 11));
    assert_eq!(err(BettingContract::assessResult(&mut env, 2500, USER2, 11, AssessmentKey::approve)), e(BettingError::UserCannotVote));
    assert_eq!(err(BettingContract::assessResult(&mut env, 2500, USER2, 11, AssessmentKey::reject)), e(BettingError::UserCannotVote));
    BettingContract::assessResult(&mut env, 2500, USER, 11, AssessmentKey::reject).unwrap();
    assert_eq!(err(BettingContract::assessResult(&mut env, 2500, USER, 11, AssessmentKey::approve)), e(BettingError::UserCannotVote));
}

#[test]
fn law_refund_returns_stake_and_points() {
    let mut env = setup();
    let (_, taken) = BettingContract::bet(&mut env, 500, CONTRACT, USER, bet(1, 11, 1, BetKey::Team_away, 500, true)).unwrap();
    let (_, given) = BettingContract::claim_refund(&mut env, 1500, CONTRACT, USER, 11).unwrap();
    let sent_back: Vec<Transfer> =
        taken.transfers.iter().map(|x| Transfer { token: x.token, from: x.to, to: x.from, amount: x.amount }).collect();
    assert_eq!(given.transfers, sent_back);
    assert_eq!(storage::get_HonestyPoints(&env, USER), 0);
}

#[test]
fn law_distributed_once() {
    let mut env = voted_room();
    BettingContract::execute_distribution(&mut env, 2500, 11).unwrap();
    assert!(BettingContract::execute_distribution(&mut env, 2500, 11).is_err());
}

#[test]
fn law_distribution_splits_gain() {
    let mut env = disputed_room();
    BettingContract::setResult_supremCourt(&mut env, 2500, SUPREME, result(1, 1, 0, BetKey::Team_local)).unwrap();
    BettingContract::AssestResult_supremCourt(&mut env, 2500, ADMIN, 1, AssessmentKey::approve).unwrap();
    BettingContract::AssestResult_supremCourt(&mut env, 2500, USER2, 1, AssessmentKey::approve).unwrap();
    // gain 500 = 460 left + 25 for the protocol + 15 for the court
    assert_eq!(storage::get_pool_total(&env, 11) + storage::get_ClaimProtocol(&env) + storage::get_ClaimSupreme(&env, 1), 500);
}

#[test]
fn make_distribution_records_the_pools() {
    let mut env = voted_room();
    let mut events = vec![BettingEvent::GameSet { game_id: 7 }];
    BettingContract::make_distribution(&mut env, 2500, 1, 11, BetKey::Team_local, 2, &mut events).unwrap();
    assert_eq!(
        events,
        vec![
            BettingEvent::GameSet { game_id: 7 },
            BettingEvent::SupremeReward { game_id: 1, amount: 0 },
            BettingEvent::GameSettingDistributed { setting: 11 },
        ]
    );
    assert_eq!(storage::get_pool_total(&env, 11), 475);
    let mut early = voted_room();
    let mut none = Vec::new();
    assert_eq!(
        err(BettingContract::make_distribution(&mut early, 1500, 1, 11, BetKey::Team_local, 2, &mut none)),
        e(BettingError::GameHasNotFinished)
    );
    assert_eq!(
        err(BettingContract::make_distribution(&mut early, 2500, 1, 11, BetKey::Team_local, 7, &mut none)),
        e(BettingError::InvalidInputError)
    );
}

// ---- the leaderboard ----

#[test]
fn law_board_stays_ranked() {
    let mut env = setup();
    assert_eq!(BettingContract::adduser_board(&mut env, 20, 5), 0);
    assert_eq!(BettingContract::adduser_board(&mut env, 21, 9), 0);
    assert_eq!(BettingContract::adduser_board(&mut env, 22, 1), 2);
    assert_eq!(BettingContract::adduser_board(&mut env, 23, 5), 1);
    assert_eq!(storage::get_leaderboard(&env), vec![(21, 9), (23, 5), (20, 5), (22, 1)]);
    assert_eq!(BettingContract::adduser_board(&mut env, 21, 0), 3);
    assert_eq!(storage::get_leaderboard(&env), vec![(23, 5), (20, 5), (22, 1), (21, 0)]);
    assert_eq!(storage::get_supreme_honesty(&env), vec![23, 20]);
}

#[test]
fn overall_result_needs_a_strict_leader() {
    let mut env = setup();
    assert_eq!(storage::overall_result(&env, 1), 0);
    storage::set_result_team_count(&mut env, 1, BetKey::Team_away);
    assert_eq!(storage::overall_result(&env, 1), 2);
    storage::set_result_team_count(&mut env, 1, BetKey::Tie);
    assert_eq!(storage::overall_result(&env, 1), 4);
    storage::set_result_team_count(&mut env, 1, BetKey::Tie);
    assert_eq!(storage::overall_result(&env, 1), 4);
}

fn room_stake(env: &Ledger, setting: i128, k: BetKey) -> i128 {
    storage::get_not_assesed_yet(env, setting, k) + storage::get_approve_total(env, setting, k) + storage::get_reject_total(env, setting, k)
}

#[test]
fn law_votes_keep_room_totals() {
    let mut env = active_room();
    let keys = [BetKey::Team_local, BetKey::Team_away, BetKey::Tie, BetKey::Cancel];
    let before: Vec<i128> = keys.iter().map(|k| room_stake(&env, 11, *k)).collect();
    assert_eq!(before, vec![500, 500, 0, 0]);
    BettingContract::summitResult(&mut env, 2500, USER2, 11, result(1, 1, 11, BetKey::Team_local)).unwrap();
    BettingContract::assessResult(&mut env, 2500, USER, 11, AssessmentKey::reject).unwrap();
    let after: Vec<i128> = keys.iter().map(|k| room_stake(&env, 11, *k)).collect();
    assert_eq!(after, before);
    assert_eq!(storage::get_reject_total(&env, 11, BetKey::Team_away), 500);
    assert_eq!(storage::get_CollateralTrust_reject_total(&env, 11, BetKey::Team_away), 50);
    assert_eq!(storage::get_not_assesed_yet(&env, 11, BetKey::Team_away), 0);
}

#[test]
fn law_dishonest_voter_paid_nothing() {
    let mut env = disputed_room();
    BettingContract::setResult_supremCourt(&mut env, 2500, SUPREME, result(1, 1, 0, BetKey::Team_local)).unwrap();
    BettingContract::AssestResult_supremCourt(&mut env, 2500, ADMIN, 1, AssessmentKey::approve).unwrap();
    BettingContract::AssestResult_supremCourt(&mut env, 2500, USER2, 1, AssessmentKey::approve).unwrap();
    assert_eq!(err(BettingContract::claim(&mut env, CONTRACT, USER, ClaimType::User, 11)), e(BettingError::NothingToClaim));
    assert!(!storage::get_didUserWithdraw(&env, USER, 11));
}

#[test]
fn refund_window_of_an_active_room() {
    // No result: refunded once the 5-hour submission window has closed.
    let mut env = active_room();
    assert_eq!(err(BettingContract::claim_refund(&mut env, 20000, CONTRACT, USER, 11)), e(BettingError::GameIsActive));
    let (paid, _) = BettingContract::claim_refund(&mut env, 20001, CONTRACT, USER, 11).unwrap();
    assert_eq!(paid, (500, 50));
    // A submitted result not yet distributed: refunded only after 29 hours.
    let mut env = active_room();
    BettingContract::summitResult(&mut env, 2500, USER2, 11, result(1, 1, 11, BetKey::Team_local)).unwrap();
    assert_eq!(err(BettingContract::claim_refund(&mut env, 30000, CONTRACT, USER, 11)), e(BettingError::GameIsActive));
    assert_eq!(err(BettingContract::claim_refund(&mut env, 106400, CONTRACT, USER, 11)), e(BettingError::GameIsActive));
    BettingContract::claim_refund(&mut env, 106401, CONTRACT, USER, 11).unwrap();
}

#[test]
fn a_distributed_room_is_never_refunded() {
    let mut env = voted_room();
    BettingContract::execute_distribution(&mut env, 2500, 11).unwrap();
    assert_eq!(err(BettingContract::claim_refund(&mut env, 1280010, CONTRACT, USER, 11)), e(BettingError::GameIsActive));
    assert_eq!(err(BettingContract::claim_refund(&mut env, 1280010, CONTRACT, USER2, 11)), e(BettingError::GameIsActive));
}

#[test]
fn law_delete_undoes_add() {
    let mut env = setup();
    storage::add_not_assesed_yet(&mut env, 11, 300, BetKey::Tie, true, 60);
    storage::add_not_assesed_yet(&mut env, 12, 700, BetKey::Tie, false, 70);
    storage::delete_not_assesed_yet(&mut env, 11, 300, BetKey::Tie, true, 60);
    assert_eq!(storage::get_not_assesed_yet(&env, 11, BetKey::Tie), 0);
    assert_eq!(storage::get_not_usdCollateral_assesed_yet(&env, 11, BetKey::Tie), 0);
    assert_eq!(storage::get_not_TrustCollateral_assesed_yet(&env, 11, BetKey::Tie), 0);
    assert_eq!(storage::get_not_assesed_yet(&env, 12, BetKey::Tie), 700);
    assert_eq!(storage::get_not_TrustCollateral_assesed_yet(&env, 12, BetKey::Tie), 70);
}

#[test]
fn law_count_grows_one_counter() {
    for (key, verdict) in [(BetKey::Team_local, 1), (BetKey::Team_away, 2), (BetKey::Cancel, 3), (BetKey::Tie, 4)] {
        let mut env = setup();
        storage::set_result_team_count(&mut env, 1, key);
        assert_eq!(storage::overall_result(&env, 1), verdict);
    }
}

#[test]
fn law_honest_claims_within_pool() {
    let mut env = voted_room();
    BettingContract::execute_distribution(&mut env, 2500, 11).unwrap();
    let pool = storage::get_pool_total(&env, 11);
    let (paid, _) = BettingContract::claim(&mut env, CONTRACT, USER2, ClaimType::User, 11).unwrap();
    // USER2 is the only honest winner: the stake comes back with the whole pool.
    assert_eq!(paid.0 - 500, pool);
}
