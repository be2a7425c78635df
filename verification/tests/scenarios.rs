use betting_contract::contract::BettingContract;
use betting_contract::ledger::Ledger;
use betting_contract::outcome::{BettingError, BettingEvent, Failure, PanicReason, Transfer};
use betting_contract::storage;
use betting_contract::types::{AssessmentKey, Bet, BetKey, ClaimType, Game, PrivateBet, ResultGame};

const ADMIN: u64 = 1;
const USD: u64 = 2;
const TRUST: u64 = 3;
const SUPREME: u64 = 4;
const CONTRACT: u64 = 5;
const USER: u64 = 10;
const USER2: u64 = 11;
const USER3: u64 = 12;

fn game(id: i128, start: u32, end: u32) -> Game {
    Game {
        id,
        active: false,
        league: 1,
        description: "Team A vs Team B".to_string(),
        team_local: 33,
        team_away: 44,
        startTime: start,
        endTime: end,
    }
}

fn room(id: i128, gameid: i128, admin: u64, users: Vec<u64>, amount: i128) -> PrivateBet {
    PrivateBet {
        id,
        gameid,
        active: false,
        settingAdmin: admin,
        description: "Private Bet 1".to_string(),
        amount_bet_min: amount,
        users_invated: users,
    }
}

fn bet(id: i128, setting: i128, gameid: i128, key: BetKey, amount: i128, usd: bool) -> Bet {
    Bet { id, gameid, Setting: setting, bet: key, amount_bet: amount, collateralUsd: usd }
}

fn result(id: i128, gameid: i128, setting: i128, key: BetKey) -> ResultGame {
    ResultGame {
        id,
        gameid,
        setting,
        description: "Final Score 2-1".to_string(),
        result: key,
        pause: false,
        distribution_executed: false,
    }
}

fn t(token: u64, from: u64, to: u64, amount: i128) -> Transfer {
    Transfer { token, from, to, amount }
}

/// A configured ledger with game 1 (from 1000 to 2000) and room 11 on it,
/// opened by USER2 for USER and USER2 at 500.
fn setup() -> Ledger {
    let mut env = Ledger::new();
    BettingContract::__constructor(&mut env, ADMIN, [9u8; 32], USD, TRUST, SUPREME).unwrap();
    BettingContract::set_game_checked(&mut env, game(1, 1000, 2000), true).unwrap();
    BettingContract::set_private_bet(&mut env, USER2, room(11, 1, USER2, vec![USER, USER2], 500), 1).unwrap();
    env
}

/// `setup`, then USER bets on the away team and USER2 on the local team,
/// both with TRUST collateral, which activates the room.
fn active_room() -> Ledger {
    let mut env = setup();
    BettingContract::bet(&mut env, 500, CONTRACT, USER, bet(1, 11, 1, BetKey::Team_away, 500, false)).unwrap();
    BettingContract::bet(&mut env, 500, CONTRACT, USER2, bet(2, 11, 1, BetKey::Team_local, 500, false)).unwrap();
    env
}

#[test]
fn test_bet_private() {
    let mut env = setup();
    let (ok, fx) = BettingContract::bet(&mut env, 500, CONTRACT, USER, bet(1, 11, 1, BetKey::Team_away, 500, false)).unwrap();
    assert!(ok);
    assert_eq!(fx.transfers, vec![t(USD, USER, CONTRACT, 500), t(TRUST, USER, CONTRACT, 50)]);
    assert_eq!(fx.events, vec![BettingEvent::UserHonestyPoints { user: USER, points: -20, position: 0 }]);
    assert!(!storage::get_PrivateBet(&env, 11).active);

    let (ok2, fx2) = BettingContract::bet(&mut env, 500, CONTRACT, USER2, bet(2, 11, 1, BetKey::Team_local, 500, false)).unwrap();
    assert!(ok2);
    assert_eq!(
        fx2.events,
        vec![
            BettingEvent::ActiveSetting { gameid: 1, setting: 11 },
            BettingEvent::UserHonestyPoints { user: USER2, points: -20, position: 0 },
        ]
    );
    assert!(storage::get_PrivateBet(&env, 11).active);
    assert_eq!(storage::get_total_bet(&env, 1), 1000);
    assert_eq!(storage::get_HonestyPoints(&env, USER), -20);
    assert_eq!(storage::get_HonestyPoints(&env, USER2), -20);
    assert_eq!(storage::get_leaderboard(&env), vec![(USER2, -20), (USER, -20)]);
    assert_eq!(storage::get_supreme_honesty(&env), vec![USER2, USER]);
    assert_eq!(storage::get_not_assesed_yet(&env, 11, BetKey::Team_away), 500);
    assert_eq!(storage::get_not_TrustCollateral_assesed_yet(&env, 11, BetKey::Team_away), 50);
    assert_eq!(storage::get_not_assesed_yet(&env, 11, BetKey::Team_local), 500);
}

#[test]
fn bet_with_usd_collateral_takes_twenty_percent_in_usd() {
    let mut env = setup();
    let (_, fx) = BettingContract::bet(&mut env, 500, CONTRACT, USER, bet(1, 11, 1, BetKey::Tie, 500, true)).unwrap();
    assert_eq!(fx.transfers, vec![t(USD, USER, CONTRACT, 500), t(USD, USER, CONTRACT, 100)]);
    assert_eq!(storage::get_not_usdCollateral_assesed_yet(&env, 11, BetKey::Tie), 100);
    assert_eq!(storage::get_not_TrustCollateral_assesed_yet(&env, 11, BetKey::Tie), 0);
}

#[test]
fn test_bet_after_game_start() {
    let mut env = setup();
    BettingContract::bet(&mut env, 500, CONTRACT, USER, bet(1, 11, 1, BetKey::Team_away, 500, false)).unwrap();
    let r = BettingContract::bet(&mut env, 1500, CONTRACT, USER2, bet(2, 11, 1, BetKey::Team_local, 500, false));
    assert_eq!(r.err(), Some(Failure::Error(BettingError::GameHasAlreadyStarted)));
    assert_eq!(storage::get_Bet(&env, USER2, 11).id, 0);
    assert_eq!(storage::get_HonestyPoints(&env, USER2), 0);
    assert!(!storage::get_PrivateBet(&env, 11).active);
}

#[test]
fn test_summit_result() {
    let mut env = active_room();
    let (ok, fx) = BettingContract::summitResult(&mut env, 2500, USER2, 11, result(1, 1, 11, BetKey::Team_local)).unwrap();
    assert!(ok);
    assert_eq!(
        fx.events,
        vec![BettingEvent::GameResult { setting: 11, result: BetKey::Team_local, description: "Final Score 2-1".to_string() }]
    );
    assert_eq!(storage::get_ResultGame(&env, 11).id, 1);
    let a = storage::get_ResultAssessment(&env, 11);
    assert_eq!(a.UsersApprove, vec![USER2]);
    assert_eq!((a.id, a.gameid, a.setting), (11, 1, 11));
    assert_eq!(storage::get_approve_total(&env, 11, BetKey::Team_local), 500);
    assert_eq!(storage::get_CollateralTrust_approve_total(&env, 11, BetKey::Team_local), 50);
    assert_eq!(storage::get_not_assesed_yet(&env, 11, BetKey::Team_local), 0);
}

#[test]
fn test_assess_result() {
    let mut env = active_room();
    let (ok, _) = BettingContract::summitResult(&mut env, 2500, USER, 11, result(1, 1, 11, BetKey::Team_local)).unwrap();
    assert!(ok);
    let (ok, _) = BettingContract::assessResult(&mut env, 2500, USER, 11, AssessmentKey::approve).unwrap();
    assert!(ok);
    assert_eq!(storage::get_ResultAssessment(&env, 11).UsersApprove, vec![USER]);
    assert!(storage::get_userAssessed(&env, USER, 11));
}

#[test]
fn test_summit_result_unauthorized() {
    let mut env = active_room();
    let r = BettingContract::summitResult(&mut env, 2500, USER3, 11, result(1, 1, 11, BetKey::Team_local));
    assert_eq!(r.err(), Some(Failure::Error(BettingError::BetNotFound)));
    assert_eq!(storage::get_ResultGame(&env, 11).id, 0);
}

#[test]
fn test_claim_winner_honest() {
    let mut env = active_room();
    BettingContract::summitResult(&mut env, 2500, USER2, 11, result(1, 1, 11, BetKey::Team_local)).unwrap();
    let (_, fx) = BettingContract::assessResult(&mut env, 2500, USER, 11, AssessmentKey::approve).unwrap();
    assert_eq!(fx.events, vec![BettingEvent::AllVoteSetting { setting: 11 }, BettingEvent::AllVoteGame { game_id: 1 }]);

    let (ok, fx) = BettingContract::execute_distribution(&mut env, 2500, 11).unwrap();
    assert!(ok);
    assert_eq!(
        fx.events,
        vec![BettingEvent::SupremeReward { game_id: 1, amount: 0 }, BettingEvent::GameSettingDistributed { setting: 11 }]
    );
    assert_eq!(storage::get_winnerPool(&env, 11), 500);
    assert_eq!(storage::get_loserPool(&env, 11), 500);
    assert_eq!(storage::get_pool_total(&env, 11), 475);
    assert_eq!(storage::get_ClaimProtocol(&env), 25);
    assert_eq!(storage::get_complain(&env, 11), 2);
    assert!(storage::get_ResultGame(&env, 11).distribution_executed);
    assert_eq!(storage::overall_result(&env, 1), 1);

    let (paid, fx) = BettingContract::claim(&mut env, CONTRACT, USER2, ClaimType::User, 11).unwrap();
    assert_eq!(paid, (975, 50));
    assert_eq!(fx.transfers, vec![t(USD, CONTRACT, USER2, 975), t(TRUST, CONTRACT, USER2, 50)]);
    assert_eq!(fx.events, vec![BettingEvent::UserHonestyPoints { user: USER2, points: 80, position: 0 }]);

    let (paid, fx) = BettingContract::claim(&mut env, CONTRACT, USER, ClaimType::User, 11).unwrap();
    assert_eq!(paid, (0, 50));
    assert_eq!(fx.transfers, vec![t(TRUST, CONTRACT, USER, 50)]);
    assert_eq!(fx.events, vec![BettingEvent::UserHonestyPoints { user: USER, points: 30, position: 1 }]);

    let (paid, fx) = BettingContract::claim(&mut env, CONTRACT, ADMIN, ClaimType::Protocol, 1).unwrap();
    assert_eq!(paid, (25, 0));
    assert_eq!(fx.transfers, vec![t(USD, CONTRACT, ADMIN, 25), t(TRUST, CONTRACT, ADMIN, 0)]);
    assert_eq!(storage::get_leaderboard(&env), vec![(USER2, 80), (USER, 30)]);
}

/// The inactive-room refund scenario. The TRUST collateral returned is 10% of
/// the bet (50 on 500), the rate the project's documentation gives for TRUST
/// collateral; an older form of this scenario expected 150 (30%).
#[test]
fn claim_money_noactive_room_is_refunded() {
    let mut env = setup();
    BettingContract::bet(&mut env, 500, CONTRACT, USER, bet(1, 11, 1, BetKey::Team_local, 500, false)).unwrap();
    let (paid, fx) = BettingContract::claim_refund(&mut env, 5000, CONTRACT, USER, 11).unwrap();
    assert_eq!(paid, (500, 50));
    assert_eq!(fx.transfers, vec![t(USD, CONTRACT, USER, 500), t(TRUST, CONTRACT, USER, 50)]);
    assert_eq!(fx.events, vec![BettingEvent::UserHonestyPoints { user: USER, points: 0, position: 0 }]);
    assert!(storage::get_didUserWithdraw(&env, USER, 11));
}

#[test]
fn test_refund_nosupreme() {
    let mut env = setup();
    BettingContract::bet(&mut env, 500, CONTRACT, USER, bet(1, 11, 1, BetKey::Team_away, 500, true)).unwrap();
    BettingContract::bet(&mut env, 500, CONTRACT, USER2, bet(2, 11, 1, BetKey::Team_local, 500, false)).unwrap();
    BettingContract::summitResult(&mut env, 2003, USER, 11, result(1, 1, 11, BetKey::Team_local)).unwrap();
    let (_, fx) = BettingContract::assessResult(&mut env, 2003, USER2, 11, AssessmentKey::reject).unwrap();
    assert_eq!(
        fx.events,
        vec![
            BettingEvent::AllVoteSetting { setting: 11 },
            BettingEvent::AllVoteGame { game_id: 1 },
            BettingEvent::GameResultReject { setting: 11 },
        ]
    );
    assert!(storage::get_ResultGame(&env, 11).pause);
    let (paid, fx) = BettingContract::claim_refund(&mut env, 1280010, CONTRACT, USER, 11).unwrap();
    assert_eq!(paid, (600, 0));
    assert_eq!(fx.transfers, vec![t(USD, CONTRACT, USER, 500), t(USD, CONTRACT, USER, 100)]);
    let (paid2, fx2) = BettingContract::claim_refund(&mut env, 1280010, CONTRACT, USER2, 11).unwrap();
    assert_eq!(paid2, (500, 50));
    assert_eq!(fx2.transfers, vec![t(USD, CONTRACT, USER2, 500), t(TRUST, CONTRACT, USER2, 50)]);
}

#[test]
fn test_refund_nosummition() {
    let mut env = active_room();
    let (paid, _) = BettingContract::claim_refund(&mut env, 1280010, CONTRACT, USER, 11).unwrap();
    assert_eq!(paid, (500, 50));
    let (paid2, _) = BettingContract::claim_refund(&mut env, 1280010, CONTRACT, USER2, 11).unwrap();
    assert_eq!(paid2, (500, 50));
    assert_eq!(storage::get_HonestyPoints(&env, USER), 0);
    assert_eq!(storage::get_HonestyPoints(&env, USER2), 0);
}

#[test]
fn test_cancel() {
    let mut env = active_room();
    BettingContract::summitResult(&mut env, 2500, USER2, 11, result(1, 1, 11, BetKey::Cancel)).unwrap();
    BettingContract::assessResult(&mut env, 2500, USER, 11, AssessmentKey::approve).unwrap();
    let (ok, fx) = BettingContract::execute_distribution(&mut env, 2500, 11).unwrap();
    assert!(ok);
    assert!(fx.events.is_empty());
    assert!(!storage::get_PrivateBet(&env, 11).active);
    assert_eq!(storage::overall_result(&env, 1), 3);
    let (paid, fx) = BettingContract::claim_refund(&mut env, 2500, CONTRACT, USER, 11).unwrap();
    assert_eq!(paid, (500, 50));
    assert_eq!(fx.transfers, vec![t(USD, CONTRACT, USER, 500), t(TRUST, CONTRACT, USER, 50)]);
    let (paid2, _) = BettingContract::claim_refund(&mut env, 2500, CONTRACT, USER2, 11).unwrap();
    assert_eq!(paid2, (500, 50));
}

/// USER2 submits the local win, USER rejects it: the court confirms the
/// local win and distributes the room with the rejection overruled.
fn disputed_room() -> Ledger {
    let mut env = active_room();
    BettingContract::summitResult(&mut env, 2500, USER2, 11, result(1, 1, 11, BetKey::Team_local)).unwrap();
    BettingContract::assessResult(&mut env, 2500, USER, 11, AssessmentKey::reject).unwrap();
    env
}

#[test]
fn court_confirms_disputed_result() {
    let mut env = disputed_room();
    let (ok, fx) = BettingContract::setResult_supremCourt(&mut env, 2500, SUPREME, result(1, 1, 0, BetKey::Team_local)).unwrap();
    assert!(ok);
    assert!(fx.events.is_empty());
    assert_eq!(storage::get_CountVoteSupreme(&env, 1).aproved, 1);
    assert!(storage::get_ResultAssessmentSupreme(&env, 1).ExternalUser);

    let (decided, _) = BettingContract::AssestResult_supremCourt(&mut env, 2500, ADMIN, 1, AssessmentKey::approve).unwrap();
    assert!(!decided);
    let (decided, fx) = BettingContract::AssestResult_supremCourt(&mut env, 2500, USER2, 1, AssessmentKey::approve).unwrap();
    assert!(decided);
    assert_eq!(
        fx.events,
        vec![
            BettingEvent::SupremeReward { game_id: 1, amount: 15 },
            BettingEvent::GameSettingDistributed { setting: 11 },
            BettingEvent::GameResultSupreme { game_id: 1, result: BetKey::Team_local },
        ]
    );
    assert_eq!(storage::get_complain(&env, 11), 1);
    assert_eq!(storage::get_pool_total(&env, 11), 460);
    assert_eq!(storage::get_ClaimSupreme(&env, 1), 15);
    assert_eq!(storage::get_ClaimProtocol(&env), 25);
    assert_eq!(storage::get_ClaimProtocolTrust(&env), 50);

    assert_eq!(BettingContract::what_kind_user(&env, USER, 11).unwrap(), (3, 0, false));
    assert_eq!(BettingContract::what_kind_user(&env, USER2, 11).unwrap(), (1, 500, false));
    let (paid, _) = BettingContract::claim(&mut env, CONTRACT, USER2, ClaimType::User, 11).unwrap();
    assert_eq!(paid, (960, 50));
    let r = BettingContract::claim(&mut env, CONTRACT, USER, ClaimType::User, 11);
    assert_eq!(r.err(), Some(Failure::Error(BettingError::NothingToClaim)));

    let (share, fx) = BettingContract::claim(&mut env, CONTRACT, SUPREME, ClaimType::Supreme, 1).unwrap();
    assert_eq!(share, (7, 0));
    assert_eq!(fx.transfers, vec![t(USD, CONTRACT, SUPREME, 7)]);
    let (share2, _) = BettingContract::claim(&mut env, CONTRACT, USER2, ClaimType::Supreme, 1).unwrap();
    assert_eq!(share2, (7, 0));
    let r = BettingContract::claim(&mut env, CONTRACT, ADMIN, ClaimType::Supreme, 1);
    assert_eq!(r.err(), Some(Failure::Error(BettingError::NothingToClaim)));
    let (fees, _) = BettingContract::claim(&mut env, CONTRACT, ADMIN, ClaimType::Protocol, 1).unwrap();
    assert_eq!(fees, (25, 50));
}

#[test]
fn court_removes_rejected_result() {
    let mut env = disputed_room();
    BettingContract::setResult_supremCourt(&mut env, 2500, SUPREME, result(1, 1, 0, BetKey::Team_away)).unwrap();
    let (d1, _) = BettingContract::AssestResult_supremCourt(&mut env, 2500, ADMIN, 1, AssessmentKey::reject).unwrap();
    let (d2, _) = BettingContract::AssestResult_supremCourt(&mut env, 2500, USER2, 1, AssessmentKey::reject).unwrap();
    assert!(!d1 && !d2);
    let (d3, fx) = BettingContract::AssestResult_supremCourt(&mut env, 2500, USER, 1, AssessmentKey::reject).unwrap();
    assert!(d3);
    assert_eq!(fx.events, vec![BettingEvent::GameResultBySupremeRemoved { game_id: 1, result: BetKey::Team_away }]);
    assert_eq!(storage::get_ResultGameSupreme(&env, 1).id, 0);
    assert_eq!(storage::get_CountVoteSupreme(&env, 1).rejected, 0);
    assert!(!storage::get_ResultAssessmentSupreme(&env, 1).Admin);
    // The court can submit a new result afterwards.
    let (ok, _) = BettingContract::setResult_supremCourt(&mut env, 2500, ADMIN, result(1, 1, 0, BetKey::Team_local)).unwrap();
    assert!(ok);
}

#[test]
fn court_cancellation_deactivates_waiting_rooms() {
    let mut env = disputed_room();
    BettingContract::setResult_supremCourt(&mut env, 2500, SUPREME, result(1, 1, 0, BetKey::Cancel)).unwrap();
    BettingContract::AssestResult_supremCourt(&mut env, 2500, ADMIN, 1, AssessmentKey::approve).unwrap();
    let (decided, fx) = BettingContract::AssestResult_supremCourt(&mut env, 2500, USER, 1, AssessmentKey::approve).unwrap();
    assert!(decided);
    assert_eq!(fx.events, vec![BettingEvent::GameResultSupreme { game_id: 1, result: BetKey::Cancel }]);
    assert!(!storage::get_PrivateBet(&env, 11).active);
    let (paid, _) = BettingContract::claim_refund(&mut env, 2500, CONTRACT, USER, 11).unwrap();
    assert_eq!(paid, (500, 50));
}

#[test]
fn every_unit_taken_is_paid_out_in_an_undisputed_room() {
    let mut env = active_room();
    BettingContract::summitResult(&mut env, 2500, USER2, 11, result(1, 1, 11, BetKey::Team_local)).unwrap();
    BettingContract::assessResult(&mut env, 2500, USER, 11, AssessmentKey::approve).unwrap();
    BettingContract::execute_distribution(&mut env, 2500, 11).unwrap();
    let mut usd_out = 0;
    let mut trust_out = 0;
    for (who, kind) in [(USER2, ClaimType::User), (USER, ClaimType::User), (ADMIN, ClaimType::Protocol)] {
        let (_, fx) = BettingContract::claim(&mut env, CONTRACT, who, kind, 11).unwrap();
        for tr in fx.transfers {
            if tr.token == USD {
                usd_out += tr.amount;
            } else {
                trust_out += tr.amount;
            }
        }
    }
    assert_eq!(usd_out, 1000);
    assert_eq!(trust_out, 100);
}
