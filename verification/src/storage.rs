//! Reads and writes of the contract's storage, one function per stored item.
use crate::ledger::{
    amounts_at, blank_result, default_result, fits_i128, flag_at, int_at, seq_at, tally_at, tally_plus,
    tally_plus_fits, Config, Ledger, LedgerView, Tally,
};
use crate::lists;
use crate::table::Table;
use crate::types::{
    AccountId, Bet, BetKey, CountVotesResult, Game, KeyAmounts, LastB, PrivateBet,
    ResultAssessment, ResultAssessmentSupreme, ResultGame, DUMMY_ACCOUNT,
};
use vstd::prelude::*;

verus! {

broadcast use vstd::std_specs::hash::group_hash_axioms;

/// The account that stands for "nobody".
pub fn get_dummyusser(env: &Ledger) -> (r: AccountId)
    ensures
        r == DUMMY_ACCOUNT,
{
    DUMMY_ACCOUNT
}

/// Whether the configuration has been stored.
pub fn has_init(env: &Ledger) -> (r: bool)
    ensures
        r == env@.initialized(),
{
    env.config.is_some()
}

/// Stores the configuration.
pub fn init(
    env: &mut Ledger,
    admin: AccountId,
    admin_pubkey: [u8; 32],
    token_usd: AccountId,
    token_trust: AccountId,
    supreme_court: AccountId,
)
    ensures
        final(env)@ == (LedgerView {
            config: Some(Config { admin, admin_pubkey, token_usd, token_trust, supreme_court }),
            ..old(env)@
        }),
{
    env.config = Some(Config { admin, admin_pubkey, token_usd, token_trust, supreme_court });
}

/// Stores the honest members of the court.
pub fn save_supreme_honesty(env: &mut Ledger, Users: Vec<AccountId>)
    ensures
        final(env)@ == (LedgerView { supreme_honesty: Users@, ..old(env)@ }),
{
    env.supreme_honesty = Users;
}

/// The honest members of the court.
pub fn get_supreme_honesty(env: &Ledger) -> (r: Vec<AccountId>)
    ensures
        r@ == env@.supreme_honesty,
{
    lists::copy(&env.supreme_honesty)
}

/// The configuration; it panics ("contract not initialized") without one.
fn config_of(env: &Ledger) -> (r: Config)
    requires
        env@.initialized(),
    ensures
        env@.config == Some(r),
{
    match env.config {
        Some(c) => c,
        None => Config {
            admin: 0,
            admin_pubkey: [0u8; 32],
            token_usd: 0,
            token_trust: 0,
            supreme_court: 0,
        },
    }
}

/// The supreme court's external member.
pub fn get_supreme(env: &Ledger) -> (r: AccountId)
    requires
        env@.initialized(),
    ensures
        r == env@.config.unwrap().supreme_court,
{
    config_of(env).supreme_court
}

/// The USD token.
pub fn get_usd(env: &Ledger) -> (r: AccountId)
    requires
        env@.initialized(),
    ensures
        r == env@.config.unwrap().token_usd,
{
    config_of(env).token_usd
}

/// The TRUST token.
pub fn get_trust(env: &Ledger) -> (r: AccountId)
    requires
        env@.initialized(),
    ensures
        r == env@.config.unwrap().token_trust,
{
    config_of(env).token_trust
}

/// The admin.
pub fn get_admin(env: &Ledger) -> (r: AccountId)
    requires
        env@.initialized(),
    ensures
        r == env@.config.unwrap().admin,
{
    config_of(env).admin
}

/// The admin's ed25519 public key.
pub fn get_admin_pubkey(env: &Ledger) -> (r: [u8; 32])
    requires
        env@.initialized(),
    ensures
        r == env@.config.unwrap().admin_pubkey,
{
    config_of(env).admin_pubkey
}

/// Whether `user` submitted the result of room `setting`.
pub fn is_summiter(env: &Ledger, setting: i128, user: AccountId) -> (r: bool)
    ensures
        r == (if env@.summiters.contains_key(setting) {
            env@.summiters[setting]
        } else {
            DUMMY_ACCOUNT
        } == user),
{
    let summiter = match env.summiters.get(&setting) {
        Some(s) => *s,
        None => DUMMY_ACCOUNT,
    };
    summiter == user
}

/// Records `user` as the submitter of the result of room `setting`.
pub fn set_summiter(env: &mut Ledger, user: AccountId, setting: i128)
    ensures
        final(env)@ == (LedgerView { summiters: old(env)@.summiters.insert(setting, user), ..old(env)@ }),
{
    env.summiters.insert(setting, user);
}

/// The leaderboard of honesty points.
pub fn get_leaderboard(env: &Ledger) -> (r: Vec<(AccountId, i128)>)
    ensures
        r@ == env@.leaderboard,
{
    lists::copy_board(&env.leaderboard)
}

/// Stores the leaderboard.
pub fn set_leaderboard(env: &mut Ledger, leaderboard: Vec<(AccountId, i128)>) -> (r: bool)
    ensures
        r,
        final(env)@ == (LedgerView { leaderboard: leaderboard@, ..old(env)@ }),
{
    env.leaderboard = leaderboard;
    true
}

/// Stores the stake of `user`.
pub fn set_stakeAmount_user(env: &mut Ledger, user: AccountId, stakeAmount: i128)
    ensures
        final(env)@ == (LedgerView { stake_user: old(env)@.stake_user.insert(user, stakeAmount), ..old(env)@ }),
{
    env.stake_user.insert(user, stakeAmount);
}

/// Records the current stake of `user` as their stake on `game`.
pub fn set_stakeAmount_user_game(env: &mut Ledger, user: AccountId, game: i128)
    ensures
        final(env)@ == (LedgerView {
            stake_user_game: old(env)@.stake_user_game.insert((user, game), int_at(old(env)@.stake_user, user)),
            ..old(env)@
        }),
{
    let amount: i128 = match env.stake_user.get(&user) {
        Some(a) => *a,
        None => 0,
    };
    env.stake_user_game.insert(user, game, amount);
}

/// The stake of `user` on `game` (zero when none was recorded).
pub fn get_stakeAmount_user_game(env: &Ledger, user: AccountId, game: i128) -> (r: i128)
    ensures
        r == int_at(env@.stake_user_game, (user, game)),
{
    match env.stake_user_game.get(user, game) {
        Some(a) => *a,
        None => 0,
    }
}

/// Stores the minimum stake.
pub fn set_Min_stakeAmount(env: &mut Ledger, stakeAmount: i128)
    ensures
        final(env)@ == (LedgerView { stake_min: stakeAmount, ..old(env)@ }),
{
    env.stake_min = stakeAmount;
}

/// The minimum stake.
pub fn get_Min_stakeAmount(env: &Ledger) -> (r: i128)
    ensures
        r == env@.stake_min,
{
    env.stake_min
}

/// Appends room `setting` to the rooms of game `gameId`.
pub fn add_privateSettingList(env: &mut Ledger, gameId: i128, setting: i128)
    ensures
        final(env)@ == (LedgerView {
            private_lists: old(env)@.private_lists.insert(gameId, seq_at(old(env)@.private_lists, gameId).push(setting)),
            ..old(env)@
        }),
{
    let mut listed: Vec<i128> = match env.private_lists.remove(&gameId) {
        Some(l) => l,
        None => Vec::new(),
    };
    listed.push(setting);
    env.private_lists.insert(gameId, listed);
    assert(final(env)@.private_lists =~= old(env)@.private_lists.insert(gameId, seq_at(old(env)@.private_lists, gameId).push(setting)));
}

/// The rooms of game `gameId`, in the order they were opened.
pub fn get_privateSettingList(env: &Ledger, gameId: i128) -> (r: Vec<i128>)
    ensures
        r@ == seq_at(env@.private_lists, gameId),
{
    match env.private_lists.get(&gameId) {
        Some(l) => {
            let r = l.clone();
            assert(r@ =~= l@);
            r
        },
        None => Vec::new(),
    }
}

/// Stores the bet of `user` in the bet's room.
pub fn add_bet(env: &mut Ledger, user: AccountId, bet: Bet)
    ensures
        final(env)@ == (LedgerView { bets: old(env)@.bets.insert((user, bet.Setting), bet), ..old(env)@ }),
{
    env.bets.insert(user, bet.Setting, bet);
}

/// The bet of `user` in room `setting`; it panics ("No bet found for this
/// user") when there is none.
pub fn get_bet(env: &Ledger, user: AccountId, setting: i128) -> (r: Bet)
    requires
        env@.bets.contains_key((user, setting)),
    ensures
        r == env@.bets[(user, setting)],
{
    get_Bet(env, user, setting)
}

/// Whether `bet` disagrees with the first bet placed in its room. The first
/// bet of a room is recorded (and is reported as not disagreeing).
pub fn does_bet_active(env: &mut Ledger, bet: Bet) -> (r: bool)
    ensures
        old(env)@.last_bet(bet.Setting).id == 0 ==> {
            &&& !r
            &&& final(env)@ == (LedgerView {
                last_bets: old(env)@.last_bets.insert(bet.Setting, LastB { id: bet.Setting, lastBet: bet.bet }),
                ..old(env)@
            })
        },
        old(env)@.last_bet(bet.Setting).id != 0 ==> {
            &&& r == (old(env)@.last_bet(bet.Setting).lastBet != bet.bet)
            &&& final(env)@ == old(env)@
        },
{
    let last: LastB = match env.last_bets.get(&bet.Setting) {
        Some(l) => *l,
        None => LastB { id: 0, lastBet: BetKey::Team_local },
    };
    if last.id == 0 {
        env.last_bets.insert(bet.Setting, LastB { id: bet.Setting, lastBet: bet.bet });
        return false;
    }
    last.lastBet != bet.bet
}

/// Sets the `active` flag of room `setting` (storing the default room when
/// there is none).
pub fn active_private_setting(env: &mut Ledger, setting: i128, active: bool)
    ensures
        final(env)@ == (LedgerView {
            private_bets: old(env)@.private_bets.insert(setting, crate::types::PrivateBetView { active, ..old(env)@.private_bet(setting) }),
            ..old(env)@
        }),
{
    let mut res = get_PrivateBet(env, setting);
    res.active = active;
    env.private_bets.insert(setting, res);
}

/// The room `setting` (the default room when there is none).
pub fn get_PrivateBet(env: &Ledger, setting: i128) -> (r: PrivateBet)
    ensures
        r@ == env@.private_bet(setting),
{
    match env.private_bets.get(&setting) {
        Some(p) => p.clone(),
        None => PrivateBet {
            id: 0,
            gameid: 0,
            active: false,
            settingAdmin: DUMMY_ACCOUNT,
            description: "No private bet found".to_owned(),
            amount_bet_min: 0,
            users_invated: Vec::new(),
        },
    }
}

/// Stores a new game; it panics ("Game with this ID already exists") when a
/// game with a nonzero id is stored under `game.id`.
pub fn set_game(env: &mut Ledger, game: Game)
    requires
        old(env)@.game(game.id).id == 0,
    ensures
        final(env)@ == (LedgerView { games: old(env)@.games.insert(game.id, game@), ..old(env)@ }),
{
    env.games.insert(game.id, game);
}

/// Stores a new room; it panics ("Private setting with this ID already
/// exists") when a room with a nonzero id is stored under `privateBet.id`.
pub fn set_privateSetting(env: &mut Ledger, privateBet: PrivateBet)
    requires
        old(env)@.private_bet(privateBet.id).id == 0,
    ensures
        final(env)@ == (LedgerView {
            private_bets: old(env)@.private_bets.insert(privateBet.id, privateBet@),
            ..old(env)@
        }),
{
    verifySettingId(env, privateBet.id);
    env.private_bets.insert(privateBet.id, privateBet);
}

/// Stores `privateBet` as room `setting`, replacing the room stored there.
pub fn replace_privateSetting(env: &mut Ledger, setting: i128, privateBet: PrivateBet)
    ensures
        final(env)@ == (LedgerView { private_bets: old(env)@.private_bets.insert(setting, privateBet@), ..old(env)@ }),
{
    env.private_bets.insert(setting, privateBet);
}

/// Adds `points` to the honesty points of `user`.
pub fn add_HonestyPoints(env: &mut Ledger, user: AccountId, points: i128)
    requires
        fits_i128(old(env)@.honesty_of(user) + points),
    ensures
        final(env)@ == (LedgerView {
            honesty: old(env)@.honesty.insert(user, (old(env)@.honesty_of(user) + points) as i128),
            ..old(env)@
        }),
{
    let honesty = get_HonestyPoints(env, user);
    env.honesty.insert(user, honesty + points);
}

/// The honesty points of `user` (zero for a newcomer).
pub fn get_HonestyPoints(env: &Ledger, user: AccountId) -> (r: i128)
    ensures
        r == env@.honesty_of(user),
{
    match env.honesty.get(&user) {
        Some(h) => *h,
        None => 0,
    }
}

/// Adds `plus` to the integer under `k` (zero when absent).
fn add_to(t: &mut Table<i128, i128>, k: i128, plus: i128)
    requires
        fits_i128(int_at(old(t)@, k) + plus),
    ensures
        final(t)@ == old(t)@.insert(k, (int_at(old(t)@, k) + plus) as i128),
{
    let v: i128 = match t.get(&k) {
        Some(v) => *v,
        None => 0,
    };
    t.insert(k, v + plus);
}

/// The integer under `k` (zero when absent).
pub(crate) fn read_int(t: &Table<i128, i128>, k: i128) -> (r: i128)
    ensures
        r == int_at(t@, k),
{
    match t.get(&k) {
        Some(v) => *v,
        None => 0,
    }
}

/// Adds `plus` to the number of bettors counted for `game_setting`.
pub fn add_UsersAmount(env: &mut Ledger, game_setting: i128, plus: i128)
    requires
        fits_i128(int_at(old(env)@.users_amount, game_setting) + plus),
    ensures
        final(env)@ == (LedgerView {
            users_amount: old(env)@.users_amount.insert(game_setting, (int_at(old(env)@.users_amount, game_setting) + plus) as i128),
            ..old(env)@
        }),
{
    add_to(&mut env.users_amount, game_setting, plus);
}

/// Adds `plus` to the number of bettors counted for `game_setting` on the
/// game-level counter.
pub fn add_UsersAmountGame(env: &mut Ledger, game_setting: i128, plus: i128)
    requires
        fits_i128(int_at(old(env)@.users_amount_game, game_setting) + plus),
    ensures
        final(env)@ == (LedgerView {
            users_amount_game: old(env)@.users_amount_game.insert(game_setting, (int_at(old(env)@.users_amount_game, game_setting) + plus) as i128),
            ..old(env)@
        }),
{
    add_to(&mut env.users_amount_game, game_setting, plus);
}

/// Whether as many votes as bettors are counted for `game_setting`.
pub fn UsersAmount(env: &Ledger, game_setting: i128) -> (r: bool)
    ensures
        r == env@.all_voted(game_setting),
{
    read_int(&env.users_voted, game_setting) == read_int(&env.users_amount, game_setting)
}

/// Whether as many votes as bettors are counted for `game_setting` on the
/// game-level counters.
pub fn UsersAmountGame(env: &Ledger, game_setting: i128) -> (r: bool)
    ensures
        r == env@.all_voted_game(game_setting),
{
    read_int(&env.users_voted_game, game_setting) == read_int(&env.users_amount_game, game_setting)
}

/// Counts one more vote for `game_setting` on the game-level counter.
pub fn add_UsersAmountVotedGame(env: &mut Ledger, game_setting: i128)
    requires
        fits_i128(int_at(old(env)@.users_voted_game, game_setting) + 1),
    ensures
        final(env)@ == (LedgerView {
            users_voted_game: old(env)@.users_voted_game.insert(game_setting, (int_at(old(env)@.users_voted_game, game_setting) + 1) as i128),
            ..old(env)@
        }),
{
    add_to(&mut env.users_voted_game, game_setting, 1);
}

/// Counts one more vote for `game_setting`.
pub fn add_UsersAmountVoted(env: &mut Ledger, game_setting: i128)
    requires
        fits_i128(int_at(old(env)@.users_voted, game_setting) + 1),
    ensures
        final(env)@ == (LedgerView {
            users_voted: old(env)@.users_voted.insert(game_setting, (int_at(old(env)@.users_voted, game_setting) + 1) as i128),
            ..old(env)@
        }),
{
    add_to(&mut env.users_voted, game_setting, 1);
}

/// Checks that no room with a nonzero id is stored under `SettingId`. When
/// one is, the check panics ("Private setting with this ID already
/// exists"); callers rule that case out, and the entry points report it as
/// `PanicReason::PrivateSettingAlreadyExists`.
pub fn verifySettingId(env: &Ledger, SettingId: i128)
    requires
        env@.private_bet(SettingId).id == 0,
{
}

/// The game `game_id` (the default game when there is none).
pub fn get_game(env: &Ledger, game_id: i128) -> (r: Game)
    ensures
        r@ == env@.game(game_id),
{
    match env.games.get(&game_id) {
        Some(g) => g.clone(),
        None => Game {
            id: 0,
            active: false,
            league: 0,
            description: "No game found".to_owned(),
            team_local: 0,
            team_away: 0,
            startTime: 0,
            endTime: 0,
        },
    }
}

/// Counts one more distributed room of game `gameid` whose result was `result`.
pub fn set_result_team_count(env: &mut Ledger, gameid: i128, result: BetKey)
    requires
        fits_i128(amounts_at(old(env)@.result_counts, gameid).at(result) + 1),
    ensures
        final(env)@ == (LedgerView {
            result_counts: old(env)@.result_counts.insert(
                gameid,
                amounts_at(old(env)@.result_counts, gameid).put(result, (amounts_at(old(env)@.result_counts, gameid).at(result) + 1) as i128),
            ),
            ..old(env)@
        }),
{
    let counts: KeyAmounts = match env.result_counts.get(&gameid) {
        Some(c) => *c,
        None => KeyAmounts::zero(),
    };
    assert(counts == amounts_at(old(env)@.result_counts, gameid));
    let n = counts.get(result);
    env.result_counts.insert(gameid, counts.with(result, n + 1));
}

/// The per-outcome counts of distributed rooms of game `gameid`.
pub(crate) fn read_counts(env: &Ledger, gameid: i128) -> (r: KeyAmounts)
    ensures
        r == amounts_at(env@.result_counts, gameid),
{
    match env.result_counts.get(&gameid) {
        Some(c) => *c,
        None => KeyAmounts::zero(),
    }
}

/// The outcome that most distributed rooms of game `gameid` reported: 0 when
/// all four counts are equal, 1 when the local team leads strictly, 2 the
/// away team, 3 a cancellation, and 4 otherwise (ties between leaders
/// included).
pub fn overall_result(env: &Ledger, gameid: i128) -> (r: i128)
    ensures
        r == overall_of(amounts_at(env@.result_counts, gameid)),
{
    let counts: KeyAmounts = match env.result_counts.get(&gameid) {
        Some(c) => *c,
        None => KeyAmounts::zero(),
    };
    let local = counts.local;
    let away = counts.away;
    let cancel = counts.cancel;
    let tie = counts.tie;
    if local == away && local == tie && local == cancel {
        return 0;
    }
    if local > away && local > tie && local > cancel {
        1
    } else if away > local && away > tie && away > cancel {
        2
    } else if cancel > local && cancel > tie && cancel > away {
        3
    } else {
        4
    }
}

/// The community verdict of a game from its per-outcome counts (see
/// `overall_result`).
pub open spec fn overall_of(c: KeyAmounts) -> i128 {
    if c.local == c.away && c.local == c.tie && c.local == c.cancel {
        0
    } else if c.local > c.away && c.local > c.tie && c.local > c.cancel {
        1
    } else if c.away > c.local && c.away > c.tie && c.away > c.cancel {
        2
    } else if c.cancel > c.local && c.cancel > c.tie && c.cancel > c.away {
        3
    } else {
        4
    }
}

/// Stores `result` as the result of room `result.setting`.
pub fn set_ResultGame(env: &mut Ledger, result: ResultGame)
    ensures
        final(env)@ == (LedgerView { results: old(env)@.results.insert(result.setting, result@), ..old(env)@ }),
{
    env.results.insert(result.setting, result);
}

/// Stores `result` as the court's result for game `result.gameid`.
pub fn set_ResultGameSupreme(env: &mut Ledger, result: ResultGame)
    ensures
        final(env)@ == (LedgerView {
            supreme_results: old(env)@.supreme_results.insert(result.gameid, result@),
            ..old(env)@
        }),
{
    env.supreme_results.insert(result.gameid, result);
}

/// A stored result, or the default one.
fn read_result(t: &Table<i128, ResultGame>, k: i128) -> (r: ResultGame)
    ensures
        r@ == (if t@.contains_key(k) { t@[k] } else { default_result() }),
{
    match t.get(&k) {
        Some(r) => r.clone(),
        None => ResultGame {
            id: 0,
            gameid: 0,
            setting: 0,
            description: "No result found".to_owned(),
            result: BetKey::Team_local,
            pause: false,
            distribution_executed: false,
        },
    }
}

/// A stored result, or the blank one that updates start from.
fn read_result_blank(t: &Table<i128, ResultGame>, k: i128) -> (r: ResultGame)
    ensures
        r@ == (if t@.contains_key(k) { t@[k] } else { blank_result() }),
{
    match t.get(&k) {
        Some(r) => r.clone(),
        None => ResultGame {
            id: 0,
            gameid: 0,
            setting: 0,
            description: String::new(),
            result: BetKey::Team_local,
            pause: false,
            distribution_executed: false,
        },
    }
}

/// The result of room `setting` (the default result when there is none).
pub fn get_ResultGame(env: &Ledger, setting: i128) -> (r: ResultGame)
    ensures
        r@ == env@.result(setting),
{
    read_result(&env.results, setting)
}

/// The court's result for game `gameid` (the default result when there is none).
pub fn get_ResultGameSupreme(env: &Ledger, gameid: i128) -> (r: ResultGame)
    ensures
        r@ == env@.supreme_result(gameid),
{
    read_result(&env.supreme_results, gameid)
}

/// Sets the `pause` flag of the result of room `setting`.
pub fn puase_ResultGame(env: &mut Ledger, setting: i128, pause: bool)
    ensures
        final(env)@ == (LedgerView {
            results: old(env)@.results.insert(
                setting,
                crate::types::ResultGameView {
                    pause,
                    ..(if old(env)@.results.contains_key(setting) { old(env)@.results[setting] } else { blank_result() })
                },
            ),
            ..old(env)@
        }),
{
    let mut res = read_result_blank(&env.results, setting);
    res.pause = pause;
    env.results.insert(setting, res);
}

/// Marks the result of room `setting` as distributed.
pub fn distribution_ResultGame(env: &mut Ledger, setting: i128)
    ensures
        final(env)@ == (LedgerView {
            results: old(env)@.results.insert(
                setting,
                crate::types::ResultGameView {
                    distribution_executed: true,
                    ..(if old(env)@.results.contains_key(setting) { old(env)@.results[setting] } else { blank_result() })
                },
            ),
            ..old(env)@
        }),
{
    let mut res = read_result_blank(&env.results, setting);
    res.distribution_executed = true;
    env.results.insert(setting, res);
}

/// The bettors listed for game `gameid` (nothing ever lists them).
pub fn get_ListBetUser(env: &Ledger, gameid: i128) -> (r: Vec<AccountId>)
    ensures
        r@ == seq_at(env@.bet_users, gameid),
{
    match env.bet_users.get(&gameid) {
        Some(l) => lists::copy(l),
        None => Vec::new(),
    }
}

/// The bet of `user` in room `setting` (the default bet, with id 0, when
/// there is none).
pub fn get_Bet(env: &Ledger, user: AccountId, setting: i128) -> (r: Bet)
    ensures
        r == env@.bet(user, setting),
{
    match env.bets.get(user, setting) {
        Some(b) => *b,
        None => Bet { id: 0, gameid: 0, Setting: 0, bet: BetKey::Team_local, amount_bet: 0, collateralUsd: false },
    }
}

/// The court's reward kept for game `gameid`.
pub fn get_ClaimSupreme(env: &Ledger, gameid: i128) -> (r: i128)
    ensures
        r == int_at(env@.claim_supreme, gameid),
{
    read_int(&env.claim_supreme, gameid)
}

/// Adds `newAmount` to the court's reward for game `gameid`.
pub fn add_ClaimSupreme(env: &mut Ledger, gameid: i128, newAmount: i128)
    requires
        fits_i128(int_at(old(env)@.claim_supreme, gameid) + newAmount),
    ensures
        final(env)@ == (LedgerView {
            claim_supreme: old(env)@.claim_supreme.insert(gameid, (int_at(old(env)@.claim_supreme, gameid) + newAmount) as i128),
            ..old(env)@
        }),
{
    add_to(&mut env.claim_supreme, gameid, newAmount);
}

/// The TRUST owed to the protocol.
pub fn get_ClaimProtocolTrust(env: &Ledger) -> (r: i128)
    ensures
        r == env@.claim_protocol_trust,
{
    env.claim_protocol_trust
}

/// Adds `newAmount` to the TRUST owed to the protocol.
pub fn add_ClaimProtocolTrust(env: &mut Ledger, newAmount: i128)
    requires
        fits_i128(old(env)@.claim_protocol_trust + newAmount),
    ensures
        final(env)@ == (LedgerView {
            claim_protocol_trust: (old(env)@.claim_protocol_trust + newAmount) as i128,
            ..old(env)@
        }),
{
    env.claim_protocol_trust = env.claim_protocol_trust + newAmount;
}

/// The USD owed to the protocol.
pub fn get_ClaimProtocol(env: &Ledger) -> (r: i128)
    ensures
        r == env@.claim_protocol,
{
    env.claim_protocol
}

/// Sets both amounts owed to the protocol to zero.
pub fn zero_ClaimProtocol(env: &mut Ledger)
    ensures
        final(env)@ == (LedgerView { claim_protocol: 0, claim_protocol_trust: 0, ..old(env)@ }),
{
    env.claim_protocol = 0;
    env.claim_protocol_trust = 0;
}

/// Adds `newAmount` to the USD owed to the protocol.
pub fn add_ClaimProtocol(env: &mut Ledger, newAmount: i128)
    requires
        fits_i128(old(env)@.claim_protocol + newAmount),
    ensures
        final(env)@ == (LedgerView { claim_protocol: (old(env)@.claim_protocol + newAmount) as i128, ..old(env)@ }),
{
    env.claim_protocol = env.claim_protocol + newAmount;
}

/// The assessment of room `setting` (the default one when there is none).
pub fn get_ResultAssessment(env: &Ledger, setting: i128) -> (r: ResultAssessment)
    ensures
        r@ == env@.assessment(setting),
{
    match env.assessments.get(&setting) {
        Some(a) => a.clone(),
        None => ResultAssessment {
            id: 0,
            gameid: 0,
            setting: 0,
            UsersApprove: Vec::new(),
            UsersReject: Vec::new(),
        },
    }
}

/// Stores the assessment of room `setting`.
pub fn set_ResultAssessment(env: &mut Ledger, setting: i128, data: ResultAssessment)
    ensures
        final(env)@ == (LedgerView { assessments: old(env)@.assessments.insert(setting, data@), ..old(env)@ }),
{
    env.assessments.insert(setting, data);
}

/// The court's assessment of game `gameid` (the default one when there is none).
pub fn get_ResultAssessmentSupreme(env: &Ledger, gameid: i128) -> (r: ResultAssessmentSupreme)
    ensures
        r@ == env@.supreme_assessment(gameid),
{
    match env.supreme_assessments.get(&gameid) {
        Some(a) => a.clone(),
        None => ResultAssessmentSupreme {
            id: 0,
            gameid: 0,
            Admin: false,
            ExternalUser: false,
            countHonestyUsers: Vec::new(),
        },
    }
}

/// Stores the court's assessment of game `gameid`.
pub fn set_ResultAssessmentSupreme(env: &mut Ledger, gameid: i128, data: ResultAssessmentSupreme)
    ensures
        final(env)@ == (LedgerView {
            supreme_assessments: old(env)@.supreme_assessments.insert(gameid, data@),
            ..old(env)@
        }),
{
    env.supreme_assessments.insert(gameid, data);
}

/// The court's tally of votes on game `gameid` (zero when there is none).
pub fn get_CountVoteSupreme(env: &Ledger, gameid: i128) -> (r: CountVotesResult)
    ensures
        r == env@.votes(gameid),
{
    match env.supreme_votes.get(&gameid) {
        Some(v) => *v,
        None => CountVotesResult { id: 0, gameid: 0, aproved: 0, rejected: 0 },
    }
}

/// Stores the court's tally of votes on game `gameid`.
pub fn set_CountVoteSupreme(env: &mut Ledger, gameid: i128, data: CountVotesResult)
    ensures
        final(env)@ == (LedgerView { supreme_votes: old(env)@.supreme_votes.insert(gameid, data), ..old(env)@ }),
{
    env.supreme_votes.insert(gameid, data);
}

/// Whether game `game_id` exists (its stored id is nonzero), with its start
/// and end times and its `active` flag.
pub fn existBet(env: &Ledger, game_id: i128) -> (r: (bool, u32, u32, bool))
    ensures
        r == (env@.game(game_id).id != 0, env@.game(game_id).startTime, env@.game(game_id).endTime, env@.game(game_id).active),
{
    match env.games.get(&game_id) {
        Some(g) => (g.id != 0, g.startTime, g.endTime, g.active),
        None => (false, 0, 0, false),
    }
}

/// Adds `Amount` to the total bet on game `game_id`.
pub fn add_total_bet(env: &mut Ledger, game_id: i128, Amount: i128)
    requires
        fits_i128(int_at(old(env)@.total_bet, game_id) + Amount),
    ensures
        final(env)@ == (LedgerView {
            total_bet: old(env)@.total_bet.insert(game_id, (int_at(old(env)@.total_bet, game_id) + Amount) as i128),
            ..old(env)@
        }),
{
    add_to(&mut env.total_bet, game_id, Amount);
}

/// The total bet on game `game_id`.
pub fn get_total_bet(env: &Ledger, game_id: i128) -> (r: i128)
    ensures
        r == int_at(env@.total_bet, game_id),
{
    read_int(&env.total_bet, game_id)
}

/// Adds (or, with `negate`, takes off) a bet and its collateral to one
/// group's tally of room `key`.
fn tally_add(t: &mut Table<i128, Tally>, key: i128, amount: i128, bet: BetKey, usd: bool, collateral: i128, negate: bool)
    requires
        tally_plus_fits(
            tally_at(old(t)@, key),
            bet,
            if negate { -amount } else { amount as int },
            usd,
            if negate { -collateral } else { collateral as int },
        ),
    ensures
        final(t)@ == old(t)@.insert(
            key,
            tally_plus(
                tally_at(old(t)@, key),
                bet,
                if negate { -amount } else { amount as int },
                usd,
                if negate { -collateral } else { collateral as int },
            ),
        ),
{
    let cur = read_tally(t, key);
    let na = if negate { cur.amount.get(bet) - amount } else { cur.amount.get(bet) + amount };
    let a = cur.amount.with(bet, na);
    let next = if usd {
        let nc = if negate { cur.usd.get(bet) - collateral } else { cur.usd.get(bet) + collateral };
        Tally { amount: a, usd: cur.usd.with(bet, nc), trust: cur.trust }
    } else {
        let nc = if negate { cur.trust.get(bet) - collateral } else { cur.trust.get(bet) + collateral };
        Tally { amount: a, usd: cur.usd, trust: cur.trust.with(bet, nc) }
    };
    t.insert(key, next);
}

/// The tally of room `key` (zero when there is none).
pub(crate) fn read_tally(t: &Table<i128, Tally>, key: i128) -> (r: Tally)
    ensures
        r == tally_at(t@, key),
{
    match t.get(&key) {
        Some(x) => *x,
        None => {
            let z = KeyAmounts::zero();
            Tally { amount: z, usd: z, trust: z }
        },
    }
}

/// Adds a bet and its collateral to the not-yet-assessed tally of room `game_id`.
pub fn add_not_assesed_yet(env: &mut Ledger, game_id: i128, Amount: i128, bet: BetKey, collateralusd: bool, collateral: i128)
    requires
        tally_plus_fits(tally_at(old(env)@.not_assessed, game_id), bet, Amount as int, collateralusd, collateral as int),
    ensures
        final(env)@ == (LedgerView {
            not_assessed: old(env)@.not_assessed.insert(
                game_id,
                tally_plus(tally_at(old(env)@.not_assessed, game_id), bet, Amount as int, collateralusd, collateral as int),
            ),
            ..old(env)@
        }),
{
    tally_add(&mut env.not_assessed, game_id, Amount, bet, collateralusd, collateral, false);
}

/// Takes a bet and its collateral off the not-yet-assessed tally of room `game_id`.
pub fn delete_not_assesed_yet(env: &mut Ledger, game_id: i128, Amount: i128, bet: BetKey, collateralusd: bool, collateral: i128)
    requires
        tally_plus_fits(tally_at(old(env)@.not_assessed, game_id), bet, -Amount, collateralusd, -collateral),
    ensures
        final(env)@ == (LedgerView {
            not_assessed: old(env)@.not_assessed.insert(
                game_id,
                tally_plus(tally_at(old(env)@.not_assessed, game_id), bet, -Amount, collateralusd, -collateral),
            ),
            ..old(env)@
        }),
{
    tally_add(&mut env.not_assessed, game_id, Amount, bet, collateralusd, collateral, true);
}

/// The not-yet-assessed bets on `bet` in room `game_id`.
pub fn get_not_assesed_yet(env: &Ledger, game_id: i128, bet: BetKey) -> (r: i128)
    ensures
        r == tally_at(env@.not_assessed, game_id).amount.at(bet),
{
    read_tally(&env.not_assessed, game_id).amount.get(bet)
}

/// The USD collateral of the not-yet-assessed bets on `bet` in room `game_id`.
pub fn get_not_usdCollateral_assesed_yet(env: &Ledger, game_id: i128, bet: BetKey) -> (r: i128)
    ensures
        r == tally_at(env@.not_assessed, game_id).usd.at(bet),
{
    read_tally(&env.not_assessed, game_id).usd.get(bet)
}

/// The TRUST collateral of the not-yet-assessed bets on `bet` in room `game_id`.
pub fn get_not_TrustCollateral_assesed_yet(env: &Ledger, game_id: i128, bet: BetKey) -> (r: i128)
    ensures
        r == tally_at(env@.not_assessed, game_id).trust.at(bet),
{
    read_tally(&env.not_assessed, game_id).trust.get(bet)
}

/// Adds a bet and its collateral to the approvers' tally of room `game_id`.
pub fn add_approve_total(env: &mut Ledger, game_id: i128, Amount: i128, bet: BetKey, collateralusd: bool, collateral: i128)
    requires
        tally_plus_fits(tally_at(old(env)@.approved, game_id), bet, Amount as int, collateralusd, collateral as int),
    ensures
        final(env)@ == (LedgerView {
            approved: old(env)@.approved.insert(
                game_id,
                tally_plus(tally_at(old(env)@.approved, game_id), bet, Amount as int, collateralusd, collateral as int),
            ),
            ..old(env)@
        }),
{
    tally_add(&mut env.approved, game_id, Amount, bet, collateralusd, collateral, false);
}

/// The approvers' bets on `bet` in room `game_id`.
pub fn get_approve_total(env: &Ledger, game_id: i128, bet: BetKey) -> (r: i128)
    ensures
        r == tally_at(env@.approved, game_id).amount.at(bet),
{
    read_tally(&env.approved, game_id).amount.get(bet)
}

/// The TRUST collateral of the approvers' bets on `bet` in room `game_id`.
pub fn get_CollateralTrust_approve_total(env: &Ledger, game_id: i128, bet: BetKey) -> (r: i128)
    ensures
        r == tally_at(env@.approved, game_id).trust.at(bet),
{
    read_tally(&env.approved, game_id).trust.get(bet)
}

/// The USD collateral of the approvers' bets on `bet` in room `game_id`.
pub fn get_CollateralUsd_approve_total(env: &Ledger, game_id: i128, bet: BetKey) -> (r: i128)
    ensures
        r == tally_at(env@.approved, game_id).usd.at(bet),
{
    read_tally(&env.approved, game_id).usd.get(bet)
}

/// Adds a bet and its collateral to the rejecters' tally of room `game_id`.
pub fn add_reject_total(env: &mut Ledger, game_id: i128, Amount: i128, bet: BetKey, collateralusd: bool, collateral: i128)
    requires
        tally_plus_fits(tally_at(old(env)@.rejected, game_id), bet, Amount as int, collateralusd, collateral as int),
    ensures
        final(env)@ == (LedgerView {
            rejected: old(env)@.rejected.insert(
                game_id,
                tally_plus(tally_at(old(env)@.rejected, game_id), bet, Amount as int, collateralusd, collateral as int),
            ),
            ..old(env)@
        }),
{
    tally_add(&mut env.rejected, game_id, Amount, bet, collateralusd, collateral, false);
}

/// The rejecters' bets on `bet` in room `game_id`.
pub fn get_reject_total(env: &Ledger, game_id: i128, bet: BetKey) -> (r: i128)
    ensures
        r == tally_at(env@.rejected, game_id).amount.at(bet),
{
    read_tally(&env.rejected, game_id).amount.get(bet)
}

/// The TRUST collateral of the rejecters' bets on `bet` in room `game_id`.
pub fn get_CollateralTrust_reject_total(env: &Ledger, game_id: i128, bet: BetKey) -> (r: i128)
    ensures
        r == tally_at(env@.rejected, game_id).trust.at(bet),
{
    read_tally(&env.rejected, game_id).trust.get(bet)
}

/// The USD collateral of the rejecters' bets on `bet` in room `game_id`.
pub fn get_CollateralUsd_reject_total(env: &Ledger, game_id: i128, bet: BetKey) -> (r: i128)
    ensures
        r == tally_at(env@.rejected, game_id).usd.at(bet),
{
    read_tally(&env.rejected, game_id).usd.get(bet)
}

/// Stores the pool shared out in room `game_id`.
pub fn set_pool_total(env: &mut Ledger, game_id: i128, amount: i128)
    ensures
        final(env)@ == (LedgerView { pools: old(env)@.pools.insert(game_id, amount), ..old(env)@ }),
{
    env.pools.insert(game_id, amount);
}

/// The pool shared out in room `game_id`.
pub fn get_pool_total(env: &Ledger, game_id: i128) -> (r: i128)
    ensures
        r == int_at(env@.pools, game_id),
{
    read_int(&env.pools, game_id)
}

/// Stores the complaint code of room `game_id`.
pub fn save_complain(env: &mut Ledger, game_id: i128, complain: i128)
    ensures
        final(env)@ == (LedgerView { complains: old(env)@.complains.insert(game_id, complain), ..old(env)@ }),
{
    env.complains.insert(game_id, complain);
}

/// The complaint code of room `game_id`.
pub fn get_complain(env: &Ledger, game_id: i128) -> (r: i128)
    ensures
        r == int_at(env@.complains, game_id),
{
    read_int(&env.complains, game_id)
}

/// Stores the winners' pool of room `game_id`.
pub fn save_winnerPool(env: &mut Ledger, game_id: i128, amount: i128)
    ensures
        final(env)@ == (LedgerView { winner_pools: old(env)@.winner_pools.insert(game_id, amount), ..old(env)@ }),
{
    env.winner_pools.insert(game_id, amount);
}

/// The winners' pool of room `game_id`.
pub fn get_winnerPool(env: &Ledger, game_id: i128) -> (r: i128)
    ensures
        r == int_at(env@.winner_pools, game_id),
{
    read_int(&env.winner_pools, game_id)
}

/// Stores the honest losers' pool of room `game_id`.
pub fn save_loserPool(env: &mut Ledger, game_id: i128, amount: i128)
    ensures
        final(env)@ == (LedgerView { loser_pools: old(env)@.loser_pools.insert(game_id, amount), ..old(env)@ }),
{
    env.loser_pools.insert(game_id, amount);
}

/// The honest losers' pool of room `game_id`.
pub fn get_loserPool(env: &Ledger, game_id: i128) -> (r: i128)
    ensures
        r == int_at(env@.loser_pools, game_id),
{
    read_int(&env.loser_pools, game_id)
}

/// Records that `user` withdrew from room `game_id`.
pub fn set_didUserWithdraw(env: &mut Ledger, user: AccountId, game_id: i128)
    ensures
        final(env)@ == (LedgerView { withdrawn: old(env)@.withdrawn.insert((user, game_id), true), ..old(env)@ }),
{
    env.withdrawn.insert(user, game_id, true);
}

/// Whether `user` withdrew from room `game_id`.
pub fn get_didUserWithdraw(env: &Ledger, user: AccountId, game_id: i128) -> (r: bool)
    ensures
        r == flag_at(env@.withdrawn, (user, game_id)),
{
    match env.withdrawn.get(user, game_id) {
        Some(b) => *b,
        None => false,
    }
}

/// Records that `user` took their court reward for game `game_id`.
pub fn set_didUserWithdrawSupreme(env: &mut Ledger, user: AccountId, game_id: i128)
    ensures
        final(env)@ == (LedgerView {
            supreme_withdrawn: old(env)@.supreme_withdrawn.insert((user, game_id), true),
            ..old(env)@
        }),
{
    env.supreme_withdrawn.insert(user, game_id, true);
}

/// Whether `user` took their court reward for game `game_id`.
pub fn get_didUserWithdrawSupreme(env: &Ledger, user: AccountId, game_id: i128) -> (r: bool)
    ensures
        r == flag_at(env@.supreme_withdrawn, (user, game_id)),
{
    match env.supreme_withdrawn.get(user, game_id) {
        Some(b) => *b,
        None => false,
    }
}

/// Records that `user` assessed the result of room `setting`.
pub fn set_userAssessed(env: &mut Ledger, user: AccountId, setting: i128)
    ensures
        final(env)@ == (LedgerView { assessed: old(env)@.assessed.insert((user, setting), true), ..old(env)@ }),
{
    env.assessed.insert(user, setting, true);
}

/// Whether `user` assessed the result of room `setting`.
pub fn get_userAssessed(env: &Ledger, user: AccountId, setting: i128) -> (r: bool)
    ensures
        r == flag_at(env@.assessed, (user, setting)),
{
    match env.assessed.get(user, setting) {
        Some(b) => *b,
        None => false,
    }
}

} // verus!
