//! The contract's persistent state, and its model as maps and sequences.
use crate::table::{PairTable, Table};
use crate::types::{
    AccountId, Bet, BetKey, CountVotesResult, Game, GameView, KeyAmounts, LastB, PrivateBet,
    PrivateBetView, ResultAssessment, ResultAssessmentSupreme, ResultAssessmentSupremeView,
    ResultAssessmentView, ResultGame, ResultGameView, DUMMY_ACCOUNT,
};
use vstd::prelude::*;

verus! {

/// The configuration stored once by the constructor.
#[derive(Clone, Copy, Debug, PartialEq, Eq)]
pub struct Config {
    pub admin: AccountId,
    pub admin_pubkey: [u8; 32],
    pub token_usd: AccountId,
    pub token_trust: AccountId,
    pub supreme_court: AccountId,
}

/// Per outcome, the bet amounts and the USD and TRUST collateral of one group
/// of bettors (those who have not voted, those who approved, those who
/// rejected).
#[derive(Clone, Copy, Debug, PartialEq, Eq)]
pub struct Tally {
    pub amount: KeyAmounts,
    pub usd: KeyAmounts,
    pub trust: KeyAmounts,
}

impl View for Tally {
    type V = Tally;

    open spec fn view(&self) -> Tally {
        *self
    }
}

/// The tally with every amount zero.
pub open spec fn zero_tally() -> Tally {
    let z = KeyAmounts { local: 0, away: 0, tie: 0, cancel: 0 };
    Tally { amount: z, usd: z, trust: z }
}

/// `t` with `amount` added to the bets on `bet`, and `collateral` added to
/// the USD collateral when `usd` holds and to the TRUST collateral otherwise.
pub open spec fn tally_plus(t: Tally, bet: BetKey, amount: int, usd: bool, collateral: int) -> Tally {
    let a = t.amount.put(bet, (t.amount.at(bet) + amount) as i128);
    if usd {
        Tally { amount: a, usd: t.usd.put(bet, (t.usd.at(bet) + collateral) as i128), trust: t.trust }
    } else {
        Tally { amount: a, usd: t.usd, trust: t.trust.put(bet, (t.trust.at(bet) + collateral) as i128) }
    }
}

/// `tally_plus` can be computed without leaving the range of `i128`.
pub open spec fn tally_plus_fits(t: Tally, bet: BetKey, amount: int, usd: bool, collateral: int) -> bool {
    &&& fits_i128(t.amount.at(bet) + amount)
    &&& usd ==> fits_i128(t.usd.at(bet) + collateral)
    &&& !usd ==> fits_i128(t.trust.at(bet) + collateral)
}

/// The contract's storage.
pub struct Ledger {
    pub config: Option<Config>,
    pub supreme_honesty: Vec<AccountId>,
    pub leaderboard: Vec<(AccountId, i128)>,
    pub summiters: Table<i128, AccountId>,
    pub stake_user: Table<AccountId, i128>,
    pub stake_user_game: PairTable<i128>,
    pub stake_min: i128,
    pub private_lists: Table<i128, Vec<i128>>,
    pub bets: PairTable<Bet>,
    pub last_bets: Table<i128, LastB>,
    pub private_bets: Table<i128, PrivateBet>,
    pub games: Table<i128, Game>,
    pub honesty: Table<AccountId, i128>,
    pub users_amount: Table<i128, i128>,
    pub users_amount_game: Table<i128, i128>,
    pub users_voted: Table<i128, i128>,
    pub users_voted_game: Table<i128, i128>,
    pub total_bet: Table<i128, i128>,
    pub result_counts: Table<i128, KeyAmounts>,
    pub results: Table<i128, ResultGame>,
    pub supreme_results: Table<i128, ResultGame>,
    pub bet_users: Table<i128, Vec<AccountId>>,
    pub claim_supreme: Table<i128, i128>,
    pub claim_protocol: i128,
    pub claim_protocol_trust: i128,
    pub assessments: Table<i128, ResultAssessment>,
    pub supreme_assessments: Table<i128, ResultAssessmentSupreme>,
    pub supreme_votes: Table<i128, CountVotesResult>,
    pub not_assessed: Table<i128, Tally>,
    pub approved: Table<i128, Tally>,
    pub rejected: Table<i128, Tally>,
    pub pools: Table<i128, i128>,
    pub complains: Table<i128, i128>,
    pub winner_pools: Table<i128, i128>,
    pub loser_pools: Table<i128, i128>,
    pub withdrawn: PairTable<bool>,
    pub supreme_withdrawn: PairTable<bool>,
    pub assessed: PairTable<bool>,
}

/// The storage as maps and sequences of plain values.
pub struct LedgerView {
    pub config: Option<Config>,
    pub supreme_honesty: Seq<AccountId>,
    pub leaderboard: Seq<(AccountId, i128)>,
    pub summiters: Map<i128, AccountId>,
    pub stake_user: Map<AccountId, i128>,
    pub stake_user_game: Map<(AccountId, i128), i128>,
    pub stake_min: i128,
    pub private_lists: Map<i128, Seq<i128>>,
    pub bets: Map<(AccountId, i128), Bet>,
    pub last_bets: Map<i128, LastB>,
    pub private_bets: Map<i128, PrivateBetView>,
    pub games: Map<i128, GameView>,
    pub honesty: Map<AccountId, i128>,
    pub users_amount: Map<i128, i128>,
    pub users_amount_game: Map<i128, i128>,
    pub users_voted: Map<i128, i128>,
    pub users_voted_game: Map<i128, i128>,
    pub total_bet: Map<i128, i128>,
    pub result_counts: Map<i128, KeyAmounts>,
    pub results: Map<i128, ResultGameView>,
    pub supreme_results: Map<i128, ResultGameView>,
    pub bet_users: Map<i128, Seq<AccountId>>,
    pub claim_supreme: Map<i128, i128>,
    pub claim_protocol: i128,
    pub claim_protocol_trust: i128,
    pub assessments: Map<i128, ResultAssessmentView>,
    pub supreme_assessments: Map<i128, ResultAssessmentSupremeView>,
    pub supreme_votes: Map<i128, CountVotesResult>,
    pub not_assessed: Map<i128, Tally>,
    pub approved: Map<i128, Tally>,
    pub rejected: Map<i128, Tally>,
    pub pools: Map<i128, i128>,
    pub complains: Map<i128, i128>,
    pub winner_pools: Map<i128, i128>,
    pub loser_pools: Map<i128, i128>,
    pub withdrawn: Map<(AccountId, i128), bool>,
    pub supreme_withdrawn: Map<(AccountId, i128), bool>,
    pub assessed: Map<(AccountId, i128), bool>,
}

impl View for Ledger {
    type V = LedgerView;

    open spec fn view(&self) -> LedgerView {
        LedgerView {
            config: self.config,
            supreme_honesty: self.supreme_honesty@,
            leaderboard: self.leaderboard@,
            summiters: self.summiters@,
            stake_user: self.stake_user@,
            stake_user_game: self.stake_user_game@,
            stake_min: self.stake_min,
            private_lists: self.private_lists@,
            bets: self.bets@,
            last_bets: self.last_bets@,
            private_bets: self.private_bets@,
            games: self.games@,
            honesty: self.honesty@,
            users_amount: self.users_amount@,
            users_amount_game: self.users_amount_game@,
            users_voted: self.users_voted@,
            users_voted_game: self.users_voted_game@,
            total_bet: self.total_bet@,
            result_counts: self.result_counts@,
            results: self.results@,
            supreme_results: self.supreme_results@,
            bet_users: self.bet_users@,
            claim_supreme: self.claim_supreme@,
            claim_protocol: self.claim_protocol,
            claim_protocol_trust: self.claim_protocol_trust,
            assessments: self.assessments@,
            supreme_assessments: self.supreme_assessments@,
            supreme_votes: self.supreme_votes@,
            not_assessed: self.not_assessed@,
            approved: self.approved@,
            rejected: self.rejected@,
            pools: self.pools@,
            complains: self.complains@,
            winner_pools: self.winner_pools@,
            loser_pools: self.loser_pools@,
            withdrawn: self.withdrawn@,
            supreme_withdrawn: self.supreme_withdrawn@,
            assessed: self.assessed@,
        }
    }
}

/// `x` fits in an `i128`.
pub open spec fn fits_i128(x: int) -> bool {
    i128::MIN <= x <= i128::MAX
}

/// The value under `k`, or zero when there is none.
pub open spec fn int_at<K>(m: Map<K, i128>, k: K) -> i128 {
    if m.contains_key(k) {
        m[k]
    } else {
        0
    }
}

/// The flag under `k`, or `false` when there is none.
pub open spec fn flag_at<K>(m: Map<K, bool>, k: K) -> bool {
    if m.contains_key(k) {
        m[k]
    } else {
        false
    }
}

/// The tally under `k`, or the zero tally when there is none.
pub open spec fn tally_at(m: Map<i128, Tally>, k: i128) -> Tally {
    if m.contains_key(k) {
        m[k]
    } else {
        zero_tally()
    }
}

/// The amounts under `k`, or zero amounts when there are none.
pub open spec fn amounts_at(m: Map<i128, KeyAmounts>, k: i128) -> KeyAmounts {
    if m.contains_key(k) {
        m[k]
    } else {
        KeyAmounts { local: 0, away: 0, tie: 0, cancel: 0 }
    }
}

/// The sequence under `k`, or the empty sequence when there is none.
pub open spec fn seq_at<K, T>(m: Map<K, Seq<T>>, k: K) -> Seq<T> {
    if m.contains_key(k) {
        m[k]
    } else {
        Seq::empty()
    }
}

/// The game read when none is stored under an id.
pub open spec fn default_game() -> GameView {
    GameView {
        id: 0,
        active: false,
        league: 0,
        description: "No game found"@,
        team_local: 0,
        team_away: 0,
        startTime: 0,
        endTime: 0,
    }
}

/// The room read when none is stored under an id.
pub open spec fn default_private_bet() -> PrivateBetView {
    PrivateBetView {
        id: 0,
        gameid: 0,
        active: false,
        settingAdmin: DUMMY_ACCOUNT,
        description: "No private bet found"@,
        amount_bet_min: 0,
        users_invated: Seq::empty(),
    }
}

/// The result read when none is stored under an id.
pub open spec fn default_result() -> ResultGameView {
    ResultGameView {
        id: 0,
        gameid: 0,
        setting: 0,
        description: "No result found"@,
        result: BetKey::Team_local,
        pause: false,
        distribution_executed: false,
    }
}

/// The result that a pause or a distribution mark starts from when none is
/// stored.
pub open spec fn blank_result() -> ResultGameView {
    ResultGameView { description: Seq::empty(), ..default_result() }
}

/// The bet read when a user has none in a room.
pub open spec fn default_bet() -> Bet {
    Bet { id: 0, gameid: 0, Setting: 0, bet: BetKey::Team_local, amount_bet: 0, collateralUsd: false }
}

/// The assessment read when none is stored.
pub open spec fn default_assessment() -> ResultAssessmentView {
    ResultAssessmentView {
        id: 0,
        gameid: 0,
        setting: 0,
        UsersApprove: Seq::empty(),
        UsersReject: Seq::empty(),
    }
}

/// The court assessment read when none is stored.
pub open spec fn default_supreme_assessment() -> ResultAssessmentSupremeView {
    ResultAssessmentSupremeView {
        id: 0,
        gameid: 0,
        Admin: false,
        ExternalUser: false,
        countHonestyUsers: Seq::empty(),
    }
}

/// The court tally read when none is stored.
pub open spec fn default_votes() -> CountVotesResult {
    CountVotesResult { id: 0, gameid: 0, aproved: 0, rejected: 0 }
}

impl LedgerView {
    /// The constructor has stored the configuration.
    pub open spec fn initialized(self) -> bool {
        self.config is Some
    }

    pub open spec fn game(self, id: i128) -> GameView {
        if self.games.contains_key(id) {
            self.games[id]
        } else {
            default_game()
        }
    }

    pub open spec fn private_bet(self, setting: i128) -> PrivateBetView {
        if self.private_bets.contains_key(setting) {
            self.private_bets[setting]
        } else {
            default_private_bet()
        }
    }

    pub open spec fn result(self, setting: i128) -> ResultGameView {
        if self.results.contains_key(setting) {
            self.results[setting]
        } else {
            default_result()
        }
    }

    pub open spec fn supreme_result(self, gameid: i128) -> ResultGameView {
        if self.supreme_results.contains_key(gameid) {
            self.supreme_results[gameid]
        } else {
            default_result()
        }
    }

    pub open spec fn bet(self, user: AccountId, setting: i128) -> Bet {
        if self.bets.contains_key((user, setting)) {
            self.bets[(user, setting)]
        } else {
            default_bet()
        }
    }

    pub open spec fn assessment(self, setting: i128) -> ResultAssessmentView {
        if self.assessments.contains_key(setting) {
            self.assessments[setting]
        } else {
            default_assessment()
        }
    }

    pub open spec fn supreme_assessment(self, gameid: i128) -> ResultAssessmentSupremeView {
        if self.supreme_assessments.contains_key(gameid) {
            self.supreme_assessments[gameid]
        } else {
            default_supreme_assessment()
        }
    }

    pub open spec fn votes(self, gameid: i128) -> CountVotesResult {
        if self.supreme_votes.contains_key(gameid) {
            self.supreme_votes[gameid]
        } else {
            default_votes()
        }
    }

    pub open spec fn last_bet(self, setting: i128) -> LastB {
        if self.last_bets.contains_key(setting) {
            self.last_bets[setting]
        } else {
            LastB { id: 0, lastBet: BetKey::Team_local }
        }
    }

    pub open spec fn honesty_of(self, user: AccountId) -> i128 {
        int_at(self.honesty, user)
    }

    /// Whether every bettor counted for `id` has voted.
    pub open spec fn all_voted(self, id: i128) -> bool {
        int_at(self.users_voted, id) == int_at(self.users_amount, id)
    }

    /// Whether every bettor counted for `id` on the game-level counters has
    /// voted.
    pub open spec fn all_voted_game(self, id: i128) -> bool {
        int_at(self.users_voted_game, id) == int_at(self.users_amount_game, id)
    }
}

impl Ledger {
    /// A copy of the storage.
    pub fn duplicate(&self) -> (r: Ledger)
        ensures
            r@ == self@,
    {
        Ledger {
            config: self.config,
            supreme_honesty: crate::lists::copy(&self.supreme_honesty),
            leaderboard: crate::lists::copy_board(&self.leaderboard),
            summiters: self.summiters.clone(),
            stake_user: self.stake_user.clone(),
            stake_user_game: self.stake_user_game.clone(),
            stake_min: self.stake_min,
            private_lists: self.private_lists.clone(),
            bets: self.bets.clone(),
            last_bets: self.last_bets.clone(),
            private_bets: self.private_bets.clone(),
            games: self.games.clone(),
            honesty: self.honesty.clone(),
            users_amount: self.users_amount.clone(),
            users_amount_game: self.users_amount_game.clone(),
            users_voted: self.users_voted.clone(),
            users_voted_game: self.users_voted_game.clone(),
            total_bet: self.total_bet.clone(),
            result_counts: self.result_counts.clone(),
            results: self.results.clone(),
            supreme_results: self.supreme_results.clone(),
            bet_users: self.bet_users.clone(),
            claim_supreme: self.claim_supreme.clone(),
            claim_protocol: self.claim_protocol,
            claim_protocol_trust: self.claim_protocol_trust,
            assessments: self.assessments.clone(),
            supreme_assessments: self.supreme_assessments.clone(),
            supreme_votes: self.supreme_votes.clone(),
            not_assessed: self.not_assessed.clone(),
            approved: self.approved.clone(),
            rejected: self.rejected.clone(),
            pools: self.pools.clone(),
            complains: self.complains.clone(),
            winner_pools: self.winner_pools.clone(),
            loser_pools: self.loser_pools.clone(),
            withdrawn: self.withdrawn.clone(),
            supreme_withdrawn: self.supreme_withdrawn.clone(),
            assessed: self.assessed.clone(),
        }
    }

    /// Empty storage, before the constructor runs.
    pub fn new() -> (l: Self)
        ensures
            l@.config is None,
            l@.supreme_honesty.len() == 0,
            l@.leaderboard.len() == 0,
            l@.stake_min == 0,
            l@.claim_protocol == 0,
            l@.claim_protocol_trust == 0,
            l@.summiters.is_empty(),
            l@.stake_user.is_empty(),
            l@.stake_user_game.is_empty(),
            l@.private_lists.is_empty(),
            l@.bets.is_empty(),
            l@.last_bets.is_empty(),
            l@.private_bets.is_empty(),
            l@.games.is_empty(),
            l@.honesty.is_empty(),
            l@.users_amount.is_empty(),
            l@.users_amount_game.is_empty(),
            l@.users_voted.is_empty(),
            l@.users_voted_game.is_empty(),
            l@.total_bet.is_empty(),
            l@.result_counts.is_empty(),
            l@.results.is_empty(),
            l@.supreme_results.is_empty(),
            l@.bet_users.is_empty(),
            l@.claim_supreme.is_empty(),
            l@.assessments.is_empty(),
            l@.supreme_assessments.is_empty(),
            l@.supreme_votes.is_empty(),
            l@.not_assessed.is_empty(),
            l@.approved.is_empty(),
            l@.rejected.is_empty(),
            l@.pools.is_empty(),
            l@.complains.is_empty(),
            l@.winner_pools.is_empty(),
            l@.loser_pools.is_empty(),
            l@.withdrawn.is_empty(),
            l@.supreme_withdrawn.is_empty(),
            l@.assessed.is_empty(),
    {
        Ledger {
            config: None,
            supreme_honesty: Vec::new(),
            leaderboard: Vec::new(),
            summiters: Table::new(),
            stake_user: Table::new(),
            stake_user_game: PairTable::new(),
            stake_min: 0,
            private_lists: Table::new(),
            bets: PairTable::new(),
            last_bets: Table::new(),
            private_bets: Table::new(),
            games: Table::new(),
            honesty: Table::new(),
            users_amount: Table::new(),
            users_amount_game: Table::new(),
            users_voted: Table::new(),
            users_voted_game: Table::new(),
            total_bet: Table::new(),
            result_counts: Table::new(),
            results: Table::new(),
            supreme_results: Table::new(),
            bet_users: Table::new(),
            claim_supreme: Table::new(),
            claim_protocol: 0,
            claim_protocol_trust: 0,
            assessments: Table::new(),
            supreme_assessments: Table::new(),
            supreme_votes: Table::new(),
            not_assessed: Table::new(),
            approved: Table::new(),
            rejected: Table::new(),
            pools: Table::new(),
            complains: Table::new(),
            winner_pools: Table::new(),
            loser_pools: Table::new(),
            withdrawn: PairTable::new(),
            supreme_withdrawn: PairTable::new(),
            assessed: PairTable::new(),
        }
    }
}

} // verus!
