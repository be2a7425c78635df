//! The records that the ledger stores and the values that calls exchange.
use vstd::prelude::*;

verus! {

/// An account (a user, the admin, the court, a token or this contract),
/// identified by a number.
pub type AccountId = u64;

/// The account that stands for "nobody": the all-zero account.
pub const DUMMY_ACCOUNT: AccountId = 0;

/// The outcome a bet is placed on, and the outcome a result reports.
#[derive(Clone, Copy, Debug, PartialEq, Eq, Structural)]
pub enum BetKey {
    Team_local,
    Team_away,
    Tie,
    Cancel,
}

/// A vote on a submitted result.
#[derive(Clone, Copy, Debug, PartialEq, Eq, Structural)]
pub enum AssessmentKey {
    approve,
    reject,
}

/// Who claims money: a member of the supreme court, the protocol, or a bettor.
#[derive(Clone, Copy, Debug, PartialEq, Eq, Structural)]
pub enum ClaimType {
    Supreme,
    Protocol,
    User,
}

/// A scheduled game that rooms can bet on.
#[derive(Debug, PartialEq, Eq)]
pub struct Game {
    pub id: i128,
    pub active: bool,
    pub league: i128,
    pub description: String,
    pub team_local: i128,
    pub team_away: i128,
    pub startTime: u32,
    pub endTime: u32,
}

/// A game, with its description as a sequence of characters.
pub struct GameView {
    pub id: i128,
    pub active: bool,
    pub league: i128,
    pub description: Seq<char>,
    pub team_local: i128,
    pub team_away: i128,
    pub startTime: u32,
    pub endTime: u32,
}

impl View for Game {
    type V = GameView;

    open spec fn view(&self) -> GameView {
        GameView {
            id: self.id,
            active: self.active,
            league: self.league,
            description: self.description@,
            team_local: self.team_local,
            team_away: self.team_away,
            startTime: self.startTime,
            endTime: self.endTime,
        }
    }
}

impl Clone for Game {
    fn clone(&self) -> (r: Self)
        ensures
            r@ == self@,
    {
        Game {
            id: self.id,
            active: self.active,
            league: self.league,
            description: self.description.clone(),
            team_local: self.team_local,
            team_away: self.team_away,
            startTime: self.startTime,
            endTime: self.endTime,
        }
    }
}

/// A result submitted for a room (or, for the court, for a game).
#[derive(Debug, PartialEq, Eq)]
pub struct ResultGame {
    pub id: i128,
    pub gameid: i128,
    pub setting: i128,
    pub description: String,
    pub result: BetKey,
    pub pause: bool,
    pub distribution_executed: bool,
}

/// A result, with its description as a sequence of characters.
pub struct ResultGameView {
    pub id: i128,
    pub gameid: i128,
    pub setting: i128,
    pub description: Seq<char>,
    pub result: BetKey,
    pub pause: bool,
    pub distribution_executed: bool,
}

impl View for ResultGame {
    type V = ResultGameView;

    open spec fn view(&self) -> ResultGameView {
        ResultGameView {
            id: self.id,
            gameid: self.gameid,
            setting: self.setting,
            description: self.description@,
            result: self.result,
            pause: self.pause,
            distribution_executed: self.distribution_executed,
        }
    }
}

impl Clone for ResultGame {
    fn clone(&self) -> (r: Self)
        ensures
            r@ == self@,
    {
        ResultGame {
            id: self.id,
            gameid: self.gameid,
            setting: self.setting,
            description: self.description.clone(),
            result: self.result,
            pause: self.pause,
            distribution_executed: self.distribution_executed,
        }
    }
}

/// The supreme court's tally of votes for a game.
#[derive(Clone, Copy, Debug, PartialEq, Eq, Structural)]
pub struct CountVotesResult {
    pub id: i128,
    pub gameid: i128,
    pub aproved: i128,
    pub rejected: i128,
}

/// Who approved and who rejected the result of a room.
#[derive(Debug, PartialEq, Eq)]
pub struct ResultAssessment {
    pub id: i128,
    pub gameid: i128,
    pub setting: i128,
    pub UsersApprove: Vec<AccountId>,
    pub UsersReject: Vec<AccountId>,
}

/// An assessment, with its voter lists as sequences.
pub struct ResultAssessmentView {
    pub id: i128,
    pub gameid: i128,
    pub setting: i128,
    pub UsersApprove: Seq<AccountId>,
    pub UsersReject: Seq<AccountId>,
}

impl View for ResultAssessment {
    type V = ResultAssessmentView;

    open spec fn view(&self) -> ResultAssessmentView {
        ResultAssessmentView {
            id: self.id,
            gameid: self.gameid,
            setting: self.setting,
            UsersApprove: self.UsersApprove@,
            UsersReject: self.UsersReject@,
        }
    }
}

impl Clone for ResultAssessment {
    fn clone(&self) -> (r: Self)
        ensures
            r@ == self@,
    {
        let a = self.UsersApprove.clone();
        let b = self.UsersReject.clone();
        assert(a@ =~= self.UsersApprove@);
        assert(b@ =~= self.UsersReject@);
        ResultAssessment {
            id: self.id,
            gameid: self.gameid,
            setting: self.setting,
            UsersApprove: a,
            UsersReject: b,
        }
    }
}

/// Which members of the supreme court have voted on a game.
#[derive(Debug, PartialEq, Eq)]
pub struct ResultAssessmentSupreme {
    pub id: i128,
    pub gameid: i128,
    pub Admin: bool,
    pub ExternalUser: bool,
    pub countHonestyUsers: Vec<AccountId>,
}

/// A court assessment, with its list of honest voters as a sequence.
pub struct ResultAssessmentSupremeView {
    pub id: i128,
    pub gameid: i128,
    pub Admin: bool,
    pub ExternalUser: bool,
    pub countHonestyUsers: Seq<AccountId>,
}

impl View for ResultAssessmentSupreme {
    type V = ResultAssessmentSupremeView;

    open spec fn view(&self) -> ResultAssessmentSupremeView {
        ResultAssessmentSupremeView {
            id: self.id,
            gameid: self.gameid,
            Admin: self.Admin,
            ExternalUser: self.ExternalUser,
            countHonestyUsers: self.countHonestyUsers@,
        }
    }
}

impl Clone for ResultAssessmentSupreme {
    fn clone(&self) -> (r: Self)
        ensures
            r@ == self@,
    {
        let c = self.countHonestyUsers.clone();
        assert(c@ =~= self.countHonestyUsers@);
        ResultAssessmentSupreme {
            id: self.id,
            gameid: self.gameid,
            Admin: self.Admin,
            ExternalUser: self.ExternalUser,
            countHonestyUsers: c,
        }
    }
}

/// A private betting room on a game.
#[derive(Debug, PartialEq, Eq)]
pub struct PrivateBet {
    pub id: i128,
    pub gameid: i128,
    pub active: bool,
    pub settingAdmin: AccountId,
    pub description: String,
    pub amount_bet_min: i128,
    pub users_invated: Vec<AccountId>,
}

/// A room, with its description and invitation list as sequences.
pub struct PrivateBetView {
    pub id: i128,
    pub gameid: i128,
    pub active: bool,
    pub settingAdmin: AccountId,
    pub description: Seq<char>,
    pub amount_bet_min: i128,
    pub users_invated: Seq<AccountId>,
}

impl View for PrivateBet {
    type V = PrivateBetView;

    open spec fn view(&self) -> PrivateBetView {
        PrivateBetView {
            id: self.id,
            gameid: self.gameid,
            active: self.active,
            settingAdmin: self.settingAdmin,
            description: self.description@,
            amount_bet_min: self.amount_bet_min,
            users_invated: self.users_invated@,
        }
    }
}

impl Clone for PrivateBet {
    fn clone(&self) -> (r: Self)
        ensures
            r@ == self@,
    {
        let u = self.users_invated.clone();
        assert(u@ =~= self.users_invated@);
        PrivateBet {
            id: self.id,
            gameid: self.gameid,
            active: self.active,
            settingAdmin: self.settingAdmin,
            description: self.description.clone(),
            amount_bet_min: self.amount_bet_min,
            users_invated: u,
        }
    }
}

/// The first outcome bet in a room, which decides when the room turns active.
#[derive(Clone, Copy, Debug, PartialEq, Eq, Structural)]
pub struct LastB {
    pub id: i128,
    pub lastBet: BetKey,
}

/// A bet of one user in one room.
#[derive(Clone, Copy, Debug, PartialEq, Eq, Structural)]
pub struct Bet {
    pub id: i128,
    pub gameid: i128,
    pub Setting: i128,
    pub bet: BetKey,
    pub amount_bet: i128,
    pub collateralUsd: bool,
}

/// One amount for each of the four outcomes.
#[derive(Clone, Copy, Debug, PartialEq, Eq, Structural)]
pub struct KeyAmounts {
    pub local: i128,
    pub away: i128,
    pub tie: i128,
    pub cancel: i128,
}

impl KeyAmounts {
    /// The amount kept for outcome `k`.
    pub open spec fn at(self, k: BetKey) -> i128 {
        match k {
            BetKey::Team_local => self.local,
            BetKey::Team_away => self.away,
            BetKey::Tie => self.tie,
            BetKey::Cancel => self.cancel,
        }
    }

    /// The same amounts, with outcome `k` set to `v`.
    pub open spec fn put(self, k: BetKey, v: i128) -> KeyAmounts {
        match k {
            BetKey::Team_local => KeyAmounts { local: v, ..self },
            BetKey::Team_away => KeyAmounts { away: v, ..self },
            BetKey::Tie => KeyAmounts { tie: v, ..self },
            BetKey::Cancel => KeyAmounts { cancel: v, ..self },
        }
    }

    /// All four amounts zero.
    pub fn zero() -> (r: Self)
        ensures
            r == (KeyAmounts { local: 0, away: 0, tie: 0, cancel: 0 }),
            forall|k: BetKey| #[trigger] r.at(k) == 0,
    {
        KeyAmounts { local: 0, away: 0, tie: 0, cancel: 0 }
    }

    /// The amount kept for outcome `k`.
    pub fn get(&self, k: BetKey) -> (r: i128)
        ensures
            r == self.at(k),
    {
        match k {
            BetKey::Team_local => self.local,
            BetKey::Team_away => self.away,
            BetKey::Tie => self.tie,
            BetKey::Cancel => self.cancel,
        }
    }

    /// The same amounts, with outcome `k` set to `v`.
    pub fn with(self, k: BetKey, v: i128) -> (r: Self)
        ensures
            r == self.put(k, v),
            r.at(k) == v,
            forall|j: BetKey| j != k ==> #[trigger] r.at(j) == self.at(j),
    {
        match k {
            BetKey::Team_local => KeyAmounts { local: v, ..self },
            BetKey::Team_away => KeyAmounts { away: v, ..self },
            BetKey::Tie => KeyAmounts { tie: v, ..self },
            BetKey::Cancel => KeyAmounts { cancel: v, ..self },
        }
    }
}

impl View for KeyAmounts {
    type V = KeyAmounts;

    open spec fn view(&self) -> KeyAmounts {
        *self
    }
}

impl View for Bet {
    type V = Bet;

    open spec fn view(&self) -> Bet {
        *self
    }
}

impl View for LastB {
    type V = LastB;

    open spec fn view(&self) -> LastB {
        *self
    }
}

impl View for CountVotesResult {
    type V = CountVotesResult;

    open spec fn view(&self) -> CountVotesResult {
        *self
    }
}

} // verus!
