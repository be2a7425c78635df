//! What a call hands back: its failures, the token transfers it asks for and
//! the events it publishes.
use crate::types::{AccountId, BetKey};
use vstd::prelude::*;

verus! {

/// The errors with which the contract rejects a call.
#[derive(Clone, Copy, Debug, PartialEq, Eq, Structural)]
pub enum BettingError {
    AlreadyInitializedError,
    BetAlready,
    InvalidInputError,
    GameDoesNotExist,
    GameHasAlreadyStarted,
    SettingBetDoesNotExist,
    PrivateBet_NotAllowToBet,
    PrivateBet_NotEnoughToBet,
    NoBetHasBeenFound,
    UserAlreadyClaimed,
    GameIsActive,
    NothingToClaim,
    GameHasAlreadySet,
    BetNotFound,
    GameResultAlreadySet,
    GameHasNotFinished,
    GameSumitionHasFinished,
    GameAssesmentHasFinished,
    GameResultNotFound,
    UserCannotVote,
    UnauthorizedError,
    NotAllowToSummitResult,
    GameResultAlreadyExecuted,
    UserhasAlreadyVoted,
    SettingNotActive,
    GameNoResult,
    GameHasBeenPaused,
    GameHasAlreadyBeenExecuted,
}

/// The ways a call stops without a contract error: an explicit panic, an
/// arithmetic trap, or a failed signature check by the host.
#[derive(Clone, Copy, Debug, PartialEq, Eq, Structural)]
pub enum PanicReason {
    /// "contract not initialized": the configuration was never stored.
    NotInitialized,
    /// "No bet found for this user".
    NoBetForUser,
    /// "Private setting with this ID already exists".
    PrivateSettingAlreadyExists,
    /// An `i128` or `u32` sum, difference or product leaves its range.
    ArithmeticOverflow,
    /// A division by zero.
    DivisionByZero,
    /// The admin's ed25519 signature over the game does not verify.
    InvalidSignature,
}

/// Why a call failed.
#[derive(Clone, Copy, Debug, PartialEq, Eq, Structural)]
pub enum Failure {
    Error(BettingError),
    Panic(PanicReason),
}

/// A transfer of `amount` units of the token at account `token`.
#[derive(Clone, Copy, Debug, PartialEq, Eq, Structural)]
pub struct Transfer {
    pub token: AccountId,
    pub from: AccountId,
    pub to: AccountId,
    pub amount: i128,
}

/// The events the contract publishes.
#[derive(Debug, PartialEq, Eq)]
pub enum BettingEvent {
    /// A room turned active (its bettors disagree).
    ActiveSetting { gameid: i128, setting: i128 },
    /// A user's honesty points and place on the leaderboard.
    UserHonestyPoints { user: AccountId, points: i128, position: u32 },
    /// A game was scheduled.
    GameSet { game_id: i128 },
    /// A room was opened.
    PrivateSetting { game_id: i128, setting: i128, admin: AccountId, amount_bet_min: i128 },
    /// A user was invited to a room.
    NewUserAddedPrivate { game_id: i128, setting: i128, user: AccountId },
    /// A result was submitted for a room.
    GameResult { setting: i128, result: BetKey, description: String },
    /// A result was rejected by a bettor of the room.
    GameResultReject { setting: i128 },
    /// Every bettor of a room has voted.
    AllVoteSetting { setting: i128 },
    /// Every bettor of a game has voted.
    AllVoteGame { game_id: i128 },
    /// The court confirmed a result for a game.
    GameResultSupreme { game_id: i128, result: BetKey },
    /// The court removed the result it had been given.
    GameResultBySupremeRemoved { game_id: i128, result: BetKey },
    /// The court's reward out of a distribution.
    SupremeReward { game_id: i128, amount: i128 },
    /// A room's pools were distributed.
    GameSettingDistributed { setting: i128 },
}

/// What a successful call asks its caller to carry out and publish.
pub struct Effects {
    pub transfers: Vec<Transfer>,
    pub events: Vec<BettingEvent>,
}

impl Effects {
    /// No transfers and no events.
    pub fn new() -> (e: Self)
        ensures
            e.transfers@ == Seq::<Transfer>::empty(),
            e.events@ == Seq::<BettingEvent>::empty(),
    {
        Effects { transfers: Vec::new(), events: Vec::new() }
    }
}

} // verus!
