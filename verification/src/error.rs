use vstd::prelude::*;

verus! {

/// Every illegal transition in the engine yields one of these values; the
/// engine never aborts on malformed input. One family of variants per
/// component: Hand, Trick, Round, Turn, Game, Call.
#[derive(Debug, Clone, PartialEq, Eq, Structural)]
pub enum Error {
    // Hand errors
    NotEnoughCardsForHand,
    TooManyCardsForHand,
    SpadeNotInHand,
    FaceCardNotInHand,
    DuplicateCardInHand,
    // Trick errors
    TrickIsFull,
    TrickIsEmpty,
    TrickHasNoneCardSomeExpected,
    // Round errors
    RoundIdTooLarge,
    RoundAlreadyDealt,
    RoundOver,
    RoundExpectsTrick,
    RoundIsNotCalling,
    RoundIsNotBreaking,
    // Turn errors
    NotYourTurn,
    InvalidCardForBreak,
    // Game errors
    GameExpectsRound,
    GameNotAcceptingPlayers,
    GameWaitingForPlayersToJoin,
    GameOver,
    // Player errors
    PlayerNotFound,
    // Registry errors, used by the layer that stores games
    GameDoesnotExistError,
    CouldnotLockError,
    // Call errors, each carrying the offending bid
    CallValueTooHigh(usize),
    CallValueTooLow(usize),
}

} // verus!
