//! Why a request is refused.
use vstd::prelude::*;

verus! {

/// A refused request. The contract keeps its storage unchanged when it refuses.
#[derive(Clone, Copy, Debug, PartialEq, Eq, Structural)]
pub enum NFTError {
    /// The caller may not perform this request.
    NotAuthorized,
    /// The round was opened already (or is older than the current one).
    RoundAlreadyProcessed,
    /// The player has nothing to claim.
    NoRewardsAvailable,
    /// A round is being opened; decks cannot change.
    PotInProgress,
    /// The contract was initialized already.
    AlreadyInitialized,
    /// The contract has no administrator or configuration yet.
    NotInitialized,
    /// No level is configured.
    LevelsMissing,
    /// The player does not hold this card.
    NotNFT,
    /// The card kind has no metadata.
    MetadataMissing,
    /// An amount does not fit its type.
    Overflow,
    /// The card is held by another action.
    CardLocked,
    /// The card is not held by the action that the request needs.
    WrongLock,
    /// This category cannot take part in the action.
    InvalidCategory,
    /// No stake period has this index.
    InvalidPeriod,
    /// The card, the stake or the user has too little POWER.
    InsufficientPower,
    /// A stake, fight, lending or borrowing record is missing.
    RecordNotFound,
    /// An amount is zero, negative or too large.
    InvalidAmount,
    /// The ledger time does not fit in 32 bits.
    TimestampOverflow,
    /// The stake period has not elapsed.
    LockedPeriod,
    /// The player has too little TERRY.
    InsufficientTerry,
    /// The player's level is below the card's level.
    UserLevelTooLow,
    /// The player holds this card already.
    TokenExists,
    /// The deck holds four cards already.
    DeckFull,
    /// The deck is empty.
    DeckEmpty,
    /// A deck would hold more than four cards.
    DeckTooLarge,
    /// A deck would hold a card twice.
    DuplicateToken,
    /// The card is in the deck already.
    TokenInDeck,
    /// The card is not in the deck.
    TokenNotInDeck,
    /// The leverage is outside 1..=100.
    InvalidLeverage,
    /// The oracle price is not positive or too large.
    InvalidPrice,
    /// The position is not under water.
    NotLiquidatable,
    /// The pool has too little POWER on offer.
    InsufficientLiquidity,
    /// APY times the reserve horizon reaches one.
    InvalidHorizon,
    /// The loan exceeds what the collateral covers.
    ExceedsCollateral,
    /// The player and the collateral cannot cover the repayment.
    InsufficientFunds,
    /// Two lists that must match in length do not.
    MismatchedLengths,
    /// Too many entries in one batch.
    BatchTooLarge,
    /// A contribution is negative.
    NegativeContribution,
    /// The token is not registered.
    TokenNotRegistered,
    /// There are no fees to claim.
    NoFeesAvailable,
    /// The fee percentage is above the maximum.
    FeeTooHigh,
    /// A paged list's count does not fit in 32 bits.
    IndexFull,
    /// A formula would divide by zero.
    DivisionByZero,
}

} // verus!
