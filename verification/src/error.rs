//! Why a call is refused.

use vstd::prelude::*;

verus! {

/// The reasons for which a call is refused. [`Error::code`] gives the number under
/// which callers see a reason.
#[derive(Copy, Clone, Debug, PartialEq, Eq, PartialOrd, Ord, Structural)]
pub enum Error {
    RaffleNotFound,
    RaffleInactive,
    TicketsSoldOut,
    InsufficientFunds,
    NotAuthorized,
    OracleNotSet,
    RandomnessAlreadyRequested,
    NoRandomnessRequest,
    FallbackTooEarly,
    PrizeNotDeposited,
    PrizeAlreadyClaimed,
    PrizeAlreadyDeposited,
    NotWinner,
    ClaimTooEarly,
    InvalidParameters,
    InvalidQuantity,
    InvalidStatus,
    ContractPaused,
    InvalidStateTransition,
    RaffleExpired,
    InsufficientTickets,
    MultipleTicketsNotAllowed,
    NoTicketsSold,
    TicketNotFound,
    RaffleEnded,
    ArithmeticOverflow,
    AlreadyInitialized,
    NotInitialized,
    Reentrancy,
    TokenTransferFailed,
    NoActiveTickets,
    DeadlinePassed,
    SlippageExceeded,
    InvalidIndex,
    MorePrizesThanTickets,
    ZeroPrize,
    InvalidTokenAddress,
    TooManyPrizes,
    EmergencyTooEarly,
    InvalidTicketRange,
    InsufficientAccumulatedFees,
    PrizeConfigurationLocked,
    ExceedsMaxTicketsPerTx,
    DrawingAlreadyInProgress,
    InvalidStatusForDrawingTransition,
    DrawingAlreadyComplete,
    InvalidEndTime,
    InvalidAdminAddress,
    RandomnessTooEarly,
    /// The waiting time of a scheduled cancellation has not run out.
    CancelTimelockActive,
    /// No cancellation is scheduled.
    CancelNotScheduled,
}

impl Error {
    /// The number that stands for a reason.
    pub open spec fn code_of(self) -> u32 {
        match self {
            Error::RaffleNotFound => 1,
            Error::RaffleInactive => 2,
            Error::TicketsSoldOut => 3,
            Error::InsufficientFunds => 4,
            Error::NotAuthorized => 5,
            Error::OracleNotSet => 6,
            Error::RandomnessAlreadyRequested => 7,
            Error::NoRandomnessRequest => 8,
            Error::FallbackTooEarly => 9,
            Error::PrizeNotDeposited => 11,
            Error::PrizeAlreadyClaimed => 12,
            Error::PrizeAlreadyDeposited => 13,
            Error::NotWinner => 14,
            Error::ClaimTooEarly => 15,
            Error::InvalidParameters => 21,
            Error::InvalidQuantity => 22,
            Error::InvalidStatus => 23,
            Error::ContractPaused => 24,
            Error::InvalidStateTransition => 25,
            Error::RaffleExpired => 26,
            Error::InsufficientTickets => 31,
            Error::MultipleTicketsNotAllowed => 32,
            Error::NoTicketsSold => 33,
            Error::TicketNotFound => 34,
            Error::RaffleEnded => 35,
            Error::ArithmeticOverflow => 41,
            Error::AlreadyInitialized => 42,
            Error::NotInitialized => 43,
            Error::Reentrancy => 44,
            Error::TokenTransferFailed => 45,
            Error::NoActiveTickets => 46,
            Error::DeadlinePassed => 47,
            Error::SlippageExceeded => 48,
            Error::InvalidIndex => 49,
            Error::MorePrizesThanTickets => 50,
            Error::ZeroPrize => 51,
            Error::InvalidTokenAddress => 52,
            Error::TooManyPrizes => 53,
            Error::EmergencyTooEarly => 54,
            Error::InvalidTicketRange => 55,
            Error::InsufficientAccumulatedFees => 56,
            Error::PrizeConfigurationLocked => 57,
            Error::ExceedsMaxTicketsPerTx => 58,
            Error::DrawingAlreadyInProgress => 59,
            Error::InvalidStatusForDrawingTransition => 60,
            Error::DrawingAlreadyComplete => 61,
            Error::InvalidEndTime => 62,
            Error::InvalidAdminAddress => 63,
            Error::RandomnessTooEarly => 64,
            Error::CancelTimelockActive => 65,
            Error::CancelNotScheduled => 66,
        }
    }

    /// Returns the number under which callers see this reason.
    pub fn code(self) -> (r: u32)
        ensures
            r == self.code_of(),
    {
        match self {
            Error::RaffleNotFound => 1,
            Error::RaffleInactive => 2,
            Error::TicketsSoldOut => 3,
            Error::InsufficientFunds => 4,
            Error::NotAuthorized => 5,
            Error::OracleNotSet => 6,
            Error::RandomnessAlreadyRequested => 7,
            Error::NoRandomnessRequest => 8,
            Error::FallbackTooEarly => 9,
            Error::PrizeNotDeposited => 11,
            Error::PrizeAlreadyClaimed => 12,
            Error::PrizeAlreadyDeposited => 13,
            Error::NotWinner => 14,
            Error::ClaimTooEarly => 15,
            Error::InvalidParameters => 21,
            Error::InvalidQuantity => 22,
            Error::InvalidStatus => 23,
            Error::ContractPaused => 24,
            Error::InvalidStateTransition => 25,
            Error::RaffleExpired => 26,
            Error::InsufficientTickets => 31,
            Error::MultipleTicketsNotAllowed => 32,
            Error::NoTicketsSold => 33,
            Error::TicketNotFound => 34,
            Error::RaffleEnded => 35,
            Error::ArithmeticOverflow => 41,
            Error::AlreadyInitialized => 42,
            Error::NotInitialized => 43,
            Error::Reentrancy => 44,
            Error::TokenTransferFailed => 45,
            Error::NoActiveTickets => 46,
            Error::DeadlinePassed => 47,
            Error::SlippageExceeded => 48,
            Error::InvalidIndex => 49,
            Error::MorePrizesThanTickets => 50,
            Error::ZeroPrize => 51,
            Error::InvalidTokenAddress => 52,
            Error::TooManyPrizes => 53,
            Error::EmergencyTooEarly => 54,
            Error::InvalidTicketRange => 55,
            Error::InsufficientAccumulatedFees => 56,
            Error::PrizeConfigurationLocked => 57,
            Error::ExceedsMaxTicketsPerTx => 58,
            Error::DrawingAlreadyInProgress => 59,
            Error::InvalidStatusForDrawingTransition => 60,
            Error::DrawingAlreadyComplete => 61,
            Error::InvalidEndTime => 62,
            Error::InvalidAdminAddress => 63,
            Error::RandomnessTooEarly => 64,
            Error::CancelTimelockActive => 65,
            Error::CancelNotScheduled => 66,
        }
    }
}

} // verus!
