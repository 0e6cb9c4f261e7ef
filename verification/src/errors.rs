use vstd::prelude::*;

verus! {

/// Failures of the lending pool.
#[derive(Clone, Copy, Debug, PartialEq, Eq, Structural)]
pub enum PoolError {
    AlreadyInitialized,
    NegativeAmount,
    Unauthorized,
    InvalidPoolStatus,
    InvalidHf,
    InvalidUtilRate,
    MaxPositionsExceeded,
    BadRequest,
    /// A fixed-point operation left the 128-bit range or divided by zero.
    MathOverflow,
    AuctionInProgress,
    InvalidLiquidation,
    InvalidBid,
    InvalidLot,
    InterestTooSmall,
}

impl PoolError {
    /// The stable numeric code of the failure.
    pub open spec fn spec_code(self) -> u32 {
        match self {
            PoolError::AlreadyInitialized => 1,
            PoolError::NegativeAmount => 2,
            PoolError::Unauthorized => 3,
            PoolError::InvalidPoolStatus => 4,
            PoolError::InvalidHf => 5,
            PoolError::InvalidUtilRate => 6,
            PoolError::MaxPositionsExceeded => 7,
            PoolError::BadRequest => 8,
            PoolError::MathOverflow => 9,
            PoolError::AuctionInProgress => 100,
            PoolError::InvalidLiquidation => 101,
            PoolError::InvalidBid => 102,
            PoolError::InvalidLot => 102,
            PoolError::InterestTooSmall => 103,
        }
    }

    /// The stable numeric code of the failure.
    pub fn code(self) -> (c: u32)
        ensures
            c == self.spec_code(),
    {
        match self {
            PoolError::AlreadyInitialized => 1,
            PoolError::NegativeAmount => 2,
            PoolError::Unauthorized => 3,
            PoolError::InvalidPoolStatus => 4,
            PoolError::InvalidHf => 5,
            PoolError::InvalidUtilRate => 6,
            PoolError::MaxPositionsExceeded => 7,
            PoolError::BadRequest => 8,
            PoolError::MathOverflow => 9,
            PoolError::AuctionInProgress => 100,
            PoolError::InvalidLiquidation => 101,
            PoolError::InvalidBid => 102,
            PoolError::InvalidLot => 102,
            PoolError::InterestTooSmall => 103,
        }
    }
}

/// Failures of the backstop.
#[derive(Clone, Copy, Debug, PartialEq, Eq, Structural)]
pub enum BackstopError {
    AlreadyInitialized,
    NegativeAmount,
    Unauthorized,
    BadRequest,
    /// A fixed-point operation left the 128-bit range or divided by zero.
    MathOverflow,
    NotPool,
    NotExpired,
    NotEnoughIdleFunds,
}

impl BackstopError {
    /// The stable numeric code of the failure.
    pub open spec fn spec_code(self) -> u32 {
        match self {
            BackstopError::AlreadyInitialized => 1,
            BackstopError::NegativeAmount => 2,
            BackstopError::Unauthorized => 3,
            BackstopError::BadRequest => 8,
            BackstopError::MathOverflow => 9,
            BackstopError::NotPool => 200,
            BackstopError::NotExpired => 200,
            BackstopError::NotEnoughIdleFunds => 200,
        }
    }

    /// The stable numeric code of the failure.
    pub fn code(self) -> (c: u32)
        ensures
            c == self.spec_code(),
    {
        match self {
            BackstopError::AlreadyInitialized => 1,
            BackstopError::NegativeAmount => 2,
            BackstopError::Unauthorized => 3,
            BackstopError::BadRequest => 8,
            BackstopError::MathOverflow => 9,
            BackstopError::NotPool => 200,
            BackstopError::NotExpired => 200,
            BackstopError::NotEnoughIdleFunds => 200,
        }
    }
}

} // verus!
