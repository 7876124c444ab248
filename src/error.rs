use vstd::prelude::*;

verus! {

/// The failure kinds of every instruction; each aborts with no state change.
#[derive(Debug, Clone, Copy, PartialEq, Eq, Structural)]
pub enum ErrorCode {
    InvalidInstructionData,
    InvalidAccount,
    MathOverflow,
    SlippageExceeded,
    InsufficientLiquidity,
    PriceExceeded,
    TooEarly,
    TooLate,
    NotExpired,
    Unauthorized,
    AlreadyExists,
    Closed,
}

} // verus!
