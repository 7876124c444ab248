//! Verified core of three ledger programs: a constant-product AMM, a Dutch auction and a
//! dual-signed time lock. Each instruction is a pure transition over plain balances,
//! with the account layouts, instruction wire format and PDA re-derivation beside it.

pub mod account;
pub mod address;
pub mod amm;
pub mod auction;
pub mod error;
pub mod instruction;
pub mod lock;
pub mod math;
pub mod pda;
