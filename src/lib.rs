//! A token-vesting program: a binary instruction codec, derived-address
//! validation, a fixed-layout record of release schedules, and the four
//! state transitions that lock tokens and release them over time.
pub mod pubkey;
pub mod error;
pub mod bytes;
pub mod state;
pub mod instruction;
pub mod token;
pub mod processor;
pub mod parser;
