//! Escrow and settlement of fixed-stake prediction markets on a three-way
//! match outcome: markets are created, joined with one stake per user,
//! resolved once after the match, and each winner withdraws an equal share of
//! the pool net of the creator and platform fees, once. A registry counts the
//! markets it creates, and a per-user record folds in settled results.
//!
//! The clock and the movement of funds stay with the caller: each operation
//! takes the current time and reports, through the event it returns, the
//! transfer that the caller carries out.

pub mod address;
pub mod events;
pub mod factory;
pub mod fees;
pub mod instructions;
pub mod lifecycle;
pub mod market;
pub mod stats;
