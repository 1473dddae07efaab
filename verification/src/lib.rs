//! Estimates the frequency of poker hand categories by dealing random
//! seven-card hands from a standard 52-card deck, classifying each hand
//! into exactly one of the ten standard categories, and aggregating the
//! per-category counts across many independent trials.

pub mod card;
pub mod count;
pub mod classify;
pub mod tally;
pub mod engine;
