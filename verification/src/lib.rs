//! Three-letter word game: a generator that mixes real animal names with
//! synthesized pseudo-words, and the session rules that drive it.

pub mod catalog;
pub mod discovered;
pub mod generator;
pub mod pools;
pub mod random;
pub mod session;
pub mod words;
