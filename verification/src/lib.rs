//! A terminal word-guessing game in the style of Wordle.
//!
//! The heart of the library is the scorer: given a target word and a guess of
//! the same length, it classifies every guessed letter as exactly placed,
//! present elsewhere in the target, or absent, with a left-to-right rule that
//! disambiguates duplicated letters.  Around it, a round state machine accepts
//! guesses, decides when a round is won or lost, and renders the board.

pub mod round;
pub mod scorer;
pub mod stats;
pub mod words;
