//! A terminal word-guessing game library.
//!
//! The heart of the library is the match classifier: given a secret word and
//! a guess of the same length, it produces one tag per position saying
//! whether the letter is in the right place (`Match`), present elsewhere in
//! the word (`Misplaced`), or absent (`NoMatch`). On top of it sits the
//! hard-mode validator, which checks that a new guess reuses the letters the
//! previous guess discovered. Both are specified against a mathematical
//! model of the classification and proved to implement it.

pub mod classify;
pub mod game;
pub mod hard_mode;
pub mod laws;

pub use classify::MatchType;
pub use game::Config;
pub use game::Turn;
pub use game::pick_random_word;
pub use game::GUESSES;
pub use game::WORD_LENGTH;
pub use hard_mode::HardMatches;
