//! Classifier for two-letter sequences ("bigrams") that straddle the outer and
//! inner finger columns of one hand on a split ergonomic keyboard layout.
//!
//! The library scans a word's adjacent character pairs for the first pair that
//! crosses the outer/inner column boundary, splits the word around that pair
//! for display, and scores whether the pair's two characters sit on the same
//! row of their respective columns. Word-list acquisition and rendering are
//! left to the caller.

pub mod bigram;
pub mod side;

pub use bigram::Bigram;
pub use side::CrossingMatch;
pub use side::KeyboardSide;
