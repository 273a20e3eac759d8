//! Square colours of a chess board, and the answers of a "light or dark?" quiz.
//!
//! A square is named by a rank letter (`a` to `h`) followed by a file number;
//! its colour follows from the parity of the two. Free-form answers are
//! stripped of whitespace, lowercased and matched against two fixed sets of
//! words.

pub mod color;
pub mod text;
pub mod answer;
pub mod coordinate;
pub mod random;
pub mod quiz;
