//! Small verified building blocks: a harmonic-style series computed two ways
//! over exact rationals, two message-carrying error kinds unified through an
//! explicit conversion, and a parser for a fixed three-field line layout.

pub mod compute;
pub mod parse;
pub mod errors;
pub mod series;
