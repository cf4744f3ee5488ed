//! Poker hand utilities: cards and hands in their two-character text form
//! (`card`), predicates that recognise flushes, straights and four of a
//! kind (`predicate`), and a deck that deals each of its 52 cards once
//! (`deck`).
//!
//! Beside them stand a few small exercises: binary trees built from their
//! array layout and walked in order (`tree`), checked integer arithmetic
//! (`math`), and a calculator that runs an operation chosen by the caller
//! (`calculator`).

pub mod card;
pub mod predicate;
pub mod deck;
pub mod tree;
pub mod math;
pub mod calculator;
