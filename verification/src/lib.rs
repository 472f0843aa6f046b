//! Scoring routines with verified behaviour: a blackjack hand evaluator
//! and an ISBN-13 check-digit validator.

pub mod hand;
pub mod isbn;
