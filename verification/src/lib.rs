//! Parsing core of a tacit, array-oriented language in the APL/J family.
//!
//! Expressions are flat sequences of categorized tokens; an asymmetric
//! binding-power table over pairs of grammatical categories drives an
//! iterative Bunda-Gerth reduction that folds the sequence into a single
//! expression tree, or reports a precise error with its source span.

pub mod ast;
pub mod parsing;
