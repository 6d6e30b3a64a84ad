//! Grammatical categories, the binding-power table over pairs of
//! categories, and the errors a parse can end with.

use crate::ast::Sp;
use vstd::prelude::*;

pub mod expr;

verus! {

/// The grammatical category of a token or of a partially built subtree.
///
/// The grammar is defined over this closed set: the binding-power table is
/// indexed by ordered pairs of categories, and every tree node derives one
/// category from its own shape.
#[derive(Debug, Clone, Copy, PartialEq, Eq, Structural)]
pub enum Category {
    /// Array: a literal, a string, a character, or a materialized value.
    A,
    /// Alpha-monadic verb: a function taking only a left operand.
    Av,
    /// Omega-monadic verb: a function taking only a right operand.
    Ov,
    /// Dyadic verb: a function taking both operands.
    Dv,
    /// An unresolved name, standing for an array value.
    N,
    /// Alpha-monadic adverb: an operator taking only a left operand.
    Aa,
    /// Omega-monadic adverb: an operator taking only a right operand.
    Oa,
    /// Dyadic adverb: an operator taking both operands.
    Da,
    /// Placeholder combinator used to build trains.
    Jot,
    /// Inline/local assignment marker.
    Arr,
    /// Top-level name-binding marker.
    Ass,
}

/// The binding-power table, indexed by an ordered pair of categories: the
/// strength with which a value of category `a` immediately followed by a
/// value of category `b` binds, and the category of the tree the pair
/// combines into. `None` means the adjacency is grammatically illegal.
///
/// The table is asymmetric: `entry(a, b)` and `entry(b, a)` are independent,
/// because binding in this grammar depends on which side is the function or
/// operator and which the operand.
///
/// Adjacencies involving `Jot` (trains) and `Arr` (inline assignment) are
/// left illegal: the grammar reference leaves their combinations open.
///
/// The match is exhaustive over `Category`, so growing or reordering the
/// category set forces this table to be revisited at compile time; no
/// runtime assertion ties the two together.
pub open spec fn spec_entry(a: Category, b: Category) -> Option<(u8, Category)> {
    match (a, b) {
        // Arrays: operands, bound by verbs and adverbs on their right.
        (Category::A, Category::A) => None,
        (Category::A, Category::Av) => Some((2, Category::Av)),
        (Category::A, Category::Ov) => None,
        (Category::A, Category::Dv) => Some((2, Category::Dv)),
        (Category::A, Category::N) => None,
        (Category::A, Category::Aa) => Some((4, Category::Aa)),
        (Category::A, Category::Oa) => None,
        (Category::A, Category::Da) => Some((3, Category::Da)),
        (Category::A, Category::Jot) => None,
        (Category::A, Category::Arr) => None,
        (Category::A, Category::Ass) => None,
        // Alpha-monadic verbs: operands of adverbs on their right.
        (Category::Av, Category::A) => None,
        (Category::Av, Category::Av) => None,
        (Category::Av, Category::Ov) => None,
        (Category::Av, Category::Dv) => None,
        (Category::Av, Category::N) => None,
        (Category::Av, Category::Aa) => Some((4, Category::Aa)),
        (Category::Av, Category::Oa) => None,
        (Category::Av, Category::Da) => Some((3, Category::Da)),
        (Category::Av, Category::Jot) => None,
        (Category::Av, Category::Arr) => None,
        (Category::Av, Category::Ass) => None,
        // Omega-monadic verbs: apply to the operand on their right.
        (Category::Ov, Category::A) => Some((2, Category::Ov)),
        (Category::Ov, Category::Av) => None,
        (Category::Ov, Category::Ov) => None,
        (Category::Ov, Category::Dv) => None,
        (Category::Ov, Category::N) => Some((2, Category::Ov)),
        (Category::Ov, Category::Aa) => Some((4, Category::Aa)),
        (Category::Ov, Category::Oa) => None,
        (Category::Ov, Category::Da) => None,
        (Category::Ov, Category::Jot) => None,
        (Category::Ov, Category::Arr) => None,
        (Category::Ov, Category::Ass) => None,
        // Dyadic verbs: complete with their right operand once the left one is bound, and are operands of adverbs on their right.
        (Category::Dv, Category::A) => Some((2, Category::Dv)),
        (Category::Dv, Category::Av) => None,
        (Category::Dv, Category::Ov) => None,
        (Category::Dv, Category::Dv) => None,
        (Category::Dv, Category::N) => Some((2, Category::Dv)),
        (Category::Dv, Category::Aa) => Some((4, Category::Aa)),
        (Category::Dv, Category::Oa) => None,
        (Category::Dv, Category::Da) => Some((4, Category::Da)),
        (Category::Dv, Category::Jot) => None,
        (Category::Dv, Category::Arr) => None,
        (Category::Dv, Category::Ass) => None,
        // Names: like arrays, and the left side of an assignment.
        (Category::N, Category::A) => None,
        (Category::N, Category::Av) => Some((2, Category::Av)),
        (Category::N, Category::Ov) => None,
        (Category::N, Category::Dv) => Some((2, Category::Dv)),
        (Category::N, Category::N) => None,
        (Category::N, Category::Aa) => Some((4, Category::Aa)),
        (Category::N, Category::Oa) => None,
        (Category::N, Category::Da) => Some((3, Category::Da)),
        (Category::N, Category::Jot) => None,
        (Category::N, Category::Arr) => None,
        (Category::N, Category::Ass) => Some((1, Category::Ass)),
        // Alpha-monadic adverbs take nothing on their right.
        (Category::Aa, Category::A) => None,
        (Category::Aa, Category::Av) => None,
        (Category::Aa, Category::Ov) => None,
        (Category::Aa, Category::Dv) => None,
        (Category::Aa, Category::N) => None,
        (Category::Aa, Category::Aa) => None,
        (Category::Aa, Category::Oa) => None,
        (Category::Aa, Category::Da) => None,
        (Category::Aa, Category::Jot) => None,
        (Category::Aa, Category::Arr) => None,
        (Category::Aa, Category::Ass) => None,
        // Omega-monadic adverbs: apply to the operand on their right.
        (Category::Oa, Category::A) => Some((4, Category::Oa)),
        (Category::Oa, Category::Av) => Some((4, Category::Oa)),
        (Category::Oa, Category::Ov) => Some((4, Category::Oa)),
        (Category::Oa, Category::Dv) => Some((4, Category::Oa)),
        (Category::Oa, Category::N) => None,
        (Category::Oa, Category::Aa) => None,
        (Category::Oa, Category::Oa) => None,
        (Category::Oa, Category::Da) => None,
        (Category::Oa, Category::Jot) => None,
        (Category::Oa, Category::Arr) => None,
        (Category::Oa, Category::Ass) => None,
        // Dyadic adverbs: complete with their right operand once the left one is bound.
        (Category::Da, Category::A) => Some((5, Category::Da)),
        (Category::Da, Category::Av) => Some((5, Category::Da)),
        (Category::Da, Category::Ov) => Some((5, Category::Da)),
        (Category::Da, Category::Dv) => Some((5, Category::Da)),
        (Category::Da, Category::N) => None,
        (Category::Da, Category::Aa) => None,
        (Category::Da, Category::Oa) => None,
        (Category::Da, Category::Da) => None,
        (Category::Da, Category::Jot) => None,
        (Category::Da, Category::Arr) => None,
        (Category::Da, Category::Ass) => None,
        // Trains are left open by the grammar reference: every adjacency is illegal.
        (Category::Jot, Category::A) => None,
        (Category::Jot, Category::Av) => None,
        (Category::Jot, Category::Ov) => None,
        (Category::Jot, Category::Dv) => None,
        (Category::Jot, Category::N) => None,
        (Category::Jot, Category::Aa) => None,
        (Category::Jot, Category::Oa) => None,
        (Category::Jot, Category::Da) => None,
        (Category::Jot, Category::Jot) => None,
        (Category::Jot, Category::Arr) => None,
        (Category::Jot, Category::Ass) => None,
        // Inline assignment is left open as well.
        (Category::Arr, Category::A) => None,
        (Category::Arr, Category::Av) => None,
        (Category::Arr, Category::Ov) => None,
        (Category::Arr, Category::Dv) => None,
        (Category::Arr, Category::N) => None,
        (Category::Arr, Category::Aa) => None,
        (Category::Arr, Category::Oa) => None,
        (Category::Arr, Category::Da) => None,
        (Category::Arr, Category::Jot) => None,
        (Category::Arr, Category::Arr) => None,
        (Category::Arr, Category::Ass) => None,
        // Assignment markers: take the assigned value on their right.
        (Category::Ass, Category::A) => Some((1, Category::Ass)),
        (Category::Ass, Category::Av) => Some((1, Category::Ass)),
        (Category::Ass, Category::Ov) => Some((1, Category::Ass)),
        (Category::Ass, Category::Dv) => Some((1, Category::Ass)),
        (Category::Ass, Category::N) => None,
        (Category::Ass, Category::Aa) => Some((1, Category::Ass)),
        (Category::Ass, Category::Oa) => Some((1, Category::Ass)),
        (Category::Ass, Category::Da) => Some((1, Category::Ass)),
        (Category::Ass, Category::Jot) => None,
        (Category::Ass, Category::Arr) => None,
        (Category::Ass, Category::Ass) => None,
    }
}

/// The binding power of the pair `(a, b)`, with 0 standing for an illegal
/// adjacency (the table has no entry there).
pub open spec fn spec_power(a: Category, b: Category) -> u8 {
    match spec_entry(a, b) {
        Some(e) => e.0,
        None => 0,
    }
}

impl Category {
    /// The binding power between a value of category `a` and a value of
    /// category `b` immediately following it; `None` when the table has no
    /// entry, that is, when the adjacency is grammatically illegal.
    pub fn binding_power_of(a: &Category, b: &Category) -> (r: Option<u8>)
        ensures
            r == (match spec_entry(*a, *b) {
                Some(e) => Some(e.0),
                None => None::<u8>,
            }),
            r is Some <==> spec_power(*a, *b) > 0,
            r is Some ==> r->0 == spec_power(*a, *b),
    {
        match (a, b) {
            (Category::A, Category::Av) => Some(2),
            (Category::A, Category::Dv) => Some(2),
            (Category::N, Category::Av) => Some(2),
            (Category::N, Category::Dv) => Some(2),
            (Category::Ov, Category::A) => Some(2),
            (Category::Ov, Category::N) => Some(2),
            (Category::Dv, Category::A) => Some(2),
            (Category::Dv, Category::N) => Some(2),
            (Category::A, Category::Aa) => Some(4),
            (Category::Av, Category::Aa) => Some(4),
            (Category::Ov, Category::Aa) => Some(4),
            (Category::Dv, Category::Aa) => Some(4),
            (Category::N, Category::Aa) => Some(4),
            (Category::Oa, Category::A) => Some(4),
            (Category::Oa, Category::Av) => Some(4),
            (Category::Oa, Category::Ov) => Some(4),
            (Category::Oa, Category::Dv) => Some(4),
            (Category::A, Category::Da) => Some(3),
            (Category::Av, Category::Da) => Some(3),
            (Category::N, Category::Da) => Some(3),
            (Category::Dv, Category::Da) => Some(4),
            (Category::Da, Category::A) => Some(5),
            (Category::Da, Category::Av) => Some(5),
            (Category::Da, Category::Ov) => Some(5),
            (Category::Da, Category::Dv) => Some(5),
            (Category::N, Category::Ass) => Some(1),
            (Category::Ass, Category::A) => Some(1),
            (Category::Ass, Category::Av) => Some(1),
            (Category::Ass, Category::Ov) => Some(1),
            (Category::Ass, Category::Dv) => Some(1),
            (Category::Ass, Category::Aa) => Some(1),
            (Category::Ass, Category::Oa) => Some(1),
            (Category::Ass, Category::Da) => Some(1),
            _ => None,
        }
    }
}

/// Ordering invariants of the binding-power table: a dyadic adverb binds a
/// preceding dyadic verb tighter than a preceding alpha-only verb, and a
/// dyadic adverb holding its left operand binds the verb on its right
/// tighter than any of those relations (and tighter than a train-forming
/// `Jot`, whose adjacencies are all illegal here).
pub proof fn lemma_binding_power_ordering()
    ensures
        spec_power(Category::Av, Category::Da) < spec_power(Category::Da, Category::Dv),
        spec_power(Category::Dv, Category::Da) < spec_power(Category::Da, Category::Dv),
        spec_power(Category::Dv, Category::Jot) < spec_power(Category::Da, Category::Dv),
        spec_power(Category::Av, Category::Da) < spec_power(Category::Dv, Category::Da),
        spec_power(Category::Dv, Category::Jot) < spec_power(Category::Dv, Category::Da),
{
}

/// Two operands can never be adjacent without an intervening function:
/// every pairing of `Array` and `Name` is illegal.
pub proof fn lemma_operands_never_adjacent()
    ensures
        spec_entry(Category::A, Category::A) is None,
        spec_entry(Category::A, Category::N) is None,
        spec_entry(Category::N, Category::A) is None,
        spec_entry(Category::N, Category::N) is None,
        spec_entry(Category::A, Category::Ov) is None,
{
}

/// An error a parse ends with, carrying the span of the token or token
/// pair that triggered it.
#[derive(Debug, Clone, Copy, PartialEq, Eq, Structural)]
pub struct TParseErr {
    /// Where in the source the parse failed.
    pub span: Sp,
    /// What went wrong.
    pub kind: TParseErrKind,
}

/// The ways a parse can fail.
#[derive(Debug, Clone, Copy, PartialEq, Eq, Structural)]
pub enum TParseErrKind {
    /// The token sequence to parse was empty.
    EmptyExpr,
    /// The engine required a neighbor that was not present.
    UnexpectedEndOfExpression,
    /// The binding-power table has no entry for an adjacent pair actually
    /// encountered.
    IllegalAdjacency,
    /// Left and right binding powers are tied with no relation on either
    /// side, giving the engine no legal direction to proceed.
    AmbiguousBinding,
}

impl TParseErr {
    /// The error `kind` at the span of token `t`.
    pub fn at(t: crate::parsing::expr::ExprToken, kind: TParseErrKind) -> (e: TParseErr)
        ensures
            e == (TParseErr { span: t.span, kind }),
    {
        TParseErr { span: t.span, kind }
    }

    /// The error `kind` at the given span.
    pub fn with_span(span: Sp, kind: TParseErrKind) -> (e: TParseErr)
        ensures
            e == (TParseErr { span, kind }),
    {
        TParseErr { span, kind }
    }
}

} // verus!
