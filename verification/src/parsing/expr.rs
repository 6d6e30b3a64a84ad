//! Tokens, expression trees, and the Bunda-Gerth reduction engine.

use crate::ast::Sp;
use crate::parsing::Category;
use crate::parsing::TParseErr;
use crate::parsing::TParseErrKind;
use vstd::prelude::*;

verus! {

/// A categorized token, as handed over by the external tokenizer: a kind
/// plus a byte-offset span into the original source.
#[derive(Debug, PartialEq, Eq)]
pub struct ExprToken {
    /// The grammatical kind of the token.
    pub kind: ExprTokenKind,
    /// Where the token sits in the source.
    pub span: Sp,
}

/// The kinds of token the parser consumes. A parenthesized group arrives as
/// a single token wrapping the nested token sequence.
#[derive(Debug, PartialEq, Eq)]
pub enum ExprTokenKind {
    /// A numeric literal.
    Number,
    /// A string literal.
    String,
    /// A character literal.
    Char,
    /// A primitive array value.
    PrimArray,
    /// A name known to denote an array.
    ArrayName,
    /// A primitive verb taking only a left operand.
    PrimAVerb,
    /// A primitive verb taking only a right operand.
    PrimOVerb,
    /// A primitive verb taking both operands.
    PrimDVerb,
    /// A primitive adverb taking only a left operand.
    PrimAAdverb,
    /// A primitive adverb taking only a right operand.
    PrimOAdverb,
    /// A primitive adverb taking both operands.
    PrimDAdverb,
    /// A name known to denote an alpha-monadic verb.
    AVerbName,
    /// A name known to denote an omega-monadic verb.
    OVerbName,
    /// A name known to denote a dyadic verb.
    DVerbName,
    /// A name known to denote an omega-monadic adverb. (A name denoting an
    /// alpha-monadic adverb has no valid construction in the language.)
    OAdverbName,
    /// A name known to denote a dyadic adverb.
    DAdverbName,
    /// The marker binding a name to an array value.
    ArrayAssign,
    /// The marker binding a name to a verb.
    VerbAssign,
    /// The marker binding a name to an adverb.
    AdverbAssign,
    /// A parenthesized sub-sequence of tokens.
    Parenthesized(Vec<ExprToken>),
}

/// The category a token kind classifies to; `None` for a parenthesized
/// group, which is not classified directly: it is first parsed recursively
/// and its resulting tree's own derived category is used instead.
pub open spec fn spec_classify(k: ExprTokenKind) -> Option<Category> {
    match k {
        ExprTokenKind::Number => Some(Category::A),
        ExprTokenKind::String => Some(Category::A),
        ExprTokenKind::Char => Some(Category::A),
        ExprTokenKind::PrimArray => Some(Category::A),
        ExprTokenKind::ArrayName => Some(Category::N),
        ExprTokenKind::PrimAVerb => Some(Category::Av),
        ExprTokenKind::PrimOVerb => Some(Category::Ov),
        ExprTokenKind::PrimDVerb => Some(Category::Dv),
        ExprTokenKind::PrimAAdverb => Some(Category::Aa),
        ExprTokenKind::PrimOAdverb => Some(Category::Oa),
        ExprTokenKind::PrimDAdverb => Some(Category::Da),
        ExprTokenKind::AVerbName => Some(Category::Av),
        ExprTokenKind::OVerbName => Some(Category::Ov),
        ExprTokenKind::DVerbName => Some(Category::Dv),
        ExprTokenKind::OAdverbName => Some(Category::Oa),
        ExprTokenKind::DAdverbName => Some(Category::Da),
        ExprTokenKind::ArrayAssign => Some(Category::Ass),
        ExprTokenKind::VerbAssign => Some(Category::Ass),
        ExprTokenKind::AdverbAssign => Some(Category::Ass),
        ExprTokenKind::Parenthesized(_) => None,
    }
}

/// An expression tree: the result of a parse, or an element of the working
/// sequence while the reduction engine is still folding neighbors together.
///
/// Each non-leaf node exclusively owns its children; the structure is a
/// tree, never shared or cyclic. The `*WithAlpha` variants and
/// `AssignTarget` hold one side of a two-sided combination while the engine
/// has not yet reached the other side.
#[derive(Debug, PartialEq, Eq)]
pub enum ExprTree {
    /// A single token, tagged with its category.
    Leaf {
        /// The category the token classifies to.
        cat: Category,
        /// The token itself.
        t: ExprToken,
    },
    /// A verb applied only to its left operand.
    AlphaVerbCall {
        /// The verb.
        verb: Box<ExprTree>,
        /// Its left operand.
        alpha: Box<ExprTree>,
    },
    /// A verb applied only to its right operand.
    OmegaVerbCall {
        /// The verb.
        verb: Box<ExprTree>,
        /// Its right operand.
        omega: Box<ExprTree>,
    },
    /// A verb applied to both operands.
    DyadicVerbCall {
        /// The verb.
        verb: Box<ExprTree>,
        /// Its left operand.
        alpha: Box<ExprTree>,
        /// Its right operand.
        omega: Box<ExprTree>,
    },
    /// A dyadic verb that has bound its left operand and still awaits the
    /// right one.
    DyadicVerbWithAlpha {
        /// The verb.
        verb: Box<ExprTree>,
        /// Its left operand.
        alpha: Box<ExprTree>,
    },
    /// A name bound to a value. The name is captured literally, not as a
    /// subtree; the marker token between name and value is dropped.
    Assignment {
        /// The token of the name being bound.
        name: ExprToken,
        /// The value it is bound to.
        val: Box<ExprTree>,
    },
    /// An assignment marker that has bound the name on its left and still
    /// awaits the value on its right.
    AssignTarget {
        /// The token of the name being bound.
        name: ExprToken,
    },
    /// An adverb applied only to its left operand.
    AlphaAdverbCall {
        /// The adverb.
        adverb: Box<ExprTree>,
        /// Its left operand.
        alpha: Box<ExprTree>,
    },
    /// An adverb applied only to its right operand.
    OmegaAdverbCall {
        /// The adverb.
        adverb: Box<ExprTree>,
        /// Its right operand.
        omega: Box<ExprTree>,
    },
    /// An adverb applied to both operands.
    DyadicAdverbCall {
        /// The adverb.
        adverb: Box<ExprTree>,
        /// Its left operand.
        alpha: Box<ExprTree>,
        /// Its right operand.
        omega: Box<ExprTree>,
    },
    /// A dyadic adverb that has bound its left operand and still awaits the
    /// right one.
    DyadicAdverbWithAlpha {
        /// The adverb.
        adverb: Box<ExprTree>,
        /// Its left operand.
        alpha: Box<ExprTree>,
    },
}

impl ExprTree {
    /// The category a tree derives from its own shape alone, used to look
    /// up binding powers against its neighbors.
    pub open spec fn spec_category(self) -> Category {
        match self {
            ExprTree::Leaf { cat, .. } => cat,
            ExprTree::AlphaVerbCall { .. } => Category::Av,
            ExprTree::OmegaVerbCall { .. } => Category::Ov,
            ExprTree::DyadicVerbCall { .. } => Category::Dv,
            ExprTree::DyadicVerbWithAlpha { .. } => Category::Dv,
            ExprTree::Assignment { .. } => Category::Ass,
            ExprTree::AssignTarget { .. } => Category::Ass,
            ExprTree::AlphaAdverbCall { .. } => Category::Aa,
            ExprTree::OmegaAdverbCall { .. } => Category::Oa,
            ExprTree::DyadicAdverbCall { .. } => Category::Da,
            ExprTree::DyadicAdverbWithAlpha { .. } => Category::Da,
        }
    }

    /// Executable twin of [`ExprTree::spec_category`].
    pub fn category(&self) -> (c: Category)
        ensures
            c == self.spec_category(),
    {
        match self {
            ExprTree::Leaf { cat, .. } => *cat,
            ExprTree::AlphaVerbCall { .. } => Category::Av,
            ExprTree::OmegaVerbCall { .. } => Category::Ov,
            ExprTree::DyadicVerbCall { .. } => Category::Dv,
            ExprTree::DyadicVerbWithAlpha { .. } => Category::Dv,
            ExprTree::Assignment { .. } => Category::Ass,
            ExprTree::AssignTarget { .. } => Category::Ass,
            ExprTree::AlphaAdverbCall { .. } => Category::Aa,
            ExprTree::OmegaAdverbCall { .. } => Category::Oa,
            ExprTree::DyadicAdverbCall { .. } => Category::Da,
            ExprTree::DyadicAdverbWithAlpha { .. } => Category::Da,
        }
    }

    /// The span a tree covers: the union of the spans of all its children.
    /// For input whose token spans run left to right this is exactly the
    /// union of the leftmost and the rightmost leaf spans. The span of an
    /// assignment runs from its name to its value; the dropped marker token
    /// between them lies inside that range.
    pub open spec fn spec_span(self) -> Sp
        decreases self,
    {
        match self {
            ExprTree::Leaf { t, .. } => t.span,
            ExprTree::AlphaVerbCall { verb, alpha } => Sp::spec_merge(
                alpha.spec_span(),
                verb.spec_span(),
            ),
            ExprTree::OmegaVerbCall { verb, omega } => Sp::spec_merge(
                verb.spec_span(),
                omega.spec_span(),
            ),
            ExprTree::DyadicVerbCall { verb, alpha, omega } => Sp::spec_merge(
                Sp::spec_merge(alpha.spec_span(), verb.spec_span()),
                omega.spec_span(),
            ),
            ExprTree::DyadicVerbWithAlpha { verb, alpha } => Sp::spec_merge(
                alpha.spec_span(),
                verb.spec_span(),
            ),
            ExprTree::Assignment { name, val } => Sp::spec_merge(name.span, val.spec_span()),
            ExprTree::AssignTarget { name } => name.span,
            ExprTree::AlphaAdverbCall { adverb, alpha } => Sp::spec_merge(
                alpha.spec_span(),
                adverb.spec_span(),
            ),
            ExprTree::OmegaAdverbCall { adverb, omega } => Sp::spec_merge(
                adverb.spec_span(),
                omega.spec_span(),
            ),
            ExprTree::DyadicAdverbCall { adverb, alpha, omega } => Sp::spec_merge(
                Sp::spec_merge(alpha.spec_span(), adverb.spec_span()),
                omega.spec_span(),
            ),
            ExprTree::DyadicAdverbWithAlpha { adverb, alpha } => Sp::spec_merge(
                alpha.spec_span(),
                adverb.spec_span(),
            ),
        }
    }

    /// Executable twin of [`ExprTree::spec_span`].
    pub fn span(&self) -> (s: Sp)
        ensures
            s == self.spec_span(),
        decreases *self,
    {
        match self {
            ExprTree::Leaf { t, .. } => t.span,
            ExprTree::AlphaVerbCall { verb, alpha } => alpha.span().merge(&verb.span()),
            ExprTree::OmegaVerbCall { verb, omega } => verb.span().merge(&omega.span()),
            ExprTree::DyadicVerbCall { verb, alpha, omega } => alpha.span().merge(
                &verb.span(),
            ).merge(&omega.span()),
            ExprTree::DyadicVerbWithAlpha { verb, alpha } => alpha.span().merge(&verb.span()),
            ExprTree::Assignment { name, val } => name.span.merge(&val.span()),
            ExprTree::AssignTarget { name } => name.span,
            ExprTree::AlphaAdverbCall { adverb, alpha } => alpha.span().merge(&adverb.span()),
            ExprTree::OmegaAdverbCall { adverb, omega } => adverb.span().merge(&omega.span()),
            ExprTree::DyadicAdverbCall { adverb, alpha, omega } => alpha.span().merge(
                &adverb.span(),
            ).merge(&omega.span()),
            ExprTree::DyadicAdverbWithAlpha { adverb, alpha } => alpha.span().merge(
                &adverb.span(),
            ),
        }
    }
}

/// The shape condition a pair of adjacent trees must meet, beyond its
/// category pair having a table entry. A completion pair — one whose
/// combiner fills the missing side of a partially built node — asks that
/// the left tree really is such a node: a bare dyadic verb cannot take a
/// right operand it has no left one for, and a bare assignment marker has
/// no name to bind.
pub open spec fn spec_shape_ok(l: ExprTree, r: ExprTree) -> bool {
    match (l.spec_category(), r.spec_category()) {
        (Category::Dv, Category::A) | (Category::Dv, Category::N) => l
            is DyadicVerbWithAlpha,
        (Category::Da, Category::A) | (Category::Da, Category::Av) | (
            Category::Da,
            Category::Ov,
        ) | (Category::Da, Category::Dv) => l is DyadicAdverbWithAlpha,
        (Category::N, Category::Ass) => l is Leaf,
        (Category::Ass, _) => l is AssignTarget,
        _ => true,
    }
}

/// The tree that two adjacent working-sequence elements combine into, or
/// `None` when the grammar does not let them combine: either their category
/// pair has no table entry, or the pair fails [`spec_shape_ok`].
pub open spec fn spec_combine(l: ExprTree, r: ExprTree) -> Option<ExprTree> {
    match (l.spec_category(), r.spec_category()) {
        // An operand bound by the verb on its right.
        (Category::A, Category::Av) | (Category::N, Category::Av) => Some(
            ExprTree::AlphaVerbCall { verb: Box::new(r), alpha: Box::new(l) },
        ),
        (Category::A, Category::Dv) | (Category::N, Category::Dv) => Some(
            ExprTree::DyadicVerbWithAlpha { verb: Box::new(r), alpha: Box::new(l) },
        ),
        // A verb applied to the operand on its right.
        (Category::Ov, Category::A) | (Category::Ov, Category::N) => Some(
            ExprTree::OmegaVerbCall { verb: Box::new(l), omega: Box::new(r) },
        ),
        (Category::Dv, Category::A) | (Category::Dv, Category::N) => match l {
            ExprTree::DyadicVerbWithAlpha { verb, alpha } => Some(
                ExprTree::DyadicVerbCall { verb, alpha, omega: Box::new(r) },
            ),
            _ => None,
        },
        // An alpha adverb grabbing the operand on its left.
        (Category::A, Category::Aa) | (Category::Av, Category::Aa) | (
            Category::Ov,
            Category::Aa,
        ) | (Category::Dv, Category::Aa) | (Category::N, Category::Aa) => Some(
            ExprTree::AlphaAdverbCall { adverb: Box::new(r), alpha: Box::new(l) },
        ),
        // An omega adverb grabbing the operand on its right.
        (Category::Oa, Category::A) | (Category::Oa, Category::Av) | (
            Category::Oa,
            Category::Ov,
        ) | (Category::Oa, Category::Dv) => Some(
            ExprTree::OmegaAdverbCall { adverb: Box::new(l), omega: Box::new(r) },
        ),
        // A dyadic adverb binding its left operand.
        (Category::A, Category::Da) | (Category::Av, Category::Da) | (
            Category::N,
            Category::Da,
        ) | (Category::Dv, Category::Da) => Some(
            ExprTree::DyadicAdverbWithAlpha { adverb: Box::new(r), alpha: Box::new(l) },
        ),
        // A dyadic adverb holding its left operand binding the right one.
        (Category::Da, Category::A) | (Category::Da, Category::Av) | (
            Category::Da,
            Category::Ov,
        ) | (Category::Da, Category::Dv) => match l {
            ExprTree::DyadicAdverbWithAlpha { adverb, alpha } => Some(
                ExprTree::DyadicAdverbCall { adverb, alpha, omega: Box::new(r) },
            ),
            _ => None,
        },
        // A name bound to the assignment marker on its right. Every tree of
        // category `N` is a leaf, so the name is always captured literally.
        (Category::N, Category::Ass) => match l {
            ExprTree::Leaf { t, .. } => Some(ExprTree::AssignTarget { name: t }),
            _ => None,
        },
        // The bound name taking the assigned value on its right.
        (Category::Ass, Category::A) | (Category::Ass, Category::Av) | (
            Category::Ass,
            Category::Ov,
        ) | (Category::Ass, Category::Dv) | (Category::Ass, Category::Aa) | (
            Category::Ass,
            Category::Oa,
        ) | (Category::Ass, Category::Da) => match l {
            ExprTree::AssignTarget { name } => Some(
                ExprTree::Assignment { name, val: Box::new(r) },
            ),
            _ => None,
        },
        _ => None,
    }
}

/// Two adjacent trees combine exactly when their category pair has a table
/// entry and the pair meets the shape condition.
pub proof fn lemma_combine_iff(l: ExprTree, r: ExprTree)
    ensures
        spec_combine(l, r) is Some <==> (crate::parsing::spec_entry(
            l.spec_category(),
            r.spec_category(),
        ) is Some && spec_shape_ok(l, r)),
{
}

/// Consistency of the tree builder with the binding-power table: whenever
/// two trees combine, the combined node derives exactly the category the
/// table declares for that pair.
pub proof fn lemma_combine_category(l: ExprTree, r: ExprTree)
    requires
        spec_combine(l, r) is Some,
    ensures
        crate::parsing::spec_entry(l.spec_category(), r.spec_category()) is Some,
        spec_combine(l, r).unwrap().spec_category() == crate::parsing::spec_entry(
            l.spec_category(),
            r.spec_category(),
        ).unwrap().1,
{
}

/// A combined node covers exactly the union of the spans of the two trees
/// it was built from. The one exception is the pair of a name and an
/// assignment marker, where the marker token is dropped and the resulting
/// node keeps the name's span alone.
pub proof fn lemma_combine_span(l: ExprTree, r: ExprTree)
    requires
        spec_combine(l, r) is Some,
        !(l.spec_category() == Category::N && r.spec_category() == Category::Ass),
    ensures
        spec_combine(l, r).unwrap().spec_span() == Sp::spec_merge(l.spec_span(), r.spec_span()),
{
}

/// The binding power between two adjacent working-sequence elements: the
/// table's power for their category pair when the two can combine, and 0
/// (no relation) otherwise.
pub open spec fn spec_power_between(l: ExprTree, r: ExprTree) -> u8 {
    if spec_combine(l, r) is Some {
        crate::parsing::spec_power(l.spec_category(), r.spec_category())
    } else {
        0
    }
}

/// The binding power between tree `a` and tree `b` immediately following
/// it, or `None` when the two cannot combine.
pub fn binding_power_of(a: &ExprTree, b: &ExprTree) -> (r: Option<u8>)
    ensures
        r is Some <==> spec_combine(*a, *b) is Some,
        r matches Some(p) ==> p == spec_power_between(*a, *b) && p > 0,
{
    let ac = a.category();
    let bc = b.category();
    match Category::binding_power_of(&ac, &bc) {
        None => None,
        Some(p) => {
            if shape_ok(a, b) {
                Some(p)
            } else {
                None
            }
        },
    }
}

/// Executable twin of [`spec_shape_ok`].
fn shape_ok(l: &ExprTree, r: &ExprTree) -> (ok: bool)
    ensures
        ok == spec_shape_ok(*l, *r),
{
    match (l.category(), r.category()) {
        (Category::Dv, Category::A) | (Category::Dv, Category::N) => matches!(
            l,
            ExprTree::DyadicVerbWithAlpha { .. }
        ),
        (Category::Da, Category::A) | (Category::Da, Category::Av) | (
            Category::Da,
            Category::Ov,
        ) | (Category::Da, Category::Dv) => matches!(l, ExprTree::DyadicAdverbWithAlpha { .. }),
        (Category::N, Category::Ass) => matches!(l, ExprTree::Leaf { .. }),
        (Category::Ass, _) => matches!(l, ExprTree::AssignTarget { .. }),
        _ => true,
    }
}

/// Builds the node a combining pair is mandated to form. The caller has
/// already checked, through [`binding_power_of`], that the pair combines.
fn combine(l: ExprTree, r: ExprTree) -> (t: ExprTree)
    requires
        spec_combine(l, r) is Some,
    ensures
        Some(t) == spec_combine(l, r),
{
    let lc = l.category();
    let rc = r.category();
    match (lc, rc) {
        (Category::A, Category::Av) | (Category::N, Category::Av) => ExprTree::AlphaVerbCall {
            verb: Box::new(r),
            alpha: Box::new(l),
        },
        (Category::A, Category::Dv) | (
            Category::N,
            Category::Dv,
        ) => ExprTree::DyadicVerbWithAlpha { verb: Box::new(r), alpha: Box::new(l) },
        (Category::Ov, Category::A) | (Category::Ov, Category::N) => ExprTree::OmegaVerbCall {
            verb: Box::new(l),
            omega: Box::new(r),
        },
        (Category::Dv, Category::A) | (Category::Dv, Category::N) => match l {
            ExprTree::DyadicVerbWithAlpha { verb, alpha } => ExprTree::DyadicVerbCall {
                verb,
                alpha,
                omega: Box::new(r),
            },
            _ => vstd::pervasive::unreached(),
        },
        (Category::A, Category::Aa) | (Category::Av, Category::Aa) | (
            Category::Ov,
            Category::Aa,
        ) | (Category::Dv, Category::Aa) | (Category::N, Category::Aa) => ExprTree::AlphaAdverbCall {
            adverb: Box::new(r),
            alpha: Box::new(l),
        },
        (Category::Oa, Category::A) | (Category::Oa, Category::Av) | (
            Category::Oa,
            Category::Ov,
        ) | (Category::Oa, Category::Dv) => ExprTree::OmegaAdverbCall {
            adverb: Box::new(l),
            omega: Box::new(r),
        },
        (Category::A, Category::Da) | (Category::Av, Category::Da) | (
            Category::N,
            Category::Da,
        ) | (Category::Dv, Category::Da) => ExprTree::DyadicAdverbWithAlpha {
            adverb: Box::new(r),
            alpha: Box::new(l),
        },
        (Category::Da, Category::A) | (Category::Da, Category::Av) | (
            Category::Da,
            Category::Ov,
        ) | (Category::Da, Category::Dv) => match l {
            ExprTree::DyadicAdverbWithAlpha { adverb, alpha } => ExprTree::DyadicAdverbCall {
                adverb,
                alpha,
                omega: Box::new(r),
            },
            _ => vstd::pervasive::unreached(),
        },
        (Category::N, Category::Ass) => match l {
            ExprTree::Leaf { t, .. } => ExprTree::AssignTarget { name: t },
            _ => vstd::pervasive::unreached(),
        },
        (Category::Ass, Category::A) | (Category::Ass, Category::Av) | (
            Category::Ass,
            Category::Ov,
        ) | (Category::Ass, Category::Dv) | (Category::Ass, Category::Aa) | (
            Category::Ass,
            Category::Oa,
        ) | (Category::Ass, Category::Da) => match l {
            ExprTree::AssignTarget { name } => ExprTree::Assignment { name, val: Box::new(r) },
            _ => vstd::pervasive::unreached(),
        },
        _ => vstd::pervasive::unreached(),
    }
}

/// One full run of the reduction engine over a working sequence `f` of
/// subtrees, scanning from position `m`: the single tree left when the
/// sequence is folded down to one element, or the error the engine stops
/// with. `start` only names the position reported when `f` is empty.
///
/// At each step the engine compares the binding power between the current
/// element and its left neighbor with the one between the current element
/// and its right neighbor. The stronger side is resolved first: a stronger
/// left defers reduction and moves the scan right; a stronger right
/// combines the current element with its right neighbor in place, and the
/// new node is re-examined against its own new neighbors. A tie at power 0
/// means no legal grouping exists at this position.
pub open spec fn spec_reduce(f: Seq<ExprTree>, start: Sp, m: nat) -> Result<ExprTree, TParseErr>
    decreases f.len(), f.len() - m,
{
    if f.len() == 1 {
        Ok(f[0])
    } else if m >= f.len() {
        Err(
            TParseErr {
                span: if f.len() == 0 {
                    start
                } else {
                    f.last().spec_span()
                },
                kind: TParseErrKind::UnexpectedEndOfExpression,
            },
        )
    } else {
        let l_bp: u8 = if m == 0 {
            0
        } else {
            spec_power_between(f[m - 1], f[m as int])
        };
        let r_bp: u8 = if m + 1 >= f.len() {
            0
        } else {
            spec_power_between(f[m as int], f[m + 1 as int])
        };
        if l_bp > r_bp {
            spec_reduce(f, start, m + 1)
        } else if l_bp == r_bp {
            if l_bp == 0 {
                if m + 1 < f.len() {
                    Err(
                        TParseErr {
                            span: Sp::spec_merge(f[m as int].spec_span(), f[m + 1 as int].spec_span()),
                            kind: TParseErrKind::IllegalAdjacency,
                        },
                    )
                } else {
                    Err(
                        TParseErr {
                            span: Sp::spec_merge(f[m - 1].spec_span(), f[m as int].spec_span()),
                            kind: TParseErrKind::AmbiguousBinding,
                        },
                    )
                }
            } else {
                spec_reduce(f, start, m + 1)
            }
        } else {
            spec_reduce(
                f.subrange(0, m as int).push(spec_combine(f[m as int], f[m + 1 as int]).unwrap()) + f.subrange(
                    m + 2 as int,
                    f.len() as int,
                ),
                start,
                m,
            )
        }
    }
}

/// The tree a single token turns into when the working sequence is set up:
/// a leaf tagged with the token's category, except that a parenthesized
/// group is parsed recursively and its resulting tree stands in as a single
/// unit.
pub open spec fn spec_to_tree(t: ExprToken) -> Result<ExprTree, TParseErr>
    decreases t, 1int,
{
    match t.kind {
        ExprTokenKind::Parenthesized(inner) => spec_parse(t.span, inner@),
        _ => Ok(ExprTree::Leaf { cat: spec_classify(t.kind).unwrap(), t }),
    }
}

/// The initial working sequence for a token sequence: one tree per token,
/// or the first error a parenthesized group fails with.
pub open spec fn spec_forest(ts: Seq<ExprToken>) -> Result<Seq<ExprTree>, TParseErr>
    decreases ts, 0int,
{
    if ts.len() == 0 {
        Ok(Seq::empty())
    } else {
        match spec_to_tree(ts[0]) {
            Err(e) => Err(e),
            Ok(t) => match spec_forest(ts.subrange(1, ts.len() as int)) {
                Err(e) => Err(e),
                Ok(rest) => Ok(seq![t] + rest),
            },
        }
    }
}

/// What parsing a token sequence yields: an empty sequence is rejected
/// outright; otherwise every token becomes one element of the working
/// sequence and the reduction engine folds the sequence into a single tree.
pub open spec fn spec_parse(start_span: Sp, ts: Seq<ExprToken>) -> Result<ExprTree, TParseErr>
    decreases ts, 2int,
{
    if ts.len() == 0 {
        Err(TParseErr { span: start_span, kind: TParseErrKind::EmptyExpr })
    } else {
        match spec_forest(ts) {
            Err(e) => Err(e),
            Ok(f) => spec_reduce(f, start_span, 0),
        }
    }
}

impl ExprToken {
    /// The working-sequence element this token stands for: a leaf tagged
    /// with the token's category. A parenthesized group is not classified
    /// directly: its token sequence is parsed recursively and the resulting
    /// tree participates in the outer reduction as one unit, under its own
    /// derived category.
    pub fn to_tree(&self) -> (r: Result<ExprTree, TParseErr>)
        ensures
            r == spec_to_tree(*self),
        decreases *self, 1int, 0int,
    {
        match &self.kind {
            ExprTokenKind::Number => Ok(
                ExprTree::Leaf {
                    cat: Category::A,
                    t: ExprToken { kind: ExprTokenKind::Number, span: self.span },
                },
            ),
            ExprTokenKind::String => Ok(
                ExprTree::Leaf {
                    cat: Category::A,
                    t: ExprToken { kind: ExprTokenKind::String, span: self.span },
                },
            ),
            ExprTokenKind::Char => Ok(
                ExprTree::Leaf {
                    cat: Category::A,
                    t: ExprToken { kind: ExprTokenKind::Char, span: self.span },
                },
            ),
            ExprTokenKind::PrimArray => Ok(
                ExprTree::Leaf {
                    cat: Category::A,
                    t: ExprToken { kind: ExprTokenKind::PrimArray, span: self.span },
                },
            ),
            ExprTokenKind::ArrayName => Ok(
                ExprTree::Leaf {
                    cat: Category::N,
                    t: ExprToken { kind: ExprTokenKind::ArrayName, span: self.span },
                },
            ),
            ExprTokenKind::PrimAVerb => Ok(
                ExprTree::Leaf {
                    cat: Category::Av,
                    t: ExprToken { kind: ExprTokenKind::PrimAVerb, span: self.span },
                },
            ),
            ExprTokenKind::PrimOVerb => Ok(
                ExprTree::Leaf {
                    cat: Category::Ov,
                    t: ExprToken { kind: ExprTokenKind::PrimOVerb, span: self.span },
                },
            ),
            ExprTokenKind::PrimDVerb => Ok(
                ExprTree::Leaf {
                    cat: Category::Dv,
                    t: ExprToken { kind: ExprTokenKind::PrimDVerb, span: self.span },
                },
            ),
            ExprTokenKind::PrimAAdverb => Ok(
                ExprTree::Leaf {
                    cat: Category::Aa,
                    t: ExprToken { kind: ExprTokenKind::PrimAAdverb, span: self.span },
                },
            ),
            ExprTokenKind::PrimOAdverb => Ok(
                ExprTree::Leaf {
                    cat: Category::Oa,
                    t: ExprToken { kind: ExprTokenKind::PrimOAdverb, span: self.span },
                },
            ),
            ExprTokenKind::PrimDAdverb => Ok(
                ExprTree::Leaf {
                    cat: Category::Da,
                    t: ExprToken { kind: ExprTokenKind::PrimDAdverb, span: self.span },
                },
            ),
            ExprTokenKind::AVerbName => Ok(
                ExprTree::Leaf {
                    cat: Category::Av,
                    t: ExprToken { kind: ExprTokenKind::AVerbName, span: self.span },
                },
            ),
            ExprTokenKind::OVerbName => Ok(
                ExprTree::Leaf {
                    cat: Category::Ov,
                    t: ExprToken { kind: ExprTokenKind::OVerbName, span: self.span },
                },
            ),
            ExprTokenKind::DVerbName => Ok(
                ExprTree::Leaf {
                    cat: Category::Dv,
                    t: ExprToken { kind: ExprTokenKind::DVerbName, span: self.span },
                },
            ),
            ExprTokenKind::OAdverbName => Ok(
                ExprTree::Leaf {
                    cat: Category::Oa,
                    t: ExprToken { kind: ExprTokenKind::OAdverbName, span: self.span },
                },
            ),
            ExprTokenKind::DAdverbName => Ok(
                ExprTree::Leaf {
                    cat: Category::Da,
                    t: ExprToken { kind: ExprTokenKind::DAdverbName, span: self.span },
                },
            ),
            ExprTokenKind::ArrayAssign => Ok(
                ExprTree::Leaf {
                    cat: Category::Ass,
                    t: ExprToken { kind: ExprTokenKind::ArrayAssign, span: self.span },
                },
            ),
            ExprTokenKind::VerbAssign => Ok(
                ExprTree::Leaf {
                    cat: Category::Ass,
                    t: ExprToken { kind: ExprTokenKind::VerbAssign, span: self.span },
                },
            ),
            ExprTokenKind::AdverbAssign => Ok(
                ExprTree::Leaf {
                    cat: Category::Ass,
                    t: ExprToken { kind: ExprTokenKind::AdverbAssign, span: self.span },
                },
            ),
            ExprTokenKind::Parenthesized(inner) => parse_expr(self.span, inner),
        }
    }
}

/// Builds the working-sequence elements for the tokens from position `i`
/// on, stopping at the first error a parenthesized group fails with.
fn build_forest(ts: &Vec<ExprToken>, i: usize) -> (r: Result<Vec<ExprTree>, TParseErr>)
    requires
        i <= ts@.len(),
    ensures
        ({
            let s = spec_forest(ts@.subrange(i as int, ts@.len() as int));
            match r {
                Ok(v) => s is Ok && v@ == s.unwrap(),
                Err(e) => s == Err::<Seq<ExprTree>, TParseErr>(e),
            }
        }),
    decreases ts@, 1int, ts@.len() - i,
{
    if i == ts.len() {
        proof {
            assert(ts@.subrange(i as int, ts@.len() as int) =~= Seq::<ExprToken>::empty());
        }
        Ok(Vec::new())
    } else {
        proof {
            assert(ts@.subrange(i as int, ts@.len() as int)[0] == ts@[i as int]);
            assert(ts@.subrange(i as int, ts@.len() as int).subrange(
                1,
                ts@.subrange(i as int, ts@.len() as int).len() as int,
            ) =~= ts@.subrange(i as int + 1, ts@.len() as int));
        }
        let t = match ts[i].to_tree() {
            Ok(t) => t,
            Err(e) => {
                return Err(e);
            },
        };
        match build_forest(ts, i + 1) {
            Ok(mut rest) => {
                rest.insert(0, t);
                proof {
                    assert(rest@ =~= seq![t] + spec_forest(
                        ts@.subrange(i as int + 1, ts@.len() as int),
                    ).unwrap());
                }
                Ok(rest)
            },
            Err(e) => Err(e),
        }
    }
}

/// Parses a non-empty token sequence into a single expression tree, or
/// fails with a structured error carrying the offending span. An empty
/// sequence is rejected with an `EmptyExpr` error at `start_span` before
/// any reduction is attempted.
pub fn parse_expr(start_span: Sp, ts: &Vec<ExprToken>) -> (r: Result<ExprTree, TParseErr>)
    ensures
        r == spec_parse(start_span, ts@),
        ts@.len() == 0 ==> r == Err::<ExprTree, TParseErr>(
            TParseErr { span: start_span, kind: TParseErrKind::EmptyExpr },
        ),
    decreases ts@, 2int, 0int,
{
    if ts.len() == 0 {
        return Err(TParseErr { span: start_span, kind: TParseErrKind::EmptyExpr });
    }
    proof {
        assert(ts@.subrange(0, ts@.len() as int) =~= ts@);
    }
    let f = match build_forest(ts, 0) {
        Ok(f) => f,
        Err(e) => {
            return Err(e);
        },
    };
    parse_expr_go(f, start_span, 0)
}

/// Dyadic application is resolved in two steps: an array followed by a
/// dyadic verb binds into a verb holding its left operand, and that node
/// followed by a further array completes into the dyadic call over both
/// operands.
pub proof fn lemma_dyadic_application(a: ExprTree, v: ExprTree, b: ExprTree)
    requires
        a.spec_category() == Category::A,
        v.spec_category() == Category::Dv,
        b.spec_category() == Category::A,
    ensures
        spec_combine(a, v) == Some(
            ExprTree::DyadicVerbWithAlpha { verb: Box::new(v), alpha: Box::new(a) },
        ),
        spec_combine(spec_combine(a, v).unwrap(), b) == Some(
            ExprTree::DyadicVerbCall { verb: Box::new(v), alpha: Box::new(a), omega: Box::new(b) },
        ),
{
}

/// Classification is a pure, stateless mapping: classifying the same token
/// kind twice always yields the same category.
pub proof fn lemma_classification_deterministic(a: ExprTokenKind, b: ExprTokenKind)
    requires
        a == b,
    ensures
        spec_classify(a) == spec_classify(b),
{
}

/// The working sequence is exactly the token sequence, element by element:
/// it builds whenever every token turns into a tree, and then its `i`-th
/// element is what the `i`-th token turned into.
pub proof fn lemma_forest_index(ts: Seq<ExprToken>)
    ensures
        spec_forest(ts) is Ok <==> (forall|i: int|
            0 <= i < ts.len() ==> #[trigger] spec_to_tree(ts[i]) is Ok),
        spec_forest(ts) is Ok ==> spec_forest(ts).unwrap().len() == ts.len(),
        spec_forest(ts) is Ok ==> (forall|i: int|
            0 <= i < ts.len() ==> spec_forest(ts).unwrap()[i] == #[trigger] spec_to_tree(
                ts[i],
            ).unwrap()),
    decreases ts.len(),
{
    if ts.len() == 0 {
    } else {
        let rest = ts.subrange(1, ts.len() as int);
        lemma_forest_index(rest);
        assert(forall|i: int| 0 <= i < rest.len() ==> rest[i] == ts[i + 1]);
        if spec_to_tree(ts[0]) is Ok {
            if spec_forest(rest) is Ok {
                let f = seq![spec_to_tree(ts[0]).unwrap()] + spec_forest(rest).unwrap();
                assert(spec_forest(ts) == Ok::<Seq<ExprTree>, TParseErr>(f));
                assert forall|i: int| 0 <= i < ts.len() implies #[trigger] spec_to_tree(ts[i])
                    is Ok by {
                    if i > 0 {
                        assert(rest[i - 1] == ts[i]);
                        assert(spec_to_tree(rest[i - 1]) is Ok);
                    }
                }
                assert forall|i: int| 0 <= i < ts.len() implies f[i] == #[trigger] spec_to_tree(
                    ts[i],
                ).unwrap() by {
                    if i > 0 {
                        assert(rest[i - 1] == ts[i]);
                        assert(f[i] == spec_forest(rest).unwrap()[i - 1]);
                        assert(spec_forest(rest).unwrap()[i - 1] == spec_to_tree(
                            rest[i - 1],
                        ).unwrap());
                    }
                }
            } else {
                assert(spec_forest(ts) is Err);
                assert(exists|j: int|
                    0 <= j < rest.len() && !(#[trigger] spec_to_tree(rest[j]) is Ok));
                let j = choose|j: int|
                    0 <= j < rest.len() && !(#[trigger] spec_to_tree(rest[j]) is Ok);
                assert(rest[j] == ts[j + 1]);
                assert(!(spec_to_tree(ts[j + 1]) is Ok));
            }
        } else {
            assert(spec_forest(ts) is Err);
            assert(!(spec_to_tree(ts[0]) is Ok));
        }
    }
}

/// A sequence of exactly one token that is not a parenthesized group parses
/// to the leaf carrying that token, tagged with the category the classifier
/// maps its kind to.
pub proof fn lemma_single_token(start_span: Sp, ts: Seq<ExprToken>)
    requires
        ts.len() == 1,
        !(ts[0].kind is Parenthesized),
    ensures
        spec_parse(start_span, ts) == Ok::<ExprTree, TParseErr>(
            ExprTree::Leaf { cat: spec_classify(ts[0].kind).unwrap(), t: ts[0] },
        ),
{
    let leaf = ExprTree::Leaf { cat: spec_classify(ts[0].kind).unwrap(), t: ts[0] };
    assert(ts.subrange(1, 1) =~= Seq::<ExprToken>::empty());
    assert(spec_forest(Seq::<ExprToken>::empty()) == Ok::<Seq<ExprTree>, TParseErr>(
        Seq::<ExprTree>::empty(),
    ));
    assert(spec_forest(ts) == Ok::<Seq<ExprTree>, TParseErr>(seq![leaf] + Seq::<ExprTree>::empty()));
    assert((seq![leaf] + Seq::<ExprTree>::empty())[0] == leaf);
    assert(spec_reduce(seq![leaf] + Seq::<ExprTree>::empty(), start_span, 0) == Ok::<
        ExprTree,
        TParseErr,
    >(leaf));
}

/// A sequence beginning with two tokens whose categories have no table
/// entry between them — two adjacent arrays, say — fails with an
/// `IllegalAdjacency` whose span covers exactly that adjacent pair.
pub proof fn lemma_leading_illegal_pair(start_span: Sp, ts: Seq<ExprToken>)
    requires
        ts.len() >= 2,
        forall|i: int| 0 <= i < ts.len() ==> !((#[trigger] ts[i]).kind is Parenthesized),
        spec_combine(spec_to_tree(ts[0]).unwrap(), spec_to_tree(ts[1]).unwrap()) is None,
    ensures
        spec_parse(start_span, ts) == Err::<ExprTree, TParseErr>(
            TParseErr {
                span: Sp::spec_merge(ts[0].span, ts[1].span),
                kind: TParseErrKind::IllegalAdjacency,
            },
        ),
{
    lemma_forest_index(ts);
    let f = spec_forest(ts).unwrap();
    assert(f[0] == spec_to_tree(ts[0]).unwrap());
    assert(f[1] == spec_to_tree(ts[1]).unwrap());
    assert(f[0].spec_span() == ts[0].span);
    assert(f[1].spec_span() == ts[1].span);
    assert(spec_power_between(f[0], f[1]) == 0);
    assert(spec_reduce(f, start_span, 0) == Err::<ExprTree, TParseErr>(
        TParseErr {
            span: Sp::spec_merge(ts[0].span, ts[1].span),
            kind: TParseErrKind::IllegalAdjacency,
        },
    ));
}

/// Parenthesization changes grouping, not leaf content: a sequence with a
/// parenthesized group at position `i` parses exactly as the working
/// sequence in which the group's own parse result `sub` stands substituted
/// as a single unit between the trees of the surrounding tokens.
pub proof fn lemma_parenthesized_group(start_span: Sp, ts: Seq<ExprToken>, i: int, sub: ExprTree)
    requires
        0 <= i < ts.len(),
        ts[i].kind is Parenthesized,
        spec_to_tree(ts[i]) == Ok::<ExprTree, TParseErr>(sub),
        forall|j: int| 0 <= j < ts.len() ==> #[trigger] spec_to_tree(ts[j]) is Ok,
    ensures
        spec_parse(start_span, ts) == spec_reduce(
            spec_forest(ts.subrange(0, i)).unwrap() + seq![sub] + spec_forest(
                ts.subrange(i + 1, ts.len() as int),
            ).unwrap(),
            start_span,
            0,
        ),
{
    let prefix = ts.subrange(0, i);
    let suffix = ts.subrange(i + 1, ts.len() as int);
    lemma_forest_index(ts);
    lemma_forest_index(prefix);
    lemma_forest_index(suffix);
    assert(forall|j: int| 0 <= j < prefix.len() ==> prefix[j] == ts[j]);
    assert(forall|j: int| 0 <= j < suffix.len() ==> suffix[j] == ts[i + 1 + j]);
    let f = spec_forest(ts).unwrap();
    let g = spec_forest(prefix).unwrap() + seq![sub] + spec_forest(suffix).unwrap();
    assert(f.len() == g.len());
    assert forall|j: int| 0 <= j < f.len() implies f[j] == g[j] by {
        assert(f[j] == spec_to_tree(ts[j]).unwrap());
        if j < i {
            assert(prefix[j] == ts[j]);
            assert(g[j] == spec_forest(prefix).unwrap()[j]);
            assert(spec_forest(prefix).unwrap()[j] == spec_to_tree(prefix[j]).unwrap());
        } else if j == i {
            assert(g[j] == sub);
        } else {
            assert(suffix[j - i - 1] == ts[j]);
            assert(g[j] == spec_forest(suffix).unwrap()[j - i - 1]);
            assert(spec_forest(suffix).unwrap()[j - i - 1] == spec_to_tree(
                suffix[j - i - 1],
            ).unwrap());
        }
    }
    assert(f =~= g);
}

/// Spans run left to right: each element of the working sequence starts and
/// ends no earlier than every element before it.
pub open spec fn spans_monotone(f: Seq<ExprTree>) -> bool {
    forall|i: int, j: int|
        0 <= i <= j < f.len() ==> #[trigger] f[i].spec_span().start <= #[trigger] f[j].spec_span().start && f[i].spec_span().end <= f[j].spec_span().end
}

/// No element of the working sequence carries the assignment category.
pub open spec fn no_assignments(f: Seq<ExprTree>) -> bool {
    forall|i: int| 0 <= i < f.len() ==> #[trigger] f[i].spec_category() != Category::Ass
}

/// A tree the engine folds out of a left-to-right, assignment-free working
/// sequence covers exactly the sequence's full range: from where its first
/// element starts to where its last element ends. (An assignment drops its
/// marker token, so a lone name-marker pair would end early; every other
/// combination keeps the union of its two sides.)
pub proof fn lemma_reduce_spans_whole_range(f: Seq<ExprTree>, start: Sp, m: nat)
    requires
        f.len() >= 1,
        spans_monotone(f),
        no_assignments(f),
        spec_reduce(f, start, m) is Ok,
    ensures
        spec_reduce(f, start, m).unwrap().spec_span() == Sp::spec_merge(
            f[0].spec_span(),
            f.last().spec_span(),
        ),
    decreases f.len(), f.len() - m,
{
    if f.len() == 1 {
    } else if m >= f.len() {
    } else {
        let l_bp: u8 = if m == 0 {
            0
        } else {
            spec_power_between(f[m - 1], f[m as int])
        };
        let r_bp: u8 = if m + 1 >= f.len() {
            0
        } else {
            spec_power_between(f[m as int], f[m + 1 as int])
        };
        if l_bp >= r_bp {
            lemma_reduce_spans_whole_range(f, start, m + 1);
        } else {
            let combined = spec_combine(f[m as int], f[m + 1 as int]).unwrap();
            let g = f.subrange(0, m as int).push(combined) + f.subrange(m + 2 as int, f.len() as int);
            assert(f[m as int].spec_category() != Category::Ass);
            lemma_combine_span(f[m as int], f[m + 1 as int]);
            lemma_combine_category(f[m as int], f[m + 1 as int]);
            assert(combined.spec_span() == Sp::spec_merge(
                f[m as int].spec_span(),
                f[m + 1 as int].spec_span(),
            ));
            assert(combined.spec_category() != Category::Ass);
            assert(g.len() == f.len() - 1);
            assert(forall|k: int| 0 <= k < m ==> g[k] == f[k]);
            assert(g[m as int] == combined);
            assert(forall|k: int| m < k < g.len() ==> g[k] == f[k + 1]);
            assert forall|i: int, j: int| 0 <= i <= j < g.len() implies #[trigger] g[i].spec_span().start <= #[trigger] g[j].spec_span().start && g[i].spec_span().end <= g[j].spec_span().end by {
                if i == m {
                    assert(f[m as int].spec_span().start <= f[m + 1 as int].spec_span().start);
                }
                if j == m {
                    assert(f[m as int].spec_span().end <= f[m + 1 as int].spec_span().end);
                }
            }
            assert(no_assignments(g)) by {
                assert(forall|k: int|
                    0 <= k < g.len() && k != m ==> #[trigger] g[k].spec_category()
                        != Category::Ass);
            }
            lemma_reduce_spans_whole_range(g, start, m);
            assert(g[0].spec_span().start == f[0].spec_span().start);
            assert(g.last().spec_span().end == f.last().spec_span().end);
        }
    }
}

/// The output contract on spans: a successful parse of a sequence of plain
/// tokens — none a parenthesized group, none an assignment marker — whose
/// spans run left to right yields a tree spanning from the first token's
/// start to the last token's end.
pub proof fn lemma_parse_spans_whole_range(start_span: Sp, ts: Seq<ExprToken>)
    requires
        ts.len() >= 1,
        forall|i: int| 0 <= i < ts.len() ==> !((#[trigger] ts[i]).kind is Parenthesized),
        forall|i: int| 0 <= i < ts.len() ==> spec_classify((#[trigger] ts[i]).kind) != Some(
            Category::Ass,
        ),
        forall|i: int, j: int|
            0 <= i <= j < ts.len() ==> (#[trigger] ts[i].span).start <= (#[trigger] ts[j].span).start && ts[i].span.end <= ts[j].span.end,
        spec_parse(start_span, ts) is Ok,
    ensures
        spec_parse(start_span, ts).unwrap().spec_span() == Sp::spec_merge(
            ts[0].span,
            ts.last().span,
        ),
{
    lemma_forest_index(ts);
    let f = spec_forest(ts).unwrap();
    assert forall|i: int| 0 <= i < f.len() implies (#[trigger] f[i]).spec_span() == ts[i].span
        && f[i].spec_category() != Category::Ass by {
        assert(f[i] == spec_to_tree(ts[i]).unwrap());
    }
    assert(spans_monotone(f));
    assert(no_assignments(f));
    lemma_reduce_spans_whole_range(f, start_span, 0);
}

/// The reduction engine itself: folds a working sequence of subtrees into
/// a single tree, scanning from position `cur`, exactly as
/// [`spec_reduce`] describes. `start_span` only names the position
/// reported when the sequence is empty.
pub fn parse_expr_go(ts: Vec<ExprTree>, start_span: Sp, cur: usize) -> (r: Result<
    ExprTree,
    TParseErr,
>)
    ensures
        r == spec_reduce(ts@, start_span, cur as nat),
{
    let mut work = ts;
    let mut marker: usize = cur;
    loop
        invariant
            spec_reduce(work@, start_span, marker as nat) == spec_reduce(ts@, start_span, cur as nat),
        decreases 2 * work@.len() - marker as int,
    {
        let ghost snap = work@;
        let ghost msnap = marker as nat;
        let n = work.len();
        if n == 1 {
            let t = work.remove(0);
            proof {
                assert(spec_reduce(snap, start_span, msnap) == Ok::<ExprTree, TParseErr>(snap[0]));
            }
            return Ok(t);
        }
        if marker >= n {
            let sp = if n == 0 {
                start_span
            } else {
                work[n - 1].span()
            };
            proof {
                assert(spec_reduce(snap, start_span, msnap) == Err::<ExprTree, TParseErr>(
                    TParseErr { span: sp, kind: TParseErrKind::UnexpectedEndOfExpression },
                ));
            }
            return Err(TParseErr { span: sp, kind: TParseErrKind::UnexpectedEndOfExpression });
        }
        let ghost spec_l: u8 = if msnap == 0 {
            0u8
        } else {
            spec_power_between(snap[msnap - 1], snap[msnap as int])
        };
        let ghost spec_r: u8 = if msnap + 1 >= snap.len() {
            0u8
        } else {
            spec_power_between(snap[msnap as int], snap[msnap + 1 as int])
        };
        let l_bp: u8 = if marker == 0 {
            0
        } else {
            match binding_power_of(&work[marker - 1], &work[marker]) {
                Some(p) => p,
                None => 0,
            }
        };
        let r_bp: u8 = if marker + 1 >= n {
            0
        } else {
            match binding_power_of(&work[marker], &work[marker + 1]) {
                Some(p) => p,
                None => 0,
            }
        };
        proof {
            assert(l_bp == spec_l);
            assert(r_bp == spec_r);
        }
        if l_bp > r_bp {
            // The left neighbor binds more tightly: defer its reduction and
            // resolve further right first.
            proof {
                assert(spec_reduce(snap, start_span, msnap) == spec_reduce(
                    snap,
                    start_span,
                    msnap + 1,
                ));
            }
            marker = marker + 1;
        } else if l_bp == r_bp {
            if l_bp == 0 {
                // Tied with no relation on either side: no legal grouping
                // exists at this position.
                if marker + 1 < n {
                    let sp = work[marker].span().merge(&work[marker + 1].span());
                    proof {
                        assert(spec_reduce(snap, start_span, msnap) == Err::<ExprTree, TParseErr>(
                            TParseErr { span: sp, kind: TParseErrKind::IllegalAdjacency },
                        ));
                    }
                    return Err(TParseErr { span: sp, kind: TParseErrKind::IllegalAdjacency });
                } else {
                    let sp = work[marker - 1].span().merge(&work[marker].span());
                    proof {
                        assert(spec_reduce(snap, start_span, msnap) == Err::<ExprTree, TParseErr>(
                            TParseErr { span: sp, kind: TParseErrKind::AmbiguousBinding },
                        ));
                    }
                    return Err(TParseErr { span: sp, kind: TParseErrKind::AmbiguousBinding });
                }
            } else {
                proof {
                    assert(spec_reduce(snap, start_span, msnap) == spec_reduce(
                        snap,
                        start_span,
                        msnap + 1,
                    ));
                }
                marker = marker + 1;
            }
        } else {
            // The right neighbor binds more tightly: combine the current
            // element with it and re-examine the new node in place.
            let right = work.remove(marker + 1);
            let current = work.remove(marker);
            let combined = combine(current, right);
            work.insert(marker, combined);
            proof {
                assert(work@ =~= snap.subrange(0, marker as int).push(combined) + snap.subrange(
                    marker as int + 2,
                    snap.len() as int,
                ));
                assert(spec_reduce(snap, start_span, msnap) == spec_reduce(
                    work@,
                    start_span,
                    msnap,
                ));
            }
        }
    }
}

} // verus!
