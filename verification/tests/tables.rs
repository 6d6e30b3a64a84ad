use bunda_gerth::ast::Sp;
use bunda_gerth::parsing::expr::{binding_power_of, ExprToken, ExprTokenKind, ExprTree};
use bunda_gerth::parsing::{Category, TParseErr, TParseErrKind};

fn tok(kind: ExprTokenKind, start: usize, end: usize) -> ExprToken {
    ExprToken { kind, span: Sp::new(start, end) }
}

fn leaf(cat: Category, kind: ExprTokenKind, start: usize, end: usize) -> ExprTree {
    ExprTree::Leaf { cat, t: tok(kind, start, end) }
}

#[test]
fn span_merge_is_the_union() {
    let a = Sp::new(0, 1);
    let b = Sp::new(4, 7);
    assert_eq!(a.merge(&b), Sp::new(0, 7));
    assert_eq!(b.merge(&a), Sp::new(0, 7));
    assert_eq!(a.merge(&a), a);
    let inner = Sp::new(5, 6);
    assert_eq!(b.merge(&inner), b);
}

#[test]
fn table_orderings_hold_of_the_real_table() {
    let av_da = Category::binding_power_of(&Category::Av, &Category::Da).unwrap();
    let dv_da = Category::binding_power_of(&Category::Dv, &Category::Da).unwrap();
    let da_dv = Category::binding_power_of(&Category::Da, &Category::Dv).unwrap();
    assert!(av_da < da_dv);
    assert!(dv_da < da_dv);
    assert!(av_da < dv_da);
    assert!(Category::binding_power_of(&Category::Dv, &Category::Jot).is_none());
}

#[test]
fn operands_have_no_entry_between_them() {
    assert!(Category::binding_power_of(&Category::A, &Category::A).is_none());
    assert!(Category::binding_power_of(&Category::A, &Category::N).is_none());
    assert!(Category::binding_power_of(&Category::N, &Category::A).is_none());
    assert!(Category::binding_power_of(&Category::N, &Category::N).is_none());
    assert!(Category::binding_power_of(&Category::A, &Category::Ov).is_none());
    assert!(Category::binding_power_of(&Category::Ov, &Category::A).is_some());
}

#[test]
fn tree_binding_power_checks_shape() {
    let number = leaf(Category::A, ExprTokenKind::Number, 2, 3);
    let bare_dyadic = leaf(Category::Dv, ExprTokenKind::PrimDVerb, 0, 1);
    // A bare dyadic verb has no bound left operand, so the completion pair
    // (Dv, A) is rejected even though the category pair has a table entry.
    assert!(binding_power_of(&bare_dyadic, &number).is_none());

    let bound = ExprTree::DyadicVerbWithAlpha {
        verb: Box::new(leaf(Category::Dv, ExprTokenKind::PrimDVerb, 1, 2)),
        alpha: Box::new(leaf(Category::A, ExprTokenKind::Number, 0, 1)),
    };
    assert_eq!(binding_power_of(&bound, &number), Some(2));

    let target = ExprTree::AssignTarget { name: tok(ExprTokenKind::ArrayName, 0, 1) };
    assert_eq!(binding_power_of(&target, &number), Some(1));
    let marker = leaf(Category::Ass, ExprTokenKind::ArrayAssign, 0, 1);
    assert!(binding_power_of(&marker, &number).is_none());
}

#[test]
fn derived_categories_and_spans_of_built_nodes() {
    let call = ExprTree::OmegaVerbCall {
        verb: Box::new(leaf(Category::Ov, ExprTokenKind::PrimOVerb, 0, 1)),
        omega: Box::new(leaf(Category::A, ExprTokenKind::Number, 1, 4)),
    };
    assert_eq!(call.category(), Category::Ov);
    assert_eq!(call.span(), Sp::new(0, 4));

    let assignment = ExprTree::Assignment {
        name: tok(ExprTokenKind::ArrayName, 0, 1),
        val: Box::new(call),
    };
    assert_eq!(assignment.category(), Category::Ass);
    assert_eq!(assignment.span(), Sp::new(0, 4));
}

#[test]
fn errors_carry_the_given_position() {
    let e = TParseErr::at(tok(ExprTokenKind::Number, 3, 4), TParseErrKind::IllegalAdjacency);
    assert_eq!(e, TParseErr { span: Sp::new(3, 4), kind: TParseErrKind::IllegalAdjacency });
    let f = TParseErr::with_span(Sp::new(1, 2), TParseErrKind::EmptyExpr);
    assert_eq!(f, TParseErr { span: Sp::new(1, 2), kind: TParseErrKind::EmptyExpr });
}
