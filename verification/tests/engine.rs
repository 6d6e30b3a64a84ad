use bunda_gerth::ast::Sp;
use bunda_gerth::parsing::expr::{parse_expr, parse_expr_go, ExprToken, ExprTokenKind, ExprTree};
use bunda_gerth::parsing::{Category, TParseErr, TParseErrKind};

fn tok(kind: ExprTokenKind, start: usize, end: usize) -> ExprToken {
    ExprToken { kind, span: Sp::new(start, end) }
}

fn leaf(cat: Category, kind: ExprTokenKind, start: usize, end: usize) -> ExprTree {
    ExprTree::Leaf { cat, t: tok(kind, start, end) }
}

#[test]
fn empty_expression_is_rejected() {
    let ts: Vec<ExprToken> = vec![];
    let err = parse_expr(Sp::new(0, 0), &ts).unwrap_err();
    assert_eq!(err, TParseErr { span: Sp::new(0, 0), kind: TParseErrKind::EmptyExpr });
}

#[test]
fn single_number_is_an_array_leaf() {
    let ts = vec![tok(ExprTokenKind::Number, 0, 3)];
    let expr = parse_expr(Sp::new(0, 0), &ts).unwrap();
    assert_eq!(expr, leaf(Category::A, ExprTokenKind::Number, 0, 3));
}

fn check_single_token(kind: ExprTokenKind, expected_kind: ExprTokenKind, cat: Category) {
    let ts = vec![tok(kind, 0, 1)];
    let expr = parse_expr(Sp::new(0, 0), &ts).unwrap();
    assert_eq!(expr, leaf(cat, expected_kind, 0, 1));
}

#[test]
fn single_tokens_classify_per_kind() {
    check_single_token(ExprTokenKind::String, ExprTokenKind::String, Category::A);
    check_single_token(ExprTokenKind::Char, ExprTokenKind::Char, Category::A);
    check_single_token(ExprTokenKind::PrimArray, ExprTokenKind::PrimArray, Category::A);
    check_single_token(ExprTokenKind::ArrayName, ExprTokenKind::ArrayName, Category::N);
    check_single_token(ExprTokenKind::PrimAVerb, ExprTokenKind::PrimAVerb, Category::Av);
    check_single_token(ExprTokenKind::PrimOVerb, ExprTokenKind::PrimOVerb, Category::Ov);
    check_single_token(ExprTokenKind::PrimDVerb, ExprTokenKind::PrimDVerb, Category::Dv);
    check_single_token(ExprTokenKind::PrimAAdverb, ExprTokenKind::PrimAAdverb, Category::Aa);
    check_single_token(ExprTokenKind::PrimOAdverb, ExprTokenKind::PrimOAdverb, Category::Oa);
    check_single_token(ExprTokenKind::PrimDAdverb, ExprTokenKind::PrimDAdverb, Category::Da);
    check_single_token(ExprTokenKind::AVerbName, ExprTokenKind::AVerbName, Category::Av);
    check_single_token(ExprTokenKind::OVerbName, ExprTokenKind::OVerbName, Category::Ov);
    check_single_token(ExprTokenKind::DVerbName, ExprTokenKind::DVerbName, Category::Dv);
    check_single_token(ExprTokenKind::OAdverbName, ExprTokenKind::OAdverbName, Category::Oa);
    check_single_token(ExprTokenKind::DAdverbName, ExprTokenKind::DAdverbName, Category::Da);
    check_single_token(ExprTokenKind::ArrayAssign, ExprTokenKind::ArrayAssign, Category::Ass);
    check_single_token(ExprTokenKind::VerbAssign, ExprTokenKind::VerbAssign, Category::Ass);
    check_single_token(ExprTokenKind::AdverbAssign, ExprTokenKind::AdverbAssign, Category::Ass);
}

#[test]
fn classification_is_stable_across_calls() {
    let t = tok(ExprTokenKind::PrimDVerb, 4, 5);
    let first = t.to_tree().unwrap();
    let second = t.to_tree().unwrap();
    assert_eq!(first, second);
    assert_eq!(first.category(), Category::Dv);
}

#[test]
fn omega_verb_applies_to_the_right() {
    let ts = vec![tok(ExprTokenKind::PrimOVerb, 0, 1), tok(ExprTokenKind::Number, 1, 2)];
    let expr = parse_expr(Sp::new(0, 0), &ts).unwrap();
    let expected = ExprTree::OmegaVerbCall {
        verb: Box::new(leaf(Category::Ov, ExprTokenKind::PrimOVerb, 0, 1)),
        omega: Box::new(leaf(Category::A, ExprTokenKind::Number, 1, 2)),
    };
    assert_eq!(expr, expected);
    assert_eq!(expr.category(), Category::Ov);
    assert_eq!(expr.span(), Sp::new(0, 2));
}

#[test]
fn alpha_verb_applies_to_the_left() {
    let ts = vec![tok(ExprTokenKind::Number, 0, 1), tok(ExprTokenKind::PrimAVerb, 1, 2)];
    let expr = parse_expr(Sp::new(0, 0), &ts).unwrap();
    let expected = ExprTree::AlphaVerbCall {
        verb: Box::new(leaf(Category::Av, ExprTokenKind::PrimAVerb, 1, 2)),
        alpha: Box::new(leaf(Category::A, ExprTokenKind::Number, 0, 1)),
    };
    assert_eq!(expr, expected);
    assert_eq!(expr.category(), Category::Av);
}

#[test]
fn alpha_adverb_takes_a_verb_operand() {
    let ts = vec![tok(ExprTokenKind::PrimDVerb, 0, 1), tok(ExprTokenKind::PrimAAdverb, 1, 2)];
    let expr = parse_expr(Sp::new(0, 0), &ts).unwrap();
    let expected = ExprTree::AlphaAdverbCall {
        adverb: Box::new(leaf(Category::Aa, ExprTokenKind::PrimAAdverb, 1, 2)),
        alpha: Box::new(leaf(Category::Dv, ExprTokenKind::PrimDVerb, 0, 1)),
    };
    assert_eq!(expr, expected);
}

#[test]
fn omega_adverb_takes_a_verb_operand() {
    let ts = vec![tok(ExprTokenKind::PrimOAdverb, 0, 1), tok(ExprTokenKind::PrimDVerb, 1, 2)];
    let expr = parse_expr(Sp::new(0, 0), &ts).unwrap();
    let expected = ExprTree::OmegaAdverbCall {
        adverb: Box::new(leaf(Category::Oa, ExprTokenKind::PrimOAdverb, 0, 1)),
        omega: Box::new(leaf(Category::Dv, ExprTokenKind::PrimDVerb, 1, 2)),
    };
    assert_eq!(expr, expected);
}

#[test]
fn dyadic_adverb_takes_both_verb_operands() {
    let ts = vec![
        tok(ExprTokenKind::PrimDVerb, 0, 1),
        tok(ExprTokenKind::PrimDAdverb, 1, 2),
        tok(ExprTokenKind::PrimDVerb, 2, 3),
    ];
    let expr = parse_expr(Sp::new(0, 0), &ts).unwrap();
    let expected = ExprTree::DyadicAdverbCall {
        adverb: Box::new(leaf(Category::Da, ExprTokenKind::PrimDAdverb, 1, 2)),
        alpha: Box::new(leaf(Category::Dv, ExprTokenKind::PrimDVerb, 0, 1)),
        omega: Box::new(leaf(Category::Dv, ExprTokenKind::PrimDVerb, 2, 3)),
    };
    assert_eq!(expr, expected);
    assert_eq!(expr.span(), Sp::new(0, 3));
}

#[test]
fn assignment_binds_a_name_to_a_value() {
    let ts = vec![
        tok(ExprTokenKind::ArrayName, 0, 1),
        tok(ExprTokenKind::ArrayAssign, 1, 2),
        tok(ExprTokenKind::Number, 2, 3),
    ];
    let expr = parse_expr(Sp::new(0, 0), &ts).unwrap();
    let expected = ExprTree::Assignment {
        name: tok(ExprTokenKind::ArrayName, 0, 1),
        val: Box::new(leaf(Category::A, ExprTokenKind::Number, 2, 3)),
    };
    assert_eq!(expr, expected);
    assert_eq!(expr.category(), Category::Ass);
}

#[test]
fn two_adjacent_arrays_are_an_illegal_adjacency() {
    let ts = vec![tok(ExprTokenKind::Number, 0, 1), tok(ExprTokenKind::Number, 1, 2)];
    let err = parse_expr(Sp::new(0, 0), &ts).unwrap_err();
    assert_eq!(err, TParseErr { span: Sp::new(0, 2), kind: TParseErrKind::IllegalAdjacency });
}

#[test]
fn bare_dyadic_verb_cannot_take_only_a_right_operand() {
    let ts = vec![tok(ExprTokenKind::PrimDVerb, 0, 1), tok(ExprTokenKind::Number, 1, 2)];
    let err = parse_expr(Sp::new(0, 0), &ts).unwrap_err();
    assert_eq!(err, TParseErr { span: Sp::new(0, 2), kind: TParseErrKind::IllegalAdjacency });
}

#[test]
fn bare_assignment_marker_has_no_name_to_bind() {
    let ts = vec![tok(ExprTokenKind::ArrayAssign, 0, 1), tok(ExprTokenKind::Number, 1, 2)];
    let err = parse_expr(Sp::new(0, 0), &ts).unwrap_err();
    assert_eq!(err, TParseErr { span: Sp::new(0, 2), kind: TParseErrKind::IllegalAdjacency });
}

#[test]
fn engine_on_empty_working_sequence_reports_unexpected_end() {
    let err = parse_expr_go(vec![], Sp::new(7, 9), 0).unwrap_err();
    assert_eq!(
        err,
        TParseErr { span: Sp::new(7, 9), kind: TParseErrKind::UnexpectedEndOfExpression },
    );
}

#[test]
fn engine_scanning_past_a_dead_end_reports_ambiguous_binding() {
    let forest = vec![
        leaf(Category::A, ExprTokenKind::Number, 0, 1),
        leaf(Category::A, ExprTokenKind::Number, 1, 2),
    ];
    let err = parse_expr_go(forest, Sp::new(0, 0), 1).unwrap_err();
    assert_eq!(err, TParseErr { span: Sp::new(0, 2), kind: TParseErrKind::AmbiguousBinding });
}

#[test]
fn parenthesized_group_substitutes_for_its_tree() {
    let flat = vec![
        tok(ExprTokenKind::Number, 0, 1),
        tok(ExprTokenKind::PrimDVerb, 1, 2),
        tok(ExprTokenKind::Number, 2, 3),
    ];
    let grouped = vec![
        tok(ExprTokenKind::Number, 0, 1),
        ExprToken {
            kind: ExprTokenKind::Parenthesized(vec![tok(ExprTokenKind::PrimDVerb, 1, 2)]),
            span: Sp::new(1, 2),
        },
        tok(ExprTokenKind::Number, 2, 3),
    ];
    let flat_tree = parse_expr(Sp::new(0, 0), &flat).unwrap();
    let grouped_tree = parse_expr(Sp::new(0, 0), &grouped).unwrap();
    assert_eq!(flat_tree, grouped_tree);
}

#[test]
fn whole_expression_in_parentheses_parses_like_the_flat_one() {
    let inner = vec![
        tok(ExprTokenKind::Number, 1, 2),
        tok(ExprTokenKind::PrimDVerb, 2, 3),
        tok(ExprTokenKind::Number, 3, 4),
    ];
    let flat_tree = parse_expr(Sp::new(1, 1), &inner).unwrap();
    let grouped = vec![ExprToken {
        kind: ExprTokenKind::Parenthesized(inner),
        span: Sp::new(0, 5),
    }];
    let grouped_tree = parse_expr(Sp::new(0, 0), &grouped).unwrap();
    assert_eq!(flat_tree, grouped_tree);
}

#[test]
fn empty_parenthesized_group_fails_at_its_own_span() {
    let ts = vec![ExprToken { kind: ExprTokenKind::Parenthesized(vec![]), span: Sp::new(3, 5) }];
    let err = parse_expr(Sp::new(0, 0), &ts).unwrap_err();
    assert_eq!(err, TParseErr { span: Sp::new(3, 5), kind: TParseErrKind::EmptyExpr });
}

#[test]
fn name_operands_bind_like_arrays() {
    let ts = vec![
        tok(ExprTokenKind::Number, 0, 1),
        tok(ExprTokenKind::PrimDVerb, 1, 2),
        tok(ExprTokenKind::ArrayName, 2, 3),
    ];
    let expr = parse_expr(Sp::new(0, 0), &ts).unwrap();
    let expected = ExprTree::DyadicVerbCall {
        verb: Box::new(leaf(Category::Dv, ExprTokenKind::PrimDVerb, 1, 2)),
        alpha: Box::new(leaf(Category::A, ExprTokenKind::Number, 0, 1)),
        omega: Box::new(leaf(Category::N, ExprTokenKind::ArrayName, 2, 3)),
    };
    assert_eq!(expr, expected);
}

#[test]
fn dyadic_adverb_accepts_an_array_operand() {
    let ts = vec![
        tok(ExprTokenKind::Number, 0, 1),
        tok(ExprTokenKind::PrimDAdverb, 1, 2),
        tok(ExprTokenKind::PrimDVerb, 2, 3),
    ];
    let expr = parse_expr(Sp::new(0, 0), &ts).unwrap();
    let expected = ExprTree::DyadicAdverbCall {
        adverb: Box::new(leaf(Category::Da, ExprTokenKind::PrimDAdverb, 1, 2)),
        alpha: Box::new(leaf(Category::A, ExprTokenKind::Number, 0, 1)),
        omega: Box::new(leaf(Category::Dv, ExprTokenKind::PrimDVerb, 2, 3)),
    };
    assert_eq!(expr, expected);
}

#[test]
fn derived_omega_adverb_applies_onward() {
    // An omega adverb takes a verb, and the derived operator, still of
    // omega-adverb category, takes the array on its right in turn.
    let ts = vec![
        tok(ExprTokenKind::PrimOAdverb, 0, 1),
        tok(ExprTokenKind::PrimDVerb, 1, 2),
        tok(ExprTokenKind::Number, 2, 3),
    ];
    let expr = parse_expr(Sp::new(0, 0), &ts).unwrap();
    let inner = ExprTree::OmegaAdverbCall {
        adverb: Box::new(leaf(Category::Oa, ExprTokenKind::PrimOAdverb, 0, 1)),
        omega: Box::new(leaf(Category::Dv, ExprTokenKind::PrimDVerb, 1, 2)),
    };
    let expected = ExprTree::OmegaAdverbCall {
        adverb: Box::new(inner),
        omega: Box::new(leaf(Category::A, ExprTokenKind::Number, 2, 3)),
    };
    assert_eq!(expr, expected);
}

#[test]
fn verb_assignment_binds_a_verb_value() {
    let ts = vec![
        tok(ExprTokenKind::ArrayName, 0, 1),
        tok(ExprTokenKind::VerbAssign, 1, 2),
        tok(ExprTokenKind::DVerbName, 2, 3),
    ];
    let expr = parse_expr(Sp::new(0, 0), &ts).unwrap();
    let expected = ExprTree::Assignment {
        name: tok(ExprTokenKind::ArrayName, 0, 1),
        val: Box::new(leaf(Category::Dv, ExprTokenKind::DVerbName, 2, 3)),
    };
    assert_eq!(expr, expected);
}

#[test]
fn nested_parentheses_unwrap_to_the_leaf() {
    let innermost = vec![tok(ExprTokenKind::Number, 2, 3)];
    let inner = vec![ExprToken {
        kind: ExprTokenKind::Parenthesized(innermost),
        span: Sp::new(1, 4),
    }];
    let ts = vec![ExprToken { kind: ExprTokenKind::Parenthesized(inner), span: Sp::new(0, 5) }];
    let expr = parse_expr(Sp::new(0, 0), &ts).unwrap();
    assert_eq!(expr, leaf(Category::A, ExprTokenKind::Number, 2, 3));
}

#[test]
fn to_tree_parses_a_group_into_its_tree() {
    let group = ExprToken {
        kind: ExprTokenKind::Parenthesized(vec![
            tok(ExprTokenKind::PrimOVerb, 1, 2),
            tok(ExprTokenKind::Number, 2, 3),
        ]),
        span: Sp::new(0, 4),
    };
    let tree = group.to_tree().unwrap();
    let expected = ExprTree::OmegaVerbCall {
        verb: Box::new(leaf(Category::Ov, ExprTokenKind::PrimOVerb, 1, 2)),
        omega: Box::new(leaf(Category::A, ExprTokenKind::Number, 2, 3)),
    };
    assert_eq!(tree, expected);
}

#[test]
fn dyadic_verb_binds_a_lone_left_operand() {
    let ts = vec![tok(ExprTokenKind::Number, 0, 1), tok(ExprTokenKind::PrimDVerb, 1, 2)];
    let expr = parse_expr(Sp::new(0, 0), &ts).unwrap();
    let expected = ExprTree::DyadicVerbWithAlpha {
        verb: Box::new(leaf(Category::Dv, ExprTokenKind::PrimDVerb, 1, 2)),
        alpha: Box::new(leaf(Category::A, ExprTokenKind::Number, 0, 1)),
    };
    assert_eq!(expr, expected);
    assert_eq!(expr.category(), Category::Dv);
}

#[test]
fn dyadic_adverb_binds_a_lone_left_operand() {
    let ts = vec![tok(ExprTokenKind::PrimDVerb, 0, 1), tok(ExprTokenKind::PrimDAdverb, 1, 2)];
    let expr = parse_expr(Sp::new(0, 0), &ts).unwrap();
    let expected = ExprTree::DyadicAdverbWithAlpha {
        adverb: Box::new(leaf(Category::Da, ExprTokenKind::PrimDAdverb, 1, 2)),
        alpha: Box::new(leaf(Category::Dv, ExprTokenKind::PrimDVerb, 0, 1)),
    };
    assert_eq!(expr, expected);
    assert_eq!(expr.category(), Category::Da);
}

#[test]
fn assignment_marker_binds_a_lone_name() {
    let ts = vec![tok(ExprTokenKind::ArrayName, 0, 1), tok(ExprTokenKind::ArrayAssign, 1, 2)];
    let expr = parse_expr(Sp::new(0, 0), &ts).unwrap();
    let expected = ExprTree::AssignTarget { name: tok(ExprTokenKind::ArrayName, 0, 1) };
    assert_eq!(expr, expected);
    assert_eq!(expr.span(), Sp::new(0, 1));
}
