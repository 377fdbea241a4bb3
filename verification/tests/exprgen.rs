use beamline::ast::{BinOpKind, ConstantLiteral, Expr, Lit, Projection, UniOpKind};
use beamline::exprgen::{
    Between, BinOp, ExprGenerator, ExprPair, Expression, In, Like, SearchedCase, SimpleCase, UniOp,
};
use beamline::select::{query_generator, BasicSFW, FilterGen, FromTable, ProjectionGen, SelectStar};
use beamline::shape::{NameAndShape, PartiqlShape, Static};
use beamline::strategy::SelectFromWhereBuilder;

fn int8(v: i8) -> ExprGenerator {
    ExprGenerator::Constant(ConstantLiteral::Int8Lit(v))
}

fn gt() -> ExprGenerator {
    let five = int8(5);
    let eight = int8(8);
    let sum = ExprGenerator::BinOp(Box::new(BinOp { kind: BinOpKind::Add, lhs: five, rhs: eight }));
    ExprGenerator::BinOp(Box::new(BinOp { kind: BinOpKind::Gt, lhs: sum, rhs: int8(7) }))
}

fn is_int8(e: &Expr, v: i8) -> bool {
    matches!(e, Expr::Lit(Lit::Int8(x)) if *x == v)
}

fn is_gt(e: &Expr) -> bool {
    match e {
        Expr::BinOp(BinOpKind::Gt, l, r) => {
            is_int8(r, 7)
                && matches!(&**l, Expr::BinOp(BinOpKind::Add, a, b) if is_int8(a, 5) && is_int8(b, 8))
        }
        _ => false,
    }
}

#[test]
fn simple_ast_gen() {
    let project = SelectStar {}.gen_ast();
    assert!(matches!(project, Projection::Star));
    let from = FromTable { name: "Foo".to_string() }.gen_ast();
    let and = ExprGenerator::BinOp(Box::new(BinOp { kind: BinOpKind::And, lhs: gt(), rhs: gt() }));
    let where_clause = Some(FilterGen::Expr(Expression { expr: and }));
    let mut sfw = BasicSFW { project: ProjectionGen::Star, exclude: None, from, where_clause };
    for _ in 0..2 {
        let q = sfw.gen_ast();
        assert!(matches!(q.project, Projection::Star));
        assert!(q.exclude.is_none());
        assert_eq!(q.from, "Foo");
        match q.where_clause {
            Some(Expr::BinOp(BinOpKind::And, l, r)) => assert!(is_gt(&l) && is_gt(&r)),
            other => panic!("unexpected {other:?}"),
        }
    }
}

#[test]
fn simple_strategy() {
    let strategy = SelectFromWhereBuilder::select_all().build().expect("strategy");
    let shape = PartiqlShape::Static(Static::Bag(Box::new(PartiqlShape::Static(Static::Int))));
    let dataset = NameAndShape { name: "Table".to_string(), shape };
    let mut g = query_generator(1234, &strategy, &vec![dataset]).expect("generator");
    let q = g.gen_ast();
    assert!(matches!(q.project, Projection::Star));
    assert_eq!(q.from, "Table");
    assert!(q.exclude.is_none());
    assert!(q.where_clause.is_none());
}

#[test]
fn unary_like_between_and_in_keep_their_parts() {
    let neg = ExprGenerator::UniOp(Box::new(UniOp { kind: UniOpKind::Neg, expr: int8(3) }));
    assert!(matches!(neg.gen_ast(), Expr::UniOp(UniOpKind::Neg, x) if is_int8(&x, 3)));

    let text = |s: &str| ExprGenerator::Constant(ConstantLiteral::CharStringLit(s.to_string()));
    let like = Like { value: text("abc"), pattern: text("a%"), escape: Some(text("!")) };
    match like.gen_ast() {
        Expr::Like(v, p, Some(x)) => {
            assert!(matches!(*v, Expr::Lit(Lit::CharString(ref s)) if s == "abc"));
            assert!(matches!(*p, Expr::Lit(Lit::CharString(ref s)) if s == "a%"));
            assert!(matches!(*x, Expr::Lit(Lit::CharString(ref s)) if s == "!"));
        }
        other => panic!("unexpected {other:?}"),
    }
    let plain = Like { value: text("abc"), pattern: text("a%"), escape: None };
    assert!(matches!(plain.gen_ast(), Expr::Like(_, _, None)));

    let between = Between { value: int8(2), from: int8(1), to: int8(3) };
    assert!(matches!(between.gen_ast(),
        Expr::Between(v, a, b) if is_int8(&v, 2) && is_int8(&a, 1) && is_int8(&b, 3)));

    let inside = In { lhs: int8(1), rhs: int8(4) };
    assert!(matches!(inside.gen_ast(), Expr::In(l, r) if is_int8(&l, 1) && is_int8(&r, 4)));
}

#[test]
fn case_forms_keep_their_arms_in_order() {
    let arms = || {
        vec![
            ExprPair { first: int8(1), second: int8(10) },
            ExprPair { first: int8(2), second: int8(20) },
        ]
    };
    let simple = SimpleCase { expr: int8(2), cases: arms(), default: Some(int8(0)) };
    match simple.gen_ast() {
        Expr::SimpleCase(x, cases, Some(d)) => {
            assert!(is_int8(&x, 2) && is_int8(&d, 0));
            assert_eq!(cases.len(), 2);
            assert!(is_int8(&cases[0].0, 1) && is_int8(&cases[0].1, 10));
            assert!(is_int8(&cases[1].0, 2) && is_int8(&cases[1].1, 20));
        }
        other => panic!("unexpected {other:?}"),
    }
    let searched = ExprGenerator::SearchedCase(Box::new(SearchedCase { cases: arms(), default: None }));
    match searched.gen_ast() {
        Expr::SearchedCase(cases, None) => {
            assert_eq!(cases.len(), 2);
            assert!(is_int8(&cases[1].0, 2) && is_int8(&cases[1].1, 20));
        }
        other => panic!("unexpected {other:?}"),
    }
    let empty = SearchedCase { cases: vec![], default: Some(int8(9)) };
    assert!(matches!(empty.gen_ast(), Expr::SearchedCase(c, Some(d)) if c.is_empty() && is_int8(&d, 9)));
}

#[test]
fn expression_gives_its_inner_expression() {
    let e = Expression { expr: gt() };
    assert!(is_gt(&e.gen_ast()));
}
