use beamline::ast::{literal_of_value, BinOpKind, UniOpKind, ConstantLiteral, Expr, Lit, Projection};
use beamline::value::{Decimal, Value};
use beamline::generator::{
    flatten_types, is_comparable, seeded_rng, test_for, PathRowFilter, PredicateGen, SimpleRandomValueGenerator,
};
use beamline::path::{PathAndShape, PathGenStep};
use beamline::predicate::{DatasetPredicates, PathPredicates, Predicate, PredicateDirection};
use beamline::select::{build_query, query_generator};
use beamline::shape::{NameAndShape, PartiqlShape, Static, StructField};
use beamline::predicate::PredicateFlags;
use beamline::select::FilterGen;
use beamline::strategy::{RandomRowPredicate, TableFilter, 
    PathGenSpecBuilder, Projections, RandomProjectList, SelectFromWhere, SelectFromWhereBuilder, StrategyError,
};

fn st(t: Static) -> PartiqlShape {
    PartiqlShape::Static(t)
}

fn path_expr() -> Expr {
    Expr::Path(beamline::ast::QueryPath { root: "t".to_string(), steps: vec![PathGenStep::PathProject("a".to_string())] })
}

fn is_path(e: &Expr) -> bool {
    matches!(e, Expr::Path(p) if p.root == "t")
}

#[test]
fn flatten_types_order_and_dynamic_variants() {
    let shape = PartiqlShape::AnyOf(vec![
        st(Static::Int),
        PartiqlShape::AnyOf(vec![st(Static::String), st(Static::Int)]),
        PartiqlShape::Dynamic,
    ]);
    let names: Vec<String> = flatten_types(&shape).iter().map(|t| format!("{t:?}")).collect();
    assert_eq!(names, vec!["Int", "String", "Int8", "Int16", "Int32", "Int64", "Bool", "Decimal", "Float64"]);
    assert!(flatten_types(&PartiqlShape::AnyOf(vec![])).is_empty());
}

#[test]
fn comparable_types() {
    assert!(is_comparable(&Static::DateTime));
    assert!(is_comparable(&Static::Bool));
    assert!(!is_comparable(&Static::String));
    assert!(!is_comparable(&Static::Struct(vec![])));
}

#[test]
fn null_test_inverted_is_negated() {
    let mut rng = seeded_rng(7);
    let e = test_for(path_expr(), &st(Static::Int), Predicate::IS_NULL(PredicateDirection::Inverted), &mut rng);
    match e {
        Expr::UniOp(UniOpKind::Not, x) => match *x {
            Expr::BinOp(BinOpKind::Is, l, r) => {
                assert!(is_path(&l));
                assert!(matches!(*r, Expr::Lit(Lit::Null)));
            }
            other => panic!("unexpected {other:?}"),
        },
        other => panic!("unexpected {other:?}"),
    }
}

#[test]
fn ordering_tests_use_comparable_values() {
    let mut rng = seeded_rng(42);
    let shape = PartiqlShape::AnyOf(vec![st(Static::String), st(Static::Int)]);
    for _ in 0..20 {
        match test_for(path_expr(), &shape, Predicate::LT, &mut rng) {
            Expr::BinOp(BinOpKind::Lt, l, r) => {
                assert!(is_path(&l));
                match *r {
                    Expr::Lit(Lit::Int64(i)) => assert!((-50..=50).contains(&i)),
                    other => panic!("unexpected {other:?}"),
                }
            }
            other => panic!("unexpected {other:?}"),
        }
    }
    match test_for(path_expr(), &st(Static::Float64), Predicate::BETWEEN, &mut rng) {
        Expr::Between(v, a, b) => {
            assert!(is_path(&v));
            assert!(matches!(*a, Expr::Lit(Lit::Double(_))));
            assert!(matches!(*b, Expr::Lit(Lit::Double(_))));
        }
        other => panic!("unexpected {other:?}"),
    }
}

#[test]
fn in_test_lists_two_to_five_values() {
    let mut rng = seeded_rng(3);
    match test_for(path_expr(), &st(Static::Bool), Predicate::IN(PredicateDirection::Normal), &mut rng) {
        Expr::In(l, r) => {
            assert!(is_path(&l));
            match *r {
                Expr::List(v) => {
                    assert!((2..=5).contains(&v.len()));
                    assert!(v.iter().all(|x| matches!(x, Expr::Lit(Lit::Bool(_)))));
                }
                other => panic!("unexpected {other:?}"),
            }
        }
        other => panic!("unexpected {other:?}"),
    }
}

#[test]
fn random_struct_names_its_fields() {
    let mut rng = seeded_rng(11);
    let g = SimpleRandomValueGenerator::new();
    let shape = st(Static::Struct(vec![
        StructField { name: "x".to_string(), ty: st(Static::DateTime) },
        StructField { name: "y".to_string(), ty: st(Static::String) },
    ]));
    match g.rand_val_from_shape(&shape, &mut rng) {
        Expr::Struct(ps) => {
            assert_eq!(ps.len(), 2);
            assert!(matches!(&ps[0].0, Expr::Lit(Lit::CharString(s)) if s == "x"));
            assert!(matches!(&ps[0].1, Expr::Call(f, a) if f == "UTCNOW" && a.is_empty()));
            assert!(matches!(&ps[1].1, Expr::Lit(Lit::CharString(_))));
        }
        other => panic!("unexpected {other:?}"),
    }
}

fn int_path() -> PathAndShape {
    PathAndShape {
        steps: vec![PathGenStep::PathProject("t".to_string()), PathGenStep::PathProject("a".to_string())],
        shape: st(Static::Int),
    }
}

#[test]
fn predicate_gen_picks_an_offered_predicate() {
    let mut g = PredicateGen {
        dataset: "t".to_string(),
        predicates: PathPredicates { path_and_shape: int_path(), predicates: vec![Predicate::NOT] },
        rng: seeded_rng(1),
    };
    match g.gen_ast() {
        Expr::UniOp(UniOpKind::Not, x) => assert!(is_path(&x)),
        other => panic!("unexpected {other:?}"),
    }
}

fn count_tests(e: &Expr) -> usize {
    match e {
        Expr::BinOp(BinOpKind::And | BinOpKind::Or, l, r) => count_tests(l) + count_tests(r),
        Expr::BinOp(BinOpKind::Eq, l, _) => {
            assert!(is_path(l));
            1
        }
        other => panic!("unexpected {other:?}"),
    }
}

#[test]
fn row_filter_joins_the_drawn_number_of_tests() {
    for seed in 0..10 {
        let mut f = PathRowFilter {
            paths: DatasetPredicates {
                name: "t".to_string(),
                paths: vec![PathPredicates { path_and_shape: int_path(), predicates: vec![Predicate::EQ] }],
            },
            min_items: 3,
            max_items: 3,
            rng: seeded_rng(seed),
        };
        assert_eq!(count_tests(&f.gen_ast()), 3);
    }
    let mut none = PathRowFilter {
        paths: DatasetPredicates {
            name: "t".to_string(),
            paths: vec![PathPredicates { path_and_shape: int_path(), predicates: vec![Predicate::EQ] }],
        },
        min_items: 0,
        max_items: 0,
        rng: seeded_rng(5),
    };
    assert!(matches!(none.gen_ast(), Expr::Lit(Lit::Bool(_))));
}

fn dataset() -> NameAndShape {
    NameAndShape {
        name: "t".to_string(),
        shape: st(Static::Bag(Box::new(st(Static::Struct(vec![StructField {
            name: "a".to_string(),
            ty: st(Static::Int),
        }]))))),
    }
}

#[test]
fn select_all_query() {
    let strategy = SelectFromWhereBuilder::select_all().build().expect("strategy");
    let mut g = query_generator(1234, &strategy, &vec![dataset()]).expect("generator");
    let q = g.gen_ast();
    assert!(matches!(q.project, Projection::Star));
    assert_eq!(q.from, "t");
    assert!(q.exclude.is_none());
    assert!(q.where_clause.is_none());
}

#[test]
fn query_needs_exactly_one_dataset() {
    let strategy = SelectFromWhereBuilder::select_all().build().expect("strategy");
    match build_query(&strategy, &vec![dataset(), dataset()], seeded_rng(0)) {
        Err(StrategyError::DataSetCardinality { expected, actual }) => {
            assert_eq!(expected, 1);
            assert_eq!(actual, 2);
        }
        Err(e) => panic!("unexpected {e:?}"),
        Ok(_) => panic!("expected an error"),
    }
}

#[test]
fn reversed_bounds_are_refused() {
    let path_spec = PathGenSpecBuilder::default().build().expect("spec");
    let strategy = SelectFromWhere {
        projections: Projections::RandomList(RandomProjectList { min_items: 3, max_items: 1, path_spec }),
        exclusions: None,
        table_filter: None,
    };
    match build_query(&strategy, &vec![dataset()], seeded_rng(0)) {
        Err(StrategyError::Stats(m)) => assert_eq!(m, "Bad distribution parameters"),
        Err(e) => panic!("unexpected {e:?}"),
        Ok(_) => panic!("expected an error"),
    }
}

#[test]
fn projected_paths_come_from_the_dataset() {
    let path_spec = PathGenSpecBuilder::default().build().expect("spec");
    let strategy = SelectFromWhere {
        projections: Projections::RandomList(RandomProjectList { min_items: 1, max_items: 4, path_spec }),
        exclusions: None,
        table_filter: None,
    };
    let mut g = build_query(&strategy, &vec![dataset()], seeded_rng(9)).expect("generator");
    match g.gen_ast().project {
        Projection::List(items) => {
            assert!((1..=4).contains(&items.len()));
            assert!(items.iter().all(|p| p.root == "t"));
        }
        other => panic!("unexpected {other:?}"),
    }
}

#[test]
fn path_text_of_steps() {
    let p = PathAndShape {
        steps: vec![
            PathGenStep::PathProject("t".to_string()),
            PathGenStep::PathProject("a".to_string()),
            PathGenStep::PathIndex(2),
            PathGenStep::PathForEach,
            PathGenStep::PathUnpivot,
        ],
        shape: st(Static::Int),
    };
    assert_eq!(p.path_text(), ".t.a[2][*].*");
}

#[test]
fn constant_literals_keep_kind_and_value() {
    assert!(matches!(ConstantLiteral::Int16Lit(-3).gen_ast(), Expr::Lit(Lit::Int16(-3))));
    assert!(matches!(ConstantLiteral::DoubleLit(2.5f64.to_bits()).gen_ast(), Expr::Lit(Lit::Double(b)) if f64::from_bits(b) == 2.5));
    assert!(matches!(ConstantLiteral::HexStringLit("ff".to_string()).gen_ast(), Expr::Lit(Lit::HexString(s)) if s == "ff"));
}

#[test]
fn generated_values_become_literals() {
    assert!(matches!(literal_of_value(&Value::Integer(9)), Expr::Lit(Lit::Int64(9))));
    assert!(matches!(literal_of_value(&Value::Missing), Expr::Lit(Lit::Missing)));
    let d = Decimal { mantissa: 125, scale: 1 };
    assert!(matches!(literal_of_value(&Value::Decimal(d)), Expr::Lit(Lit::Decimal(x)) if x == d));
}

fn count_leaves(e: &Expr) -> usize {
    match e {
        Expr::BinOp(BinOpKind::And | BinOpKind::Or, l, r) if !is_path(l) => count_leaves(l) + count_leaves(r),
        _ => 1,
    }
}

#[test]
fn offered_predicates_all_generate() {
    let shape = st(Static::Bag(Box::new(st(Static::Struct(vec![
        StructField { name: "a".to_string(), ty: st(Static::Int) },
        StructField { name: "b".to_string(), ty: st(Static::String) },
        StructField { name: "c".to_string(), ty: st(Static::Bool) },
        StructField { name: "d".to_string(), ty: PartiqlShape::AnyOf(vec![st(Static::Float64), st(Static::String)]) },
    ])))));
    let data = NameAndShape { name: "t".to_string(), shape };
    let strategy = SelectFromWhere {
        projections: Projections::Star(beamline::strategy::ProjectStar {}),
        exclusions: None,
        table_filter: Some(TableFilter::RandomRowPredicate(RandomRowPredicate {
            allowed_predicates: PredicateFlags::all(),
            min_items: 1,
            max_items: 4,
            path_spec: PathGenSpecBuilder::default().build().expect("spec"),
        })),
    };
    for seed in 0..20 {
        let mut g = query_generator(seed, &strategy, &vec![NameAndShape { name: data.name.clone(), shape: clone(&data.shape) }])
            .expect("generator");
        assert!(matches!(g.where_clause, Some(FilterGen::Paths(_))));
        let q = g.gen_ast();
        let w = q.where_clause.expect("a filter");
        assert!(count_leaves(&w) >= 1);
    }
}

fn clone(s: &PartiqlShape) -> PartiqlShape {
    beamline::shape::clone_shape(s)
}
