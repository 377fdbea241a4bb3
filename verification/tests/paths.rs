use beamline::groups::group_by;
use beamline::path::{shape_path_depth, Bound, PathGenStep};
use beamline::predicate::{PathPredicateGenSpec, Predicate, PredicateFlags};
use beamline::querygen::ProjectListCountArg;
use beamline::shape::{NameAndShape, PartiqlShape, Static, StructField};
use beamline::strategy::{PathGenSpecBuilder, StrategyError};

fn st(t: Static) -> PartiqlShape {
    PartiqlShape::Static(t)
}

fn dataset() -> NameAndShape {
    NameAndShape {
        name: "t".to_string(),
        shape: st(Static::Bag(Box::new(st(Static::Struct(vec![
            StructField { name: "a".to_string(), ty: st(Static::Int) },
            StructField { name: "s".to_string(), ty: st(Static::String) },
        ]))))),
    }
}

fn text(steps: &[PathGenStep]) -> String {
    steps
        .iter()
        .map(|s| match s {
            PathGenStep::PathProject(k) => format!(".{k}"),
            PathGenStep::PathIndex(i) => format!("[{i}]"),
            PathGenStep::PathForEach => "[*]".to_string(),
            PathGenStep::PathUnpivot => ".*".to_string(),
        })
        .collect()
}

#[test]
fn paths_of_a_bag_of_structs() {
    let spec = PathGenSpecBuilder::default().build().expect("spec");
    let dp = spec.paths_for_dataset(&dataset()).expect("paths");
    assert_eq!(dp.name, "t");
    let texts: Vec<String> = dp.paths.iter().map(|p| text(&p.steps)).collect();
    assert!(texts.contains(&"[*].a".to_string()) || texts.iter().any(|t| t.ends_with(".a")));
    assert!(texts.iter().any(|t| t.ends_with(".s")));
    for p in &dp.paths {
        assert_eq!(p.path_text(), text(&p.steps));
    }
}

#[test]
fn deep_minimum_leaves_only_deep_paths() {
    let mut b = PathGenSpecBuilder::default();
    b.min_depth = Some(Bound::Included(100));
    let spec = b.build().expect("spec");
    let dp = spec.paths_for_dataset(&dataset()).expect("paths");
    assert!(dp.paths.is_empty());
}

#[test]
fn predicates_suit_types() {
    let spec = PathPredicateGenSpec {
        path_spec: PathGenSpecBuilder::default().build().expect("spec"),
        allowed_predicates: PredicateFlags::all(),
    };
    let ints = spec.predicates_for(&st(Static::Int));
    assert!(ints.iter().any(|p| matches!(p, Predicate::LT)));
    assert!(!ints.iter().any(|p| matches!(p, Predicate::LIKE(_))));
    let strings = spec.predicates_for(&st(Static::String));
    assert!(strings.iter().any(|p| matches!(p, Predicate::LIKE(_))));
    assert!(!strings.iter().any(|p| matches!(p, Predicate::LT)));
    let only_in = PathPredicateGenSpec {
        path_spec: PathGenSpecBuilder::default().build().expect("spec"),
        allowed_predicates: PredicateFlags::flags_in(),
    };
    assert_eq!(only_in.predicates_for(&st(Static::Bool)).len(), 2);
}

#[test]
fn count_ranges() {
    assert_eq!(ProjectListCountArg { project_rand_min: 1, project_rand_max: 3 }.range().expect("range"), (1, 3));
    match (ProjectListCountArg { project_rand_min: 0, project_rand_max: 3 }).range() {
        Err(StrategyError::ProjectPaths(m)) => assert_eq!(m, "--project-rand-min must be greater than 0"),
        other => panic!("unexpected {other:?}"),
    }
    match (ProjectListCountArg { project_rand_min: 4, project_rand_max: 3 }).range() {
        Err(StrategyError::ProjectPaths(m)) => {
            assert_eq!(m, "--project-rand-max must be greater than or equal to --project-rand-min")
        }
        other => panic!("unexpected {other:?}"),
    }
}

#[test]
fn depth_of_nested_shapes() {
    let (lo, hi) = shape_path_depth(&dataset().shape);
    assert_eq!(format!("{lo:?} {hi:?}"), "Included(0) Included(2)");
    let (dlo, dhi) = shape_path_depth(&PartiqlShape::Dynamic);
    assert_eq!(format!("{dlo:?} {dhi:?}"), "Unbounded Unbounded");
    let (lo2, hi2) = shape_path_depth(&st(Static::Int));
    assert_eq!(format!("{lo2:?} {hi2:?}"), format!("{:?} {:?}", Bound::Included(0), Bound::Included(0)));
}

#[test]
fn positions_grouped_by_key_in_first_seen_order() {
    let keys = vec![(1u8, 2usize, 0u8, 0usize), (0, 0, 0, 0), (1, 2, 0, 0)];
    let groups = group_by(&keys);
    assert_eq!(groups, vec![vec![0, 2], vec![1]]);
}

#[test]
fn union_flags_join_their_members() {
    let int = PartiqlShape::Static(Static::Int);
    let text = PartiqlShape::Static(Static::String);
    let union = PartiqlShape::AnyOf(vec![PartiqlShape::Static(Static::Int), PartiqlShape::Static(Static::String)]);
    let base = PredicateFlags::flags_absent().bits | PredicateFlags::flags_in().bits;
    let expected = base | PredicateFlags::matching(&int).bits | PredicateFlags::matching(&text).bits;
    assert_eq!(PredicateFlags::matching(&union).bits, expected);
    for s in [&int, &text, &union, &PartiqlShape::Dynamic] {
        assert_eq!(PredicateFlags::matching(s).bits & base, base);
    }
}

#[test]
fn found_paths_have_an_allowed_final_type() {
    let mut b = PathGenSpecBuilder::default();
    // scalar types only
    b.allowed_final_types = Some(beamline::path::PathTypeFlags { bits: 1 });
    let spec = b.build().expect("spec");
    let dp = spec.paths_for_dataset(&dataset()).expect("paths");
    assert!(!dp.paths.is_empty());
    for p in &dp.paths {
        match &p.shape {
            PartiqlShape::Static(t) => assert!(t.is_scalar()),
            PartiqlShape::AnyOf(v) => {
                assert!(v.iter().any(|m| matches!(m, PartiqlShape::Static(t) if t.is_scalar())))
            }
            other => panic!("unexpected {other:?}"),
        }
    }
}
