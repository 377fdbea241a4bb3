use beamline::ddl::{DdlFormat, PartiqlBasicDdlEncoder, PartiqlDdlEncoder};
use beamline::shape::{PartiqlShape, Static, StructField};
use beamline::shapeset::{any_of, new_struct};

fn field(name: &str, ty: PartiqlShape) -> StructField {
    StructField { name: name.to_string(), ty }
}

fn string() -> PartiqlShape {
    PartiqlShape::Static(Static::String)
}

fn array_of(ty: PartiqlShape) -> PartiqlShape {
    PartiqlShape::Static(Static::Array(Box::new(ty)))
}

/// An employee table shape, with struct fields and union members given in
/// no particular order: the constructors order them.
fn employees() -> PartiqlShape {
    let details = new_struct(vec![
        field(
            "a",
            any_of(vec![
                PartiqlShape::Static(Static::DecimalP(5, 4)),
                PartiqlShape::Static(Static::Int8),
            ]),
        ),
        field("b", array_of(string())),
        field("c", PartiqlShape::Static(Static::Float64)),
    ]);
    let fields = new_struct(vec![
        field("employee_id", PartiqlShape::Static(Static::Int8)),
        field("full_name", string()),
        field("salary", PartiqlShape::Static(Static::DecimalP(8, 2))),
        field("details", details),
        field("dependents", array_of(string())),
    ]);
    PartiqlShape::Static(Static::Bag(Box::new(fields)))
}

#[test]
fn ddl_test() {
    let ty = employees();
    let expected_compact = r#""dependents" ARRAY<VARCHAR>,"details" STRUCT<"a": UNION<TINYINT,DECIMAL(5, 4)>,"b": ARRAY<VARCHAR>,"c": DOUBLE>,"employee_id" TINYINT,"full_name" VARCHAR,"salary" DECIMAL(8, 2)"#;
    let expected_pretty = r#""dependents" ARRAY<VARCHAR>,
"details" STRUCT<"a": UNION<TINYINT,DECIMAL(5, 4)>,"b": ARRAY<VARCHAR>,"c": DOUBLE>,
"employee_id" TINYINT,
"full_name" VARCHAR,
"salary" DECIMAL(8, 2)"#;

    let ddl_compact = PartiqlBasicDdlEncoder::new(DdlFormat::Compact);
    assert_eq!(ddl_compact.ddl(&ty).expect("write shape"), expected_compact);

    let ddl_pretty = PartiqlBasicDdlEncoder::new(DdlFormat::Pretty);
    assert_eq!(ddl_pretty.ddl(&ty).expect("write shape"), expected_pretty);
}

#[test]
fn pretty_ddl_is_compact_with_line_breaks() {
    let ty = employees();
    let compact = PartiqlBasicDdlEncoder::new(DdlFormat::Compact).ddl(&ty).expect("compact");
    let pretty = PartiqlBasicDdlEncoder::new(DdlFormat::Pretty).ddl(&ty).expect("pretty");
    assert_eq!(pretty.replace('\n', ""), compact);
    assert_eq!(pretty.matches('\n').count(), 4);
}

#[test]
fn struct_fields_and_union_members_are_sets() {
    let s = new_struct(vec![
        field("b", string()),
        field("a", string()),
        field("b", string()),
        field("a", PartiqlShape::Static(Static::Int)),
    ]);
    match s {
        PartiqlShape::Static(Static::Struct(fs)) => {
            let names: Vec<&str> = fs.iter().map(|f| f.name.as_str()).collect();
            assert_eq!(names, vec!["a", "a", "b"]);
            assert!(matches!(fs[0].ty, PartiqlShape::Static(Static::String)));
            assert!(matches!(fs[1].ty, PartiqlShape::Static(Static::Int)));
        }
        other => panic!("unexpected {other:?}"),
    }
    let u = any_of(vec![string(), PartiqlShape::Static(Static::Int), string(), PartiqlShape::Dynamic]);
    match u {
        PartiqlShape::AnyOf(v) => {
            assert_eq!(v.len(), 3);
            assert!(matches!(v[0], PartiqlShape::Static(Static::Int)));
            assert!(matches!(v[1], PartiqlShape::Static(Static::String)));
            assert!(matches!(v[2], PartiqlShape::Dynamic));
        }
        other => panic!("unexpected {other:?}"),
    }
}

#[test]
fn ddl_through_the_encoder_trait() {
    fn encode<E: PartiqlDdlEncoder<Output = String>>(e: &E, ty: &PartiqlShape) -> String {
        e.ddl(ty).expect("ddl")
    }
    let enc = PartiqlBasicDdlEncoder::new(DdlFormat::Compact);
    assert_eq!(encode(&enc, &employees()), enc.ddl(&employees()).expect("ddl"));
    let syntax = PartiqlDdlEncoder::syntax(&enc);
    assert_eq!(syntax.name(), "partiql_datatype_syntax");
    assert_eq!(syntax.version(), "0.1");
}
