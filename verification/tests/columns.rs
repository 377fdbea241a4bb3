use beamline::columns::{
    build_column, datetime_to_epoch_millis, get_field, infer_schema_from_values, parquet_table, shape_to_fields,
    value_to_string_for_list, values_to_record_batch, ArrowType, Cell, Column, ParquetError,
};
use beamline::shape::{PartiqlShape, Static, StructField};
use beamline::value::{Date, DateTime, Decimal, Time, Value};

fn field(name: &str, ty: PartiqlShape) -> StructField {
    StructField { name: name.to_string(), ty }
}

fn st(t: Static) -> PartiqlShape {
    PartiqlShape::Static(t)
}

fn row(pairs: Vec<(&str, Value)>) -> Value {
    Value::Tuple(pairs.into_iter().map(|(k, v)| (k.to_string(), v)).collect())
}

fn cells(c: &Column) -> &Vec<Cell> {
    match c {
        Column::Cells(v) => v,
        other => panic!("not a column of cells: {other:?}"),
    }
}

#[test]
fn parquet_rejects_anyof_field() {
    let shape = st(Static::Bag(Box::new(st(Static::Struct(vec![
        field("id", st(Static::Int64)),
        field("temp", PartiqlShape::AnyOf(vec![st(Static::Int), st(Static::Float64)])),
    ])))));
    match shape_to_fields(&shape) {
        Err(ParquetError::UnsupportedType(m)) => assert!(m.contains("AnyOf")),
        other => panic!("expected an AnyOf error, got {other:?}"),
    }
}

#[test]
fn schema_from_bag_of_struct() {
    let shape = st(Static::Bag(Box::new(st(Static::Struct(vec![
        field("id", st(Static::Int8)),
        field("price", st(Static::DecimalP(8, 2))),
        field("at", st(Static::DateTime)),
        field("tags", st(Static::Array(Box::new(st(Static::String))))),
    ])))));
    let fields = shape_to_fields(&shape).expect("schema");
    assert_eq!(fields.len(), 4);
    assert_eq!(fields[0].name, "id");
    assert!(matches!(fields[0].data_type, ArrowType::Int64));
    assert!(matches!(fields[1].data_type, ArrowType::Utf8));
    assert!(matches!(fields[2].data_type, ArrowType::TimestampMs));
    match &fields[3].data_type {
        ArrowType::List(t) => assert!(matches!(**t, ArrowType::Utf8)),
        other => panic!("expected a list, got {other:?}"),
    }
}

#[test]
fn schema_top_level_must_be_struct() {
    match shape_to_fields(&st(Static::Int)) {
        Err(ParquetError::Schema(m)) => assert_eq!(m, "top-level shape must be a struct or bag of structs"),
        other => panic!("unexpected {other:?}"),
    }
}

#[test]
fn schema_inferred_from_first_tuple() {
    let rows = vec![
        Value::Integer(3),
        row(vec![("a", Value::Integer(1)), ("b", Value::List(vec![Value::Boolean(true)]))]),
    ];
    let fields = infer_schema_from_values(&rows).expect("schema");
    assert_eq!(fields.len(), 2);
    assert!(matches!(fields[0].data_type, ArrowType::Int64));
    match &fields[1].data_type {
        ArrowType::List(t) => assert!(matches!(**t, ArrowType::Boolean)),
        other => panic!("expected a list, got {other:?}"),
    }
    match infer_schema_from_values(&vec![Value::Null]) {
        Err(ParquetError::Schema(m)) => assert_eq!(m, "cannot infer schema - no tuple rows found"),
        other => panic!("unexpected {other:?}"),
    }
}

#[test]
fn fields_are_found_case_insensitively_first_match() {
    let r = row(vec![("Id", Value::Integer(7)), ("ID", Value::Integer(8))]);
    match get_field(&r, "id") {
        Some(Value::Integer(i)) => assert_eq!(*i, 7),
        other => panic!("unexpected {other:?}"),
    }
    assert!(get_field(&Value::Integer(1), "id").is_none());
}

#[test]
fn int_column_nulls_for_other_values() {
    let rows = vec![
        row(vec![("n", Value::Integer(5))]),
        row(vec![("n", Value::String("x".to_string()))]),
        row(vec![("m", Value::Integer(1))]),
    ];
    let c = build_column("N", &ArrowType::Int64, &rows);
    let v = cells(&c);
    assert!(matches!(v[0], Cell::Int(5)));
    assert!(matches!(v[1], Cell::Null));
    assert!(matches!(v[2], Cell::Null));
}

#[test]
fn float_and_text_columns() {
    let rows = vec![
        row(vec![("f", Value::Integer(2)), ("t", Value::Decimal(Decimal { mantissa: 150, scale: 2 }))]),
        row(vec![("f", Value::Real(1.5f64.to_bits())), ("t", Value::Missing)]),
    ];
    let f = build_column("f", &ArrowType::Float64, &rows);
    assert!(matches!(cells(&f)[0], Cell::IntAsReal(2)));
    match cells(&f)[1] {
        Cell::Real(b) => assert_eq!(f64::from_bits(b), 1.5),
        ref other => panic!("unexpected {other:?}"),
    }
    let t = build_column("t", &ArrowType::Utf8, &rows);
    match &cells(&t)[0] {
        Cell::Text(s) => assert_eq!(s, "1.50"),
        other => panic!("unexpected {other:?}"),
    }
    assert!(matches!(cells(&t)[1], Cell::Null));
}

#[test]
fn epoch_millis_of_date_times() {
    let epoch_day = Date { year: 1970, month: 1, day: 2 };
    let midnight = Time { hour: 0, minute: 0, second: 0, nanosecond: 0 };
    assert_eq!(datetime_to_epoch_millis(&DateTime::Date(epoch_day)), 86_400_000);
    let one_am = Time { hour: 1, minute: 0, second: 0, nanosecond: 0 };
    let d0 = Date { year: 1970, month: 1, day: 1 };
    assert_eq!(datetime_to_epoch_millis(&DateTime::TimestampWithTz(d0, one_am, 3600)), 0);
    let before = Time { hour: 23, minute: 59, second: 59, nanosecond: 999_000_000 };
    let d1 = Date { year: 1969, month: 12, day: 31 };
    assert_eq!(datetime_to_epoch_millis(&DateTime::Timestamp(d1, before)), -1);
    assert_eq!(datetime_to_epoch_millis(&DateTime::Time(midnight)), 0);
}

#[test]
fn list_and_struct_columns() {
    let rows = vec![
        row(vec![
            ("l", Value::Bag(vec![Value::Integer(1), Value::String("x".to_string())])),
            ("s", row(vec![("a", Value::Integer(4)), ("b", Value::List(vec![Value::Integer(-5), Value::Boolean(true), Value::Null]))])),
        ]),
        row(vec![("l", Value::Integer(3))]),
    ];
    match build_column("l", &ArrowType::List(Box::new(ArrowType::Int64)), &rows) {
        Column::List(v) => {
            assert_eq!(v.len(), 2);
            let items = v[0].as_ref().expect("a list");
            assert!(matches!(items[0], Cell::Int(1)));
            assert!(matches!(items[1], Cell::Null));
            assert!(v[1].is_none());
        }
        other => panic!("unexpected {other:?}"),
    }
    let t = ArrowType::Struct(vec![
        beamline::columns::ArrowField { name: "a".to_string(), data_type: ArrowType::Int64 },
        beamline::columns::ArrowField { name: "b".to_string(), data_type: ArrowType::List(Box::new(ArrowType::Int64)) },
    ]);
    match build_column("s", &t, &rows) {
        Column::Struct(children) => {
            assert_eq!(children.len(), 2);
            assert!(matches!(cells(&children[0])[0], Cell::Int(4)));
            assert!(matches!(cells(&children[0])[1], Cell::Null));
            match &children[1] {
                Column::List(v) => {
                    let items = v[0].as_ref().expect("a list");
                    assert!(matches!(&items[0], Cell::Text(s) if s == "-5"));
                    assert!(matches!(&items[1], Cell::Text(s) if s == "true"));
                    assert!(matches!(&items[2], Cell::Text(s) if s.is_empty()));
                    assert!(v[1].is_none());
                }
                other => panic!("unexpected {other:?}"),
            }
        }
        other => panic!("unexpected {other:?}"),
    }
}

#[test]
fn list_item_text_of_values() {
    assert!(matches!(value_to_string_for_list(&Value::Integer(42)), Cell::Text(s) if s == "42"));
    assert!(matches!(value_to_string_for_list(&Value::Boolean(false)), Cell::Text(s) if s == "false"));
    assert!(matches!(value_to_string_for_list(&Value::Real(7)), Cell::RealText(7)));
    assert!(matches!(value_to_string_for_list(&Value::Blob(vec![1])), Cell::Debug(_)));
}

#[test]
fn every_column_has_a_row_per_row() {
    let rows = vec![row(vec![("a", Value::Integer(1))]), Value::Null, row(vec![])];
    let schema = infer_schema_from_values(&rows).expect("schema");
    let batch = values_to_record_batch(&rows, &schema);
    assert_eq!(batch.len(), 1);
    assert_eq!(cells(&batch[0]).len(), 3);
}

#[test]
fn parquet_table_of_dataset() {
    assert!(parquet_table("x", None, &vec![]).expect("no rows").is_none());
    let rows = vec![row(vec![("a", Value::Integer(1))])];
    let t = parquet_table("dir/x\\y", None, &rows).expect("table").expect("a file");
    assert_eq!(t.file_name, "dir_x_y.parquet");
    assert_eq!(t.row_count, 1);
    assert_eq!(t.columns.len(), 1);
}

#[test]
fn names_equal_up_to_ascii_case_match() {
    let r = row(vec![("other", Value::Integer(1)), ("Sensor_ID", Value::Integer(9))]);
    match get_field(&r, "sensor_id") {
        Some(Value::Integer(i)) => assert_eq!(*i, 9),
        other => panic!("unexpected {other:?}"),
    }
    assert!(get_field(&r, "sensor").is_none());
}

#[test]
fn ascii_names_that_differ_beyond_case_do_not_match() {
    let r = row(vec![("y", Value::Integer(1)), ("XT", Value::Integer(2))]);
    assert!(get_field(&r, "xs").is_none());
    assert!(get_field(&r, "x").is_none());
    match get_field(&r, "xt") {
        Some(Value::Integer(i)) => assert_eq!(*i, 2),
        other => panic!("unexpected {other:?}"),
    }
}
