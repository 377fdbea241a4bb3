use beamline::ionread::{check_read_bytes, check_read_decimal, tag_check};
use beamline::ion::{check_write_decimal, IonContainer, IonDecimal, IonEvent, RidlError, RidlWriter};
use beamline::kollider::PartiqlKolliderEncoder;
use beamline::linac::{LinacWriterText, Shape};
use beamline::shape::{PartiqlShape, Static};

fn depth_never_negative_and_closed(events: &[IonEvent]) -> bool {
    let mut d: i64 = 0;
    for e in events {
        match e {
            IonEvent::StepIn(_) => d += 1,
            IonEvent::StepOut => {
                d -= 1;
                if d < 0 {
                    return false;
                }
            }
            _ => {}
        }
    }
    d == 0
}

#[test]
fn decimal_constraints() {
    let mut w = RidlWriter::new();
    let v = IonDecimal { coefficient: 12345, exponent: -2 };
    match w.write_decimal(v, Some(4), None) {
        Err(RidlError::WriteError(m)) => assert_eq!(m, "Decimal value precision exceeded the type's precision constraint"),
        other => panic!("unexpected {other:?}"),
    }
    match w.write_decimal(v, Some(5), Some(-1)) {
        Err(RidlError::WriteError(m)) => assert_eq!(m, "Decimal value exponent exceeded the type's exponent constraint"),
        other => panic!("unexpected {other:?}"),
    }
    assert!(w.events.is_empty());
    w.write_decimal(v, Some(5), Some(-2)).expect("fits");
    assert!(matches!(w.events[0], IonEvent::Decimal(d) if d == v));
}

#[test]
fn blob_size_constraint() {
    let mut w = RidlWriter::new();
    match w.write_blob(&vec![1, 2], Some(3)) {
        Err(RidlError::WriteError(m)) => assert_eq!(m, "Blob size does not match type size constraint"),
        other => panic!("unexpected {other:?}"),
    }
    w.write_blob(&vec![1, 2], Some(2)).expect("fits");
    w.write_clob(&vec![1], None).expect("no constraint");
    assert_eq!(w.events.len(), 2);
}

#[test]
fn array_start_opens_even_when_refused() {
    let mut w = RidlWriter::new();
    assert!(w.write_array_start(2, Some(3)).is_err());
    assert!(matches!(w.events[0], IonEvent::StepIn(IonContainer::List)));
    w.write_array_end().expect("close");
    assert!(depth_never_negative_and_closed(&w.events));
}

#[test]
fn kollider_shape_events_are_balanced() {
    let shape = PartiqlShape::Static(Static::Bag(Box::new(PartiqlShape::Static(Static::Struct(vec![
        beamline::shape::StructField { name: "a".to_string(), ty: PartiqlShape::Static(Static::DecimalP(5, 2)) },
        beamline::shape::StructField {
            name: "b".to_string(),
            ty: PartiqlShape::AnyOf(vec![PartiqlShape::Static(Static::Int), PartiqlShape::Static(Static::String)]),
        },
    ])))));
    let mut e = PartiqlKolliderEncoder::new();
    e.write_shape(&shape).expect("shape");
    assert!(!e.writer.events.is_empty());
    assert!(depth_never_negative_and_closed(&e.writer.events));
}

#[test]
fn linac_unit_shape_is_a_tagged_symbol() {
    let mut w = LinacWriterText::new();
    w.write_shape(&Shape::TBool).expect("shape");
    assert_eq!(w.writer.events.len(), 2);
    assert!(matches!(&w.writer.events[0], IonEvent::Annotate(a) if a.len() == 1 && a[0] == "shape.t_bool"));
    assert!(matches!(&w.writer.events[1], IonEvent::Symbol(s) if s == "unit"));
}

#[test]
fn kollider_names_constrained_decimals_and_datetimes() {
    let mut e = PartiqlKolliderEncoder::new();
    e.write_shape(&PartiqlShape::Static(Static::DecimalP(2, 0))).expect("decimal");
    e.write_shape(&PartiqlShape::Static(Static::DateTime)).expect("datetime");
    e.write_shape(&PartiqlShape::Static(Static::DecimalP(5, 4))).expect("decimal");
    assert_eq!(e.writer.events.len(), 3);
    assert!(matches!(&e.writer.events[0], IonEvent::String(s) if s == "decimal(2, 0)"));
    assert!(matches!(&e.writer.events[1], IonEvent::String(s) if s == "datetime"));
    assert!(matches!(&e.writer.events[2], IonEvent::String(s) if s == "decimal(5, 4)"));
}

#[test]
fn decimal_checks_take_the_counted_digits() {
    let v = IonDecimal { coefficient: 12345, exponent: -2 };
    assert!(check_write_decimal(v, 5, Some(5), Some(-2)).is_ok());
    match check_write_decimal(v, 6, Some(5), Some(-2)) {
        Err(RidlError::WriteError(m)) => assert_eq!(m, "Decimal value precision exceeded the type's precision constraint"),
        other => panic!("unexpected {other:?}"),
    }
    match check_write_decimal(v, 5, None, Some(-1)) {
        Err(RidlError::WriteError(m)) => assert_eq!(m, "Decimal value exponent exceeded the type's exponent constraint"),
        other => panic!("unexpected {other:?}"),
    }
    assert!(check_read_decimal(9, 2, None, None).is_ok());
    assert!(check_read_decimal(5, 2, Some(5), Some(-2)).is_ok());
    match check_read_decimal(6, 2, Some(5), None) {
        Err(RidlError::ReadError(m)) => assert_eq!(m, "Decimal value precision exceeded the type's precision constraint"),
        other => panic!("unexpected {other:?}"),
    }
    match check_read_decimal(3, 2, Some(5), Some(-1)) {
        Err(RidlError::ReadError(m)) => assert_eq!(m, "Decimal value exponent exceeded the type's exponent constraint"),
        other => panic!("unexpected {other:?}"),
    }
}

#[test]
fn blob_sizes_and_tags_are_checked() {
    assert!(check_read_bytes(4, 4, "Blob size does not match definition size constraint.").is_ok());
    match check_read_bytes(3, 4, "Clob size does not match definition size constraint.") {
        Err(RidlError::ReadError(m)) => assert_eq!(m, "Clob size does not match definition size constraint."),
        other => panic!("unexpected {other:?}"),
    }
    let tag = "shape.t_bool".to_string();
    assert!(tag_check(&vec![None, Some(Some(tag.clone()))], &tag).is_ok());
    match tag_check(&vec![], &tag) {
        Err(RidlError::ReadError(m)) => assert_eq!(m, "Expected a type annotation, but found none."),
        other => panic!("unexpected {other:?}"),
    }
    match tag_check(&vec![Some(None)], &tag) {
        Err(RidlError::ReadError(m)) => assert_eq!(m, "Failed to read annotation"),
        other => panic!("unexpected {other:?}"),
    }
    match tag_check(&vec![Some(Some("shape.t_int".to_string()))], &tag) {
        Err(RidlError::ReadError(m)) => assert_eq!(m, "Type annotation did not match expected value."),
        other => panic!("unexpected {other:?}"),
    }
}
