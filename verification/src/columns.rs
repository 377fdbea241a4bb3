//! Parquet output: the Arrow schema of a dataset, from its shape or from
//! its rows, and the columns of cells its rows give.
use vstd::prelude::*;
use crate::shape::{PartiqlShape, Static, StructField, ShapeV, StaticV, FieldV, shape_view, fields_view, lemma_fields_view};
use crate::value::{Value, ValueV, Decimal, Date, Time, DateTime, value_view, values_view, pairs_view, lemma_values_view, lemma_pairs_view, date_valid, time_valid, offset_valid, datetime_valid, value_valid, values_valid, lemma_pairs_valid, lemma_values_valid, clone_value};
use crate::json::{decimal_text, decimal_to_string};
use crate::text::{signed_decimal, push_signed_decimal};
use crate::catalog::{safe_char, sanitize_filename};

verus! {

/// An Arrow data type of a column.
#[derive(Debug)]
pub enum ArrowType {
    Boolean,
    Int64,
    Float64,
    Utf8,
    Binary,
    /// Milliseconds since the Unix epoch, in UTC.
    TimestampMs,
    Struct(Vec<ArrowField>),
    /// A list of items of the type (the item field is named `item`).
    List(Box<ArrowType>),
}

/// A nullable Arrow field.
#[derive(Debug)]
pub struct ArrowField {
    pub name: String,
    pub data_type: ArrowType,
}

pub enum ArrowTypeV {
    Boolean,
    Int64,
    Float64,
    Utf8,
    Binary,
    TimestampMs,
    Struct(Seq<(Seq<char>, ArrowTypeV)>),
    List(Box<ArrowTypeV>),
}

pub open spec fn arrow_view(t: ArrowType) -> ArrowTypeV
    decreases t,
{
    match t {
        ArrowType::Boolean => ArrowTypeV::Boolean,
        ArrowType::Int64 => ArrowTypeV::Int64,
        ArrowType::Float64 => ArrowTypeV::Float64,
        ArrowType::Utf8 => ArrowTypeV::Utf8,
        ArrowType::Binary => ArrowTypeV::Binary,
        ArrowType::TimestampMs => ArrowTypeV::TimestampMs,
        ArrowType::Struct(fs) => ArrowTypeV::Struct(arrow_fields_view(fs@)),
        ArrowType::List(t) => ArrowTypeV::List(Box::new(arrow_view(*t))),
    }
}

pub open spec fn arrow_fields_view(fs: Seq<ArrowField>) -> Seq<(Seq<char>, ArrowTypeV)>
    decreases fs,
{
    if fs.len() == 0 {
        Seq::empty()
    } else {
        arrow_fields_view(fs.drop_last()).push((fs.last().name@, arrow_view(fs.last().data_type)))
    }
}

impl View for ArrowType {
    type V = ArrowTypeV;

    open spec fn view(&self) -> ArrowTypeV {
        arrow_view(*self)
    }
}

pub proof fn lemma_arrow_fields_view(fs: Seq<ArrowField>)
    ensures
        arrow_fields_view(fs).len() == fs.len(),
        forall|i: int| 0 <= i < fs.len() ==> #[trigger] arrow_fields_view(fs)[i] == (fs[i].name@, arrow_view(fs[i].data_type)),
    decreases fs.len(),
{
    if fs.len() > 0 {
        lemma_arrow_fields_view(fs.drop_last());
        assert forall|i: int| 0 <= i < fs.len() implies #[trigger] arrow_fields_view(fs)[i] == (fs[i].name@, arrow_view(fs[i].data_type)) by {
            if i < fs.len() - 1 {
                assert(fs.drop_last()[i] == fs[i]);
            }
        }
    }
}

/// Why a dataset cannot be written as Parquet.
#[derive(Debug)]
pub enum ParquetError {
    Schema(String),
    UnsupportedType(String),
}

pub enum ParquetErrorV {
    Schema(Seq<char>),
    UnsupportedType(Seq<char>),
}

impl View for ParquetError {
    type V = ParquetErrorV;

    open spec fn view(&self) -> ParquetErrorV {
        match self {
            ParquetError::Schema(m) => ParquetErrorV::Schema(m@),
            ParquetError::UnsupportedType(m) => ParquetErrorV::UnsupportedType(m@),
        }
    }
}

pub open spec fn any_of_message() -> Seq<char> {
    "AnyOf (union) types are not supported in Parquet output; all fields must have a single concrete type"@
}

fn any_of_error() -> (e: ParquetError)
    ensures
        e@ == ParquetErrorV::UnsupportedType(any_of_message()),
{
    ParquetError::UnsupportedType(String::from_str(
        "AnyOf (union) types are not supported in Parquet output; all fields must have a single concrete type"))
}

/// The Arrow type of a PartiQL shape: integers are 64-bit, floats double,
/// decimals and strings text, date-times UTC millisecond timestamps, bags
/// and arrays lists; unions, dynamic and undefined types have none.
pub open spec fn arrow_of(s: ShapeV) -> Result<ArrowTypeV, ParquetErrorV>
    decreases s,
{
    match s {
        ShapeV::AnyOf(_) => Err(ParquetErrorV::UnsupportedType(any_of_message())),
        ShapeV::Dynamic => Err(ParquetErrorV::UnsupportedType("Dynamic types are not supported in Parquet output"@)),
        ShapeV::Undefined => Err(ParquetErrorV::UnsupportedType("Undefined types are not supported in Parquet output"@)),
        ShapeV::Static(t) => match t {
            StaticV::Bool => Ok(ArrowTypeV::Boolean),
            StaticV::Int | StaticV::Int8 | StaticV::Int16 | StaticV::Int32 | StaticV::Int64 => Ok(ArrowTypeV::Int64),
            StaticV::Float32 | StaticV::Float64 => Ok(ArrowTypeV::Float64),
            StaticV::Decimal | StaticV::DecimalP(_, _) => Ok(ArrowTypeV::Utf8),
            StaticV::String | StaticV::StringFixed(_) | StaticV::StringVarying(_) => Ok(ArrowTypeV::Utf8),
            StaticV::DateTime => Ok(ArrowTypeV::TimestampMs),
            StaticV::Struct(fs) => match arrow_fields_of(fs) {
                Ok(a) => Ok(ArrowTypeV::Struct(a)),
                Err(e) => Err(e),
            },
            StaticV::Array(a) => match arrow_of(*a) {
                Ok(t) => Ok(ArrowTypeV::List(Box::new(t))),
                Err(e) => Err(e),
            },
            StaticV::Bag(b) => match arrow_of(*b) {
                Ok(t) => Ok(ArrowTypeV::List(Box::new(t))),
                Err(e) => Err(e),
            },
        },
    }
}

/// The Arrow fields of struct fields, or the first field's error.
pub open spec fn arrow_fields_of(fs: Seq<FieldV>) -> Result<Seq<(Seq<char>, ArrowTypeV)>, ParquetErrorV>
    decreases fs,
{
    if fs.len() == 0 {
        Ok(Seq::empty())
    } else {
        match arrow_fields_of(fs.drop_last()) {
            Err(e) => Err(e),
            Ok(a) => match arrow_of(fs.last().ty) {
                Err(e) => Err(e),
                Ok(t) => Ok(a.push((fs.last().name, t))),
            },
        }
    }
}

pub open spec fn arrow_result_view(r: Result<ArrowType, ParquetError>) -> Result<ArrowTypeV, ParquetErrorV> {
    match r {
        Ok(t) => Ok(t@),
        Err(e) => Err(e@),
    }
}

pub open spec fn fields_result_view(r: Result<Vec<ArrowField>, ParquetError>) -> Result<Seq<(Seq<char>, ArrowTypeV)>, ParquetErrorV> {
    match r {
        Ok(v) => Ok(arrow_fields_view(v@)),
        Err(e) => Err(e@),
    }
}

/// The Arrow type of a PartiQL shape.
pub fn partiql_type_to_arrow(shape: &PartiqlShape) -> (r: Result<ArrowType, ParquetError>)
    ensures
        arrow_result_view(r) == arrow_of(shape@),
    decreases shape,
{
    match shape {
        PartiqlShape::AnyOf(_) => Err(any_of_error()),
        PartiqlShape::Dynamic => Err(ParquetError::UnsupportedType(String::from_str("Dynamic types are not supported in Parquet output"))),
        PartiqlShape::Undefined => Err(ParquetError::UnsupportedType(String::from_str("Undefined types are not supported in Parquet output"))),
        PartiqlShape::Static(t) => match t {
            Static::Bool => Ok(ArrowType::Boolean),
            Static::Int | Static::Int8 | Static::Int16 | Static::Int32 | Static::Int64 => Ok(ArrowType::Int64),
            Static::Float32 | Static::Float64 => Ok(ArrowType::Float64),
            Static::Decimal | Static::DecimalP(_, _) => Ok(ArrowType::Utf8),
            Static::String | Static::StringFixed(_) | Static::StringVarying(_) => Ok(ArrowType::Utf8),
            Static::DateTime => Ok(ArrowType::TimestampMs),
            Static::Struct(fs) => match struct_fields_to_arrow(fs) {
                Ok(a) => Ok(ArrowType::Struct(a)),
                Err(e) => Err(e),
            },
            Static::Array(a) => match partiql_type_to_arrow(a) {
                Ok(t) => Ok(ArrowType::List(Box::new(t))),
                Err(e) => Err(e),
            },
            Static::Bag(b) => match partiql_type_to_arrow(b) {
                Ok(t) => Ok(ArrowType::List(Box::new(t))),
                Err(e) => Err(e),
            },
        },
    }
}

fn struct_fields_to_arrow(fs: &Vec<StructField>) -> (r: Result<Vec<ArrowField>, ParquetError>)
    ensures
        fields_result_view(r) == arrow_fields_of(fields_view(fs@)),
    decreases fs,
{
    let ghost fv = fields_view(fs@);
    proof { lemma_fields_view(fs@); }
    let mut out: Vec<ArrowField> = Vec::new();
    let mut i: usize = 0;
    proof { assert(fv.take(0) =~= Seq::<FieldV>::empty()); }
    while i < fs.len()
        invariant
            i <= fs@.len(),
            fv == fields_view(fs@),
            fv.len() == fs@.len(),
            forall|j: int| 0 <= j < fs@.len() ==> #[trigger] fv[j] == (FieldV { name: fs@[j].name@, ty: shape_view(fs@[j].ty) }),
            arrow_fields_of(fv.take(i as int)) == Ok::<Seq<(Seq<char>, ArrowTypeV)>, ParquetErrorV>(arrow_fields_view(out@)),
        decreases fs@.len() - i,
    {
        let ghost pre = fv.take(i + 1);
        proof {
            assert(pre.drop_last() =~= fv.take(i as int));
            assert(pre.last() == fv[i as int]);
        }
        match partiql_type_to_arrow(&fs[i].ty) {
            Ok(dt) => {
                let ghost old_out = out@;
                out.push(ArrowField { name: fs[i].name.clone(), data_type: dt });
                proof { assert(out@.drop_last() =~= old_out); }
            },
            Err(e) => {
                proof { lemma_fields_prefix_err(fv, i as int + 1); }
                return Err(e);
            },
        }
        i += 1;
    }
    proof { assert(fv.take(fv.len() as int) =~= fv); }
    Ok(out)
}

proof fn lemma_fields_prefix_err(fv: Seq<FieldV>, n: int)
    requires
        0 <= n <= fv.len(),
        arrow_fields_of(fv.take(n)) is Err,
    ensures
        arrow_fields_of(fv) == arrow_fields_of(fv.take(n)),
    decreases fv.len() - n,
{
    if n < fv.len() {
        assert(fv.take(n + 1).drop_last() =~= fv.take(n));
        lemma_fields_prefix_err(fv, n + 1);
    } else {
        assert(fv.take(n) =~= fv);
    }
}

/// The columns of a dataset of the shape: the fields of its struct, or of
/// the struct its bag holds.
pub open spec fn schema_of(s: ShapeV) -> Result<Seq<(Seq<char>, ArrowTypeV)>, ParquetErrorV>
    decreases s,
{
    match s {
        ShapeV::Static(t) => match t {
            StaticV::Struct(fs) => arrow_fields_of(fs),
            StaticV::Bag(b) => schema_of(*b),
            _ => Err(ParquetErrorV::Schema("top-level shape must be a struct or bag of structs"@)),
        },
        ShapeV::AnyOf(_) => Err(ParquetErrorV::UnsupportedType(any_of_message())),
        ShapeV::Dynamic => Err(ParquetErrorV::Schema("unsupported top-level shape: Dynamic"@)),
        ShapeV::Undefined => Err(ParquetErrorV::Schema("unsupported top-level shape: Undefined"@)),
    }
}

/// The schema of a dataset from its shape.
pub fn shape_to_fields(shape: &PartiqlShape) -> (r: Result<Vec<ArrowField>, ParquetError>)
    ensures
        fields_result_view(r) == schema_of(shape@),
    decreases shape,
{
    match shape {
        PartiqlShape::Static(t) => match t {
            Static::Struct(fs) => struct_fields_to_arrow(fs),
            Static::Bag(b) => shape_to_fields(b),
            _ => Err(ParquetError::Schema(String::from_str("top-level shape must be a struct or bag of structs"))),
        },
        PartiqlShape::AnyOf(_) => Err(any_of_error()),
        PartiqlShape::Dynamic => Err(ParquetError::Schema(String::from_str("unsupported top-level shape: Dynamic"))),
        PartiqlShape::Undefined => Err(ParquetError::Schema(String::from_str("unsupported top-level shape: Undefined"))),
    }
}

/// The Arrow type of a value, to infer a schema: a list's items take the
/// type of its first item (text when it has none).
pub open spec fn infer_type(v: ValueV) -> ArrowTypeV
    decreases v,
{
    match v {
        ValueV::Boolean(_) => ArrowTypeV::Boolean,
        ValueV::Integer(_) => ArrowTypeV::Int64,
        ValueV::Real(_) => ArrowTypeV::Float64,
        ValueV::Decimal(_) => ArrowTypeV::Utf8,
        ValueV::String(_) => ArrowTypeV::Utf8,
        ValueV::DateTime(_) => ArrowTypeV::TimestampMs,
        ValueV::Tuple(_) => ArrowTypeV::Utf8,
        ValueV::List(l) => ArrowTypeV::List(Box::new(if l.len() > 0 { infer_type(l[0]) } else { ArrowTypeV::Utf8 })),
        ValueV::Bag(b) => ArrowTypeV::List(Box::new(if b.len() > 0 { infer_type(b[0]) } else { ArrowTypeV::Utf8 })),
        ValueV::Blob(_) => ArrowTypeV::Binary,
        ValueV::Null => ArrowTypeV::Utf8,
        ValueV::Missing => ArrowTypeV::Utf8,
    }
}

/// The Arrow type of a value.
pub fn infer_arrow_type(val: &Value) -> (r: ArrowType)
    ensures
        r@ == infer_type(val@),
    decreases val,
{
    match val {
        Value::Boolean(_) => ArrowType::Boolean,
        Value::Integer(_) => ArrowType::Int64,
        Value::Real(_) => ArrowType::Float64,
        Value::Decimal(_) => ArrowType::Utf8,
        Value::String(_) => ArrowType::Utf8,
        Value::DateTime(_) => ArrowType::TimestampMs,
        Value::Tuple(_) => ArrowType::Utf8,
        Value::List(l) => {
            proof { lemma_values_view(l@); }
            let elem = if l.len() > 0 { infer_arrow_type(&l[0]) } else { ArrowType::Utf8 };
            ArrowType::List(Box::new(elem))
        },
        Value::Bag(b) => {
            proof { lemma_values_view(b@); }
            let elem = if b.len() > 0 { infer_arrow_type(&b[0]) } else { ArrowType::Utf8 };
            ArrowType::List(Box::new(elem))
        },
        Value::Blob(_) => ArrowType::Binary,
        Value::Null => ArrowType::Utf8,
        Value::Missing => ArrowType::Utf8,
    }
}

/// The position of the first row that is a tuple.
pub open spec fn first_tuple(rows: Seq<ValueV>, i: int) -> Option<int>
    decreases rows.len() - i,
{
    if i < 0 || i >= rows.len() {
        None
    } else if rows[i] is Tuple {
        Some(i)
    } else {
        first_tuple(rows, i + 1)
    }
}

/// The schema inferred from rows: a field per field of the first tuple,
/// of the type of its value.
pub open spec fn inferred_schema(rows: Seq<ValueV>) -> Result<Seq<(Seq<char>, ArrowTypeV)>, ParquetErrorV> {
    match first_tuple(rows, 0) {
        Some(i) => Ok(rows[i]->Tuple_0.map_values(|p: (Seq<char>, ValueV)| (p.0, infer_type(p.1)))),
        None => Err(ParquetErrorV::Schema("cannot infer schema - no tuple rows found"@)),
    }
}

/// The schema of a dataset from its rows.
pub fn infer_schema_from_values(rows: &Vec<Value>) -> (r: Result<Vec<ArrowField>, ParquetError>)
    ensures
        fields_result_view(r) == inferred_schema(values_view(rows@)),
{
    let ghost rv = values_view(rows@);
    proof { lemma_values_view(rows@); }
    let mut i: usize = 0;
    while i < rows.len()
        invariant
            i <= rows@.len(),
            rv == values_view(rows@),
            rv.len() == rows@.len(),
            forall|j: int| 0 <= j < rows@.len() ==> #[trigger] rv[j] == value_view(rows@[j]),
            first_tuple(rv, 0) == first_tuple(rv, i as int),
        decreases rows@.len() - i,
    {
        if let Value::Tuple(t) = &rows[i] {
            let ghost tv = pairs_view(t@);
            proof { lemma_pairs_view(t@); }
            let mut out: Vec<ArrowField> = Vec::new();
            let mut k: usize = 0;
            while k < t.len()
                invariant
                    k <= t@.len(),
                    tv == pairs_view(t@),
                    tv.len() == t@.len(),
                    forall|j: int| 0 <= j < t@.len() ==> #[trigger] tv[j] == (t@[j].0@, value_view(t@[j].1)),
                    arrow_fields_view(out@) == tv.take(k as int).map_values(|p: (Seq<char>, ValueV)| (p.0, infer_type(p.1))),
                decreases t@.len() - k,
            {
                let ghost old_out = out@;
                out.push(ArrowField { name: t[k].0.clone(), data_type: infer_arrow_type(&t[k].1) });
                proof {
                    assert(out@.drop_last() =~= old_out);
                    assert(tv.take(k + 1).map_values(|p: (Seq<char>, ValueV)| (p.0, infer_type(p.1)))
                        =~= tv.take(k as int).map_values(|p: (Seq<char>, ValueV)| (p.0, infer_type(p.1))).push((tv[k as int].0, infer_type(tv[k as int].1))));
                }
                k += 1;
            }
            proof { assert(tv.take(tv.len() as int) =~= tv); }
            return Ok(out);
        }
        i += 1;
    }
    Err(ParquetError::Schema(String::from_str("cannot infer schema - no tuple rows found")))
}


/// Whether two field names are equal ignoring case, as PartiQL's
/// case-insensitive bindings compare them.
pub uninterp spec fn ci_match(target: Seq<char>, candidate: Seq<char>) -> bool;

/// A character with an ASCII capital letter made small.
pub open spec fn ascii_lower(c: char) -> char {
    if 'A' <= c && c <= 'Z' { ((c as u32) + 32) as char } else { c }
}

/// Whether two names are equal once ASCII capitals are made small.
pub open spec fn ascii_ci_eq(a: Seq<char>, b: Seq<char>) -> bool {
    a.len() == b.len() && forall|i: int| 0 <= i < a.len() ==> ascii_lower(#[trigger] a[i]) == ascii_lower(b[i])
}

/// Whether every character of a name is ASCII.
pub open spec fn all_ascii(s: Seq<char>) -> bool {
    forall|i: int| 0 <= i < s.len() ==> (#[trigger] s[i] as u32) < 128
}

/// Whether two field names match as PartiQL's case-insensitive bindings
/// compare them: ASCII names exactly when they are equal up to ASCII case,
/// other names as the name `ci_match` says.
pub open spec fn name_matches(target: Seq<char>, candidate: Seq<char>) -> bool {
    if all_ascii(target) && all_ascii(candidate) {
        ascii_ci_eq(target, candidate)
    } else {
        ci_match(target, candidate)
    }
}

/// `partiql_value::BindingsMatcher::matches` for the case-insensitive
/// binding of `target`: `unicase` equality of the two names. Two ASCII
/// names match exactly when they are equal up to ASCII case (`unicase`
/// compares them with `eq_ignore_ascii_case`); names equal up to ASCII case
/// always match (neither is ASCII and both fold alike); how other names
/// compare (Unicode case folding) is left to the name `ci_match`.
#[verifier::external_body]
fn names_match(target: &str, candidate: &str) -> (r: bool)
    ensures
        r == ci_match(target@, candidate@),
        target@ == candidate@ ==> r,
        ascii_ci_eq(target@, candidate@) ==> r,
        all_ascii(target@) && all_ascii(candidate@) ==> (r <==> ascii_ci_eq(target@, candidate@)),
        r == name_matches(target@, candidate@),
{
    let name = partiql_value::BindingsName::CaseInsensitive(std::borrow::Cow::Borrowed(target));
    name.matcher().matches(candidate)
}

/// The position of the first pair from `i` on whose name matches `name`.
pub open spec fn match_index(ps: Seq<(Seq<char>, ValueV)>, name: Seq<char>, i: int) -> Option<int>
    decreases ps.len() - i,
{
    if i < 0 || i >= ps.len() {
        None
    } else if name_matches(name, ps[i].0) {
        Some(i)
    } else {
        match_index(ps, name, i + 1)
    }
}

/// The field of a tuple with that name, compared case-insensitively (the
/// first match wins); nothing for a value that is not a tuple.
pub open spec fn field_of(row: ValueV, name: Seq<char>) -> Option<ValueV> {
    match row {
        ValueV::Tuple(ps) => match match_index(ps, name, 0) {
            Some(i) => Some(ps[i].1),
            None => None,
        },
        _ => None,
    }
}

/// The field `child` of the field `parent` of a row.
pub open spec fn nested_field(row: ValueV, parent: Seq<char>, child: Seq<char>) -> Option<ValueV> {
    match field_of(row, parent) {
        Some(p) => field_of(p, child),
        None => None,
    }
}

pub open spec fn opt_view(o: Option<&Value>) -> Option<ValueV> {
    match o {
        Some(v) => Some(value_view(*v)),
        None => None,
    }
}

/// The field of a row with that name.
pub fn get_field<'a>(row: &'a Value, name: &str) -> (r: Option<&'a Value>)
    ensures
        opt_view(r) == field_of(row@, name@),
{
    match row {
        Value::Tuple(t) => {
            let ghost pv = pairs_view(t@);
            proof { lemma_pairs_view(t@); }
            let mut i: usize = 0;
            while i < t.len()
                invariant
                    i <= t@.len(),
                    pv == pairs_view(t@),
                    row@ == ValueV::Tuple(pv),
                    pv.len() == t@.len(),
                    forall|j: int| 0 <= j < t@.len() ==> #[trigger] pv[j] == (t@[j].0@, value_view(t@[j].1)),
                    match_index(pv, name@, 0) == match_index(pv, name@, i as int),
                decreases t@.len() - i,
            {
                if names_match(name, t[i].0.as_str()) {
                    proof {
                        assert(pv[i as int] == (t@[i as int].0@, value_view(t@[i as int].1)));
                        assert(match_index(pv, name@, i as int) == Some(i as int));
                    }
                    return Some(&t[i].1);
                }
                i += 1;
            }
            None
        },
        _ => None,
    }
}

/// The field `child` of the field `parent` of a row.
pub fn get_nested_field<'a>(row: &'a Value, parent: &str, child: &str) -> (r: Option<&'a Value>)
    ensures
        opt_view(r) == nested_field(row@, parent@, child@),
{
    match get_field(row, parent) {
        Some(p) => get_field(p, child),
        None => None,
    }
}

/// Milliseconds from the Unix epoch to the date and time at the offset (in
/// seconds), as the `time` crate counts them: whole milliseconds of the
/// difference.
pub uninterp spec fn unix_millis(year: int, month: int, day: int, hour: int, minute: int, second: int,
    nanosecond: int, offset: int) -> int;

/// `(odt - time::OffsetDateTime::UNIX_EPOCH).whole_milliseconds()` for the
/// date-time `odt` with those fields at that offset; for the years `time`
/// represents it fits an `i64`.
#[verifier::external_body]
fn epoch_millis(d: Date, t: Time, o: i32) -> (r: i64)
    requires
        date_valid(d),
        time_valid(t),
        offset_valid(o),
    ensures
        r as int == unix_millis(d.year as int, d.month as int, d.day as int, t.hour as int, t.minute as int,
            t.second as int, t.nanosecond as int, o as int),
{
    let month = time::Month::try_from(d.month).unwrap();
    let date = time::Date::from_calendar_date(d.year, month, d.day).unwrap();
    let time = time::Time::from_hms_nano(t.hour, t.minute, t.second, t.nanosecond).unwrap();
    let offset = time::UtcOffset::from_whole_seconds(o).unwrap();
    let odt = time::PrimitiveDateTime::new(date, time).assume_offset(offset);
    (odt - time::OffsetDateTime::UNIX_EPOCH).whole_milliseconds() as i64
}

/// The epoch milliseconds of a date-time: a timestamp without offset and
/// a date (at midnight) are taken as UTC; a time of day alone counts 0.
pub open spec fn datetime_millis(dt: DateTime) -> int {
    match dt {
        DateTime::TimestampWithTz(d, t, o) => unix_millis(d.year as int, d.month as int, d.day as int,
            t.hour as int, t.minute as int, t.second as int, t.nanosecond as int, o as int),
        DateTime::Timestamp(d, t) => unix_millis(d.year as int, d.month as int, d.day as int,
            t.hour as int, t.minute as int, t.second as int, t.nanosecond as int, 0),
        DateTime::Date(d) => unix_millis(d.year as int, d.month as int, d.day as int, 0, 0, 0, 0, 0),
        DateTime::Time(_) => 0,
        DateTime::TimeWithTz(_, _) => 0,
    }
}

/// The epoch milliseconds of a date-time.
pub fn datetime_to_epoch_millis(dt: &DateTime) -> (r: i64)
    requires
        datetime_valid(*dt),
    ensures
        r as int == datetime_millis(*dt),
{
    match dt {
        DateTime::TimestampWithTz(d, t, o) => epoch_millis(*d, *t, *o),
        DateTime::Timestamp(d, t) => epoch_millis(*d, *t, 0),
        DateTime::Date(d) => epoch_millis(*d, Time { hour: 0, minute: 0, second: 0, nanosecond: 0 }, 0),
        DateTime::Time(_) => 0,
        DateTime::TimeWithTz(_, _) => 0,
    }
}


/// Whether a value, where there is one, is valid.
pub open spec fn opt_valid(o: Option<ValueV>) -> bool {
    match o {
        Some(v) => value_valid(v),
        None => true,
    }
}

proof fn lemma_match_index_range(ps: Seq<(Seq<char>, ValueV)>, name: Seq<char>, i: int)
    ensures
        match_index(ps, name, i) matches Some(k) ==> 0 <= i <= k < ps.len(),
    decreases ps.len() - i,
{
    if 0 <= i < ps.len() && !name_matches(name, ps[i].0) {
        lemma_match_index_range(ps, name, i + 1);
    }
}

/// A field of a valid row is valid.
pub proof fn lemma_field_valid(row: ValueV, name: Seq<char>)
    requires
        value_valid(row),
    ensures
        opt_valid(field_of(row, name)),
{
    if let ValueV::Tuple(ps) = row {
        lemma_match_index_range(ps, name, 0);
        lemma_pairs_valid(ps);
    }
}

/// One cell of a column.
#[derive(Debug)]
pub enum Cell {
    Null,
    Bool(bool),
    Int(i64),
    /// A double, by the bits of its IEEE 754 form.
    Real(u64),
    /// An integer in a column of doubles, converted when written.
    IntAsReal(i64),
    Text(String),
    /// Milliseconds since the Unix epoch.
    Millis(i64),
    /// The text `Display` gives the double with these bits.
    RealText(u64),
    /// The text `Debug` gives the value.
    Debug(Value),
}

pub enum CellV {
    Null,
    Bool(bool),
    Int(i64),
    Real(u64),
    IntAsReal(i64),
    Text(Seq<char>),
    Millis(int),
    RealText(u64),
    Debug(ValueV),
}

pub open spec fn cell_view(c: Cell) -> CellV {
    match c {
        Cell::Null => CellV::Null,
        Cell::Bool(b) => CellV::Bool(b),
        Cell::Int(i) => CellV::Int(i),
        Cell::Real(f) => CellV::Real(f),
        Cell::IntAsReal(i) => CellV::IntAsReal(i),
        Cell::Text(s) => CellV::Text(s@),
        Cell::Millis(m) => CellV::Millis(m as int),
        Cell::RealText(f) => CellV::RealText(f),
        Cell::Debug(v) => CellV::Debug(v@),
    }
}

impl View for Cell {
    type V = CellV;

    open spec fn view(&self) -> CellV {
        cell_view(*self)
    }
}

pub open spec fn cells_view(v: Seq<Cell>) -> Seq<CellV> {
    v.map_values(|c: Cell| cell_view(c))
}

/// The data of one column, row by row.
#[derive(Debug)]
pub enum Column {
    /// A cell per row.
    Cells(Vec<Cell>),
    /// A struct column: a child column per field, in field order.
    Struct(Vec<Column>),
    /// A list column: per row its items, or nothing for a null list.
    List(Vec<Option<Vec<Cell>>>),
}

pub enum ColumnV {
    Cells(Seq<CellV>),
    Struct(Seq<ColumnV>),
    List(Seq<Option<Seq<CellV>>>),
}

pub open spec fn list_row_view(r: Option<Vec<Cell>>) -> Option<Seq<CellV>> {
    match r {
        Some(v) => Some(cells_view(v@)),
        None => None,
    }
}

pub open spec fn column_view(c: Column) -> ColumnV
    decreases c,
{
    match c {
        Column::Cells(v) => ColumnV::Cells(cells_view(v@)),
        Column::Struct(cs) => ColumnV::Struct(columns_view(cs@)),
        Column::List(rows) => ColumnV::List(rows@.map_values(|r: Option<Vec<Cell>>| list_row_view(r))),
    }
}

pub open spec fn columns_view(cs: Seq<Column>) -> Seq<ColumnV>
    decreases cs,
{
    if cs.len() == 0 {
        Seq::empty()
    } else {
        columns_view(cs.drop_last()).push(column_view(cs.last()))
    }
}

impl View for Column {
    type V = ColumnV;

    open spec fn view(&self) -> ColumnV {
        column_view(*self)
    }
}

/// The types whose columns hold one cell per row.
pub open spec fn is_scalar(t: ArrowTypeV) -> bool {
    t is Boolean || t is Int64 || t is Float64 || t is Utf8 || t is TimestampMs
}

/// The cell of a text column: strings as they are, decimals as their
/// text, nothing for null and missing, `Debug` text for the rest.
pub open spec fn text_cell(v: Option<ValueV>) -> CellV {
    match v {
        Some(ValueV::String(s)) => CellV::Text(s),
        Some(ValueV::Decimal(d)) => CellV::Text(decimal_text(d.mantissa as int, d.scale as int)),
        Some(ValueV::Null) => CellV::Null,
        Some(ValueV::Missing) => CellV::Null,
        None => CellV::Null,
        Some(x) => CellV::Debug(x),
    }
}

/// The cell a scalar column holds for a value: the value where it has the
/// column's type (an integer too in a column of doubles, a date-time as its
/// epoch milliseconds), null otherwise.
pub open spec fn scalar_cell(t: ArrowTypeV, v: Option<ValueV>) -> CellV {
    match t {
        ArrowTypeV::Boolean => match v {
            Some(ValueV::Boolean(b)) => CellV::Bool(b),
            _ => CellV::Null,
        },
        ArrowTypeV::Int64 => match v {
            Some(ValueV::Integer(i)) => CellV::Int(i),
            _ => CellV::Null,
        },
        ArrowTypeV::Float64 => match v {
            Some(ValueV::Real(f)) => CellV::Real(f),
            Some(ValueV::Integer(i)) => CellV::IntAsReal(i),
            _ => CellV::Null,
        },
        ArrowTypeV::TimestampMs => match v {
            Some(ValueV::DateTime(dt)) => CellV::Millis(datetime_millis(dt)),
            _ => CellV::Null,
        },
        _ => text_cell(v),
    }
}

/// The cell of a column of another type: null for null and missing, the
/// `Debug` text otherwise (strings as they are when `plain_strings`).
pub open spec fn fallback_cell(v: Option<ValueV>, plain_strings: bool) -> CellV {
    match v {
        None => CellV::Null,
        Some(x) => match x {
            ValueV::Null => CellV::Null,
            ValueV::Missing => CellV::Null,
            ValueV::String(s) => if plain_strings { CellV::Text(s) } else { CellV::Debug(x) },
            _ => CellV::Debug(x),
        },
    }
}

/// The cell of a top-level column for a row's field.
pub open spec fn row_cell(t: ArrowTypeV, v: Option<ValueV>) -> CellV {
    if is_scalar(t) { scalar_cell(t, v) } else { fallback_cell(v, true) }
}

/// The cell of a column nested in a struct.
pub open spec fn child_cell(t: ArrowTypeV, v: Option<ValueV>) -> CellV {
    if is_scalar(t) { scalar_cell(t, v) } else { fallback_cell(v, false) }
}

/// The cell of an item of a top-level list column of items of the type.
pub open spec fn list_item_cell(t: ArrowTypeV, x: ValueV) -> CellV {
    if is_scalar(t) { scalar_cell(t, Some(x)) } else { text_cell(Some(x)) }
}

/// The text cell of an item of a list nested in a struct.
pub open spec fn list_string_cell(x: ValueV) -> CellV {
    match x {
        ValueV::String(s) => CellV::Text(s),
        ValueV::Integer(i) => CellV::Text(signed_decimal(i as int)),
        ValueV::Real(f) => CellV::RealText(f),
        ValueV::Decimal(d) => CellV::Text(decimal_text(d.mantissa as int, d.scale as int)),
        ValueV::Boolean(b) => CellV::Text(if b { "true"@ } else { "false"@ }),
        ValueV::Null => CellV::Text(Seq::empty()),
        ValueV::Missing => CellV::Text(Seq::empty()),
        _ => CellV::Debug(x),
    }
}

/// The cells of the items of a top-level list column.
pub open spec fn item_cells(t: ArrowTypeV, l: Seq<ValueV>) -> Seq<CellV> {
    l.map_values(|x: ValueV| list_item_cell(t, x))
}

/// The text cells of the items of a list nested in a struct.
pub open spec fn string_cells(l: Seq<ValueV>) -> Seq<CellV> {
    l.map_values(|x: ValueV| list_string_cell(x))
}

/// The items of a list or bag.
pub open spec fn items_of(v: Option<ValueV>) -> Option<Seq<ValueV>> {
    match v {
        Some(ValueV::List(l)) => Some(l),
        Some(ValueV::Bag(b)) => Some(b),
        _ => None,
    }
}

/// The field of a value, where there is one.
pub open spec fn child_of(v: Option<ValueV>, name: Seq<char>) -> Option<ValueV> {
    match v {
        Some(x) => field_of(x, name),
        None => None,
    }
}

/// The column of a struct's child of the type, for the values the rows
/// give it.
pub open spec fn column_of_values(t: ArrowTypeV, vals: Seq<Option<ValueV>>) -> ColumnV
    decreases t,
{
    match t {
        ArrowTypeV::Struct(fs) => ColumnV::Struct(children_of(fs, vals)),
        ArrowTypeV::List(_) => ColumnV::List(vals.map_values(|v: Option<ValueV>|
            match items_of(v) {
                Some(l) => Some(string_cells(l)),
                None => None,
            })),
        _ => ColumnV::Cells(vals.map_values(|v: Option<ValueV>| child_cell(t, v))),
    }
}

/// The child columns of struct fields.
pub open spec fn children_of(fs: Seq<(Seq<char>, ArrowTypeV)>, vals: Seq<Option<ValueV>>) -> Seq<ColumnV>
    decreases fs,
{
    if fs.len() == 0 {
        Seq::empty()
    } else {
        children_of(fs.drop_last(), vals).push(
            column_of_values(fs.last().1, vals.map_values(|v: Option<ValueV>| child_of(v, fs.last().0))))
    }
}

/// The column of the field `name` of the rows, of the type.
pub open spec fn row_column(name: Seq<char>, t: ArrowTypeV, rows: Seq<ValueV>) -> ColumnV {
    match t {
        ArrowTypeV::Struct(fs) => ColumnV::Struct(fs.map_values(|f: (Seq<char>, ArrowTypeV)|
            column_of_values(f.1, rows.map_values(|r: ValueV| nested_field(r, name, f.0))))),
        ArrowTypeV::List(inner) => ColumnV::List(rows.map_values(|r: ValueV|
            match items_of(field_of(r, name)) {
                Some(l) => Some(item_cells(*inner, l)),
                None => None,
            })),
        _ => ColumnV::Cells(rows.map_values(|r: ValueV| row_cell(t, field_of(r, name)))),
    }
}

/// The columns of the rows under the schema, in field order.
pub open spec fn batch_of(schema: Seq<(Seq<char>, ArrowTypeV)>, rows: Seq<ValueV>) -> Seq<ColumnV> {
    schema.map_values(|f: (Seq<char>, ArrowTypeV)| row_column(f.0, f.1, rows))
}


pub open spec fn opts_view(s: Seq<Option<&Value>>) -> Seq<Option<ValueV>> {
    s.map_values(|o: Option<&Value>| opt_view(o))
}

pub proof fn lemma_columns_view(cs: Seq<Column>)
    ensures
        columns_view(cs).len() == cs.len(),
        forall|i: int| 0 <= i < cs.len() ==> #[trigger] columns_view(cs)[i] == column_view(cs[i]),
    decreases cs.len(),
{
    if cs.len() > 0 {
        lemma_columns_view(cs.drop_last());
        assert forall|i: int| 0 <= i < cs.len() implies #[trigger] columns_view(cs)[i] == column_view(cs[i]) by {
            if i < cs.len() - 1 {
                assert(cs.drop_last()[i] == cs[i]);
            }
        }
    }
}

fn is_scalar_type(t: &ArrowType) -> (r: bool)
    ensures
        r == is_scalar(t@),
{
    match t {
        ArrowType::Boolean => true,
        ArrowType::Int64 => true,
        ArrowType::Float64 => true,
        ArrowType::Utf8 => true,
        ArrowType::TimestampMs => true,
        _ => false,
    }
}

fn text_cell_of(v: Option<&Value>) -> (c: Cell)
    requires
        opt_valid(opt_view(v)),
    ensures
        c@ == text_cell(opt_view(v)),
{
    match v {
        Some(Value::String(s)) => Cell::Text(s.clone()),
        Some(Value::Decimal(d)) => Cell::Text(decimal_to_string(*d)),
        Some(Value::Null) => Cell::Null,
        Some(Value::Missing) => Cell::Null,
        None => Cell::Null,
        Some(x) => Cell::Debug(clone_value(x)),
    }
}

fn scalar_cell_of(t: &ArrowType, v: Option<&Value>) -> (c: Cell)
    requires
        is_scalar(t@),
        opt_valid(opt_view(v)),
    ensures
        c@ == scalar_cell(t@, opt_view(v)),
{
    match t {
        ArrowType::Boolean => match v {
            Some(Value::Boolean(b)) => Cell::Bool(*b),
            _ => Cell::Null,
        },
        ArrowType::Int64 => match v {
            Some(Value::Integer(i)) => Cell::Int(*i),
            _ => Cell::Null,
        },
        ArrowType::Float64 => match v {
            Some(Value::Real(f)) => Cell::Real(*f),
            Some(Value::Integer(i)) => Cell::IntAsReal(*i),
            _ => Cell::Null,
        },
        ArrowType::TimestampMs => match v {
            Some(Value::DateTime(dt)) => Cell::Millis(datetime_to_epoch_millis(dt)),
            _ => Cell::Null,
        },
        _ => text_cell_of(v),
    }
}

fn fallback_cell_of(v: Option<&Value>, plain_strings: bool) -> (c: Cell)
    ensures
        c@ == fallback_cell(opt_view(v), plain_strings),
{
    match v {
        None => Cell::Null,
        Some(Value::Null) => Cell::Null,
        Some(Value::Missing) => Cell::Null,
        Some(Value::String(s)) => if plain_strings { Cell::Text(s.clone()) } else { Cell::Debug(clone_value(v.unwrap())) },
        Some(x) => Cell::Debug(clone_value(x)),
    }
}

/// The text cell of an item of a list nested in a struct: its text, or the
/// double whose text it is, or its `Debug` text.
pub fn value_to_string_for_list(val: &Value) -> (c: Cell)
    requires
        value_valid(val@),
    ensures
        c@ == list_string_cell(val@),
{
    match val {
        Value::String(s) => Cell::Text(s.clone()),
        Value::Integer(i) => {
            let mut s = String::new();
            push_signed_decimal(&mut s, *i);
            proof { assert(Seq::<char>::empty() + signed_decimal(*i as int) =~= signed_decimal(*i as int)); }
            Cell::Text(s)
        },
        Value::Real(f) => Cell::RealText(*f),
        Value::Decimal(d) => Cell::Text(decimal_to_string(*d)),
        Value::Boolean(b) => if *b { Cell::Text(String::from_str("true")) } else { Cell::Text(String::from_str("false")) },
        Value::Null => Cell::Text(String::new()),
        Value::Missing => Cell::Text(String::new()),
        _ => Cell::Debug(clone_value(val)),
    }
}

fn items_cells(l: &Vec<Value>, t: &ArrowType) -> (r: Vec<Cell>)
    requires
        values_valid(values_view(l@)),
    ensures
        cells_view(r@) == item_cells(t@, values_view(l@)),
{
    let ghost lv = values_view(l@);
    proof { lemma_values_view(l@); lemma_values_valid(lv); }
    let scalar = is_scalar_type(t);
    let mut out: Vec<Cell> = Vec::new();
    let mut i: usize = 0;
    while i < l.len()
        invariant
            i <= l@.len(),
            scalar == is_scalar(t@),
            lv == values_view(l@),
            lv.len() == l@.len(),
            forall|j: int| 0 <= j < l@.len() ==> #[trigger] lv[j] == value_view(l@[j]),
            forall|j: int| 0 <= j < lv.len() ==> value_valid(#[trigger] lv[j]),
            out@.len() == i,
            forall|j: int| 0 <= j < i ==> #[trigger] cell_view(out@[j]) == list_item_cell(t@, lv[j]),
        decreases l@.len() - i,
    {
        proof { assert(value_valid(lv[i as int])); }
        let c = if scalar { scalar_cell_of(t, Some(&l[i])) } else { text_cell_of(Some(&l[i])) };
        out.push(c);
        i += 1;
    }
    proof { assert(cells_view(out@) =~= item_cells(t@, lv)); }
    out
}

fn list_strings(l: &Vec<Value>) -> (r: Vec<Cell>)
    requires
        values_valid(values_view(l@)),
    ensures
        cells_view(r@) == string_cells(values_view(l@)),
{
    let ghost lv = values_view(l@);
    proof { lemma_values_view(l@); lemma_values_valid(lv); }
    let mut out: Vec<Cell> = Vec::new();
    let mut i: usize = 0;
    while i < l.len()
        invariant
            i <= l@.len(),
            lv == values_view(l@),
            lv.len() == l@.len(),
            forall|j: int| 0 <= j < l@.len() ==> #[trigger] lv[j] == value_view(l@[j]),
            forall|j: int| 0 <= j < lv.len() ==> value_valid(#[trigger] lv[j]),
            out@.len() == i,
            forall|j: int| 0 <= j < i ==> #[trigger] cell_view(out@[j]) == list_string_cell(lv[j]),
        decreases l@.len() - i,
    {
        proof { assert(value_valid(lv[i as int])); }
        let c = value_to_string_for_list(&l[i]);
        out.push(c);
        i += 1;
    }
    proof { assert(cells_view(out@) =~= string_cells(lv)); }
    out
}


/// The list column of the field `name` of the rows, of items of the type:
/// a row whose field is a list or a bag gives its items' cells, any other
/// row a null list.
pub fn build_list_column(name: &str, elem_type: &ArrowType, rows: &Vec<Value>) -> (c: Column)
    requires
        values_valid(values_view(rows@)),
    ensures
        c@ == row_column(name@, ArrowTypeV::List(Box::new(elem_type@)), values_view(rows@)),
{
    let ghost rv = values_view(rows@);
    proof { lemma_values_view(rows@); lemma_values_valid(rv); }
    let mut out: Vec<Option<Vec<Cell>>> = Vec::new();
    let mut i: usize = 0;
    while i < rows.len()
        invariant
            i <= rows@.len(),
            rv == values_view(rows@),
            rv.len() == rows@.len(),
            forall|j: int| 0 <= j < rows@.len() ==> #[trigger] rv[j] == value_view(rows@[j]),
            forall|j: int| 0 <= j < rv.len() ==> value_valid(#[trigger] rv[j]),
            out@.len() == i,
            forall|j: int| 0 <= j < i ==> #[trigger] list_row_view(out@[j]) == match items_of(field_of(rv[j], name@)) {
                Some(l) => Some(item_cells(elem_type@, l)),
                None => None,
            },
        decreases rows@.len() - i,
    {
        let f = get_field(&rows[i], name);
        proof { lemma_field_valid(rv[i as int], name@); }
        let cells = match f {
            Some(Value::List(l)) => Some(items_cells(l, elem_type)),
            Some(Value::Bag(b)) => Some(items_cells(b, elem_type)),
            _ => None,
        };
        out.push(cells);
        i += 1;
    }
    proof {
        assert(out@.map_values(|r: Option<Vec<Cell>>| list_row_view(r)) =~= rv.map_values(|r: ValueV|
            match items_of(field_of(r, name@)) {
                Some(l) => Some(item_cells(elem_type@, l)),
                None => None,
            }));
    }
    Column::List(out)
}

/// The list column of a struct's child: a value that is a list or a bag
/// gives its items' text cells, any other a null list.
pub fn build_list_from_values(values: &Vec<Option<&Value>>) -> (c: Column)
    requires
        forall|j: int| 0 <= j < values@.len() ==> opt_valid(#[trigger] opt_view(values@[j])),
    ensures
        c@ == ColumnV::List(opts_view(values@).map_values(|v: Option<ValueV>|
            match items_of(v) {
                Some(l) => Some(string_cells(l)),
                None => None,
            })),
{
    let ghost ov = opts_view(values@);
    let mut out: Vec<Option<Vec<Cell>>> = Vec::new();
    let mut i: usize = 0;
    while i < values.len()
        invariant
            i <= values@.len(),
            ov == opts_view(values@),
            forall|j: int| 0 <= j < values@.len() ==> opt_valid(#[trigger] opt_view(values@[j])),
            out@.len() == i,
            forall|j: int| 0 <= j < i ==> #[trigger] list_row_view(out@[j]) == match items_of(ov[j]) {
                Some(l) => Some(string_cells(l)),
                None => None,
            },
        decreases values@.len() - i,
    {
        proof { assert(opt_valid(opt_view(values@[i as int]))); }
        let cells = match values[i] {
            Some(Value::List(l)) => Some(list_strings(l)),
            Some(Value::Bag(b)) => Some(list_strings(b)),
            _ => None,
        };
        out.push(cells);
        i += 1;
    }
    proof {
        assert(out@.map_values(|r: Option<Vec<Cell>>| list_row_view(r)) =~= ov.map_values(|v: Option<ValueV>|
            match items_of(v) {
                Some(l) => Some(string_cells(l)),
                None => None,
            }));
    }
    Column::List(out)
}

/// The column of a struct's child of the type, for the values the rows
/// give it (none where a row has no such field).
pub fn build_from_values(data_type: &ArrowType, values: &Vec<Option<&Value>>) -> (c: Column)
    requires
        forall|j: int| 0 <= j < values@.len() ==> opt_valid(#[trigger] opt_view(values@[j])),
    ensures
        c@ == column_of_values(data_type@, opts_view(values@)),
    decreases data_type,
{
    match data_type {
        ArrowType::Struct(fields) => Column::Struct(struct_children(fields, values)),
        ArrowType::List(_) => build_list_from_values(values),
        _ => {
            let ghost ov = opts_view(values@);
            let scalar = is_scalar_type(data_type);
            let mut out: Vec<Cell> = Vec::new();
            let mut i: usize = 0;
            while i < values.len()
                invariant
                    i <= values@.len(),
                    !(data_type@ is Struct) && !(data_type@ is List),
                    scalar == is_scalar(data_type@),
                    ov == opts_view(values@),
                    forall|j: int| 0 <= j < values@.len() ==> opt_valid(#[trigger] opt_view(values@[j])),
                    out@.len() == i,
                    forall|j: int| 0 <= j < i ==> #[trigger] cell_view(out@[j]) == child_cell(data_type@, ov[j]),
                decreases values@.len() - i,
            {
                proof { assert(opt_valid(opt_view(values@[i as int]))); }
                let c = if scalar { scalar_cell_of(data_type, values[i]) } else { fallback_cell_of(values[i], false) };
                out.push(c);
                i += 1;
            }
            proof {
                assert(cells_view(out@) =~= ov.map_values(|v: Option<ValueV>| child_cell(data_type@, v)));
            }
            Column::Cells(out)
        },
    }
}

/// The child columns of the fields of a struct column.
fn struct_children(fields: &Vec<ArrowField>, values: &Vec<Option<&Value>>) -> (r: Vec<Column>)
    requires
        forall|j: int| 0 <= j < values@.len() ==> opt_valid(#[trigger] opt_view(values@[j])),
    ensures
        columns_view(r@) == children_of(arrow_fields_view(fields@), opts_view(values@)),
    decreases fields,
{
    let ghost fv = arrow_fields_view(fields@);
    let ghost ov = opts_view(values@);
    proof { lemma_arrow_fields_view(fields@); }
    let mut out: Vec<Column> = Vec::new();
    let mut k: usize = 0;
    proof { assert(fv.take(0) =~= Seq::<(Seq<char>, ArrowTypeV)>::empty()); }
    while k < fields.len()
        invariant
            k <= fields@.len(),
            fv == arrow_fields_view(fields@),
            fv.len() == fields@.len(),
            forall|j: int| 0 <= j < fields@.len() ==> #[trigger] fv[j] == (fields@[j].name@, arrow_view(fields@[j].data_type)),
            ov == opts_view(values@),
            forall|j: int| 0 <= j < values@.len() ==> opt_valid(#[trigger] opt_view(values@[j])),
            columns_view(out@) == children_of(fv.take(k as int), ov),
        decreases fields@.len() - k,
    {
        let name = fields[k].name.as_str();
        let mut nested: Vec<Option<&Value>> = Vec::new();
        let mut j: usize = 0;
        while j < values.len()
            invariant
                j <= values@.len(),
                name@ == fields@[k as int].name@,
                forall|m: int| 0 <= m < values@.len() ==> opt_valid(#[trigger] opt_view(values@[m])),
                nested@.len() == j,
                forall|m: int| 0 <= m < j ==> #[trigger] opt_view(nested@[m]) == child_of(opt_view(values@[m]), name@),
                forall|m: int| 0 <= m < j ==> opt_valid(#[trigger] opt_view(nested@[m])),
            decreases values@.len() - j,
        {
            let n = match values[j] {
                Some(v) => {
                    proof { assert(opt_valid(opt_view(values@[j as int]))); lemma_field_valid(v@, name@); }
                    get_field(v, name)
                },
                None => None,
            };
            nested.push(n);
            j += 1;
        }
        proof {
            assert(opts_view(nested@) =~= ov.map_values(|v: Option<ValueV>| child_of(v, fv[k as int].0)));
        }
        let child = build_from_values(&fields[k].data_type, &nested);
        let ghost old_out = out@;
        out.push(child);
        proof {
            assert(out@.drop_last() =~= old_out);
            let pre = fv.take(k + 1);
            assert(pre.drop_last() =~= fv.take(k as int));
            assert(pre.last() == fv[k as int]);
        }
        k += 1;
    }
    proof { assert(fv.take(fv.len() as int) =~= fv); }
    out
}


/// The column of the field `child` of the struct field `parent` of the
/// rows, of the type.
pub fn build_struct_child(parent_name: &str, child_name: &str, data_type: &ArrowType, rows: &Vec<Value>) -> (c: Column)
    requires
        values_valid(values_view(rows@)),
    ensures
        c@ == column_of_values(data_type@, values_view(rows@).map_values(|r: ValueV|
            nested_field(r, parent_name@, child_name@))),
{
    let ghost rv = values_view(rows@);
    proof { lemma_values_view(rows@); lemma_values_valid(rv); }
    let mut vals: Vec<Option<&Value>> = Vec::new();
    let mut i: usize = 0;
    while i < rows.len()
        invariant
            i <= rows@.len(),
            rv == values_view(rows@),
            rv.len() == rows@.len(),
            forall|j: int| 0 <= j < rows@.len() ==> #[trigger] rv[j] == value_view(rows@[j]),
            forall|j: int| 0 <= j < rv.len() ==> value_valid(#[trigger] rv[j]),
            vals@.len() == i,
            forall|j: int| 0 <= j < i ==> #[trigger] opt_view(vals@[j]) == nested_field(rv[j], parent_name@, child_name@),
            forall|j: int| 0 <= j < i ==> opt_valid(#[trigger] opt_view(vals@[j])),
        decreases rows@.len() - i,
    {
        let v = get_nested_field(&rows[i], parent_name, child_name);
        proof {
            lemma_field_valid(rv[i as int], parent_name@);
            if let Some(p) = field_of(rv[i as int], parent_name@) {
                lemma_field_valid(p, child_name@);
            }
        }
        vals.push(v);
        i += 1;
    }
    proof {
        assert(opts_view(vals@) =~= rv.map_values(|r: ValueV| nested_field(r, parent_name@, child_name@)));
    }
    build_from_values(data_type, &vals)
}

/// The column of the field `name` of the rows, of the type: a cell per
/// row for a scalar type, a child column per field for a struct, the
/// items of each row's list for a list.
pub fn build_column(name: &str, data_type: &ArrowType, rows: &Vec<Value>) -> (c: Column)
    requires
        values_valid(values_view(rows@)),
    ensures
        c@ == row_column(name@, data_type@, values_view(rows@)),
{
    let ghost rv = values_view(rows@);
    proof { lemma_values_view(rows@); lemma_values_valid(rv); }
    match data_type {
        ArrowType::Struct(fields) => {
            let ghost fv = arrow_fields_view(fields@);
            proof { lemma_arrow_fields_view(fields@); }
            let mut out: Vec<Column> = Vec::new();
            let mut k: usize = 0;
            while k < fields.len()
                invariant
                    k <= fields@.len(),
                    rv == values_view(rows@),
                    values_valid(rv),
                    fv == arrow_fields_view(fields@),
                    fv.len() == fields@.len(),
                    forall|j: int| 0 <= j < fields@.len() ==> #[trigger] fv[j] == (fields@[j].name@, arrow_view(fields@[j].data_type)),
                    out@.len() == k,
                    forall|j: int| 0 <= j < k ==> #[trigger] column_view(out@[j]) == column_of_values(fv[j].1,
                        rv.map_values(|r: ValueV| nested_field(r, name@, fv[j].0))),
                decreases fields@.len() - k,
            {
                let child = build_struct_child(name, fields[k].name.as_str(), &fields[k].data_type, rows);
                out.push(child);
                k += 1;
            }
            proof {
                lemma_columns_view(out@);
                assert(columns_view(out@) =~= fv.map_values(|f: (Seq<char>, ArrowTypeV)|
                    column_of_values(f.1, rv.map_values(|r: ValueV| nested_field(r, name@, f.0)))));
            }
            Column::Struct(out)
        },
        ArrowType::List(inner) => build_list_column(name, inner, rows),
        _ => {
            let scalar = is_scalar_type(data_type);
            let mut out: Vec<Cell> = Vec::new();
            let mut i: usize = 0;
            while i < rows.len()
                invariant
                    i <= rows@.len(),
                    !(data_type@ is Struct) && !(data_type@ is List),
                    scalar == is_scalar(data_type@),
                    rv == values_view(rows@),
                    rv.len() == rows@.len(),
                    forall|j: int| 0 <= j < rows@.len() ==> #[trigger] rv[j] == value_view(rows@[j]),
                    forall|j: int| 0 <= j < rv.len() ==> value_valid(#[trigger] rv[j]),
                    out@.len() == i,
                    forall|j: int| 0 <= j < i ==> #[trigger] cell_view(out@[j]) == row_cell(data_type@, field_of(rv[j], name@)),
                decreases rows@.len() - i,
            {
                let f = get_field(&rows[i], name);
                proof { lemma_field_valid(rv[i as int], name@); }
                let c = if scalar { scalar_cell_of(data_type, f) } else { fallback_cell_of(f, true) };
                out.push(c);
                i += 1;
            }
            proof {
                assert(cells_view(out@) =~= rv.map_values(|r: ValueV| row_cell(data_type@, field_of(r, name@))));
            }
            Column::Cells(out)
        },
    }
}

/// The columns of the rows under the schema, one per field.
pub fn values_to_record_batch(rows: &Vec<Value>, schema: &Vec<ArrowField>) -> (r: Vec<Column>)
    requires
        values_valid(values_view(rows@)),
    ensures
        columns_view(r@) == batch_of(arrow_fields_view(schema@), values_view(rows@)),
{
    let ghost fv = arrow_fields_view(schema@);
    proof { lemma_arrow_fields_view(schema@); }
    let mut out: Vec<Column> = Vec::new();
    let mut k: usize = 0;
    while k < schema.len()
        invariant
            k <= schema@.len(),
            values_valid(values_view(rows@)),
            fv == arrow_fields_view(schema@),
            fv.len() == schema@.len(),
            forall|j: int| 0 <= j < schema@.len() ==> #[trigger] fv[j] == (schema@[j].name@, arrow_view(schema@[j].data_type)),
            out@.len() == k,
            forall|j: int| 0 <= j < k ==> #[trigger] column_view(out@[j]) == row_column(fv[j].0, fv[j].1, values_view(rows@)),
        decreases schema@.len() - k,
    {
        let c = build_column(schema[k].name.as_str(), &schema[k].data_type, rows);
        out.push(c);
        k += 1;
    }
    proof {
        lemma_columns_view(out@);
        assert(columns_view(out@) =~= batch_of(fv, values_view(rows@)));
    }
    out
}


/// What is written to one Parquet file: its name, its schema and the
/// columns of its rows.
#[derive(Debug)]
pub struct ParquetTable {
    pub file_name: String,
    pub schema: Vec<ArrowField>,
    pub columns: Vec<Column>,
    pub row_count: usize,
}

/// The schema of a dataset: from its shape where it has one, else from its
/// rows.
pub open spec fn table_schema(shape: Option<ShapeV>, rows: Seq<ValueV>) -> Result<Seq<(Seq<char>, ArrowTypeV)>, ParquetErrorV> {
    match shape {
        Some(s) => schema_of(s),
        None => inferred_schema(rows),
    }
}

pub open spec fn opt_shape_view(shape: Option<&PartiqlShape>) -> Option<ShapeV> {
    match shape {
        Some(s) => Some(s@),
        None => None,
    }
}

/// The Parquet file of a dataset: nothing for a dataset without rows;
/// else the file named after the dataset (made safe) with `.parquet`,
/// under the schema of its shape or of its rows, and the columns of its
/// rows; or the schema's error.
pub fn parquet_table(dataset_name: &str, shape: Option<&PartiqlShape>, rows: &Vec<Value>)
    -> (r: Result<Option<ParquetTable>, ParquetError>)
    requires
        values_valid(values_view(rows@)),
    ensures
        rows@.len() == 0 ==> r matches Ok(None),
        rows@.len() > 0 ==> match table_schema(opt_shape_view(shape), values_view(rows@)) {
            Err(e) => r matches Err(x) && x@ == e,
            Ok(fs) => r matches Ok(Some(t)) && arrow_fields_view(t.schema@) == fs
                && columns_view(t.columns@) == batch_of(fs, values_view(rows@))
                && t.file_name@ == dataset_name@.map_values(|c: char| safe_char(c)) + ".parquet"@
                && t.row_count == rows@.len(),
        },
{
    if rows.len() == 0 {
        return Ok(None);
    }
    let schema = match shape {
        Some(s) => shape_to_fields(s),
        None => infer_schema_from_values(rows),
    };
    match schema {
        Err(e) => Err(e),
        Ok(fields) => {
            let columns = values_to_record_batch(rows, &fields);
            let mut file_name = sanitize_filename(dataset_name);
            file_name.append(".parquet");
            Ok(Some(ParquetTable { file_name, schema: fields, columns, row_count: rows.len() }))
        },
    }
}


/// Whether a column holds `n` rows: `n` cells or lists, or children that
/// each hold `n` rows.
pub open spec fn column_rows(c: ColumnV, n: int) -> bool
    decreases c,
{
    match c {
        ColumnV::Cells(v) => v.len() == n,
        ColumnV::List(v) => v.len() == n,
        ColumnV::Struct(cs) => all_rows(cs, n),
    }
}

/// Whether each of the columns holds `n` rows.
pub open spec fn all_rows(cs: Seq<ColumnV>, n: int) -> bool
    decreases cs,
{
    if cs.len() == 0 {
        true
    } else {
        all_rows(cs.drop_last(), n) && column_rows(cs.last(), n)
    }
}

proof fn lemma_all_rows(cs: Seq<ColumnV>, n: int)
    ensures
        all_rows(cs, n) <==> forall|i: int| 0 <= i < cs.len() ==> column_rows(#[trigger] cs[i], n),
    decreases cs.len(),
{
    if cs.len() > 0 {
        lemma_all_rows(cs.drop_last(), n);
        if forall|i: int| 0 <= i < cs.len() ==> column_rows(#[trigger] cs[i], n) {
            assert forall|i: int| 0 <= i < cs.len() - 1 implies column_rows(#[trigger] cs.drop_last()[i], n) by {
                assert(cs.drop_last()[i] == cs[i]);
            }
            assert(column_rows(cs[cs.len() - 1], n));
        }
        if all_rows(cs, n) {
            assert forall|i: int| 0 <= i < cs.len() implies column_rows(#[trigger] cs[i], n) by {
                if i < cs.len() - 1 {
                    assert(cs.drop_last()[i] == cs[i]);
                }
            }
        }
    }
}

proof fn lemma_values_rows(t: ArrowTypeV, vals: Seq<Option<ValueV>>)
    ensures
        column_rows(column_of_values(t, vals), vals.len() as int),
    decreases t,
{
    if let ArrowTypeV::Struct(fs) = t {
        lemma_children_rows(fs, vals);
    }
}

proof fn lemma_children_rows(fs: Seq<(Seq<char>, ArrowTypeV)>, vals: Seq<Option<ValueV>>)
    ensures
        all_rows(children_of(fs, vals), vals.len() as int),
    decreases fs,
{
    if fs.len() > 0 {
        lemma_children_rows(fs.drop_last(), vals);
        let sub = vals.map_values(|v: Option<ValueV>| child_of(v, fs.last().0));
        lemma_values_rows(fs.last().1, sub);
        let cs = children_of(fs, vals);
        assert(cs.drop_last() =~= children_of(fs.drop_last(), vals));
    }
}

/// Every column the rows give under a schema, and every child column of a
/// struct column, holds exactly one entry per row.
pub proof fn lemma_batch_rows(schema: Seq<(Seq<char>, ArrowTypeV)>, rows: Seq<ValueV>)
    ensures
        batch_of(schema, rows).len() == schema.len(),
        forall|i: int| 0 <= i < schema.len() ==> column_rows(#[trigger] batch_of(schema, rows)[i], rows.len() as int),
{
    assert forall|i: int| 0 <= i < schema.len() implies column_rows(#[trigger] batch_of(schema, rows)[i], rows.len() as int) by {
        let f = schema[i];
        match f.1 {
            ArrowTypeV::Struct(fs) => {
                let cs = fs.map_values(|g: (Seq<char>, ArrowTypeV)|
                    column_of_values(g.1, rows.map_values(|r: ValueV| nested_field(r, f.0, g.0))));
                assert forall|k: int| 0 <= k < cs.len() implies column_rows(#[trigger] cs[k], rows.len() as int) by {
                    lemma_values_rows(fs[k].1, rows.map_values(|r: ValueV| nested_field(r, f.0, fs[k].0)));
                }
                lemma_all_rows(cs, rows.len() as int);
            },
            _ => {},
        }
    }
}

/// A scalar column holds each row's own value of its field: in a Boolean
/// column the cell of a row whose field is the boolean `b` is `b`, in an
/// Int64 column an integer field gives that integer, in a Float64 column a
/// real gives that real; a row without the field gives a null cell.
pub proof fn lemma_scalar_columns_keep_values(name: Seq<char>, rows: Seq<ValueV>, i: int)
    requires
        0 <= i < rows.len(),
    ensures
        row_column(name, ArrowTypeV::Boolean, rows) matches ColumnV::Cells(cs) && cs.len() == rows.len()
            && (field_of(rows[i], name) matches Some(ValueV::Boolean(b)) ==> cs[i] == CellV::Bool(b))
            && (field_of(rows[i], name) is None ==> cs[i] == CellV::Null),
        row_column(name, ArrowTypeV::Int64, rows) matches ColumnV::Cells(cs) && cs.len() == rows.len()
            && (field_of(rows[i], name) matches Some(ValueV::Integer(n)) ==> cs[i] == CellV::Int(n)),
        row_column(name, ArrowTypeV::Float64, rows) matches ColumnV::Cells(cs) && cs.len() == rows.len()
            && (field_of(rows[i], name) matches Some(ValueV::Real(f)) ==> cs[i] == CellV::Real(f)),
{
}

} // verus!
