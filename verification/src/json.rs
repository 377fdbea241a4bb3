//! Conversion of PartiQL values to JSON. Types JSON has no form for
//! (decimals, date-times, blobs) are refused, or, when coercion is asked
//! for, written as strings.
use vstd::prelude::*;
use crate::value::{
    Value, ValueV, Decimal, Date, Time, DateTime, value_view, values_view, pairs_view, lemma_values_view,
    lemma_pairs_view, value_valid, values_valid, pairs_valid, lemma_values_valid, lemma_pairs_valid,
    decimal_valid, date_valid, time_valid, offset_valid, datetime_valid,
};

verus! {

/// A JSON number: an integer (signed or not), or a finite double given by
/// its bits.
#[derive(PartialEq, Eq, Structural, Clone, Copy, Debug)]
pub enum JsonNumber {
    Int(i64),
    UInt(u64),
    Float(u64),
}

/// A JSON value. An object's entries are in order; those made from a
/// tuple have distinct keys.
#[derive(Debug)]
pub enum JsonValue {
    Null,
    Bool(bool),
    Number(JsonNumber),
    String(String),
    Array(Vec<JsonValue>),
    Object(Vec<(String, JsonValue)>),
}

pub enum JsonV {
    Null,
    Bool(bool),
    Number(JsonNumber),
    String(Seq<char>),
    Array(Seq<JsonV>),
    Object(Seq<(Seq<char>, JsonV)>),
}

pub open spec fn json_view(j: JsonValue) -> JsonV
    decreases j,
{
    match j {
        JsonValue::Null => JsonV::Null,
        JsonValue::Bool(b) => JsonV::Bool(b),
        JsonValue::Number(n) => JsonV::Number(n),
        JsonValue::String(s) => JsonV::String(s@),
        JsonValue::Array(a) => JsonV::Array(jsons_view(a@)),
        JsonValue::Object(o) => JsonV::Object(entries_view(o@)),
    }
}

pub open spec fn jsons_view(v: Seq<JsonValue>) -> Seq<JsonV>
    decreases v,
{
    if v.len() == 0 {
        Seq::empty()
    } else {
        jsons_view(v.drop_last()).push(json_view(v.last()))
    }
}

pub open spec fn entries_view(o: Seq<(String, JsonValue)>) -> Seq<(Seq<char>, JsonV)>
    decreases o,
{
    if o.len() == 0 {
        Seq::empty()
    } else {
        entries_view(o.drop_last()).push((o.last().0@, json_view(o.last().1)))
    }
}

impl View for JsonValue {
    type V = JsonV;

    open spec fn view(&self) -> JsonV {
        json_view(*self)
    }
}

pub proof fn lemma_entries_view(o: Seq<(String, JsonValue)>)
    ensures
        entries_view(o).len() == o.len(),
        forall|i: int| 0 <= i < o.len() ==> #[trigger] entries_view(o)[i] == (o[i].0@, json_view(o[i].1)),
    decreases o.len(),
{
    if o.len() > 0 {
        lemma_entries_view(o.drop_last());
        assert forall|i: int| 0 <= i < o.len() implies #[trigger] entries_view(o)[i] == (o[i].0@, json_view(o[i].1)) by {
            if i < o.len() - 1 {
                assert(o.drop_last()[i] == o[i]);
            }
        }
    }
}

/// Why a value could not be written as JSON.
#[derive(Debug)]
pub enum JsonError {
    /// A value of a type JSON has no form for, and coercion was not asked.
    Unsupported(String),
}

impl JsonError {
    /// The message of the error.
    pub fn message(&self) -> (m: &String)
        ensures
            self matches JsonError::Unsupported(x) && m@ == x@,
    {
        match self {
            JsonError::Unsupported(m) => m,
        }
    }
}

/// What `rust_decimal` writes for the decimal `mantissa / 10^scale`.
pub uninterp spec fn decimal_text(mantissa: int, scale: int) -> Seq<char>;

/// `rust_decimal::Decimal::from_i128_with_scale(..).to_string()`: the text
/// of a decimal.
#[verifier::external_body]
pub(crate) fn decimal_to_string(d: Decimal) -> (r: String)
    requires
        decimal_valid(d),
    ensures
        r@ == decimal_text(d.mantissa as int, d.scale as int),
{
    rust_decimal::Decimal::from_i128_with_scale(d.mantissa, d.scale).to_string()
}

/// What the `time` crate writes for a date.
pub uninterp spec fn date_text(year: int, month: int, day: int) -> Seq<char>;

/// What the `time` crate writes for a time of day.
pub uninterp spec fn time_text(hour: int, minute: int, second: int, nanosecond: int) -> Seq<char>;

/// What the `time` crate writes for a UTC offset (in seconds).
pub uninterp spec fn offset_text(offset: int) -> Seq<char>;

/// What the `time` crate writes for a date and time without offset.
pub uninterp spec fn primitive_datetime_text(year: int, month: int, day: int, hour: int, minute: int, second: int, nanosecond: int) -> Seq<char>;

/// What the `time` crate writes for a date and time with an offset.
pub uninterp spec fn offset_datetime_text(year: int, month: int, day: int, hour: int, minute: int, second: int, nanosecond: int, offset: int) -> Seq<char>;

/// `time::Date`'s `Display`, of the date with those calendar fields.
#[verifier::external_body]
fn date_to_string(d: Date) -> (r: String)
    requires
        date_valid(d),
    ensures
        r@ == date_text(d.year as int, d.month as int, d.day as int),
{
    let month = time::Month::try_from(d.month).unwrap();
    time::Date::from_calendar_date(d.year, month, d.day).unwrap().to_string()
}

/// `time::Time`'s `Display`, of the time with those fields.
#[verifier::external_body]
fn time_to_string(t: Time) -> (r: String)
    requires
        time_valid(t),
    ensures
        r@ == time_text(t.hour as int, t.minute as int, t.second as int, t.nanosecond as int),
{
    time::Time::from_hms_nano(t.hour, t.minute, t.second, t.nanosecond).unwrap().to_string()
}

/// `time::UtcOffset`'s `Display`, of the offset of that many seconds.
#[verifier::external_body]
fn offset_to_string(o: i32) -> (r: String)
    requires
        offset_valid(o),
    ensures
        r@ == offset_text(o as int),
{
    time::UtcOffset::from_whole_seconds(o).unwrap().to_string()
}

/// `time::PrimitiveDateTime`'s `Display`, of that date and time.
#[verifier::external_body]
fn primitive_datetime_to_string(d: Date, t: Time) -> (r: String)
    requires
        date_valid(d),
        time_valid(t),
    ensures
        r@ == primitive_datetime_text(d.year as int, d.month as int, d.day as int, t.hour as int, t.minute as int,
            t.second as int, t.nanosecond as int),
{
    let month = time::Month::try_from(d.month).unwrap();
    let date = time::Date::from_calendar_date(d.year, month, d.day).unwrap();
    let time = time::Time::from_hms_nano(t.hour, t.minute, t.second, t.nanosecond).unwrap();
    time::PrimitiveDateTime::new(date, time).to_string()
}

/// `time::OffsetDateTime`'s `Display`, of that date and time at that offset.
#[verifier::external_body]
fn offset_datetime_to_string(d: Date, t: Time, o: i32) -> (r: String)
    requires
        date_valid(d),
        time_valid(t),
        offset_valid(o),
    ensures
        r@ == offset_datetime_text(d.year as int, d.month as int, d.day as int, t.hour as int, t.minute as int,
            t.second as int, t.nanosecond as int, o as int),
{
    let month = time::Month::try_from(d.month).unwrap();
    let date = time::Date::from_calendar_date(d.year, month, d.day).unwrap();
    let time = time::Time::from_hms_nano(t.hour, t.minute, t.second, t.nanosecond).unwrap();
    let offset = time::UtcOffset::from_whole_seconds(o).unwrap();
    time::PrimitiveDateTime::new(date, time).assume_offset(offset).to_string()
}

/// The text of a date-time: the `time` crate's rendering of its parts; a
/// time with an offset is the time followed by the offset.
pub open spec fn datetime_text(dt: DateTime) -> Seq<char> {
    match dt {
        DateTime::Date(d) => date_text(d.year as int, d.month as int, d.day as int),
        DateTime::Time(t) => time_text(t.hour as int, t.minute as int, t.second as int, t.nanosecond as int),
        DateTime::TimeWithTz(t, o) => time_text(t.hour as int, t.minute as int, t.second as int, t.nanosecond as int)
            + offset_text(o as int),
        DateTime::Timestamp(d, t) => primitive_datetime_text(d.year as int, d.month as int, d.day as int,
            t.hour as int, t.minute as int, t.second as int, t.nanosecond as int),
        DateTime::TimestampWithTz(d, t, o) => offset_datetime_text(d.year as int, d.month as int, d.day as int,
            t.hour as int, t.minute as int, t.second as int, t.nanosecond as int, o as int),
    }
}

/// The text of a date-time value.
pub fn datetime_to_string(dt: &DateTime) -> (r: String)
    requires
        datetime_valid(*dt),
    ensures
        r@ == datetime_text(*dt),
{
    match dt {
        DateTime::TimestampWithTz(d, t, o) => offset_datetime_to_string(*d, *t, *o),
        DateTime::Timestamp(d, t) => primitive_datetime_to_string(*d, *t),
        DateTime::Date(d) => date_to_string(*d),
        DateTime::Time(t) => time_to_string(*t),
        DateTime::TimeWithTz(t, o) => {
            let mut s = time_to_string(*t);
            let z = offset_to_string(*o);
            s.append(z.as_str());
            s
        },
    }
}

/// The character of a base64 digit (the standard alphabet).
pub open spec fn base64_char(i: int) -> char {
    if 0 <= i < 26 {
        ('A' as int + i) as char
    } else if 26 <= i < 52 {
        ('a' as int + (i - 26)) as char
    } else if 52 <= i < 62 {
        ('0' as int + (i - 52)) as char
    } else if i == 62 {
        '+'
    } else {
        '/'
    }
}

/// The standard base64 encoding, with `=` padding: every three bytes become
/// four digits of six bits each.
pub open spec fn base64_standard(b: Seq<u8>) -> Seq<char>
    decreases b.len(),
{
    if b.len() == 0 {
        Seq::empty()
    } else {
        let b0 = b[0] as int;
        let b1 = if b.len() > 1 { b[1] as int } else { 0 };
        let b2 = if b.len() > 2 { b[2] as int } else { 0 };
        if b.len() == 1 {
            seq![base64_char(b0 / 4), base64_char((b0 % 4) * 16), '=', '=']
        } else if b.len() == 2 {
            seq![base64_char(b0 / 4), base64_char((b0 % 4) * 16 + b1 / 16), base64_char((b1 % 16) * 4), '=']
        } else {
            seq![base64_char(b0 / 4), base64_char((b0 % 4) * 16 + b1 / 16),
                base64_char((b1 % 16) * 4 + b2 / 64), base64_char(b2 % 64)]
                + base64_standard(b.skip(3))
        }
    }
}

/// `base64`'s standard engine: `STANDARD.encode(bytes)`.
#[verifier::external_body]
fn base64_encode(bytes: &Vec<u8>) -> (r: String)
    ensures
        r@ == base64_standard(bytes@),
{
    base64::Engine::encode(&base64::engine::general_purpose::STANDARD, bytes.as_slice())
}

/// Whether the bits of a double are those of a finite number (an exponent
/// other than all ones).
pub open spec fn is_finite_bits(b: u64) -> bool {
    (b / 0x10_0000_0000_0000) % 0x800 != 0x7ff
}

fn is_finite_exec(b: u64) -> (r: bool)
    ensures
        r == is_finite_bits(b),
{
    (b / 0x10_0000_0000_0000) % 0x800 != 0x7ff
}

/// The message for a value of a type JSON has no form for.
pub open spec fn unsupported_message(kind_name: Seq<char>, hint: Seq<char>) -> Seq<char> {
    "JSON output does not natively support "@ + kind_name + " values; "@ + hint
}

fn unsupported_error(kind_name: &str, hint: &str) -> (e: JsonError)
    ensures
        e matches JsonError::Unsupported(m) && m@ == unsupported_message(kind_name@, hint@),
{
    let mut m = String::from_str("JSON output does not natively support ");
    m.append(kind_name);
    m.append(" values; ");
    m.append(hint);
    proof { assert(m@ =~= unsupported_message(kind_name@, hint@)); }
    JsonError::Unsupported(m)
}

pub open spec fn string_hint() -> Seq<char> {
    "use --coerce-unsupported to represent as string"@
}

pub open spec fn base64_hint() -> Seq<char> {
    "use --coerce-unsupported to represent as a base64 string"@
}

/// The position of the entry with key `k`, from position `i` on.
pub open spec fn key_index(o: Seq<(Seq<char>, JsonV)>, k: Seq<char>, i: int) -> Option<int>
    decreases o.len() - i,
{
    if i < 0 || i >= o.len() {
        None
    } else if o[i].0 == k {
        Some(i)
    } else {
        key_index(o, k, i + 1)
    }
}

/// Inserting into an object: the value of an existing key is replaced,
/// a new key is added at the end.
pub open spec fn obj_insert(o: Seq<(Seq<char>, JsonV)>, k: Seq<char>, j: JsonV) -> Seq<(Seq<char>, JsonV)> {
    match key_index(o, k, 0) {
        Some(i) => o.update(i, (k, j)),
        None => o.push((k, j)),
    }
}

/// The JSON of a value, or the message of the first value that has none.
/// `NULL` and `MISSING` become `null`; a real that is not finite becomes
/// `null`; lists and bags become arrays; a tuple becomes an object of its
/// non-`MISSING` fields, a later field of the same name replacing an
/// earlier one.
pub open spec fn json_of(v: ValueV, coerce: bool) -> Result<JsonV, Seq<char>>
    decreases v,
{
    match v {
        ValueV::Null => Ok(JsonV::Null),
        ValueV::Missing => Ok(JsonV::Null),
        ValueV::Boolean(b) => Ok(JsonV::Bool(b)),
        ValueV::Integer(i) => Ok(JsonV::Number(JsonNumber::Int(i))),
        ValueV::Real(r) => if is_finite_bits(r) { Ok(JsonV::Number(JsonNumber::Float(r))) } else { Ok(JsonV::Null) },
        ValueV::Decimal(d) => if coerce {
            Ok(JsonV::String(decimal_text(d.mantissa as int, d.scale as int)))
        } else {
            Err(unsupported_message("Decimal"@, string_hint()))
        },
        ValueV::String(s) => Ok(JsonV::String(s)),
        ValueV::DateTime(dt) => if coerce {
            Ok(JsonV::String(datetime_text(dt)))
        } else {
            Err(unsupported_message("DateTime"@, string_hint()))
        },
        ValueV::Blob(b) => if coerce {
            Ok(JsonV::String(base64_standard(b)))
        } else {
            Err(unsupported_message("Blob"@, base64_hint()))
        },
        ValueV::List(l) => match json_all(l, coerce) {
            Ok(a) => Ok(JsonV::Array(a)),
            Err(e) => Err(e),
        },
        ValueV::Bag(b) => match json_all(b, coerce) {
            Ok(a) => Ok(JsonV::Array(a)),
            Err(e) => Err(e),
        },
        ValueV::Tuple(t) => match json_pairs(t, coerce) {
            Ok(o) => Ok(JsonV::Object(o)),
            Err(e) => Err(e),
        },
    }
}

/// The JSON of each item, or the message of the first item that has none.
pub open spec fn json_all(l: Seq<ValueV>, coerce: bool) -> Result<Seq<JsonV>, Seq<char>>
    decreases l,
{
    if l.len() == 0 {
        Ok(Seq::empty())
    } else {
        match json_all(l.drop_last(), coerce) {
            Err(e) => Err(e),
            Ok(a) => match json_of(l.last(), coerce) {
                Err(e) => Err(e),
                Ok(j) => Ok(a.push(j)),
            },
        }
    }
}

/// The object of a tuple's fields, in order.
pub open spec fn json_pairs(t: Seq<(Seq<char>, ValueV)>, coerce: bool) -> Result<Seq<(Seq<char>, JsonV)>, Seq<char>>
    decreases t,
{
    if t.len() == 0 {
        Ok(Seq::empty())
    } else {
        match json_pairs(t.drop_last(), coerce) {
            Err(e) => Err(e),
            Ok(o) => if t.last().1 is Missing {
                Ok(o)
            } else {
                match json_of(t.last().1, coerce) {
                    Err(e) => Err(e),
                    Ok(j) => Ok(obj_insert(o, t.last().0, j)),
                }
            },
        }
    }
}

pub open spec fn json_result_view(r: Result<JsonValue, JsonError>) -> Result<JsonV, Seq<char>> {
    match r {
        Ok(j) => Ok(j@),
        Err(JsonError::Unsupported(m)) => Err(m@),
    }
}

fn object_insert(obj: &mut Vec<(String, JsonValue)>, k: String, j: JsonValue)
    ensures
        entries_view(final(obj)@) == obj_insert(entries_view(old(obj)@), k@, j@),
{
    let ghost ov = entries_view(obj@);
    proof { lemma_entries_view(obj@); }
    let mut i: usize = 0;
    while i < obj.len()
        invariant
            i <= obj@.len(),
            obj@ == old(obj)@,
            ov == entries_view(obj@),
            ov.len() == obj@.len(),
            forall|m: int| 0 <= m < obj@.len() ==> #[trigger] ov[m] == (obj@[m].0@, json_view(obj@[m].1)),
            key_index(ov, k@, 0) == key_index(ov, k@, i as int),
        decreases obj@.len() - i,
    {
        if obj[i].0 == k {
            let ghost kv = k@;
            let ghost jv = j@;
            proof { assert(key_index(ov, k@, i as int) == Some(i as int)); }
            obj.set(i, (k, j));
            proof {
                lemma_entries_view(obj@);
                assert(entries_view(obj@) =~= ov.update(i as int, (kv, jv)));
            }
            return;
        }
        i += 1;
    }
    let ghost kv = k@;
    let ghost jv = j@;
    obj.push((k, j));
    proof {
        lemma_entries_view(obj@);
        assert(entries_view(obj@) =~= ov.push((kv, jv)));
    }
}

/// The JSON of a value; refuses a decimal, a date-time or a blob unless
/// `coerce`, when they become strings (a blob in base64).
pub fn value_to_json(value: &Value, coerce: bool) -> (r: Result<JsonValue, JsonError>)
    requires
        value_valid(value@),
    ensures
        json_result_view(r) == json_of(value@, coerce),
    decreases value,
{
    match value {
        Value::Null => Ok(JsonValue::Null),
        Value::Missing => Ok(JsonValue::Null),
        Value::Boolean(b) => Ok(JsonValue::Bool(*b)),
        Value::Integer(i) => Ok(JsonValue::Number(JsonNumber::Int(*i))),
        Value::Real(f) => {
            if is_finite_exec(*f) {
                Ok(JsonValue::Number(JsonNumber::Float(*f)))
            } else {
                Ok(JsonValue::Null)
            }
        },
        Value::Decimal(d) => {
            if coerce {
                Ok(JsonValue::String(decimal_to_string(*d)))
            } else {
                Err(unsupported_error("Decimal", "use --coerce-unsupported to represent as string"))
            }
        },
        Value::String(s) => Ok(JsonValue::String(s.clone())),
        Value::DateTime(dt) => {
            if coerce {
                Ok(JsonValue::String(datetime_to_string(dt)))
            } else {
                Err(unsupported_error("DateTime", "use --coerce-unsupported to represent as string"))
            }
        },
        Value::Blob(b) => {
            if coerce {
                Ok(JsonValue::String(base64_encode(b)))
            } else {
                Err(unsupported_error("Blob", "use --coerce-unsupported to represent as a base64 string"))
            }
        },
        Value::List(l) => match json_array(l, coerce) {
            Ok(a) => Ok(JsonValue::Array(a)),
            Err(e) => Err(e),
        },
        Value::Bag(b) => match json_array(b, coerce) {
            Ok(a) => Ok(JsonValue::Array(a)),
            Err(e) => Err(e),
        },
        Value::Tuple(t) => match json_object(t, coerce) {
            Ok(o) => Ok(JsonValue::Object(o)),
            Err(e) => Err(e),
        },
    }
}

fn json_array(l: &Vec<Value>, coerce: bool) -> (r: Result<Vec<JsonValue>, JsonError>)
    requires
        values_valid(values_view(l@)),
    ensures
        match json_all(values_view(l@), coerce) {
            Ok(a) => r matches Ok(v) && jsons_view(v@) == a,
            Err(e) => r matches Err(JsonError::Unsupported(m)) && m@ == e,
        },
    decreases l,
{
    let ghost lv = values_view(l@);
    proof { lemma_values_view(l@); lemma_values_valid(lv); }
    let mut items: Vec<JsonValue> = Vec::new();
    let mut i: usize = 0;
    proof { assert(lv.take(0) =~= Seq::<ValueV>::empty()); }
    while i < l.len()
        invariant
            i <= l@.len(),
            lv == values_view(l@),
            lv.len() == l@.len(),
            forall|m: int| 0 <= m < l@.len() ==> #[trigger] lv[m] == value_view(l@[m]),
            forall|m: int| 0 <= m < lv.len() ==> value_valid(#[trigger] lv[m]),
            json_all(lv.take(i as int), coerce) == Ok::<Seq<JsonV>, Seq<char>>(jsons_view(items@)),
        decreases l@.len() - i,
    {
        let ghost pre = lv.take(i + 1);
        proof {
            assert(pre.drop_last() =~= lv.take(i as int));
            assert(pre.last() == lv[i as int]);
            assert(value_valid(lv[i as int]));
        }
        match value_to_json(&l[i], coerce) {
            Ok(j) => {
                let ghost old_items = items@;
                items.push(j);
                proof { assert(items@.drop_last() =~= old_items); }
            },
            Err(e) => {
                proof {
                    lemma_json_all_prefix_err(lv, i as int + 1, coerce);
                }
                return Err(e);
            },
        }
        i += 1;
    }
    proof { assert(lv.take(lv.len() as int) =~= lv); }
    Ok(items)
}

/// An error in a prefix of the items is the error of the whole list.
proof fn lemma_json_all_prefix_err(l: Seq<ValueV>, n: int, coerce: bool)
    requires
        0 <= n <= l.len(),
        json_all(l.take(n), coerce) is Err,
    ensures
        json_all(l, coerce) == json_all(l.take(n), coerce),
    decreases l.len() - n,
{
    if n < l.len() {
        let pre = l.take(n + 1);
        assert(pre.drop_last() =~= l.take(n));
        lemma_json_all_prefix_err(l, n + 1, coerce);
    } else {
        assert(l.take(n) =~= l);
    }
}

proof fn lemma_json_pairs_prefix_err(t: Seq<(Seq<char>, ValueV)>, n: int, coerce: bool)
    requires
        0 <= n <= t.len(),
        json_pairs(t.take(n), coerce) is Err,
    ensures
        json_pairs(t, coerce) == json_pairs(t.take(n), coerce),
    decreases t.len() - n,
{
    if n < t.len() {
        let pre = t.take(n + 1);
        assert(pre.drop_last() =~= t.take(n));
        lemma_json_pairs_prefix_err(t, n + 1, coerce);
    } else {
        assert(t.take(n) =~= t);
    }
}

fn json_object(t: &Vec<(String, Value)>, coerce: bool) -> (r: Result<Vec<(String, JsonValue)>, JsonError>)
    requires
        pairs_valid(pairs_view(t@)),
    ensures
        match json_pairs(pairs_view(t@), coerce) {
            Ok(o) => r matches Ok(v) && entries_view(v@) == o,
            Err(e) => r matches Err(JsonError::Unsupported(m)) && m@ == e,
        },
    decreases t,
{
    let ghost tv = pairs_view(t@);
    proof { lemma_pairs_view(t@); lemma_pairs_valid(tv); }
    let mut obj: Vec<(String, JsonValue)> = Vec::new();
    let mut i: usize = 0;
    proof { assert(tv.take(0) =~= Seq::<(Seq<char>, ValueV)>::empty()); assert(entries_view(obj@) =~= Seq::<(Seq<char>, JsonV)>::empty()); }
    while i < t.len()
        invariant
            i <= t@.len(),
            tv == pairs_view(t@),
            tv.len() == t@.len(),
            forall|m: int| 0 <= m < t@.len() ==> #[trigger] tv[m] == (t@[m].0@, value_view(t@[m].1)),
            forall|m: int| 0 <= m < tv.len() ==> value_valid(#[trigger] tv[m].1),
            json_pairs(tv.take(i as int), coerce) == Ok::<Seq<(Seq<char>, JsonV)>, Seq<char>>(entries_view(obj@)),
        decreases t@.len() - i,
    {
        let ghost pre = tv.take(i + 1);
        proof {
            assert(pre.drop_last() =~= tv.take(i as int));
            assert(pre.last() == tv[i as int]);
            assert(value_valid(tv[i as int].1));
        }
        let is_missing = match &t[i].1 {
            Value::Missing => true,
            _ => false,
        };
        if !is_missing {
            match value_to_json(&t[i].1, coerce) {
                Ok(j) => {
                    object_insert(&mut obj, t[i].0.clone(), j);
                },
                Err(e) => {
                    proof {
                        lemma_json_pairs_prefix_err(tv, i as int + 1, coerce);
                    }
                    return Err(e);
                },
            }
        }
        i += 1;
    }
    proof { assert(tv.take(tv.len() as int) =~= tv); }
    Ok(obj)
}

/// With coercion, every value has a JSON form.
pub proof fn lemma_coerce_total(v: ValueV)
    ensures
        json_of(v, true) is Ok,
    decreases v,
{
    match v {
        ValueV::List(l) => lemma_coerce_total_all(l),
        ValueV::Bag(b) => lemma_coerce_total_all(b),
        ValueV::Tuple(t) => lemma_coerce_total_pairs(t),
        _ => {},
    }
}

proof fn lemma_coerce_total_all(l: Seq<ValueV>)
    ensures
        json_all(l, true) is Ok,
    decreases l,
{
    if l.len() > 0 {
        lemma_coerce_total_all(l.drop_last());
        lemma_coerce_total(l.last());
    }
}

proof fn lemma_coerce_total_pairs(t: Seq<(Seq<char>, ValueV)>)
    ensures
        json_pairs(t, true) is Ok,
    decreases t,
{
    if t.len() > 0 {
        lemma_coerce_total_pairs(t.drop_last());
        lemma_coerce_total(t.last().1);
    }
}

/// Whether a decimal, a date-time or a blob occurs in the value.
pub open spec fn has_unsupported(v: ValueV) -> bool
    decreases v,
{
    match v {
        ValueV::Decimal(_) => true,
        ValueV::DateTime(_) => true,
        ValueV::Blob(_) => true,
        ValueV::List(l) => any_unsupported(l),
        ValueV::Bag(b) => any_unsupported(b),
        ValueV::Tuple(t) => any_unsupported_field(t),
        _ => false,
    }
}

pub open spec fn any_unsupported(l: Seq<ValueV>) -> bool
    decreases l,
{
    if l.len() == 0 {
        false
    } else {
        any_unsupported(l.drop_last()) || has_unsupported(l.last())
    }
}

pub open spec fn any_unsupported_field(t: Seq<(Seq<char>, ValueV)>) -> bool
    decreases t,
{
    if t.len() == 0 {
        false
    } else {
        any_unsupported_field(t.drop_last()) || has_unsupported(t.last().1)
    }
}

/// Without coercion, a value has a JSON form exactly when no decimal,
/// date-time or blob occurs in it.
pub proof fn lemma_strict_ok_iff(v: ValueV)
    ensures
        json_of(v, false) is Ok <==> !has_unsupported(v),
    decreases v,
{
    match v {
        ValueV::List(l) => lemma_strict_all(l),
        ValueV::Bag(b) => lemma_strict_all(b),
        ValueV::Tuple(t) => lemma_strict_pairs(t),
        _ => {},
    }
}

proof fn lemma_strict_all(l: Seq<ValueV>)
    ensures
        json_all(l, false) is Ok <==> !any_unsupported(l),
    decreases l,
{
    if l.len() > 0 {
        lemma_strict_all(l.drop_last());
        lemma_strict_ok_iff(l.last());
    }
}

proof fn lemma_strict_pairs(t: Seq<(Seq<char>, ValueV)>)
    ensures
        json_pairs(t, false) is Ok <==> !any_unsupported_field(t),
    decreases t,
{
    if t.len() > 0 {
        lemma_strict_pairs(t.drop_last());
        lemma_strict_ok_iff(t.last().1);
    }
}

/// The keys of an object are distinct.
pub open spec fn keys_distinct(o: Seq<(Seq<char>, JsonV)>) -> bool {
    forall|a: int, b: int| 0 <= a < b < o.len() ==> #[trigger] o[a].0 != #[trigger] o[b].0
}

/// The value of the last field named `k` that is not `MISSING`, if any.
pub open spec fn last_field(t: Seq<(Seq<char>, ValueV)>, k: Seq<char>) -> Option<ValueV>
    decreases t.len(),
{
    if t.len() == 0 {
        None
    } else if t.last().0 == k && !(t.last().1 is Missing) {
        Some(t.last().1)
    } else {
        last_field(t.drop_last(), k)
    }
}

proof fn lemma_key_index_some(o: Seq<(Seq<char>, JsonV)>, k: Seq<char>, i: int)
    requires
        0 <= i,
    ensures
        key_index(o, k, i) matches Some(x) ==> i <= x < o.len() && o[x].0 == k,
        key_index(o, k, i) is None ==> forall|m: int| i <= m < o.len() ==> o[m].0 != k,
    decreases o.len() - i,
{
    if i < o.len() && o[i].0 != k {
        lemma_key_index_some(o, k, i + 1);
    }
}

/// A tuple's JSON object holds each field name once, with the JSON of the
/// last field of that name that is not `MISSING`; names whose fields are
/// all `MISSING` are left out.
pub proof fn lemma_object_last_wins(t: Seq<(Seq<char>, ValueV)>, coerce: bool)
    requires
        json_pairs(t, coerce) is Ok,
    ensures
        keys_distinct(json_pairs(t, coerce)->Ok_0),
        forall|k: Seq<char>| #![trigger last_field(t, k)] match last_field(t, k) {
            None => forall|i: int| 0 <= i < json_pairs(t, coerce)->Ok_0.len() ==> json_pairs(t, coerce)->Ok_0[i].0 != k,
            Some(v) => exists|i: int| 0 <= i < json_pairs(t, coerce)->Ok_0.len() && json_pairs(t, coerce)->Ok_0[i].0 == k
                && json_of(v, coerce) == Ok::<JsonV, Seq<char>>(json_pairs(t, coerce)->Ok_0[i].1),
        },
    decreases t.len(),
{
    if t.len() > 0 {
        let tp = t.drop_last();
        let o = json_pairs(tp, coerce)->Ok_0;
        lemma_object_last_wins(tp, coerce);
        let (k0, v0) = t.last();
        if !(v0 is Missing) {
            let j0 = json_of(v0, coerce)->Ok_0;
            let o2 = obj_insert(o, k0, j0);
            assert(json_pairs(t, coerce)->Ok_0 == o2);
            lemma_key_index_some(o, k0, 0);
            assert(keys_distinct(o2));
            assert forall|k: Seq<char>| #![trigger last_field(t, k)] match last_field(t, k) {
                None => forall|i: int| 0 <= i < o2.len() ==> o2[i].0 != k,
                Some(v) => exists|i: int| 0 <= i < o2.len() && o2[i].0 == k
                    && json_of(v, coerce) == Ok::<JsonV, Seq<char>>(o2[i].1),
            } by {
                if k == k0 {
                    match key_index(o, k0, 0) {
                        Some(x) => { assert(o2[x].0 == k0); },
                        None => { assert(o2[o.len() as int].0 == k0); },
                    }
                } else {
                    assert(last_field(t, k) == last_field(tp, k));
                    match last_field(tp, k) {
                        None => {},
                        Some(v) => {
                            let i = choose|i: int| 0 <= i < o.len() && o[i].0 == k
                                && json_of(v, coerce) == Ok::<JsonV, Seq<char>>(o[i].1);
                            assert(o2[i] == o[i]);
                        },
                    }
                }
            }
        } else {
            assert(json_pairs(t, coerce)->Ok_0 == o);
            assert forall|k: Seq<char>| #![trigger last_field(t, k)] last_field(t, k) == last_field(tp, k) by {}
        }
    }
}


/// The JSON of each dataset's rows, under the dataset's name, in order; or
/// the message of the first row that has none.
pub open spec fn json_datasets(ds: Seq<(Seq<char>, Seq<ValueV>)>, coerce: bool) -> Result<Seq<(Seq<char>, JsonV)>, Seq<char>>
    decreases ds.len(),
{
    if ds.len() == 0 {
        Ok(Seq::empty())
    } else {
        match json_datasets(ds.drop_last(), coerce) {
            Err(e) => Err(e),
            Ok(o) => match json_all(ds.last().1, coerce) {
                Err(e) => Err(e),
                Ok(a) => Ok(o.push((ds.last().0, JsonV::Array(a)))),
            },
        }
    }
}

pub open spec fn datasets_view(ds: Seq<(String, Vec<Value>)>) -> Seq<(Seq<char>, Seq<ValueV>)> {
    ds.map_values(|d: (String, Vec<Value>)| (d.0@, values_view(d.1@)))
}

/// The JSON document of a generation: `{ "seed": .., "start": .., "data":
/// { <dataset>: [rows..], .. } }`, the datasets in order; or the message of
/// the first row that has no JSON.
pub open spec fn json_document(seed: u64, start: Seq<char>, ds: Seq<(Seq<char>, Seq<ValueV>)>, coerce: bool) -> Result<JsonV, Seq<char>> {
    match json_datasets(ds, coerce) {
        Err(e) => Err(e),
        Ok(d) => Ok(JsonV::Object(seq![("seed"@, JsonV::Number(JsonNumber::UInt(seed))),
            ("start"@, JsonV::String(start)), ("data"@, JsonV::Object(d))])),
    }
}

proof fn lemma_json_datasets_prefix_err(ds: Seq<(Seq<char>, Seq<ValueV>)>, n: int, coerce: bool)
    requires
        0 <= n <= ds.len(),
        json_datasets(ds.take(n), coerce) is Err,
    ensures
        json_datasets(ds, coerce) == json_datasets(ds.take(n), coerce),
    decreases ds.len() - n,
{
    if n < ds.len() {
        assert(ds.take(n + 1).drop_last() =~= ds.take(n));
        lemma_json_datasets_prefix_err(ds, n + 1, coerce);
    } else {
        assert(ds.take(n) =~= ds);
    }
}

/// The JSON document of a generation (see `json_document`).
pub fn to_json_document(seed: u64, start: &str, datasets: &Vec<(String, Vec<Value>)>, coerce: bool)
    -> (r: Result<JsonValue, JsonError>)
    requires
        forall|i: int| 0 <= i < datasets@.len() ==> values_valid(values_view(#[trigger] datasets@[i].1@)),
    ensures
        json_result_view(r) == json_document(seed, start@, datasets_view(datasets@), coerce),
{
    let ghost dv = datasets_view(datasets@);
    let mut data: Vec<(String, JsonValue)> = Vec::new();
    let mut i: usize = 0;
    proof { assert(dv.take(0) =~= Seq::<(Seq<char>, Seq<ValueV>)>::empty()); }
    while i < datasets.len()
        invariant
            i <= datasets@.len(),
            dv == datasets_view(datasets@),
            forall|k: int| 0 <= k < datasets@.len() ==> values_valid(values_view(#[trigger] datasets@[k].1@)),
            json_datasets(dv.take(i as int), coerce) == Ok::<Seq<(Seq<char>, JsonV)>, Seq<char>>(entries_view(data@)),
        decreases datasets@.len() - i,
    {
        let ghost pre = dv.take(i + 1);
        proof {
            assert(pre.drop_last() =~= dv.take(i as int));
            assert(pre.last() == dv[i as int]);
            assert(values_valid(values_view(datasets@[i as int].1@)));
        }
        match json_array(&datasets[i].1, coerce) {
            Ok(rows) => {
                let ghost old_data = data@;
                let ghost rv = jsons_view(rows@);
                data.push((datasets[i].0.clone(), JsonValue::Array(rows)));
                proof {
                    assert(data@.drop_last() =~= old_data);
                    lemma_entries_view(data@);
                    lemma_entries_view(old_data);
                    assert(entries_view(data@) =~= entries_view(old_data).push((dv[i as int].0, JsonV::Array(rv))));
                }
            },
            Err(e) => {
                proof { lemma_json_datasets_prefix_err(dv, i as int + 1, coerce); }
                return Err(e);
            },
        }
        i += 1;
    }
    proof { assert(dv.take(dv.len() as int) =~= dv); }
    let mut root: Vec<(String, JsonValue)> = Vec::new();
    root.push((String::from_str("seed"), JsonValue::Number(JsonNumber::UInt(seed))));
    root.push((String::from_str("start"), JsonValue::String(start.to_owned())));
    let ghost dd = entries_view(data@);
    root.push((String::from_str("data"), JsonValue::Object(data)));
    proof {
        lemma_entries_view(root@);
        assert(entries_view(root@) =~= seq![("seed"@, JsonV::Number(JsonNumber::UInt(seed))),
            ("start"@, JsonV::String(start@)), ("data"@, JsonV::Object(dd))]);
    }
    Ok(JsonValue::Object(root))
}

/// The JSON of a scalar keeps its value, with or without coercion: a
/// boolean stays the same truth value, an integer the same number, a string
/// the same text, and null and missing become JSON null.
pub proof fn lemma_json_keeps_scalars(v: ValueV, coerce: bool)
    ensures
        v matches ValueV::Boolean(b) ==> json_of(v, coerce) == Ok::<JsonV, Seq<char>>(JsonV::Bool(b)),
        v matches ValueV::Integer(i) ==> json_of(v, coerce) == Ok::<JsonV, Seq<char>>(
            JsonV::Number(JsonNumber::Int(i))),
        v matches ValueV::String(s) ==> json_of(v, coerce) == Ok::<JsonV, Seq<char>>(JsonV::String(s)),
        (v is Null || v is Missing) ==> json_of(v, coerce) == Ok::<JsonV, Seq<char>>(JsonV::Null),
        json_of(ValueV::Boolean(true), coerce) != json_of(ValueV::Boolean(false), coerce),
{
}

} // verus!
