//! The PartiQL values the simulator generates: scalars, date-times,
//! collections and tuples.
use vstd::prelude::*;

verus! {

/// An exact decimal: `mantissa / 10^scale`.
#[derive(PartialEq, Eq, Structural, Clone, Copy, Debug)]
pub struct Decimal {
    pub mantissa: i128,
    pub scale: u32,
}

/// The decimals `rust_decimal` represents: a mantissa of at most 96 bits
/// and a scale of at most 28.
pub open spec fn decimal_valid(d: Decimal) -> bool {
    -0xffff_ffff_ffff_ffff_ffff_ffff <= d.mantissa <= 0xffff_ffff_ffff_ffff_ffff_ffff && d.scale <= 28
}

/// A calendar date.
#[derive(PartialEq, Eq, Structural, Clone, Copy, Debug)]
pub struct Date {
    pub year: i32,
    pub month: u8,
    pub day: u8,
}

/// A time of day.
#[derive(PartialEq, Eq, Structural, Clone, Copy, Debug)]
pub struct Time {
    pub hour: u8,
    pub minute: u8,
    pub second: u8,
    pub nanosecond: u32,
}

/// A date and time value, with or without an offset from UTC (in seconds).
#[derive(PartialEq, Eq, Structural, Clone, Copy, Debug)]
pub enum DateTime {
    Date(Date),
    Time(Time),
    TimeWithTz(Time, i32),
    Timestamp(Date, Time),
    TimestampWithTz(Date, Time, i32),
}

pub open spec fn is_leap_year(y: int) -> bool {
    (y % 4 == 0 && y % 100 != 0) || y % 400 == 0
}

pub open spec fn days_in_month(y: int, m: int) -> int {
    if m == 2 {
        if is_leap_year(y) { 29 } else { 28 }
    } else if m == 4 || m == 6 || m == 9 || m == 11 {
        30
    } else {
        31
    }
}

/// The dates the `time` crate represents: years -9999 to 9999.
pub open spec fn date_valid(d: Date) -> bool {
    -9999 <= d.year <= 9999 && 1 <= d.month <= 12 && 1 <= d.day <= days_in_month(d.year as int, d.month as int)
}

pub open spec fn time_valid(t: Time) -> bool {
    t.hour < 24 && t.minute < 60 && t.second < 60 && t.nanosecond < 1_000_000_000
}

/// Offsets of at most 25:59:59 either way.
pub open spec fn offset_valid(o: i32) -> bool {
    -93599 <= o <= 93599
}

pub open spec fn datetime_valid(dt: DateTime) -> bool {
    match dt {
        DateTime::Date(d) => date_valid(d),
        DateTime::Time(t) => time_valid(t),
        DateTime::TimeWithTz(t, o) => time_valid(t) && offset_valid(o),
        DateTime::Timestamp(d, t) => date_valid(d) && time_valid(t),
        DateTime::TimestampWithTz(d, t, o) => date_valid(d) && time_valid(t) && offset_valid(o),
    }
}

/// A PartiQL value. Reals are held as the bits of their IEEE 754 double.
#[derive(Debug)]
pub enum Value {
    Null,
    Missing,
    Boolean(bool),
    Integer(i64),
    Real(u64),
    Decimal(Decimal),
    String(String),
    Blob(Vec<u8>),
    DateTime(DateTime),
    List(Vec<Value>),
    Bag(Vec<Value>),
    Tuple(Vec<(String, Value)>),
}

/// The model of a value: collections are sequences.
pub enum ValueV {
    Null,
    Missing,
    Boolean(bool),
    Integer(i64),
    Real(u64),
    Decimal(Decimal),
    String(Seq<char>),
    Blob(Seq<u8>),
    DateTime(DateTime),
    List(Seq<ValueV>),
    Bag(Seq<ValueV>),
    Tuple(Seq<(Seq<char>, ValueV)>),
}

pub open spec fn value_view(v: Value) -> ValueV
    decreases v,
{
    match v {
        Value::Null => ValueV::Null,
        Value::Missing => ValueV::Missing,
        Value::Boolean(b) => ValueV::Boolean(b),
        Value::Integer(i) => ValueV::Integer(i),
        Value::Real(r) => ValueV::Real(r),
        Value::Decimal(d) => ValueV::Decimal(d),
        Value::String(s) => ValueV::String(s@),
        Value::Blob(b) => ValueV::Blob(b@),
        Value::DateTime(dt) => ValueV::DateTime(dt),
        Value::List(l) => ValueV::List(values_view(l@)),
        Value::Bag(b) => ValueV::Bag(values_view(b@)),
        Value::Tuple(t) => ValueV::Tuple(pairs_view(t@)),
    }
}

pub open spec fn values_view(v: Seq<Value>) -> Seq<ValueV>
    decreases v,
{
    if v.len() == 0 {
        Seq::empty()
    } else {
        values_view(v.drop_last()).push(value_view(v.last()))
    }
}

pub open spec fn pairs_view(t: Seq<(String, Value)>) -> Seq<(Seq<char>, ValueV)>
    decreases t,
{
    if t.len() == 0 {
        Seq::empty()
    } else {
        pairs_view(t.drop_last()).push((t.last().0@, value_view(t.last().1)))
    }
}

impl View for Value {
    type V = ValueV;

    open spec fn view(&self) -> ValueV {
        value_view(*self)
    }
}

pub proof fn lemma_values_view(v: Seq<Value>)
    ensures
        values_view(v).len() == v.len(),
        forall|i: int| 0 <= i < v.len() ==> #[trigger] values_view(v)[i] == value_view(v[i]),
    decreases v.len(),
{
    if v.len() > 0 {
        lemma_values_view(v.drop_last());
        assert forall|i: int| 0 <= i < v.len() implies #[trigger] values_view(v)[i] == value_view(v[i]) by {
            if i < v.len() - 1 {
                assert(v.drop_last()[i] == v[i]);
            }
        }
    }
}

pub proof fn lemma_pairs_view(t: Seq<(String, Value)>)
    ensures
        pairs_view(t).len() == t.len(),
        forall|i: int| 0 <= i < t.len() ==> #[trigger] pairs_view(t)[i] == (t[i].0@, value_view(t[i].1)),
    decreases t.len(),
{
    if t.len() > 0 {
        lemma_pairs_view(t.drop_last());
        assert forall|i: int| 0 <= i < t.len() implies #[trigger] pairs_view(t)[i] == (t[i].0@, value_view(t[i].1)) by {
            if i < t.len() - 1 {
                assert(t.drop_last()[i] == t[i]);
            }
        }
    }
}

/// Every decimal and date-time inside the value is one the outside crates
/// represent.
pub open spec fn value_valid(v: ValueV) -> bool
    decreases v,
{
    match v {
        ValueV::Decimal(d) => decimal_valid(d),
        ValueV::DateTime(dt) => datetime_valid(dt),
        ValueV::List(l) => values_valid(l),
        ValueV::Bag(b) => values_valid(b),
        ValueV::Tuple(t) => pairs_valid(t),
        _ => true,
    }
}

pub open spec fn values_valid(v: Seq<ValueV>) -> bool
    decreases v,
{
    if v.len() == 0 {
        true
    } else {
        values_valid(v.drop_last()) && value_valid(v.last())
    }
}

pub open spec fn pairs_valid(t: Seq<(Seq<char>, ValueV)>) -> bool
    decreases t,
{
    if t.len() == 0 {
        true
    } else {
        pairs_valid(t.drop_last()) && value_valid(t.last().1)
    }
}

pub proof fn lemma_values_valid(v: Seq<ValueV>)
    requires
        values_valid(v),
    ensures
        forall|i: int| 0 <= i < v.len() ==> value_valid(#[trigger] v[i]),
    decreases v.len(),
{
    if v.len() > 0 {
        lemma_values_valid(v.drop_last());
        assert forall|i: int| 0 <= i < v.len() implies value_valid(#[trigger] v[i]) by {
            if i < v.len() - 1 {
                assert(v.drop_last()[i] == v[i]);
            }
        }
    }
}

pub proof fn lemma_pairs_valid(t: Seq<(Seq<char>, ValueV)>)
    requires
        pairs_valid(t),
    ensures
        forall|i: int| 0 <= i < t.len() ==> value_valid(#[trigger] t[i].1),
    decreases t.len(),
{
    if t.len() > 0 {
        lemma_pairs_valid(t.drop_last());
        assert forall|i: int| 0 <= i < t.len() implies value_valid(#[trigger] t[i].1) by {
            if i < t.len() - 1 {
                assert(t.drop_last()[i] == t[i]);
            }
        }
    }
}


/// A copy of the value.
pub fn clone_value(v: &Value) -> (r: Value)
    ensures
        r@ == v@,
    decreases v,
{
    match v {
        Value::Null => Value::Null,
        Value::Missing => Value::Missing,
        Value::Boolean(b) => Value::Boolean(*b),
        Value::Integer(i) => Value::Integer(*i),
        Value::Real(f) => Value::Real(*f),
        Value::Decimal(d) => Value::Decimal(*d),
        Value::String(s) => Value::String(s.clone()),
        Value::Blob(b) => Value::Blob(clone_bytes(b)),
        Value::DateTime(dt) => Value::DateTime(*dt),
        Value::List(l) => Value::List(clone_values(l)),
        Value::Bag(b) => Value::Bag(clone_values(b)),
        Value::Tuple(t) => Value::Tuple(clone_pairs(t)),
    }
}

fn clone_bytes(b: &Vec<u8>) -> (r: Vec<u8>)
    ensures
        r@ == b@,
{
    let mut out: Vec<u8> = Vec::new();
    let mut i: usize = 0;
    while i < b.len()
        invariant
            i <= b@.len(),
            out@ == b@.take(i as int),
        decreases b@.len() - i,
    {
        out.push(b[i]);
        proof { assert(out@ =~= b@.take(i + 1)); }
        i += 1;
    }
    proof { assert(b@.take(b@.len() as int) =~= b@); }
    out
}

/// A copy of the values.
pub fn clone_values(l: &Vec<Value>) -> (r: Vec<Value>)
    ensures
        values_view(r@) == values_view(l@),
    decreases l,
{
    let mut out: Vec<Value> = Vec::new();
    let mut i: usize = 0;
    while i < l.len()
        invariant
            i <= l@.len(),
            out@.len() == i,
            forall|j: int| 0 <= j < i ==> #[trigger] value_view(out@[j]) == value_view(l@[j]),
        decreases l@.len() - i,
    {
        let c = clone_value(&l[i]);
        out.push(c);
        i += 1;
    }
    proof {
        lemma_values_view(out@);
        lemma_values_view(l@);
        assert(values_view(out@) =~= values_view(l@));
    }
    out
}

fn clone_pairs(t: &Vec<(String, Value)>) -> (r: Vec<(String, Value)>)
    ensures
        pairs_view(r@) == pairs_view(t@),
    decreases t,
{
    let mut out: Vec<(String, Value)> = Vec::new();
    let mut i: usize = 0;
    while i < t.len()
        invariant
            i <= t@.len(),
            out@.len() == i,
            forall|j: int| 0 <= j < i ==> #[trigger] out@[j].0@ == t@[j].0@ && value_view(out@[j].1) == value_view(t@[j].1),
        decreases t@.len() - i,
    {
        let c = clone_value(&t[i].1);
        out.push((t[i].0.clone(), c));
        i += 1;
    }
    proof {
        lemma_pairs_view(out@);
        lemma_pairs_view(t@);
        assert(pairs_view(out@) =~= pairs_view(t@));
    }
    out
}

} // verus!
