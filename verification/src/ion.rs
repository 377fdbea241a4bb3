//! Ion output as a sequence of writer events: the encoders of this crate
//! describe the Ion stream they produce, event by event (the calls an Ion
//! writer would receive), with the checks of type constraints that values
//! must pass before they are written.
use vstd::prelude::*;

verus! {

/// The kinds of Ion containers.
#[derive(PartialEq, Eq, Structural, Clone, Copy, Debug)]
pub enum IonContainer {
    List,
    SExp,
    Struct,
}

/// An Ion decimal: `coefficient * 10^exponent`.
#[derive(PartialEq, Eq, Structural, Clone, Copy, Debug)]
pub struct IonDecimal {
    pub coefficient: i64,
    pub exponent: i64,
}

/// `ion_rs::Decimal::new(coefficient, exponent).precision()`: the digits of
/// the coefficient, plus the exponent when it is positive, as `ion_rs`
/// counts them. It counts the coefficient's digits through a floating-point
/// base-10 logarithm, whose rounding std leaves open, so nothing is stated of
/// the count; the checks that use it take it as an argument.
#[verifier::external_body]
fn decimal_precision(d: IonDecimal) -> u64 {
    ion_rs::Decimal::new(d.coefficient, d.exponent).precision()
}

/// Whether the decimal, of which `counted` digits were counted, has more
/// digits than the precision a type allows.
pub open spec fn precision_exceeded(counted: int, precision: Option<u64>) -> bool {
    match precision {
        Some(p) => p < counted,
        None => false,
    }
}

/// The message of the first constraint of a type that a decimal, of which
/// `counted` digits were counted, breaks: the precision, then the exponent.
pub open spec fn decimal_violation(value: IonDecimal, counted: int, precision: Option<u64>, exponent: Option<i64>)
    -> Option<Seq<char>> {
    if precision_exceeded(counted, precision) {
        Some("Decimal value precision exceeded the type's precision constraint"@)
    } else if exponent_exceeded(value, exponent) {
        Some("Decimal value exponent exceeded the type's exponent constraint"@)
    } else {
        None
    }
}

/// Whether the decimal has more digits after the point than a type's
/// exponent allows.
pub open spec fn exponent_exceeded(value: IonDecimal, exponent: Option<i64>) -> bool {
    match exponent {
        Some(e) => -e < -value.exponent,
        None => false,
    }
}

/// One call on an Ion writer.
#[derive(Debug)]
pub enum IonEvent {
    /// Annotations for the next value.
    Annotate(Vec<String>),
    /// The field name of the next value inside a struct.
    FieldName(String),
    Bool(bool),
    Int(i64),
    Decimal(IonDecimal),
    String(String),
    Symbol(String),
    Blob(Vec<u8>),
    Clob(Vec<u8>),
    /// The Ion value that this Ion text holds.
    IonText(String),
    StepIn(IonContainer),
    StepOut,
}

/// An event as plain values.
pub enum IonEventV {
    Annotate(Seq<Seq<char>>),
    FieldName(Seq<char>),
    Bool(bool),
    Int(i64),
    Decimal(IonDecimal),
    String(Seq<char>),
    Symbol(Seq<char>),
    Blob(Seq<u8>),
    Clob(Seq<u8>),
    IonText(Seq<char>),
    StepIn(IonContainer),
    StepOut,
}

pub open spec fn texts_view(v: Seq<String>) -> Seq<Seq<char>> {
    v.map_values(|s: String| s@)
}

impl View for IonEvent {
    type V = IonEventV;

    open spec fn view(&self) -> IonEventV {
        match self {
            IonEvent::Annotate(a) => IonEventV::Annotate(texts_view(a@)),
            IonEvent::FieldName(s) => IonEventV::FieldName(s@),
            IonEvent::Bool(b) => IonEventV::Bool(*b),
            IonEvent::Int(i) => IonEventV::Int(*i),
            IonEvent::Decimal(d) => IonEventV::Decimal(*d),
            IonEvent::String(s) => IonEventV::String(s@),
            IonEvent::Symbol(s) => IonEventV::Symbol(s@),
            IonEvent::Blob(b) => IonEventV::Blob(b@),
            IonEvent::Clob(b) => IonEventV::Clob(b@),
            IonEvent::IonText(s) => IonEventV::IonText(s@),
            IonEvent::StepIn(k) => IonEventV::StepIn(*k),
            IonEvent::StepOut => IonEventV::StepOut,
        }
    }
}

pub open spec fn events_view(v: Seq<IonEvent>) -> Seq<IonEventV> {
    v.map_values(|e: IonEvent| e@)
}

/// The depth of nesting after the events, starting at depth `d`; `-1` once
/// a container is closed that was not open.
pub open spec fn settle(evs: Seq<IonEventV>, d: int) -> int
    decreases evs.len(),
{
    if d < 0 {
        -1
    } else if evs.len() == 0 {
        d
    } else {
        let d2 = match evs[0] {
            IonEventV::StepIn(_) => d + 1,
            IonEventV::StepOut => d - 1,
            _ => d,
        };
        settle(evs.drop_first(), d2)
    }
}

/// Every container the events open, they close, and they close none that
/// they did not open.
pub open spec fn balanced(evs: Seq<IonEventV>) -> bool {
    settle(evs, 0) == 0
}

pub proof fn lemma_settle_concat(a: Seq<IonEventV>, b: Seq<IonEventV>, d: int)
    ensures
        settle(a + b, d) == settle(b, settle(a, d)),
    decreases a.len(),
{
    if d < 0 {
        assert(settle(b, -1) == -1) by { lemma_settle_negative(b, -1); }
        assert(settle(a, d) == -1);
        lemma_settle_negative(a + b, d);
    } else if a.len() == 0 {
        assert(a + b =~= b);
    } else {
        assert((a + b).drop_first() =~= a.drop_first() + b);
        let d2 = match a[0] {
            IonEventV::StepIn(_) => d + 1,
            IonEventV::StepOut => d - 1,
            _ => d,
        };
        lemma_settle_concat(a.drop_first(), b, d2);
    }
}

pub proof fn lemma_settle_negative(a: Seq<IonEventV>, d: int)
    requires
        d < 0,
    ensures
        settle(a, d) == -1,
{
}

pub proof fn lemma_settle_shift(a: Seq<IonEventV>, d: int)
    requires
        balanced(a),
        d >= 0,
    ensures
        settle(a, d) == d,
    decreases a.len(),
{
    lemma_settle_shift_gen(a, 0, d);
}

proof fn lemma_settle_shift_gen(a: Seq<IonEventV>, c: int, d: int)
    requires
        c >= 0,
        d >= 0,
        settle(a, c) >= 0,
    ensures
        settle(a, c + d) == settle(a, c) + d,
    decreases a.len(),
{
    if a.len() > 0 {
        let c2 = match a[0] {
            IonEventV::StepIn(_) => c + 1,
            IonEventV::StepOut => c - 1,
            _ => c,
        };
        if c2 >= 0 {
            lemma_settle_shift_gen(a.drop_first(), c2, d);
        } else {
            lemma_settle_negative(a.drop_first(), c2);
        }
    }
}

/// Balanced sequences stay balanced when joined.
pub proof fn lemma_balanced_concat(a: Seq<IonEventV>, b: Seq<IonEventV>)
    requires
        balanced(a),
        balanced(b),
    ensures
        balanced(a + b),
{
    lemma_settle_concat(a, b, 0);
}

/// A balanced sequence stays balanced inside a container.
pub proof fn lemma_balanced_wrap(k: IonContainer, a: Seq<IonEventV>)
    requires
        balanced(a),
    ensures
        balanced(seq![IonEventV::StepIn(k)] + a + seq![IonEventV::StepOut]),
{
    let open = seq![IonEventV::StepIn(k)];
    let close = seq![IonEventV::StepOut];
    lemma_settle_concat(open + a, close, 0);
    lemma_settle_concat(open, a, 0);
    assert(settle(open, 0) == 1) by {
        assert(open.drop_first() =~= Seq::<IonEventV>::empty());
        assert(settle(open.drop_first(), 1) == 1);
    }
    lemma_settle_shift(a, 1);
    assert(settle(close, 1) == 0) by {
        assert(close.drop_first() =~= Seq::<IonEventV>::empty());
        assert(settle(close.drop_first(), 0) == 0);
    }
}

/// Events that open and close no container are balanced.
pub open spec fn flat(evs: Seq<IonEventV>) -> bool {
    forall|i: int| 0 <= i < evs.len() ==> !(#[trigger] evs[i] is StepIn) && !(evs[i] is StepOut)
}

pub proof fn lemma_flat_balanced(evs: Seq<IonEventV>)
    requires
        flat(evs),
    ensures
        balanced(evs),
{
    lemma_flat_settle(evs, 0);
}

proof fn lemma_flat_settle(evs: Seq<IonEventV>, d: int)
    requires
        flat(evs),
        d >= 0,
    ensures
        settle(evs, d) == d,
    decreases evs.len(),
{
    if evs.len() > 0 {
        assert(!(evs[0] is StepIn) && !(evs[0] is StepOut));
        assert forall|i: int| 0 <= i < evs.drop_first().len() implies
            !(#[trigger] evs.drop_first()[i] is StepIn) && !(evs.drop_first()[i] is StepOut) by {
            assert(evs.drop_first()[i] == evs[i + 1]);
        }
        lemma_flat_settle(evs.drop_first(), d);
    }
}

/// Errors of the Ion runtime.
#[derive(Debug)]
pub enum RidlError {
    /// The Ion reader failed, most likely on malformed Ion; its message.
    Ion(String),
    /// A value could not be read.
    ReadError(String),
    /// A value breaks a constraint of its type.
    WriteError(String),
}

/// Whether a write gave what a check's outcome calls for: success where no
/// constraint is broken, else the write error of the broken one.
pub open spec fn write_outcome(r: Result<(), RidlError>, violation: Option<Seq<char>>) -> bool {
    match violation {
        None => r is Ok,
        Some(m) => r matches Err(RidlError::WriteError(t)) && t@ == m,
    }
}

/// The message of the first constraint of a type that a decimal breaks,
/// given the digits counted in it.
fn violation_text(value: IonDecimal, counted: u64, precision: Option<u64>, exponent: Option<i64>) -> (r: Option<String>)
    requires
        value.exponent > i64::MIN,
        exponent matches Some(e) ==> e > i64::MIN,
    ensures
        match r {
            None => decimal_violation(value, counted as int, precision, exponent) is None,
            Some(m) => decimal_violation(value, counted as int, precision, exponent) == Some(m@),
        },
{
    if let Some(p) = precision {
        if p < counted {
            return Some(String::from_str("Decimal value precision exceeded the type's precision constraint"));
        }
    }
    if let Some(e) = exponent {
        if -e < -value.exponent {
            return Some(String::from_str("Decimal value exponent exceeded the type's exponent constraint"));
        }
    }
    None
}

/// Checks a decimal to be written against a type's constraints, given the
/// digits counted in it: success, or the write error of the first broken
/// constraint.
pub fn check_write_decimal(value: IonDecimal, counted: u64, precision: Option<u64>, exponent: Option<i64>)
    -> (r: Result<(), RidlError>)
    requires
        value.exponent > i64::MIN,
        exponent matches Some(e) ==> e > i64::MIN,
    ensures
        r is Ok <==> !precision_exceeded(counted as int, precision) && !exponent_exceeded(value, exponent),
        write_outcome(r, decimal_violation(value, counted as int, precision, exponent)),
{
    match violation_text(value, counted, precision, exponent) {
        None => Ok(()),
        Some(m) => Err(RidlError::WriteError(m)),
    }
}

/// Records the Ion writer calls of an encoder, with the checks of the
/// type constraints that values must meet.
#[derive(Debug)]
pub struct RidlWriter {
    pub events: Vec<IonEvent>,
}

impl RidlWriter {
    /// A writer that has recorded nothing.
    pub fn new() -> (w: Self)
        ensures
            w.events@.len() == 0,
    {
        RidlWriter { events: Vec::new() }
    }

    fn emit(&mut self, e: IonEvent)
        ensures
            events_view(final(self).events@) == events_view(old(self).events@).push(e@),
    {
        let ghost before = events_view(self.events@);
        self.events.push(e);
        proof { assert(events_view(self.events@) =~= before.push(e@)); }
    }

    /// Annotates the next value with the one tag.
    pub fn set_tag(&mut self, tag: &str)
        ensures
            events_view(final(self).events@) == events_view(old(self).events@).push(IonEventV::Annotate(seq![tag@])),
    {
        let mut annotations: Vec<String> = Vec::new();
        annotations.push(String::from_str(tag));
        proof { assert(texts_view(annotations@) =~= seq![tag@]); }
        self.emit(IonEvent::Annotate(annotations));
    }

    /// Names the next value inside a struct.
    pub fn set_field_name(&mut self, field: &str)
        ensures
            events_view(final(self).events@) == events_view(old(self).events@).push(IonEventV::FieldName(field@)),
    {
        self.emit(IonEvent::FieldName(String::from_str(field)));
    }

    pub fn write_bool(&mut self, value: bool) -> (r: Result<(), RidlError>)
        ensures
            r is Ok,
            events_view(final(self).events@) == events_view(old(self).events@).push(IonEventV::Bool(value)),
    {
        self.emit(IonEvent::Bool(value));
        Ok(())
    }

    pub fn write_int(&mut self, value: i64) -> (r: Result<(), RidlError>)
        ensures
            r is Ok,
            events_view(final(self).events@) == events_view(old(self).events@).push(IonEventV::Int(value)),
    {
        self.emit(IonEvent::Int(value));
        Ok(())
    }

    /// Writes a decimal; it may have no more digits than the precision the
    /// type allows, as `ion_rs` counts them, nor more digits after the point
    /// than its exponent allows (the negated exponent), where the type sets
    /// them.
    pub fn write_decimal(&mut self, value: IonDecimal, precision: Option<u64>, exponent: Option<i64>) -> (r: Result<(), RidlError>)
        requires
            value.exponent > i64::MIN,
            exponent matches Some(e) ==> e > i64::MIN,
        ensures
            exists|counted: int| #[trigger] write_outcome(r, decimal_violation(value, counted, precision, exponent)),
            precision is None ==> (r is Ok <==> !exponent_exceeded(value, exponent)),
            r is Ok ==> events_view(final(self).events@) == events_view(old(self).events@).push(IonEventV::Decimal(value)),
            r is Err ==> final(self).events@ == old(self).events@,
    {
        let counted: u64 = match precision {
            Some(_) => decimal_precision(value),
            None => 0,
        };
        let checked = check_write_decimal(value, counted, precision, exponent);
        match checked {
            Ok(()) => {
                self.emit(IonEvent::Decimal(value));
                proof { assert(write_outcome(Ok(()), decimal_violation(value, counted as int, precision, exponent))); }
                Ok(())
            },
            Err(e) => {
                proof { assert(write_outcome(Err(e), decimal_violation(value, counted as int, precision, exponent))); }
                Err(e)
            },
        }
    }

    pub fn write_string(&mut self, value: &str) -> (r: Result<(), RidlError>)
        ensures
            r is Ok,
            events_view(final(self).events@) == events_view(old(self).events@).push(IonEventV::String(value@)),
    {
        self.emit(IonEvent::String(String::from_str(value)));
        Ok(())
    }

    pub fn write_symbol(&mut self, value: &str) -> (r: Result<(), RidlError>)
        ensures
            r is Ok,
            events_view(final(self).events@) == events_view(old(self).events@).push(IonEventV::Symbol(value@)),
    {
        self.emit(IonEvent::Symbol(String::from_str(value)));
        Ok(())
    }

    /// Writes a blob; its length must be the size the type requires, when
    /// it requires one.
    pub fn write_blob(&mut self, value: &Vec<u8>, size: Option<u64>) -> (r: Result<(), RidlError>)
        ensures
            r is Ok <==> (size matches Some(n) ==> n == value@.len()),
            r is Ok ==> events_view(final(self).events@) == events_view(old(self).events@).push(IonEventV::Blob(value@)),
            r matches Err(e) ==> e matches RidlError::WriteError(m) && m@ == "Blob size does not match type size constraint"@
                && final(self).events@ == old(self).events@,
    {
        if let Some(n) = size {
            if n as u128 != value.len() as u128 {
                return Err(RidlError::WriteError(String::from_str("Blob size does not match type size constraint")));
            }
        }
        self.emit(IonEvent::Blob(value.clone()));
        Ok(())
    }

    /// Writes a clob; its length must be the size the type requires, when
    /// it requires one.
    pub fn write_clob(&mut self, value: &Vec<u8>, size: Option<u64>) -> (r: Result<(), RidlError>)
        ensures
            r is Ok <==> (size matches Some(n) ==> n == value@.len()),
            r is Ok ==> events_view(final(self).events@) == events_view(old(self).events@).push(IonEventV::Clob(value@)),
            r matches Err(e) ==> e matches RidlError::WriteError(m) && m@ == "Clob size does not match type size constraint"@
                && final(self).events@ == old(self).events@,
    {
        if let Some(n) = size {
            if n as u128 != value.len() as u128 {
                return Err(RidlError::WriteError(String::from_str("Clob size does not match type size constraint")));
            }
        }
        self.emit(IonEvent::Clob(value.clone()));
        Ok(())
    }

    /// Opens a list for an array of `len` items; the length must be the size
    /// the type requires, when it requires one (the list is opened either
    /// way).
    pub fn write_array_start(&mut self, len: usize, size: Option<usize>) -> (r: Result<(), RidlError>)
        ensures
            events_view(final(self).events@) == events_view(old(self).events@).push(IonEventV::StepIn(IonContainer::List)),
            r is Ok <==> (size matches Some(n) ==> n == len),
            r matches Err(e) ==> e matches RidlError::WriteError(m) && m@ == "Vec size does not match array size constraint"@,
    {
        self.emit(IonEvent::StepIn(IonContainer::List));
        if let Some(n) = size {
            if n != len {
                return Err(RidlError::WriteError(String::from_str("Vec size does not match array size constraint")));
            }
        }
        Ok(())
    }

    /// Closes the list of an array.
    pub fn write_array_end(&mut self) -> (r: Result<(), RidlError>)
        ensures
            r is Ok,
            events_view(final(self).events@) == events_view(old(self).events@).push(IonEventV::StepOut),
    {
        self.step_out()
    }

    /// Writes the Ion value that an Ion text holds.
    pub fn write_ion_text(&mut self, text: &str) -> (r: Result<(), RidlError>)
        ensures
            r is Ok,
            events_view(final(self).events@) == events_view(old(self).events@).push(IonEventV::IonText(text@)),
    {
        self.emit(IonEvent::IonText(String::from_str(text)));
        Ok(())
    }

    pub fn step_in(&mut self, kind: IonContainer) -> (r: Result<(), RidlError>)
        ensures
            r is Ok,
            events_view(final(self).events@) == events_view(old(self).events@).push(IonEventV::StepIn(kind)),
    {
        self.emit(IonEvent::StepIn(kind));
        Ok(())
    }

    pub fn step_out(&mut self) -> (r: Result<(), RidlError>)
        ensures
            r is Ok,
            events_view(final(self).events@) == events_view(old(self).events@).push(IonEventV::StepOut),
    {
        self.emit(IonEvent::StepOut);
        Ok(())
    }
}

} // verus!
