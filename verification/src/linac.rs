//! The Linac shape model and its Ion encodings: a text encoding with
//! annotated structs, and a packed encoding of s-expressions led by the
//! variant's number.
use vstd::prelude::*;
use crate::ion::{
    IonContainer, IonEventV, RidlError, RidlWriter, events_view, balanced, lemma_balanced_concat,
    lemma_balanced_wrap, lemma_flat_balanced, flat,
};
use crate::ddl::ShapeEncodingError;
use crate::shape::{NameAndShape, 
    PartiqlShape, Static, StructField, ShapeV, StaticV, FieldV, shape_view, shapes_view, fields_view,
    lemma_shapes_view, lemma_fields_view,
};

verus! {

#[derive(PartialEq, Eq, Structural, Clone, Copy, Debug)]
pub struct ShapeTNumeric {
    pub precision: i64,
    pub scale: i64,
}

#[derive(PartialEq, Eq, Structural, Clone, Copy, Debug)]
pub struct ShapeTFloat {
    pub precision: i64,
}

#[derive(PartialEq, Eq, Structural, Clone, Copy, Debug)]
pub struct ShapeTStringFixed {
    pub length: i64,
}

#[derive(PartialEq, Eq, Structural, Clone, Copy, Debug)]
pub struct ShapeTStringVarying {
    pub length: i64,
}

#[derive(PartialEq, Eq, Structural, Clone, Copy, Debug)]
pub struct ShapeTTime {
    pub precision: i64,
}

#[derive(PartialEq, Eq, Structural, Clone, Copy, Debug)]
pub struct ShapeTTimeTz {
    pub precision: i64,
    pub offset_hour: i64,
    pub offset_minute: i64,
}

#[derive(PartialEq, Eq, Structural, Clone, Copy, Debug)]
pub struct ShapeTTimestamp {
    pub precision: i64,
}

#[derive(PartialEq, Eq, Structural, Clone, Copy, Debug)]
pub struct ShapeTTimestampTz {
    pub precision: i64,
    pub offset_hour: i64,
    pub offset_minute: i64,
}

/// The items of a bag.
#[derive(Debug)]
pub struct ShapeTBag {
    pub items: Box<Shape>,
}

/// The items of an array.
#[derive(Debug)]
pub struct ShapeTArray {
    pub items: Box<Shape>,
}

/// The fields of a struct, in order.
#[derive(Debug)]
pub struct ShapeTStruct {
    pub fields: Vec<Field>,
}

/// The variants of a union, in order.
#[derive(Debug)]
pub struct ShapeTUnion {
    pub variants: Vec<Shape>,
}

/// A Linac shape.
#[derive(Debug)]
pub enum Shape {
    TDynamic,
    TUnknown,
    TBool,
    TInt8,
    TInt16,
    TInt32,
    TInt64,
    TInt,
    TDecimal,
    TNumeric(ShapeTNumeric),
    TFloat32,
    TFloat64,
    TFloat(ShapeTFloat),
    TString,
    TStringFixed(ShapeTStringFixed),
    TStringVarying(ShapeTStringVarying),
    TBlob,
    TClob,
    TDate,
    TTime(ShapeTTime),
    TTimeTz(ShapeTTimeTz),
    TTimestamp(ShapeTTimestamp),
    TTimestampTz(ShapeTTimestampTz),
    TBag(ShapeTBag),
    TArray(ShapeTArray),
    TStruct(ShapeTStruct),
    TUnion(ShapeTUnion),
}

/// A named field of a struct shape.
#[derive(Debug)]
pub struct Field {
    pub name: String,
    pub shape: Box<Shape>,
}

/// The model of a Linac shape: collections are sequences.
pub enum LShapeV {
    TDynamic,
    TUnknown,
    TBool,
    TInt8,
    TInt16,
    TInt32,
    TInt64,
    TInt,
    TDecimal,
    TNumeric(ShapeTNumeric),
    TFloat32,
    TFloat64,
    TFloat(ShapeTFloat),
    TString,
    TStringFixed(ShapeTStringFixed),
    TStringVarying(ShapeTStringVarying),
    TBlob,
    TClob,
    TDate,
    TTime(ShapeTTime),
    TTimeTz(ShapeTTimeTz),
    TTimestamp(ShapeTTimestamp),
    TTimestampTz(ShapeTTimestampTz),
    TBag(Box<LShapeV>),
    TArray(Box<LShapeV>),
    TStruct(Seq<LFieldV>),
    TUnion(Seq<LShapeV>),
}

pub struct LFieldV {
    pub name: Seq<char>,
    pub shape: LShapeV,
}

pub open spec fn lshape_view(s: Shape) -> LShapeV
    decreases s,
{
    match s {
        Shape::TDynamic => LShapeV::TDynamic,
        Shape::TUnknown => LShapeV::TUnknown,
        Shape::TBool => LShapeV::TBool,
        Shape::TInt8 => LShapeV::TInt8,
        Shape::TInt16 => LShapeV::TInt16,
        Shape::TInt32 => LShapeV::TInt32,
        Shape::TInt64 => LShapeV::TInt64,
        Shape::TInt => LShapeV::TInt,
        Shape::TDecimal => LShapeV::TDecimal,
        Shape::TNumeric(v) => LShapeV::TNumeric(v),
        Shape::TFloat32 => LShapeV::TFloat32,
        Shape::TFloat64 => LShapeV::TFloat64,
        Shape::TFloat(v) => LShapeV::TFloat(v),
        Shape::TString => LShapeV::TString,
        Shape::TStringFixed(v) => LShapeV::TStringFixed(v),
        Shape::TStringVarying(v) => LShapeV::TStringVarying(v),
        Shape::TBlob => LShapeV::TBlob,
        Shape::TClob => LShapeV::TClob,
        Shape::TDate => LShapeV::TDate,
        Shape::TTime(v) => LShapeV::TTime(v),
        Shape::TTimeTz(v) => LShapeV::TTimeTz(v),
        Shape::TTimestamp(v) => LShapeV::TTimestamp(v),
        Shape::TTimestampTz(v) => LShapeV::TTimestampTz(v),
        Shape::TBag(v) => LShapeV::TBag(Box::new(lshape_view(*v.items))),
        Shape::TArray(v) => LShapeV::TArray(Box::new(lshape_view(*v.items))),
        Shape::TStruct(v) => LShapeV::TStruct(lfields_view(v.fields@)),
        Shape::TUnion(v) => LShapeV::TUnion(lshapes_view(v.variants@)),
    }
}

pub open spec fn lshapes_view(v: Seq<Shape>) -> Seq<LShapeV>
    decreases v,
{
    if v.len() == 0 {
        Seq::empty()
    } else {
        lshapes_view(v.drop_last()).push(lshape_view(v.last()))
    }
}

pub open spec fn lfields_view(fs: Seq<Field>) -> Seq<LFieldV>
    decreases fs,
{
    if fs.len() == 0 {
        Seq::empty()
    } else {
        lfields_view(fs.drop_last()).push(LFieldV { name: fs.last().name@, shape: lshape_view(*fs.last().shape) })
    }
}

impl View for Shape {
    type V = LShapeV;

    open spec fn view(&self) -> LShapeV {
        lshape_view(*self)
    }
}

pub proof fn lemma_lshapes_view(v: Seq<Shape>)
    ensures
        lshapes_view(v).len() == v.len(),
        forall|i: int| 0 <= i < v.len() ==> #[trigger] lshapes_view(v)[i] == lshape_view(v[i]),
    decreases v.len(),
{
    if v.len() > 0 {
        lemma_lshapes_view(v.drop_last());
        assert forall|i: int| 0 <= i < v.len() implies #[trigger] lshapes_view(v)[i] == lshape_view(v[i]) by {
            if i < v.len() - 1 {
                assert(v.drop_last()[i] == v[i]);
            }
        }
    }
}

pub proof fn lemma_lfields_view(fs: Seq<Field>)
    ensures
        lfields_view(fs).len() == fs.len(),
        forall|i: int| 0 <= i < fs.len() ==> #[trigger] lfields_view(fs)[i] == (LFieldV { name: fs[i].name@, shape: lshape_view(*fs[i].shape) }),
    decreases fs.len(),
{
    if fs.len() > 0 {
        lemma_lfields_view(fs.drop_last());
        assert forall|i: int| 0 <= i < fs.len() implies #[trigger] lfields_view(fs)[i] == (LFieldV { name: fs[i].name@, shape: lshape_view(*fs[i].shape) }) by {
            if i < fs.len() - 1 {
                assert(fs.drop_last()[i] == fs[i]);
            }
        }
    }
}

pub open spec fn tag(t: Seq<char>) -> IonEventV {
    IonEventV::Annotate(seq![t])
}

pub open spec fn fname(n: Seq<char>) -> IonEventV {
    IonEventV::FieldName(n)
}

/// The events of a shape without contents: its tag, then the symbol `unit`.
pub open spec fn unit_text(t: Seq<char>) -> Seq<IonEventV> {
    seq![tag(t), IonEventV::Symbol("unit"@)]
}

/// The events of the integer members of a parametric shape, by name.
pub open spec fn int_members(names: Seq<Seq<char>>, values: Seq<i64>) -> Seq<IonEventV>
    decreases names.len(),
{
    if names.len() == 0 || values.len() == 0 {
        Seq::empty()
    } else {
        seq![fname(names[0]), IonEventV::Int(values[0])] + int_members(names.drop_first(), values.drop_first())
    }
}

/// The names and values of the members of a parametric shape.
pub open spec fn members(s: LShapeV) -> (Seq<Seq<char>>, Seq<i64>) {
    match s {
        LShapeV::TNumeric(v) => (seq!["precision"@,"scale"@], seq![v.precision,v.scale]),
        LShapeV::TFloat(v) => (seq!["precision"@], seq![v.precision]),
        LShapeV::TStringFixed(v) => (seq!["length"@], seq![v.length]),
        LShapeV::TStringVarying(v) => (seq!["length"@], seq![v.length]),
        LShapeV::TTime(v) => (seq!["precision"@], seq![v.precision]),
        LShapeV::TTimeTz(v) => (seq!["precision"@,"offset_hour"@,"offset_minute"@], seq![v.precision,v.offset_hour,v.offset_minute]),
        LShapeV::TTimestamp(v) => (seq!["precision"@], seq![v.precision]),
        LShapeV::TTimestampTz(v) => (seq!["precision"@,"offset_hour"@,"offset_minute"@], seq![v.precision,v.offset_hour,v.offset_minute]),
        _ => (Seq::empty(), Seq::empty()),
    }
}

pub open spec fn is_parametric(s: LShapeV) -> bool {
    s is TNumeric || s is TFloat || s is TStringFixed || s is TStringVarying || s is TTime || s is TTimeTz || s is TTimestamp || s is TTimestampTz
}

pub open spec fn is_unit(s: LShapeV) -> bool {
    s is TDynamic || s is TUnknown || s is TBool || s is TInt8 || s is TInt16 || s is TInt32 || s is TInt64 || s is TInt || s is TDecimal || s is TFloat32 || s is TFloat64 || s is TString || s is TBlob || s is TClob || s is TDate
}

/// The tag of a shape's variant in the text encoding.
pub open spec fn variant_tag(s: LShapeV) -> Seq<char> {
    match s {
        LShapeV::TDynamic => "shape.t_dynamic"@,
        LShapeV::TUnknown => "shape.t_unknown"@,
        LShapeV::TBool => "shape.t_bool"@,
        LShapeV::TInt8 => "shape.t_int8"@,
        LShapeV::TInt16 => "shape.t_int16"@,
        LShapeV::TInt32 => "shape.t_int32"@,
        LShapeV::TInt64 => "shape.t_int64"@,
        LShapeV::TInt => "shape.t_int"@,
        LShapeV::TDecimal => "shape.t_decimal"@,
        LShapeV::TNumeric(..) => "shape.t_numeric"@,
        LShapeV::TFloat32 => "shape.t_float32"@,
        LShapeV::TFloat64 => "shape.t_float64"@,
        LShapeV::TFloat(..) => "shape.t_float"@,
        LShapeV::TString => "shape.t_string"@,
        LShapeV::TStringFixed(..) => "shape.t_string_fixed"@,
        LShapeV::TStringVarying(..) => "shape.t_string_varying"@,
        LShapeV::TBlob => "shape.t_blob"@,
        LShapeV::TClob => "shape.t_clob"@,
        LShapeV::TDate => "shape.t_date"@,
        LShapeV::TTime(..) => "shape.t_time"@,
        LShapeV::TTimeTz(..) => "shape.t_time_tz"@,
        LShapeV::TTimestamp(..) => "shape.t_timestamp"@,
        LShapeV::TTimestampTz(..) => "shape.t_timestamp_tz"@,
        LShapeV::TBag(..) => "shape.t_bag"@,
        LShapeV::TArray(..) => "shape.t_array"@,
        LShapeV::TStruct(..) => "shape.t_struct"@,
        LShapeV::TUnion(..) => "shape.t_union"@,
    }
}

/// The number of a shape's variant in the packed encoding.
pub open spec fn variant_index(s: LShapeV) -> i64 {
    match s {
        LShapeV::TDynamic => 0,
        LShapeV::TUnknown => 1,
        LShapeV::TBool => 2,
        LShapeV::TInt8 => 3,
        LShapeV::TInt16 => 4,
        LShapeV::TInt32 => 5,
        LShapeV::TInt64 => 6,
        LShapeV::TInt => 7,
        LShapeV::TDecimal => 8,
        LShapeV::TNumeric(..) => 9,
        LShapeV::TFloat32 => 10,
        LShapeV::TFloat64 => 11,
        LShapeV::TFloat(..) => 12,
        LShapeV::TString => 13,
        LShapeV::TStringFixed(..) => 14,
        LShapeV::TStringVarying(..) => 15,
        LShapeV::TBlob => 16,
        LShapeV::TClob => 17,
        LShapeV::TDate => 18,
        LShapeV::TTime(..) => 19,
        LShapeV::TTimeTz(..) => 20,
        LShapeV::TTimestamp(..) => 21,
        LShapeV::TTimestampTz(..) => 22,
        LShapeV::TBag(..) => 23,
        LShapeV::TArray(..) => 24,
        LShapeV::TStruct(..) => 25,
        LShapeV::TUnion(..) => 26,
    }
}

/// The text encoding of a shape: the tag `shape.<variant>`, then `unit`
/// for a shape without contents, or a struct of its members.
pub open spec fn text_events(s: LShapeV) -> Seq<IonEventV>
    decreases s,
{
    let t = variant_tag(s);
    match s {
        LShapeV::TBag(items) => seq![tag(t), IonEventV::StepIn(IonContainer::Struct), fname("items"@)]
            + text_events(*items) + seq![IonEventV::StepOut],
        LShapeV::TArray(items) => seq![tag(t), IonEventV::StepIn(IonContainer::Struct), fname("items"@)]
            + text_events(*items) + seq![IonEventV::StepOut],
        LShapeV::TStruct(fs) => seq![tag(t), IonEventV::StepIn(IonContainer::Struct), fname("fields"@),
            IonEventV::StepIn(IonContainer::List)] + text_fields(fs) + seq![IonEventV::StepOut, IonEventV::StepOut],
        LShapeV::TUnion(vs) => seq![tag(t), IonEventV::StepIn(IonContainer::Struct), fname("variants"@),
            IonEventV::StepIn(IonContainer::List)] + text_variants(vs) + seq![IonEventV::StepOut, IonEventV::StepOut],
        _ => if is_parametric(s) {
            seq![tag(t), IonEventV::StepIn(IonContainer::Struct)] + int_members(members(s).0, members(s).1)
                + seq![IonEventV::StepOut]
        } else {
            unit_text(t)
        },
    }
}

pub open spec fn text_fields(fs: Seq<LFieldV>) -> Seq<IonEventV>
    decreases fs,
{
    if fs.len() == 0 {
        Seq::empty()
    } else {
        text_fields(fs.drop_last()) + text_field(fs.last())
    }
}

/// A field: tagged `field`, a struct of its name and its shape.
pub open spec fn text_field(f: LFieldV) -> Seq<IonEventV>
    decreases f,
{
    seq![tag("field"@), IonEventV::StepIn(IonContainer::Struct), fname("name"@), IonEventV::String(f.name), fname("shape"@)]
        + text_events(f.shape) + seq![IonEventV::StepOut]
}

pub open spec fn text_variants(vs: Seq<LShapeV>) -> Seq<IonEventV>
    decreases vs,
{
    if vs.len() == 0 {
        Seq::empty()
    } else {
        text_variants(vs.drop_last()) + text_events(vs.last())
    }
}

/// The packed encoding of a shape: an s-expression of the variant's number
/// and the contents.
pub open spec fn packed_events(s: LShapeV) -> Seq<IonEventV>
    decreases s, 1nat,
{
    seq![IonEventV::StepIn(IonContainer::SExp), IonEventV::Int(variant_index(s))] + packed_body(s) + seq![IonEventV::StepOut]
}

/// The contents of a shape in the packed encoding: `unit`, or an
/// s-expression of its members.
pub open spec fn packed_body(s: LShapeV) -> Seq<IonEventV>
    decreases s, 0nat,
{
    match s {
        LShapeV::TBag(items) => seq![IonEventV::StepIn(IonContainer::SExp), fname("items"@)]
            + packed_events(*items) + seq![IonEventV::StepOut],
        LShapeV::TArray(items) => seq![IonEventV::StepIn(IonContainer::SExp), fname("items"@)]
            + packed_events(*items) + seq![IonEventV::StepOut],
        LShapeV::TStruct(fs) => seq![IonEventV::StepIn(IonContainer::SExp), fname("fields"@),
            IonEventV::StepIn(IonContainer::List)] + packed_fields(fs) + seq![IonEventV::StepOut, IonEventV::StepOut],
        LShapeV::TUnion(vs) => seq![IonEventV::StepIn(IonContainer::SExp), fname("variants"@),
            IonEventV::StepIn(IonContainer::List)] + packed_variants(vs) + seq![IonEventV::StepOut, IonEventV::StepOut],
        _ => if is_parametric(s) {
            seq![IonEventV::StepIn(IonContainer::SExp)] + int_members(members(s).0, members(s).1)
                + seq![IonEventV::StepOut]
        } else {
            seq![IonEventV::Symbol("unit"@)]
        },
    }
}

pub open spec fn packed_fields(fs: Seq<LFieldV>) -> Seq<IonEventV>
    decreases fs, 0nat,
{
    if fs.len() == 0 {
        Seq::empty()
    } else {
        packed_fields(fs.drop_last()) + packed_field(fs.last())
    }
}

pub open spec fn packed_field(f: LFieldV) -> Seq<IonEventV>
    decreases f, 0nat,
{
    seq![IonEventV::StepIn(IonContainer::SExp), fname("name"@), IonEventV::String(f.name), fname("shape"@)]
        + packed_events(f.shape) + seq![IonEventV::StepOut]
}

pub open spec fn packed_variants(vs: Seq<LShapeV>) -> Seq<IonEventV>
    decreases vs, 0nat,
{
    if vs.len() == 0 {
        Seq::empty()
    } else {
        packed_variants(vs.drop_last()) + packed_events(vs.last())
    }
}

pub open spec fn writer_events(w: RidlWriter) -> Seq<IonEventV> {
    events_view(w.events@)
}

/// Writes shapes in the text encoding.
#[derive(Debug)]
pub struct LinacWriterText {
    pub writer: RidlWriter,
}

impl LinacWriterText {
    /// A text writer that has written nothing.
    pub fn new() -> (w: Self)
        ensures
            writer_events(w.writer) == Seq::<IonEventV>::empty(),
    {
        let w = LinacWriterText { writer: RidlWriter::new() };
        proof { assert(writer_events(w.writer) =~= Seq::<IonEventV>::empty()); }
        w
    }

    /// Writes a shape.
    pub fn write_shape(&mut self, value: &Shape) -> (r: Result<(), RidlError>)
        ensures
            r is Ok,
            writer_events(final(self).writer) == writer_events(old(self).writer) + text_events(value@),
        decreases value,
    {
        match value {
            Shape::TDynamic => self.write_unit("shape.t_dynamic"),
            Shape::TUnknown => self.write_unit("shape.t_unknown"),
            Shape::TBool => self.write_unit("shape.t_bool"),
            Shape::TInt8 => self.write_unit("shape.t_int8"),
            Shape::TInt16 => self.write_unit("shape.t_int16"),
            Shape::TInt32 => self.write_unit("shape.t_int32"),
            Shape::TInt64 => self.write_unit("shape.t_int64"),
            Shape::TInt => self.write_unit("shape.t_int"),
            Shape::TDecimal => self.write_unit("shape.t_decimal"),
            Shape::TNumeric(v) => self.write_shape_t_numeric(v),
            Shape::TFloat32 => self.write_unit("shape.t_float32"),
            Shape::TFloat64 => self.write_unit("shape.t_float64"),
            Shape::TFloat(v) => self.write_shape_t_float(v),
            Shape::TString => self.write_unit("shape.t_string"),
            Shape::TStringFixed(v) => self.write_shape_t_string_fixed(v),
            Shape::TStringVarying(v) => self.write_shape_t_string_varying(v),
            Shape::TBlob => self.write_unit("shape.t_blob"),
            Shape::TClob => self.write_unit("shape.t_clob"),
            Shape::TDate => self.write_unit("shape.t_date"),
            Shape::TTime(v) => self.write_shape_t_time(v),
            Shape::TTimeTz(v) => self.write_shape_t_time_tz(v),
            Shape::TTimestamp(v) => self.write_shape_t_timestamp(v),
            Shape::TTimestampTz(v) => self.write_shape_t_timestamp_tz(v),
            Shape::TBag(v) => self.write_shape_t_bag(v),
            Shape::TArray(v) => self.write_shape_t_array(v),
            Shape::TStruct(v) => self.write_shape_t_struct(v),
            Shape::TUnion(v) => self.write_shape_t_union(v),
        }
    }

    fn write_unit(&mut self, tag_text: &str) -> (r: Result<(), RidlError>)
        ensures
            r is Ok,
            writer_events(final(self).writer) == writer_events(old(self).writer) + unit_text(tag_text@),
    {
        let ghost before = writer_events(self.writer);
        self.writer.set_tag(tag_text);
        let r = self.writer.write_symbol("unit");
        proof { assert(writer_events(self.writer) =~= before + unit_text(tag_text@)); }
        r
    }

    pub fn write_shape_t_numeric(&mut self, value: &ShapeTNumeric) -> (r: Result<(), RidlError>)
        ensures
            r is Ok,
            writer_events(final(self).writer) == writer_events(old(self).writer) + text_events(LShapeV::TNumeric(*value)),
    {
        let ghost before = writer_events(self.writer);
        self.writer.set_tag("shape.t_numeric");
        self.writer.step_in(IonContainer::Struct)?;
        self.writer.set_field_name("precision");
        self.writer.write_int(value.precision)?;
        self.writer.set_field_name("scale");
        self.writer.write_int(value.scale)?;
        let r = self.writer.step_out();
        proof {
            reveal_with_fuel(int_members, 4);
            assert(writer_events(self.writer) =~= before + text_events(LShapeV::TNumeric(*value)));
        }
        r
    }

    pub fn write_shape_t_float(&mut self, value: &ShapeTFloat) -> (r: Result<(), RidlError>)
        ensures
            r is Ok,
            writer_events(final(self).writer) == writer_events(old(self).writer) + text_events(LShapeV::TFloat(*value)),
    {
        let ghost before = writer_events(self.writer);
        self.writer.set_tag("shape.t_float");
        self.writer.step_in(IonContainer::Struct)?;
        self.writer.set_field_name("precision");
        self.writer.write_int(value.precision)?;
        let r = self.writer.step_out();
        proof {
            reveal_with_fuel(int_members, 4);
            assert(writer_events(self.writer) =~= before + text_events(LShapeV::TFloat(*value)));
        }
        r
    }

    pub fn write_shape_t_string_fixed(&mut self, value: &ShapeTStringFixed) -> (r: Result<(), RidlError>)
        ensures
            r is Ok,
            writer_events(final(self).writer) == writer_events(old(self).writer) + text_events(LShapeV::TStringFixed(*value)),
    {
        let ghost before = writer_events(self.writer);
        self.writer.set_tag("shape.t_string_fixed");
        self.writer.step_in(IonContainer::Struct)?;
        self.writer.set_field_name("length");
        self.writer.write_int(value.length)?;
        let r = self.writer.step_out();
        proof {
            reveal_with_fuel(int_members, 4);
            assert(writer_events(self.writer) =~= before + text_events(LShapeV::TStringFixed(*value)));
        }
        r
    }

    pub fn write_shape_t_string_varying(&mut self, value: &ShapeTStringVarying) -> (r: Result<(), RidlError>)
        ensures
            r is Ok,
            writer_events(final(self).writer) == writer_events(old(self).writer) + text_events(LShapeV::TStringVarying(*value)),
    {
        let ghost before = writer_events(self.writer);
        self.writer.set_tag("shape.t_string_varying");
        self.writer.step_in(IonContainer::Struct)?;
        self.writer.set_field_name("length");
        self.writer.write_int(value.length)?;
        let r = self.writer.step_out();
        proof {
            reveal_with_fuel(int_members, 4);
            assert(writer_events(self.writer) =~= before + text_events(LShapeV::TStringVarying(*value)));
        }
        r
    }

    pub fn write_shape_t_time(&mut self, value: &ShapeTTime) -> (r: Result<(), RidlError>)
        ensures
            r is Ok,
            writer_events(final(self).writer) == writer_events(old(self).writer) + text_events(LShapeV::TTime(*value)),
    {
        let ghost before = writer_events(self.writer);
        self.writer.set_tag("shape.t_time");
        self.writer.step_in(IonContainer::Struct)?;
        self.writer.set_field_name("precision");
        self.writer.write_int(value.precision)?;
        let r = self.writer.step_out();
        proof {
            reveal_with_fuel(int_members, 4);
            assert(writer_events(self.writer) =~= before + text_events(LShapeV::TTime(*value)));
        }
        r
    }

    pub fn write_shape_t_time_tz(&mut self, value: &ShapeTTimeTz) -> (r: Result<(), RidlError>)
        ensures
            r is Ok,
            writer_events(final(self).writer) == writer_events(old(self).writer) + text_events(LShapeV::TTimeTz(*value)),
    {
        let ghost before = writer_events(self.writer);
        self.writer.set_tag("shape.t_time_tz");
        self.writer.step_in(IonContainer::Struct)?;
        self.writer.set_field_name("precision");
        self.writer.write_int(value.precision)?;
        self.writer.set_field_name("offset_hour");
        self.writer.write_int(value.offset_hour)?;
        self.writer.set_field_name("offset_minute");
        self.writer.write_int(value.offset_minute)?;
        let r = self.writer.step_out();
        proof {
            reveal_with_fuel(int_members, 4);
            assert(writer_events(self.writer) =~= before + text_events(LShapeV::TTimeTz(*value)));
        }
        r
    }

    pub fn write_shape_t_timestamp(&mut self, value: &ShapeTTimestamp) -> (r: Result<(), RidlError>)
        ensures
            r is Ok,
            writer_events(final(self).writer) == writer_events(old(self).writer) + text_events(LShapeV::TTimestamp(*value)),
    {
        let ghost before = writer_events(self.writer);
        self.writer.set_tag("shape.t_timestamp");
        self.writer.step_in(IonContainer::Struct)?;
        self.writer.set_field_name("precision");
        self.writer.write_int(value.precision)?;
        let r = self.writer.step_out();
        proof {
            reveal_with_fuel(int_members, 4);
            assert(writer_events(self.writer) =~= before + text_events(LShapeV::TTimestamp(*value)));
        }
        r
    }

    pub fn write_shape_t_timestamp_tz(&mut self, value: &ShapeTTimestampTz) -> (r: Result<(), RidlError>)
        ensures
            r is Ok,
            writer_events(final(self).writer) == writer_events(old(self).writer) + text_events(LShapeV::TTimestampTz(*value)),
    {
        let ghost before = writer_events(self.writer);
        self.writer.set_tag("shape.t_timestamp_tz");
        self.writer.step_in(IonContainer::Struct)?;
        self.writer.set_field_name("precision");
        self.writer.write_int(value.precision)?;
        self.writer.set_field_name("offset_hour");
        self.writer.write_int(value.offset_hour)?;
        self.writer.set_field_name("offset_minute");
        self.writer.write_int(value.offset_minute)?;
        let r = self.writer.step_out();
        proof {
            reveal_with_fuel(int_members, 4);
            assert(writer_events(self.writer) =~= before + text_events(LShapeV::TTimestampTz(*value)));
        }
        r
    }

    pub fn write_shape_t_bag(&mut self, value: &ShapeTBag) -> (r: Result<(), RidlError>)
        ensures
            r is Ok,
            writer_events(final(self).writer) == writer_events(old(self).writer) + text_events(LShapeV::TBag(Box::new(lshape_view(*value.items)))),
        decreases value,
    {
        let ghost before = writer_events(self.writer);
        self.writer.set_tag("shape.t_bag");
        self.writer.step_in(IonContainer::Struct)?;
        self.writer.set_field_name("items");
        let ghost mid = writer_events(self.writer);
        self.write_shape(&value.items)?;
        let r = self.writer.step_out();
        proof {
            assert(writer_events(self.writer) =~= before + text_events(LShapeV::TBag(Box::new(lshape_view(*value.items)))));
        }
        r
    }

    pub fn write_shape_t_array(&mut self, value: &ShapeTArray) -> (r: Result<(), RidlError>)
        ensures
            r is Ok,
            writer_events(final(self).writer) == writer_events(old(self).writer) + text_events(LShapeV::TArray(Box::new(lshape_view(*value.items)))),
        decreases value,
    {
        let ghost before = writer_events(self.writer);
        self.writer.set_tag("shape.t_array");
        self.writer.step_in(IonContainer::Struct)?;
        self.writer.set_field_name("items");
        let ghost mid = writer_events(self.writer);
        self.write_shape(&value.items)?;
        let r = self.writer.step_out();
        proof {
            assert(writer_events(self.writer) =~= before + text_events(LShapeV::TArray(Box::new(lshape_view(*value.items)))));
        }
        r
    }

    pub fn write_shape_t_struct(&mut self, value: &ShapeTStruct) -> (r: Result<(), RidlError>)
        ensures
            r is Ok,
            writer_events(final(self).writer) == writer_events(old(self).writer) + text_events(LShapeV::TStruct(lfields_view(value.fields@))),
        decreases value,
    {
        let ghost before = writer_events(self.writer);
        let ghost fv = lfields_view(value.fields@);
        proof { lemma_lfields_view(value.fields@); }
        self.writer.set_tag("shape.t_struct");
        self.writer.step_in(IonContainer::Struct)?;
        self.writer.set_field_name("fields");
        self.writer.write_array_start(value.fields.len(), None)?;
        let ghost head = writer_events(self.writer);
        let mut i: usize = 0;
        proof { assert(fv.take(0) =~= Seq::<LFieldV>::empty()); assert(head + text_fields(fv.take(0)) =~= head); }
        while i < value.fields.len()
            invariant
                i <= value.fields@.len(),
                fv == lfields_view(value.fields@),
                fv.len() == value.fields@.len(),
                forall|j: int| 0 <= j < value.fields@.len() ==> #[trigger] fv[j] == (LFieldV { name: value.fields@[j].name@, shape: lshape_view(*value.fields@[j].shape) }),
                writer_events(self.writer) == head + text_fields(fv.take(i as int)),
            decreases value.fields@.len() - i,
        {
            let ghost pre = fv.take(i + 1);
            proof {
                assert(pre.drop_last() =~= fv.take(i as int));
                assert(pre.last() == fv[i as int]);
            }
            self.write_field(&value.fields[i])?;
            proof {
                assert(writer_events(self.writer) =~= head + text_fields(pre));
            }
            i += 1;
        }
        proof { assert(fv.take(fv.len() as int) =~= fv); }
        self.writer.write_array_end()?;
        let r = self.writer.step_out();
        proof {
            assert(writer_events(self.writer) =~= before + text_events(LShapeV::TStruct(fv)));
        }
        r
    }

    pub fn write_shape_t_union(&mut self, value: &ShapeTUnion) -> (r: Result<(), RidlError>)
        ensures
            r is Ok,
            writer_events(final(self).writer) == writer_events(old(self).writer) + text_events(LShapeV::TUnion(lshapes_view(value.variants@))),
        decreases value,
    {
        let ghost before = writer_events(self.writer);
        let ghost vv = lshapes_view(value.variants@);
        proof { lemma_lshapes_view(value.variants@); }
        self.writer.set_tag("shape.t_union");
        self.writer.step_in(IonContainer::Struct)?;
        self.writer.set_field_name("variants");
        self.writer.write_array_start(value.variants.len(), None)?;
        let ghost head = writer_events(self.writer);
        let mut i: usize = 0;
        proof { assert(vv.take(0) =~= Seq::<LShapeV>::empty()); assert(head + text_variants(vv.take(0)) =~= head); }
        while i < value.variants.len()
            invariant
                i <= value.variants@.len(),
                vv == lshapes_view(value.variants@),
                vv.len() == value.variants@.len(),
                forall|j: int| 0 <= j < value.variants@.len() ==> #[trigger] vv[j] == lshape_view(value.variants@[j]),
                writer_events(self.writer) == head + text_variants(vv.take(i as int)),
            decreases value.variants@.len() - i,
        {
            let ghost pre = vv.take(i + 1);
            proof {
                assert(pre.drop_last() =~= vv.take(i as int));
                assert(pre.last() == vv[i as int]);
            }
            self.write_shape(&value.variants[i])?;
            proof {
                assert(writer_events(self.writer) =~= head + text_variants(pre));
            }
            i += 1;
        }
        proof { assert(vv.take(vv.len() as int) =~= vv); }
        self.writer.write_array_end()?;
        let r = self.writer.step_out();
        proof {
            assert(writer_events(self.writer) =~= before + text_events(LShapeV::TUnion(vv)));
        }
        r
    }

    pub fn write_field(&mut self, value: &Field) -> (r: Result<(), RidlError>)
        ensures
            r is Ok,
            writer_events(final(self).writer) == writer_events(old(self).writer)
                + text_field(LFieldV { name: value.name@, shape: lshape_view(*value.shape) }),
        decreases value,
    {
        let ghost before = writer_events(self.writer);
        self.writer.set_tag("field");
        self.writer.step_in(IonContainer::Struct)?;
        self.writer.set_field_name("name");
        self.writer.write_string(value.name.as_str())?;
        self.writer.set_field_name("shape");
        self.write_shape(&value.shape)?;
        let r = self.writer.step_out();
        proof {
            assert(writer_events(self.writer) =~= before + text_field(LFieldV { name: value.name@, shape: lshape_view(*value.shape) }));
        }
        r
    }
}

/// Writes shapes in the packed encoding.
#[derive(Debug)]
pub struct LinacWriterPacked {
    pub writer: RidlWriter,
}

impl LinacWriterPacked {
    /// A packed writer that has written nothing.
    pub fn new() -> (w: Self)
        ensures
            writer_events(w.writer) == Seq::<IonEventV>::empty(),
    {
        let w = LinacWriterPacked { writer: RidlWriter::new() };
        proof { assert(writer_events(w.writer) =~= Seq::<IonEventV>::empty()); }
        w
    }

    /// Writes a shape: an s-expression of its variant's number and its
    /// contents.
    pub fn write_shape(&mut self, value: &Shape) -> (r: Result<(), RidlError>)
        ensures
            r is Ok,
            writer_events(final(self).writer) == writer_events(old(self).writer) + packed_events(value@),
        decreases value, 1nat,
    {
        let ghost before = writer_events(self.writer);
        self.writer.step_in(IonContainer::SExp)?;
        match value {
            Shape::TDynamic => {
                self.writer.write_int(0)?;
                self.write_unit()?;
            },
            Shape::TUnknown => {
                self.writer.write_int(1)?;
                self.write_unit()?;
            },
            Shape::TBool => {
                self.writer.write_int(2)?;
                self.write_unit()?;
            },
            Shape::TInt8 => {
                self.writer.write_int(3)?;
                self.write_unit()?;
            },
            Shape::TInt16 => {
                self.writer.write_int(4)?;
                self.write_unit()?;
            },
            Shape::TInt32 => {
                self.writer.write_int(5)?;
                self.write_unit()?;
            },
            Shape::TInt64 => {
                self.writer.write_int(6)?;
                self.write_unit()?;
            },
            Shape::TInt => {
                self.writer.write_int(7)?;
                self.write_unit()?;
            },
            Shape::TDecimal => {
                self.writer.write_int(8)?;
                self.write_unit()?;
            },
            Shape::TNumeric(v) => {
                self.writer.write_int(9)?;
                self.write_shape_t_numeric(v)?;
            },
            Shape::TFloat32 => {
                self.writer.write_int(10)?;
                self.write_unit()?;
            },
            Shape::TFloat64 => {
                self.writer.write_int(11)?;
                self.write_unit()?;
            },
            Shape::TFloat(v) => {
                self.writer.write_int(12)?;
                self.write_shape_t_float(v)?;
            },
            Shape::TString => {
                self.writer.write_int(13)?;
                self.write_unit()?;
            },
            Shape::TStringFixed(v) => {
                self.writer.write_int(14)?;
                self.write_shape_t_string_fixed(v)?;
            },
            Shape::TStringVarying(v) => {
                self.writer.write_int(15)?;
                self.write_shape_t_string_varying(v)?;
            },
            Shape::TBlob => {
                self.writer.write_int(16)?;
                self.write_unit()?;
            },
            Shape::TClob => {
                self.writer.write_int(17)?;
                self.write_unit()?;
            },
            Shape::TDate => {
                self.writer.write_int(18)?;
                self.write_unit()?;
            },
            Shape::TTime(v) => {
                self.writer.write_int(19)?;
                self.write_shape_t_time(v)?;
            },
            Shape::TTimeTz(v) => {
                self.writer.write_int(20)?;
                self.write_shape_t_time_tz(v)?;
            },
            Shape::TTimestamp(v) => {
                self.writer.write_int(21)?;
                self.write_shape_t_timestamp(v)?;
            },
            Shape::TTimestampTz(v) => {
                self.writer.write_int(22)?;
                self.write_shape_t_timestamp_tz(v)?;
            },
            Shape::TBag(v) => {
                self.writer.write_int(23)?;
                self.write_shape_t_bag(v)?;
            },
            Shape::TArray(v) => {
                self.writer.write_int(24)?;
                self.write_shape_t_array(v)?;
            },
            Shape::TStruct(v) => {
                self.writer.write_int(25)?;
                self.write_shape_t_struct(v)?;
            },
            Shape::TUnion(v) => {
                self.writer.write_int(26)?;
                self.write_shape_t_union(v)?;
            },
        }
        let r = self.writer.step_out();
        proof {
            assert(writer_events(self.writer) =~= before + packed_events(value@));
        }
        r
    }

    fn write_unit(&mut self) -> (r: Result<(), RidlError>)
        ensures
            r is Ok,
            writer_events(final(self).writer) == writer_events(old(self).writer) + seq![IonEventV::Symbol("unit"@)],
    {
        let ghost before = writer_events(self.writer);
        let r = self.writer.write_symbol("unit");
        proof { assert(writer_events(self.writer) =~= before + seq![IonEventV::Symbol("unit"@)]); }
        r
    }

    pub fn write_shape_t_numeric(&mut self, value: &ShapeTNumeric) -> (r: Result<(), RidlError>)
        ensures
            r is Ok,
            writer_events(final(self).writer) == writer_events(old(self).writer) + packed_body(LShapeV::TNumeric(*value)),
    {
        let ghost before = writer_events(self.writer);
        self.writer.step_in(IonContainer::SExp)?;
        self.writer.set_field_name("precision");
        self.writer.write_int(value.precision)?;
        self.writer.set_field_name("scale");
        self.writer.write_int(value.scale)?;
        let r = self.writer.step_out();
        proof {
            reveal_with_fuel(int_members, 4);
            assert(writer_events(self.writer) =~= before + packed_body(LShapeV::TNumeric(*value)));
        }
        r
    }

    pub fn write_shape_t_float(&mut self, value: &ShapeTFloat) -> (r: Result<(), RidlError>)
        ensures
            r is Ok,
            writer_events(final(self).writer) == writer_events(old(self).writer) + packed_body(LShapeV::TFloat(*value)),
    {
        let ghost before = writer_events(self.writer);
        self.writer.step_in(IonContainer::SExp)?;
        self.writer.set_field_name("precision");
        self.writer.write_int(value.precision)?;
        let r = self.writer.step_out();
        proof {
            reveal_with_fuel(int_members, 4);
            assert(writer_events(self.writer) =~= before + packed_body(LShapeV::TFloat(*value)));
        }
        r
    }

    pub fn write_shape_t_string_fixed(&mut self, value: &ShapeTStringFixed) -> (r: Result<(), RidlError>)
        ensures
            r is Ok,
            writer_events(final(self).writer) == writer_events(old(self).writer) + packed_body(LShapeV::TStringFixed(*value)),
    {
        let ghost before = writer_events(self.writer);
        self.writer.step_in(IonContainer::SExp)?;
        self.writer.set_field_name("length");
        self.writer.write_int(value.length)?;
        let r = self.writer.step_out();
        proof {
            reveal_with_fuel(int_members, 4);
            assert(writer_events(self.writer) =~= before + packed_body(LShapeV::TStringFixed(*value)));
        }
        r
    }

    pub fn write_shape_t_string_varying(&mut self, value: &ShapeTStringVarying) -> (r: Result<(), RidlError>)
        ensures
            r is Ok,
            writer_events(final(self).writer) == writer_events(old(self).writer) + packed_body(LShapeV::TStringVarying(*value)),
    {
        let ghost before = writer_events(self.writer);
        self.writer.step_in(IonContainer::SExp)?;
        self.writer.set_field_name("length");
        self.writer.write_int(value.length)?;
        let r = self.writer.step_out();
        proof {
            reveal_with_fuel(int_members, 4);
            assert(writer_events(self.writer) =~= before + packed_body(LShapeV::TStringVarying(*value)));
        }
        r
    }

    pub fn write_shape_t_time(&mut self, value: &ShapeTTime) -> (r: Result<(), RidlError>)
        ensures
            r is Ok,
            writer_events(final(self).writer) == writer_events(old(self).writer) + packed_body(LShapeV::TTime(*value)),
    {
        let ghost before = writer_events(self.writer);
        self.writer.step_in(IonContainer::SExp)?;
        self.writer.set_field_name("precision");
        self.writer.write_int(value.precision)?;
        let r = self.writer.step_out();
        proof {
            reveal_with_fuel(int_members, 4);
            assert(writer_events(self.writer) =~= before + packed_body(LShapeV::TTime(*value)));
        }
        r
    }

    pub fn write_shape_t_time_tz(&mut self, value: &ShapeTTimeTz) -> (r: Result<(), RidlError>)
        ensures
            r is Ok,
            writer_events(final(self).writer) == writer_events(old(self).writer) + packed_body(LShapeV::TTimeTz(*value)),
    {
        let ghost before = writer_events(self.writer);
        self.writer.step_in(IonContainer::SExp)?;
        self.writer.set_field_name("precision");
        self.writer.write_int(value.precision)?;
        self.writer.set_field_name("offset_hour");
        self.writer.write_int(value.offset_hour)?;
        self.writer.set_field_name("offset_minute");
        self.writer.write_int(value.offset_minute)?;
        let r = self.writer.step_out();
        proof {
            reveal_with_fuel(int_members, 4);
            assert(writer_events(self.writer) =~= before + packed_body(LShapeV::TTimeTz(*value)));
        }
        r
    }

    pub fn write_shape_t_timestamp(&mut self, value: &ShapeTTimestamp) -> (r: Result<(), RidlError>)
        ensures
            r is Ok,
            writer_events(final(self).writer) == writer_events(old(self).writer) + packed_body(LShapeV::TTimestamp(*value)),
    {
        let ghost before = writer_events(self.writer);
        self.writer.step_in(IonContainer::SExp)?;
        self.writer.set_field_name("precision");
        self.writer.write_int(value.precision)?;
        let r = self.writer.step_out();
        proof {
            reveal_with_fuel(int_members, 4);
            assert(writer_events(self.writer) =~= before + packed_body(LShapeV::TTimestamp(*value)));
        }
        r
    }

    pub fn write_shape_t_timestamp_tz(&mut self, value: &ShapeTTimestampTz) -> (r: Result<(), RidlError>)
        ensures
            r is Ok,
            writer_events(final(self).writer) == writer_events(old(self).writer) + packed_body(LShapeV::TTimestampTz(*value)),
    {
        let ghost before = writer_events(self.writer);
        self.writer.step_in(IonContainer::SExp)?;
        self.writer.set_field_name("precision");
        self.writer.write_int(value.precision)?;
        self.writer.set_field_name("offset_hour");
        self.writer.write_int(value.offset_hour)?;
        self.writer.set_field_name("offset_minute");
        self.writer.write_int(value.offset_minute)?;
        let r = self.writer.step_out();
        proof {
            reveal_with_fuel(int_members, 4);
            assert(writer_events(self.writer) =~= before + packed_body(LShapeV::TTimestampTz(*value)));
        }
        r
    }

    pub fn write_shape_t_bag(&mut self, value: &ShapeTBag) -> (r: Result<(), RidlError>)
        ensures
            r is Ok,
            writer_events(final(self).writer) == writer_events(old(self).writer) + packed_body(LShapeV::TBag(Box::new(lshape_view(*value.items)))),
        decreases value, 0nat,
    {
        let ghost before = writer_events(self.writer);
        self.writer.step_in(IonContainer::SExp)?;
        self.writer.set_field_name("items");
        self.write_shape(&value.items)?;
        let r = self.writer.step_out();
        proof {
            assert(writer_events(self.writer) =~= before + packed_body(LShapeV::TBag(Box::new(lshape_view(*value.items)))));
        }
        r
    }

    pub fn write_shape_t_array(&mut self, value: &ShapeTArray) -> (r: Result<(), RidlError>)
        ensures
            r is Ok,
            writer_events(final(self).writer) == writer_events(old(self).writer) + packed_body(LShapeV::TArray(Box::new(lshape_view(*value.items)))),
        decreases value, 0nat,
    {
        let ghost before = writer_events(self.writer);
        self.writer.step_in(IonContainer::SExp)?;
        self.writer.set_field_name("items");
        self.write_shape(&value.items)?;
        let r = self.writer.step_out();
        proof {
            assert(writer_events(self.writer) =~= before + packed_body(LShapeV::TArray(Box::new(lshape_view(*value.items)))));
        }
        r
    }

    pub fn write_shape_t_struct(&mut self, value: &ShapeTStruct) -> (r: Result<(), RidlError>)
        ensures
            r is Ok,
            writer_events(final(self).writer) == writer_events(old(self).writer) + packed_body(LShapeV::TStruct(lfields_view(value.fields@))),
        decreases value, 0nat,
    {
        let ghost before = writer_events(self.writer);
        let ghost fv = lfields_view(value.fields@);
        proof { lemma_lfields_view(value.fields@); }
        self.writer.step_in(IonContainer::SExp)?;
        self.writer.set_field_name("fields");
        self.writer.write_array_start(value.fields.len(), None)?;
        let ghost head = writer_events(self.writer);
        let mut i: usize = 0;
        proof { assert(fv.take(0) =~= Seq::<LFieldV>::empty()); assert(head + packed_fields(fv.take(0)) =~= head); }
        while i < value.fields.len()
            invariant
                i <= value.fields@.len(),
                fv == lfields_view(value.fields@),
                fv.len() == value.fields@.len(),
                forall|j: int| 0 <= j < value.fields@.len() ==> #[trigger] fv[j] == (LFieldV { name: value.fields@[j].name@, shape: lshape_view(*value.fields@[j].shape) }),
                writer_events(self.writer) == head + packed_fields(fv.take(i as int)),
            decreases value.fields@.len() - i,
        {
            let ghost pre = fv.take(i + 1);
            proof {
                assert(pre.drop_last() =~= fv.take(i as int));
                assert(pre.last() == fv[i as int]);
            }
            self.write_field(&value.fields[i])?;
            proof {
                assert(writer_events(self.writer) =~= head + packed_fields(pre));
            }
            i += 1;
        }
        proof { assert(fv.take(fv.len() as int) =~= fv); }
        self.writer.write_array_end()?;
        let r = self.writer.step_out();
        proof {
            assert(writer_events(self.writer) =~= before + packed_body(LShapeV::TStruct(fv)));
        }
        r
    }

    pub fn write_shape_t_union(&mut self, value: &ShapeTUnion) -> (r: Result<(), RidlError>)
        ensures
            r is Ok,
            writer_events(final(self).writer) == writer_events(old(self).writer) + packed_body(LShapeV::TUnion(lshapes_view(value.variants@))),
        decreases value, 0nat,
    {
        let ghost before = writer_events(self.writer);
        let ghost vv = lshapes_view(value.variants@);
        proof { lemma_lshapes_view(value.variants@); }
        self.writer.step_in(IonContainer::SExp)?;
        self.writer.set_field_name("variants");
        self.writer.write_array_start(value.variants.len(), None)?;
        let ghost head = writer_events(self.writer);
        let mut i: usize = 0;
        proof { assert(vv.take(0) =~= Seq::<LShapeV>::empty()); assert(head + packed_variants(vv.take(0)) =~= head); }
        while i < value.variants.len()
            invariant
                i <= value.variants@.len(),
                vv == lshapes_view(value.variants@),
                vv.len() == value.variants@.len(),
                forall|j: int| 0 <= j < value.variants@.len() ==> #[trigger] vv[j] == lshape_view(value.variants@[j]),
                writer_events(self.writer) == head + packed_variants(vv.take(i as int)),
            decreases value.variants@.len() - i,
        {
            let ghost pre = vv.take(i + 1);
            proof {
                assert(pre.drop_last() =~= vv.take(i as int));
                assert(pre.last() == vv[i as int]);
            }
            self.write_shape(&value.variants[i])?;
            proof {
                assert(writer_events(self.writer) =~= head + packed_variants(pre));
            }
            i += 1;
        }
        proof { assert(vv.take(vv.len() as int) =~= vv); }
        self.writer.write_array_end()?;
        let r = self.writer.step_out();
        proof {
            assert(writer_events(self.writer) =~= before + packed_body(LShapeV::TUnion(vv)));
        }
        r
    }

    pub fn write_field(&mut self, value: &Field) -> (r: Result<(), RidlError>)
        ensures
            r is Ok,
            writer_events(final(self).writer) == writer_events(old(self).writer)
                + packed_field(LFieldV { name: value.name@, shape: lshape_view(*value.shape) }),
        decreases value, 0nat,
    {
        let ghost before = writer_events(self.writer);
        self.writer.step_in(IonContainer::SExp)?;
        self.writer.set_field_name("name");
        self.writer.write_string(value.name.as_str())?;
        self.writer.set_field_name("shape");
        self.write_shape(&value.shape)?;
        let r = self.writer.step_out();
        proof {
            assert(writer_events(self.writer) =~= before + packed_field(LFieldV { name: value.name@, shape: lshape_view(*value.shape) }));
        }
        r
    }
}

proof fn lemma_int_members_flat(names: Seq<Seq<char>>, values: Seq<i64>)
    ensures
        flat(int_members(names, values)),
    decreases names.len(),
{
    if names.len() > 0 && values.len() > 0 {
        lemma_int_members_flat(names.drop_first(), values.drop_first());
        let head = seq![fname(names[0]), IonEventV::Int(values[0])];
        let rest = int_members(names.drop_first(), values.drop_first());
        assert forall|i: int| 0 <= i < (head + rest).len() implies
            !(#[trigger] (head + rest)[i] is StepIn) && !((head + rest)[i] is StepOut) by {
            if i >= 2 {
                assert((head + rest)[i] == rest[i - 2]);
            }
        }
    }
}

pub proof fn lemma_one_flat(e: IonEventV)
    requires
        !(e is StepIn) && !(e is StepOut),
    ensures
        balanced(seq![e]),
{
    lemma_flat_balanced(seq![e]);
}

/// A non-container event before a balanced sequence keeps it balanced.
pub proof fn lemma_lead(e: IonEventV, a: Seq<IonEventV>)
    requires
        !(e is StepIn) && !(e is StepOut),
        balanced(a),
    ensures
        balanced(seq![e] + a),
{
    lemma_one_flat(e);
    lemma_balanced_concat(seq![e], a);
}

/// Every text encoding of a shape opens and closes its containers in
/// order: the events form one well-nested Ion value.
pub proof fn lemma_text_balanced(s: LShapeV)
    ensures
        balanced(text_events(s)),
    decreases s,
{
    let t = variant_tag(s);
    let open = IonEventV::StepIn(IonContainer::Struct);
    let close = IonEventV::StepOut;
    match s {
        LShapeV::TBag(items) => {
            lemma_text_balanced(*items);
            let inner = seq![fname("items"@)] + text_events(*items);
            lemma_lead(fname("items"@), text_events(*items));
            lemma_balanced_wrap(IonContainer::Struct, inner);
            lemma_lead(tag(t), seq![open] + inner + seq![close]);
            assert(text_events(s) =~= seq![tag(t)] + (seq![open] + inner + seq![close]));
        },
        LShapeV::TArray(items) => {
            lemma_text_balanced(*items);
            let inner = seq![fname("items"@)] + text_events(*items);
            lemma_lead(fname("items"@), text_events(*items));
            lemma_balanced_wrap(IonContainer::Struct, inner);
            lemma_lead(tag(t), seq![open] + inner + seq![close]);
            assert(text_events(s) =~= seq![tag(t)] + (seq![open] + inner + seq![close]));
        },
        LShapeV::TStruct(fs) => {
            lemma_text_fields_balanced(fs);
            lemma_balanced_wrap(IonContainer::List, text_fields(fs));
            let list = seq![IonEventV::StepIn(IonContainer::List)] + text_fields(fs) + seq![close];
            lemma_lead(fname("fields"@), list);
            let inner = seq![fname("fields"@)] + list;
            lemma_balanced_wrap(IonContainer::Struct, inner);
            lemma_lead(tag(t), seq![open] + inner + seq![close]);
            assert(text_events(s) =~= seq![tag(t)] + (seq![open] + inner + seq![close]));
        },
        LShapeV::TUnion(vs) => {
            lemma_text_variants_balanced(vs);
            lemma_balanced_wrap(IonContainer::List, text_variants(vs));
            let list = seq![IonEventV::StepIn(IonContainer::List)] + text_variants(vs) + seq![close];
            lemma_lead(fname("variants"@), list);
            let inner = seq![fname("variants"@)] + list;
            lemma_balanced_wrap(IonContainer::Struct, inner);
            lemma_lead(tag(t), seq![open] + inner + seq![close]);
            assert(text_events(s) =~= seq![tag(t)] + (seq![open] + inner + seq![close]));
        },
        _ => {
            if is_parametric(s) {
                let m = int_members(members(s).0, members(s).1);
                lemma_int_members_flat(members(s).0, members(s).1);
                lemma_flat_balanced(m);
                lemma_balanced_wrap(IonContainer::Struct, m);
                lemma_lead(tag(t), seq![open] + m + seq![close]);
                assert(text_events(s) =~= seq![tag(t)] + (seq![open] + m + seq![close]));
            } else {
                lemma_one_flat(IonEventV::Symbol("unit"@));
                lemma_lead(tag(t), seq![IonEventV::Symbol("unit"@)]);
                assert(text_events(s) =~= seq![tag(t)] + seq![IonEventV::Symbol("unit"@)]);
            }
        },
    }
}

proof fn lemma_text_fields_balanced(fs: Seq<LFieldV>)
    ensures
        balanced(text_fields(fs)),
    decreases fs,
{
    if fs.len() == 0 {
        lemma_flat_balanced(text_fields(fs));
    } else {
        lemma_text_fields_balanced(fs.drop_last());
        lemma_text_field_balanced(fs.last());
        lemma_balanced_concat(text_fields(fs.drop_last()), text_field(fs.last()));
    }
}

proof fn lemma_text_field_balanced(f: LFieldV)
    ensures
        balanced(text_field(f)),
    decreases f,
{
    lemma_text_balanced(f.shape);
    let body = text_events(f.shape);
    lemma_lead(fname("shape"@), body);
    lemma_lead(IonEventV::String(f.name), seq![fname("shape"@)] + body);
    lemma_lead(fname("name"@), seq![IonEventV::String(f.name)] + (seq![fname("shape"@)] + body));
    let inner = seq![fname("name"@)] + (seq![IonEventV::String(f.name)] + (seq![fname("shape"@)] + body));
    lemma_balanced_wrap(IonContainer::Struct, inner);
    lemma_lead(tag("field"@), seq![IonEventV::StepIn(IonContainer::Struct)] + inner + seq![IonEventV::StepOut]);
    assert(text_field(f) =~= seq![tag("field"@)] + (seq![IonEventV::StepIn(IonContainer::Struct)] + inner + seq![IonEventV::StepOut]));
}

proof fn lemma_text_variants_balanced(vs: Seq<LShapeV>)
    ensures
        balanced(text_variants(vs)),
    decreases vs,
{
    if vs.len() == 0 {
        lemma_flat_balanced(text_variants(vs));
    } else {
        lemma_text_variants_balanced(vs.drop_last());
        lemma_text_balanced(vs.last());
        lemma_balanced_concat(text_variants(vs.drop_last()), text_events(vs.last()));
    }
}

/// Every packed encoding of a shape is one well-nested s-expression.
pub proof fn lemma_packed_balanced(s: LShapeV)
    ensures
        balanced(packed_events(s)),
    decreases s, 1nat,
{
    lemma_packed_body_balanced(s);
    lemma_lead(IonEventV::Int(variant_index(s)), packed_body(s));
    let inner = seq![IonEventV::Int(variant_index(s))] + packed_body(s);
    lemma_balanced_wrap(IonContainer::SExp, inner);
    assert(packed_events(s) =~= seq![IonEventV::StepIn(IonContainer::SExp)] + inner + seq![IonEventV::StepOut]);
}

proof fn lemma_packed_body_balanced(s: LShapeV)
    ensures
        balanced(packed_body(s)),
    decreases s, 0nat,
{
    let open = IonEventV::StepIn(IonContainer::SExp);
    let close = IonEventV::StepOut;
    match s {
        LShapeV::TBag(items) => {
            lemma_packed_balanced(*items);
            lemma_lead(fname("items"@), packed_events(*items));
            let inner = seq![fname("items"@)] + packed_events(*items);
            lemma_balanced_wrap(IonContainer::SExp, inner);
            assert(packed_body(s) =~= seq![open] + inner + seq![close]);
        },
        LShapeV::TArray(items) => {
            lemma_packed_balanced(*items);
            lemma_lead(fname("items"@), packed_events(*items));
            let inner = seq![fname("items"@)] + packed_events(*items);
            lemma_balanced_wrap(IonContainer::SExp, inner);
            assert(packed_body(s) =~= seq![open] + inner + seq![close]);
        },
        LShapeV::TStruct(fs) => {
            lemma_packed_fields_balanced(fs);
            lemma_balanced_wrap(IonContainer::List, packed_fields(fs));
            let list = seq![IonEventV::StepIn(IonContainer::List)] + packed_fields(fs) + seq![close];
            lemma_lead(fname("fields"@), list);
            let inner = seq![fname("fields"@)] + list;
            lemma_balanced_wrap(IonContainer::SExp, inner);
            assert(packed_body(s) =~= seq![open] + inner + seq![close]);
        },
        LShapeV::TUnion(vs) => {
            lemma_packed_variants_balanced(vs);
            lemma_balanced_wrap(IonContainer::List, packed_variants(vs));
            let list = seq![IonEventV::StepIn(IonContainer::List)] + packed_variants(vs) + seq![close];
            lemma_lead(fname("variants"@), list);
            let inner = seq![fname("variants"@)] + list;
            lemma_balanced_wrap(IonContainer::SExp, inner);
            assert(packed_body(s) =~= seq![open] + inner + seq![close]);
        },
        _ => {
            if is_parametric(s) {
                let m = int_members(members(s).0, members(s).1);
                lemma_int_members_flat(members(s).0, members(s).1);
                lemma_flat_balanced(m);
                lemma_balanced_wrap(IonContainer::SExp, m);
            } else {
                lemma_one_flat(IonEventV::Symbol("unit"@));
            }
        },
    }
}

proof fn lemma_packed_fields_balanced(fs: Seq<LFieldV>)
    ensures
        balanced(packed_fields(fs)),
    decreases fs, 0nat,
{
    if fs.len() == 0 {
        lemma_flat_balanced(packed_fields(fs));
    } else {
        lemma_packed_fields_balanced(fs.drop_last());
        lemma_packed_field_balanced(fs.last());
        lemma_balanced_concat(packed_fields(fs.drop_last()), packed_field(fs.last()));
    }
}

proof fn lemma_packed_field_balanced(f: LFieldV)
    ensures
        balanced(packed_field(f)),
    decreases f, 0nat,
{
    lemma_packed_balanced(f.shape);
    let body = packed_events(f.shape);
    lemma_lead(fname("shape"@), body);
    lemma_lead(IonEventV::String(f.name), seq![fname("shape"@)] + body);
    lemma_lead(fname("name"@), seq![IonEventV::String(f.name)] + (seq![fname("shape"@)] + body));
    let inner = seq![fname("name"@)] + (seq![IonEventV::String(f.name)] + (seq![fname("shape"@)] + body));
    lemma_balanced_wrap(IonContainer::SExp, inner);
    assert(packed_field(f) =~= seq![IonEventV::StepIn(IonContainer::SExp)] + inner + seq![IonEventV::StepOut]);
}

proof fn lemma_packed_variants_balanced(vs: Seq<LShapeV>)
    ensures
        balanced(packed_variants(vs)),
    decreases vs, 0nat,
{
    if vs.len() == 0 {
        lemma_flat_balanced(packed_variants(vs));
    } else {
        lemma_packed_variants_balanced(vs.drop_last());
        lemma_packed_balanced(vs.last());
        lemma_balanced_concat(packed_variants(vs.drop_last()), packed_events(vs.last()));
    }
}

/// The Linac shape of a PartiQL shape: dynamic is `TDynamic`, undefined is
/// `TUnknown`, a union is `TUnion`, date-times are timestamps of precision
/// 0, and sizes become `i64`.
pub open spec fn linac_of(s: ShapeV) -> LShapeV
    decreases s,
{
    match s {
        ShapeV::Dynamic => LShapeV::TDynamic,
        ShapeV::Undefined => LShapeV::TUnknown,
        ShapeV::AnyOf(v) => LShapeV::TUnion(linac_all(v)),
        ShapeV::Static(t) => match t {
            StaticV::Int => LShapeV::TInt,
            StaticV::Int8 => LShapeV::TInt8,
            StaticV::Int16 => LShapeV::TInt16,
            StaticV::Int32 => LShapeV::TInt32,
            StaticV::Int64 => LShapeV::TInt64,
            StaticV::Bool => LShapeV::TBool,
            StaticV::Decimal => LShapeV::TDecimal,
            StaticV::DecimalP(p, sc) => LShapeV::TNumeric(ShapeTNumeric { precision: p as i64, scale: sc as i64 }),
            StaticV::Float32 => LShapeV::TFloat32,
            StaticV::Float64 => LShapeV::TFloat64,
            StaticV::String => LShapeV::TString,
            StaticV::StringFixed(l) => LShapeV::TStringFixed(ShapeTStringFixed { length: l as i64 }),
            StaticV::StringVarying(l) => LShapeV::TStringVarying(ShapeTStringVarying { length: l as i64 }),
            StaticV::DateTime => LShapeV::TTimestamp(ShapeTTimestamp { precision: 0 }),
            StaticV::Struct(fs) => LShapeV::TStruct(linac_fields(fs)),
            StaticV::Bag(b) => LShapeV::TBag(Box::new(linac_of(*b))),
            StaticV::Array(a) => LShapeV::TArray(Box::new(linac_of(*a))),
        },
    }
}

pub open spec fn linac_all(v: Seq<ShapeV>) -> Seq<LShapeV>
    decreases v,
{
    if v.len() == 0 {
        Seq::empty()
    } else {
        linac_all(v.drop_last()).push(linac_of(v.last()))
    }
}

pub open spec fn linac_fields(fs: Seq<FieldV>) -> Seq<LFieldV>
    decreases fs,
{
    if fs.len() == 0 {
        Seq::empty()
    } else {
        linac_fields(fs.drop_last()).push(LFieldV { name: fs.last().name, shape: linac_of(fs.last().ty) })
    }
}

/// The Linac shape of a PartiQL shape.
pub fn to_shape(shape: &PartiqlShape) -> (r: Shape)
    ensures
        r@ == linac_of(shape@),
    decreases shape,
{
    match shape {
        PartiqlShape::Dynamic => Shape::TDynamic,
        PartiqlShape::Undefined => Shape::TUnknown,
        PartiqlShape::AnyOf(v) => Shape::TUnion(to_any_of(v)),
        PartiqlShape::Static(t) => match t {
            Static::Int => Shape::TInt,
            Static::Int8 => Shape::TInt8,
            Static::Int16 => Shape::TInt16,
            Static::Int32 => Shape::TInt32,
            Static::Int64 => Shape::TInt64,
            Static::Bool => Shape::TBool,
            Static::Decimal => Shape::TDecimal,
            Static::DecimalP(p, sc) => Shape::TNumeric(ShapeTNumeric { precision: *p as i64, scale: *sc as i64 }),
            Static::Float32 => Shape::TFloat32,
            Static::Float64 => Shape::TFloat64,
            Static::String => Shape::TString,
            Static::StringFixed(l) => Shape::TStringFixed(ShapeTStringFixed { length: *l as i64 }),
            Static::StringVarying(l) => Shape::TStringVarying(ShapeTStringVarying { length: *l as i64 }),
            Static::DateTime => Shape::TTimestamp(ShapeTTimestamp { precision: 0 }),
            Static::Struct(fs) => Shape::TStruct(to_struct(fs)),
            Static::Bag(b) => Shape::TBag(ShapeTBag { items: Box::new(to_shape(b)) }),
            Static::Array(a) => Shape::TArray(ShapeTArray { items: Box::new(to_shape(a)) }),
        },
    }
}

fn to_any_of(v: &Vec<PartiqlShape>) -> (r: ShapeTUnion)
    ensures
        lshapes_view(r.variants@) == linac_all(shapes_view(v@)),
    decreases v,
{
    let mut variants: Vec<Shape> = Vec::new();
    let mut i: usize = 0;
    proof { lemma_shapes_view(v@); }
    while i < v.len()
        invariant
            i <= v.len(),
            variants@.len() == i,
            shapes_view(v@).len() == v@.len(),
            forall|j: int| 0 <= j < v@.len() ==> #[trigger] shapes_view(v@)[j] == shape_view(v@[j]),
            lshapes_view(variants@) == linac_all(shapes_view(v@).take(i as int)),
        decreases v.len() - i,
    {
        let c = to_shape(&v[i]);
        let ghost r0 = variants@;
        variants.push(c);
        proof {
            assert(variants@.drop_last() =~= r0);
            assert(shapes_view(v@).take(i + 1).drop_last() =~= shapes_view(v@).take(i as int));
        }
        i += 1;
    }
    proof { assert(shapes_view(v@).take(v.len() as int) =~= shapes_view(v@)); }
    ShapeTUnion { variants }
}

fn to_struct(fs: &Vec<StructField>) -> (r: ShapeTStruct)
    ensures
        lfields_view(r.fields@) == linac_fields(fields_view(fs@)),
    decreases fs,
{
    let mut fields: Vec<Field> = Vec::new();
    let mut i: usize = 0;
    proof { lemma_fields_view(fs@); }
    while i < fs.len()
        invariant
            i <= fs.len(),
            fields@.len() == i,
            fields_view(fs@).len() == fs@.len(),
            forall|j: int| 0 <= j < fs@.len() ==> #[trigger] fields_view(fs@)[j] == (FieldV { name: fs@[j].name@, ty: shape_view(fs@[j].ty) }),
            lfields_view(fields@) == linac_fields(fields_view(fs@).take(i as int)),
        decreases fs.len() - i,
    {
        let shape = to_shape(&fs[i].ty);
        let ghost r0 = fields@;
        fields.push(Field { name: fs[i].name.clone(), shape: Box::new(shape) });
        proof {
            assert(fields@.drop_last() =~= r0);
            assert(fields_view(fs@).take(i + 1).drop_last() =~= fields_view(fs@).take(i as int));
        }
        i += 1;
    }
    proof { assert(fields_view(fs@).take(fs.len() as int) =~= fields_view(fs@)); }
    ShapeTStruct { fields }
}

/// Encodes PartiQL shapes in the Linac text encoding.
#[derive(Debug)]
pub struct LinacShapeEncoder {
    pub writer: LinacWriterText,
}

/// The annotations of each dataset's shape.
pub open spec fn shape_annotations() -> Seq<Seq<char>> {
    seq!["partiql"@, "shape"@, "v0"@]
}

/// The events of the datasets from the `k`-th on: each dataset's name, the
/// annotations, then its shape by `enc`.
pub open spec fn dataset_shapes(ds: Seq<(Seq<char>, ShapeV)>, enc: spec_fn(ShapeV) -> Seq<IonEventV>) -> Seq<IonEventV>
    decreases ds.len(),
{
    if ds.len() == 0 {
        Seq::empty()
    } else {
        dataset_shapes(ds.drop_last(), enc)
            + seq![IonEventV::FieldName(ds.last().0), IonEventV::Annotate(shape_annotations())]
            + enc(ds.last().1)
    }
}

pub open spec fn datasets_view(v: Seq<NameAndShape>) -> Seq<(Seq<char>, ShapeV)> {
    v.map_values(|d: NameAndShape| (d.name@, d.shape@))
}

pub open spec fn linac_text_of(s: ShapeV) -> Seq<IonEventV> {
    text_events(linac_of(s))
}

/// The Linac document of a simulation's shapes: a struct of the seed (as a
/// signed 64-bit integer) and a struct of the datasets' shapes.
pub open spec fn linac_datasets_events(seed: u64, ds: Seq<(Seq<char>, ShapeV)>) -> Seq<IonEventV> {
    seq![IonEventV::StepIn(IonContainer::Struct), fname("seed"@), IonEventV::Int(seed as i64),
        fname("shapes"@), IonEventV::StepIn(IonContainer::Struct)]
        + dataset_shapes(ds, |s: ShapeV| linac_text_of(s))
        + seq![IonEventV::StepOut, IonEventV::StepOut]
}

pub fn annotate_shape(w: &mut RidlWriter)
    ensures
        events_view(final(w).events@) == events_view(old(w).events@).push(IonEventV::Annotate(shape_annotations())),
{
    let mut a: Vec<String> = Vec::new();
    a.push(String::from_str("partiql"));
    a.push(String::from_str("shape"));
    a.push(String::from_str("v0"));
    let ghost before = events_view(w.events@);
    proof { assert(crate::ion::texts_view(a@) =~= shape_annotations()); }
    w.events.push(crate::ion::IonEvent::Annotate(a));
    proof { assert(events_view(w.events@) =~= before.push(IonEventV::Annotate(shape_annotations()))); }
}

impl LinacShapeEncoder {
    pub fn new() -> (e: Self)
        ensures
            writer_events(e.writer.writer) == Seq::<IonEventV>::empty(),
    {
        LinacShapeEncoder { writer: LinacWriterText::new() }
    }

    /// Writes a shape in the Linac text encoding.
    pub fn write_shape(&mut self, shape: &PartiqlShape) -> (r: Result<(), ShapeEncodingError>)
        ensures
            r is Ok,
            writer_events(final(self).writer.writer) == writer_events(old(self).writer.writer) + linac_text_of(shape@),
    {
        let model = to_shape(shape);
        match self.writer.write_shape(&model) {
            Ok(()) => Ok(()),
            Err(_) => Err(ShapeEncodingError::UnsupportedEncoding(String::new())),
        }
    }

    /// Writes the shapes of a simulation's datasets, after its seed.
    pub fn write_datasets(&mut self, seed: u64, shapes: &Vec<NameAndShape>) -> (r: Result<(), ShapeEncodingError>)
        ensures
            r is Ok,
            writer_events(final(self).writer.writer) == writer_events(old(self).writer.writer)
                + linac_datasets_events(seed, datasets_view(shapes@)),
    {
        let ghost before = writer_events(self.writer.writer);
        let ghost dv = datasets_view(shapes@);
        let w = &mut self.writer.writer;
        let _ = w.step_in(IonContainer::Struct);
        w.set_field_name("seed");
        let _ = w.write_int(seed as i64);
        w.set_field_name("shapes");
        let _ = w.step_in(IonContainer::Struct);
        let ghost head = writer_events(self.writer.writer);
        let mut i: usize = 0;
        proof { assert(dv.take(0) =~= Seq::<(Seq<char>, ShapeV)>::empty()); assert(head + Seq::<IonEventV>::empty() =~= head); }
        while i < shapes.len()
            invariant
                i <= shapes@.len(),
                dv == datasets_view(shapes@),
                dv.len() == shapes@.len(),
                writer_events(self.writer.writer) == head + dataset_shapes(dv.take(i as int), |s: ShapeV| linac_text_of(s)),
            decreases shapes@.len() - i,
        {
            let ghost pre = dv.take(i + 1);
            proof {
                assert(pre.drop_last() =~= dv.take(i as int));
                assert(pre.last() == (shapes@[i as int].name@, shapes@[i as int].shape@));
            }
            self.writer.writer.set_field_name(shapes[i].name.as_str());
            annotate_shape(&mut self.writer.writer);
            let _ = self.write_shape(&shapes[i].shape);
            proof {
                assert(writer_events(self.writer.writer) =~= head + dataset_shapes(pre, |s: ShapeV| linac_text_of(s)));
            }
            i += 1;
        }
        proof { assert(dv.take(dv.len() as int) =~= dv); }
        let _ = self.writer.writer.step_out();
        let _ = self.writer.writer.step_out();
        proof {
            assert(writer_events(self.writer.writer) =~= before + linac_datasets_events(seed, dv));
        }
        Ok(())
    }
}

proof fn lemma_dataset_shapes_balanced(ds: Seq<(Seq<char>, ShapeV)>, enc: spec_fn(ShapeV) -> Seq<IonEventV>)
    requires
        forall|s: ShapeV| balanced(#[trigger] enc(s)),
    ensures
        balanced(dataset_shapes(ds, enc)),
    decreases ds.len(),
{
    if ds.len() == 0 {
        lemma_flat_balanced(dataset_shapes(ds, enc));
    } else {
        lemma_dataset_shapes_balanced(ds.drop_last(), enc);
        let one = enc(ds.last().1);
        lemma_lead(IonEventV::Annotate(shape_annotations()), one);
        lemma_lead(IonEventV::FieldName(ds.last().0), seq![IonEventV::Annotate(shape_annotations())] + one);
        lemma_balanced_concat(dataset_shapes(ds.drop_last(), enc),
            seq![IonEventV::FieldName(ds.last().0)] + (seq![IonEventV::Annotate(shape_annotations())] + one));
        assert(dataset_shapes(ds, enc) =~= dataset_shapes(ds.drop_last(), enc)
            + (seq![IonEventV::FieldName(ds.last().0)] + (seq![IonEventV::Annotate(shape_annotations())] + one)));
    }
}

/// A document of dataset shapes, written by any encoder whose shapes are
/// balanced, is one well-nested Ion struct.
pub proof fn lemma_document_balanced(head: Seq<IonEventV>, ds: Seq<(Seq<char>, ShapeV)>, enc: spec_fn(ShapeV) -> Seq<IonEventV>)
    requires
        flat(head),
        forall|s: ShapeV| balanced(#[trigger] enc(s)),
    ensures
        balanced(seq![IonEventV::StepIn(IonContainer::Struct)] + head
            + seq![IonEventV::StepIn(IonContainer::Struct)] + dataset_shapes(ds, enc)
            + seq![IonEventV::StepOut, IonEventV::StepOut]),
{
    lemma_dataset_shapes_balanced(ds, enc);
    lemma_balanced_wrap(IonContainer::Struct, dataset_shapes(ds, enc));
    let inner_struct = seq![IonEventV::StepIn(IonContainer::Struct)] + dataset_shapes(ds, enc) + seq![IonEventV::StepOut];
    lemma_flat_balanced(head);
    lemma_balanced_concat(head, inner_struct);
    lemma_balanced_wrap(IonContainer::Struct, head + inner_struct);
    assert(seq![IonEventV::StepIn(IonContainer::Struct)] + head
            + seq![IonEventV::StepIn(IonContainer::Struct)] + dataset_shapes(ds, enc)
            + seq![IonEventV::StepOut, IonEventV::StepOut]
        =~= seq![IonEventV::StepIn(IonContainer::Struct)] + (head + inner_struct) + seq![IonEventV::StepOut]);
}

/// The Linac document of a simulation's shapes is one well-nested Ion
/// struct.
pub proof fn lemma_linac_document_balanced(seed: u64, ds: Seq<(Seq<char>, ShapeV)>)
    ensures
        balanced(linac_datasets_events(seed, ds)),
{
    let head = seq![fname("seed"@), IonEventV::Int(seed as i64), fname("shapes"@)];
    assert forall|s: ShapeV| balanced(#[trigger] linac_text_of(s)) by {
        lemma_text_balanced(linac_of(s));
    }
    let enc = |s: ShapeV| linac_text_of(s);
    assert forall|s: ShapeV| balanced(#[trigger] enc(s)) by {
        assert(enc(s) == linac_text_of(s));
    }
    lemma_document_balanced(head, ds, enc);
    assert(linac_datasets_events(seed, ds) =~= seq![IonEventV::StepIn(IonContainer::Struct)] + head
            + seq![IonEventV::StepIn(IonContainer::Struct)] + dataset_shapes(ds, enc)
            + seq![IonEventV::StepOut, IonEventV::StepOut]);
}

} // verus!
