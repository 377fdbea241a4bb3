//! The PartiQL Kollider encoding of dataset shapes: type names as strings,
//! and structs describing containers, constrained decimals and unions.
use vstd::prelude::*;
use crate::ddl::ShapeEncodingError;
use crate::ion::{IonContainer, IonEventV, RidlWriter, events_view, balanced, flat, lemma_balanced_concat, lemma_balanced_wrap, lemma_flat_balanced};
use crate::linac::{fname, dataset_shapes, datasets_view, annotate_shape, lemma_lead, lemma_document_balanced};
use crate::text::{decimal, push_decimal};
use crate::shape::{PartiqlShape, Static, StructField, NameAndShape, ShapeV, StaticV, FieldV, shape_view, shapes_view, fields_view, lemma_shapes_view, lemma_fields_view};

verus! {

/// Shapes the Kollider encoding has a form for: no undefined types and no
/// fixed- or varying-length strings, at any depth.
pub open spec fn kollider_supported(s: ShapeV) -> bool
    decreases s,
{
    match s {
        ShapeV::Dynamic => true,
        ShapeV::Undefined => false,
        ShapeV::AnyOf(v) => kollider_supported_all(v),
        ShapeV::Static(t) => match t {
            StaticV::StringFixed(_) => false,
            StaticV::StringVarying(_) => false,
            StaticV::Struct(fs) => kollider_supported_fields(fs),
            StaticV::Bag(b) => kollider_supported(*b),
            StaticV::Array(a) => kollider_supported(*a),
            _ => true,
        },
    }
}

pub open spec fn kollider_supported_all(v: Seq<ShapeV>) -> bool
    decreases v,
{
    if v.len() == 0 {
        true
    } else {
        kollider_supported_all(v.drop_last()) && kollider_supported(v.last())
    }
}

pub open spec fn kollider_supported_fields(fs: Seq<FieldV>) -> bool
    decreases fs,
{
    if fs.len() == 0 {
        true
    } else {
        kollider_supported_fields(fs.drop_last()) && kollider_supported(fs.last().ty)
    }
}

/// The Kollider type name of a scalar type.
pub open spec fn kollider_typename(t: StaticV) -> Seq<char> {
    match t {
        StaticV::Int => "int"@,
        StaticV::Int8 => "tinyint"@,
        StaticV::Int16 => "smallint"@,
        StaticV::Int32 => "integer"@,
        StaticV::Int64 => "int8"@,
        StaticV::Bool => "bool"@,
        StaticV::Decimal => "decimal"@,
        StaticV::DateTime => "datetime"@,
        StaticV::Float32 => "real"@,
        StaticV::Float64 => "double"@,
        _ => "string"@,
    }
}

/// The Kollider type name of a decimal of a precision and a scale:
/// `decimal(<precision>, <scale>)`.
pub open spec fn decimal_typename(p: nat, sc: nat) -> Seq<char> {
    "decimal("@ + decimal(p) + ", "@ + decimal(sc) + ")"@
}

/// The Kollider encoding of a shape.
pub open spec fn kollider_events(s: ShapeV) -> Seq<IonEventV>
    decreases s,
{
    let open = IonEventV::StepIn(IonContainer::Struct);
    let list = IonEventV::StepIn(IonContainer::List);
    let close = IonEventV::StepOut;
    match s {
        ShapeV::Dynamic => seq![IonEventV::String("any"@)],
        ShapeV::Undefined => Seq::empty(),
        ShapeV::AnyOf(v) => seq![open, fname("name"@), IonEventV::String("union"@), fname("types"@), list]
            + kollider_all(v) + seq![close, close],
        ShapeV::Static(t) => match t {
            StaticV::DecimalP(p, sc) => seq![IonEventV::String(decimal_typename(p as nat, sc as nat))],
            StaticV::Struct(fs) => seq![open, fname("type"@), IonEventV::String("struct"@), fname("constraints"@), list,
                IonEventV::Symbol("ordered"@), IonEventV::Symbol("closed"@), close, fname("fields"@), list]
                + kollider_fields(fs) + seq![close, close],
            StaticV::Bag(b) => seq![open, fname("type"@), IonEventV::String("bag"@), fname("items"@)]
                + kollider_events(*b) + seq![close],
            StaticV::Array(a) => seq![open, fname("type"@), IonEventV::String("list"@), fname("items"@)]
                + kollider_events(*a) + seq![close],
            StaticV::StringFixed(_) => Seq::empty(),
            StaticV::StringVarying(_) => Seq::empty(),
            _ => seq![IonEventV::String(kollider_typename(t))],
        },
    }
}

pub open spec fn kollider_all(v: Seq<ShapeV>) -> Seq<IonEventV>
    decreases v,
{
    if v.len() == 0 {
        Seq::empty()
    } else {
        kollider_all(v.drop_last()) + kollider_events(v.last())
    }
}

/// A struct field: a struct of its name and its type.
pub open spec fn kollider_field(f: FieldV) -> Seq<IonEventV>
    decreases f,
{
    seq![IonEventV::StepIn(IonContainer::Struct), fname("name"@), IonEventV::String(f.name), fname("type"@)]
        + kollider_events(f.ty) + seq![IonEventV::StepOut]
}

pub open spec fn kollider_fields(fs: Seq<FieldV>) -> Seq<IonEventV>
    decreases fs,
{
    if fs.len() == 0 {
        Seq::empty()
    } else {
        kollider_fields(fs.drop_last()) + kollider_field(fs.last())
    }
}

/// The Kollider document of a simulation's shapes: a struct of the seed (as
/// a signed 64-bit integer), the start time (an Ion timestamp text) and a
/// struct of the datasets' shapes.
pub open spec fn kollider_datasets_events(seed: u64, start: Seq<char>, ds: Seq<(Seq<char>, ShapeV)>) -> Seq<IonEventV> {
    seq![IonEventV::StepIn(IonContainer::Struct), fname("seed"@), IonEventV::Int(seed as i64),
        fname("start"@), IonEventV::IonText(start), fname("shapes"@), IonEventV::StepIn(IonContainer::Struct)]
        + dataset_shapes(ds, |s: ShapeV| kollider_events(s))
        + seq![IonEventV::StepOut, IonEventV::StepOut]
}

pub open spec fn kollider_supported_datasets(ds: Seq<(Seq<char>, ShapeV)>) -> bool {
    forall|i: int| 0 <= i < ds.len() ==> kollider_supported(#[trigger] ds[i].1)
}

pub open spec fn encoder_events(e: PartiqlKolliderEncoder) -> Seq<IonEventV> {
    events_view(e.writer.events@)
}

/// Encodes shapes in the PartiQL Kollider encoding.
#[derive(Debug)]
pub struct PartiqlKolliderEncoder {
    pub writer: RidlWriter,
}

impl PartiqlKolliderEncoder {
    pub fn new() -> (e: Self)
        ensures
            encoder_events(e) == Seq::<IonEventV>::empty(),
    {
        let e = PartiqlKolliderEncoder { writer: RidlWriter::new() };
        proof { assert(encoder_events(e) =~= Seq::<IonEventV>::empty()); }
        e
    }

    /// Writes a shape.
    pub fn write_shape(&mut self, shape: &PartiqlShape) -> (r: Result<(), ShapeEncodingError>)
        requires
            kollider_supported(shape@),
        ensures
            r is Ok,
            encoder_events(*final(self)) == encoder_events(*old(self)) + kollider_events(shape@),
        decreases shape, 1nat,
    {
        let ghost before = encoder_events(*self);
        match shape {
            PartiqlShape::Dynamic => self.write_typename("any"),
            PartiqlShape::AnyOf(v) => self.write_union(v),
            PartiqlShape::Static(t) => match t {
                Static::Int => self.write_typename("int"),
                Static::Int8 => self.write_typename("tinyint"),
                Static::Int16 => self.write_typename("smallint"),
                Static::Int32 => self.write_typename("integer"),
                Static::Int64 => self.write_typename("int8"),
                Static::Bool => self.write_typename("bool"),
                Static::Decimal => self.write_typename("decimal"),
                Static::DecimalP(p, sc) => self.write_constrained_decimal(*p, *sc),
                Static::DateTime => self.write_typename("datetime"),
                Static::Float32 => self.write_typename("real"),
                Static::Float64 => self.write_typename("double"),
                Static::String => self.write_typename("string"),
                Static::Struct(fs) => self.write_struct(fs),
                Static::Bag(b) => self.write_collection("bag", b),
                Static::Array(a) => self.write_collection("list", a),
                Static::StringFixed(_) => Ok(()),
                Static::StringVarying(_) => Ok(()),
            },
            PartiqlShape::Undefined => Ok(()),
        }
    }

    fn write_typename(&mut self, tyn: &str) -> (r: Result<(), ShapeEncodingError>)
        ensures
            r is Ok,
            encoder_events(*final(self)) == encoder_events(*old(self)) + seq![IonEventV::String(tyn@)],
    {
        let ghost before = encoder_events(*self);
        let _ = self.writer.write_string(tyn);
        proof { assert(encoder_events(*self) =~= before + seq![IonEventV::String(tyn@)]); }
        Ok(())
    }

    /// A bag (`bag`) or an array (`list`) of items.
    fn write_collection(&mut self, kind: &str, items: &PartiqlShape) -> (r: Result<(), ShapeEncodingError>)
        requires
            kollider_supported(items@),
        ensures
            r is Ok,
            encoder_events(*final(self)) == encoder_events(*old(self))
                + seq![IonEventV::StepIn(IonContainer::Struct), fname("type"@), IonEventV::String(kind@), fname("items"@)]
                + kollider_events(items@) + seq![IonEventV::StepOut],
        decreases items, 2nat,
    {
        let ghost before = encoder_events(*self);
        let _ = self.writer.step_in(IonContainer::Struct);
        self.writer.set_field_name("type");
        let _ = self.writer.write_string(kind);
        self.writer.set_field_name("items");
        let _ = self.write_shape(items);
        let _ = self.writer.step_out();
        proof {
            assert(encoder_events(*self) =~= before
                + seq![IonEventV::StepIn(IonContainer::Struct), fname("type"@), IonEventV::String(kind@), fname("items"@)]
                + kollider_events(items@) + seq![IonEventV::StepOut]);
        }
        Ok(())
    }

    fn write_constrained_decimal(&mut self, p: usize, sc: usize) -> (r: Result<(), ShapeEncodingError>)
        ensures
            r is Ok,
            encoder_events(*final(self)) == encoder_events(*old(self))
                + kollider_events(ShapeV::Static(StaticV::DecimalP(p, sc))),
    {
        let ghost before = encoder_events(*self);
        let mut tyn = String::from_str("decimal(");
        push_decimal(&mut tyn, p as u64);
        tyn.append(", ");
        push_decimal(&mut tyn, sc as u64);
        tyn.append(")");
        proof { assert(tyn@ =~= decimal_typename(p as nat, sc as nat)); }
        self.write_typename(tyn.as_str())
    }

    fn write_struct(&mut self, fs: &Vec<StructField>) -> (r: Result<(), ShapeEncodingError>)
        requires
            kollider_supported_fields(fields_view(fs@)),
        ensures
            r is Ok,
            encoder_events(*final(self)) == encoder_events(*old(self))
                + kollider_events(ShapeV::Static(StaticV::Struct(fields_view(fs@)))),
        decreases fs, 0nat,
    {
        let ghost before = encoder_events(*self);
        let ghost fv = fields_view(fs@);
        proof { lemma_fields_view(fs@); lemma_supported_fields(fv); }
        let _ = self.writer.step_in(IonContainer::Struct);
        self.writer.set_field_name("type");
        let _ = self.writer.write_string("struct");
        self.writer.set_field_name("constraints");
        let _ = self.writer.step_in(IonContainer::List);
        let _ = self.writer.write_symbol("ordered");
        let _ = self.writer.write_symbol("closed");
        let _ = self.writer.step_out();
        self.writer.set_field_name("fields");
        let _ = self.writer.step_in(IonContainer::List);
        let ghost head = encoder_events(*self);
        let mut i: usize = 0;
        proof { assert(fv.take(0) =~= Seq::<FieldV>::empty()); assert(head + Seq::<IonEventV>::empty() =~= head); }
        while i < fs.len()
            invariant
                i <= fs@.len(),
                fv == fields_view(fs@),
                fv.len() == fs@.len(),
                forall|j: int| 0 <= j < fs@.len() ==> #[trigger] fv[j] == (FieldV { name: fs@[j].name@, ty: shape_view(fs@[j].ty) }),
                forall|j: int| 0 <= j < fv.len() ==> kollider_supported(#[trigger] fv[j].ty),
                encoder_events(*self) == head + kollider_fields(fv.take(i as int)),
            decreases fs@.len() - i,
        {
            let ghost pre = fv.take(i + 1);
            proof {
                assert(pre.drop_last() =~= fv.take(i as int));
                assert(pre.last() == fv[i as int]);
            }
            let ghost b = encoder_events(*self);
            proof { assert(kollider_supported(fv[i as int].ty)); }
            let _ = self.writer.step_in(IonContainer::Struct);
            self.writer.set_field_name("name");
            let _ = self.writer.write_string(fs[i].name.as_str());
            self.writer.set_field_name("type");
            let _ = self.write_shape(&fs[i].ty);
            let _ = self.writer.step_out();
            proof {
                assert(encoder_events(*self) =~= b + kollider_field(fv[i as int]));
                assert(encoder_events(*self) =~= head + kollider_fields(pre));
            }
            i += 1;
        }
        proof { assert(fv.take(fv.len() as int) =~= fv); }
        let _ = self.writer.step_out();
        let _ = self.writer.step_out();
        proof {
            assert(encoder_events(*self) =~= before + kollider_events(ShapeV::Static(StaticV::Struct(fv))));
        }
        Ok(())
    }

    fn write_union(&mut self, v: &Vec<PartiqlShape>) -> (r: Result<(), ShapeEncodingError>)
        requires
            kollider_supported_all(shapes_view(v@)),
        ensures
            r is Ok,
            encoder_events(*final(self)) == encoder_events(*old(self)) + kollider_events(ShapeV::AnyOf(shapes_view(v@))),
        decreases v, 0nat,
    {
        let ghost before = encoder_events(*self);
        let ghost sv = shapes_view(v@);
        proof { lemma_shapes_view(v@); lemma_supported_all(sv); }
        let _ = self.writer.step_in(IonContainer::Struct);
        self.writer.set_field_name("name");
        let _ = self.writer.write_string("union");
        self.writer.set_field_name("types");
        let _ = self.writer.step_in(IonContainer::List);
        let ghost head = encoder_events(*self);
        let mut i: usize = 0;
        proof { assert(sv.take(0) =~= Seq::<ShapeV>::empty()); assert(head + Seq::<IonEventV>::empty() =~= head); }
        while i < v.len()
            invariant
                i <= v@.len(),
                sv == shapes_view(v@),
                sv.len() == v@.len(),
                forall|j: int| 0 <= j < v@.len() ==> #[trigger] sv[j] == shape_view(v@[j]),
                forall|j: int| 0 <= j < sv.len() ==> kollider_supported(#[trigger] sv[j]),
                encoder_events(*self) == head + kollider_all(sv.take(i as int)),
            decreases v@.len() - i,
        {
            let ghost pre = sv.take(i + 1);
            proof {
                assert(pre.drop_last() =~= sv.take(i as int));
                assert(pre.last() == sv[i as int]);
            }
            let _ = self.write_shape(&v[i]);
            proof {
                assert(encoder_events(*self) =~= head + kollider_all(pre));
            }
            i += 1;
        }
        proof { assert(sv.take(sv.len() as int) =~= sv); }
        let _ = self.writer.step_out();
        let _ = self.writer.step_out();
        proof {
            assert(encoder_events(*self) =~= before + kollider_events(ShapeV::AnyOf(sv)));
        }
        Ok(())
    }

    /// Writes the shapes of a simulation's datasets, after its seed and its
    /// start time (as an Ion timestamp text).
    pub fn write_datasets(&mut self, seed: u64, start: &str, shapes: &Vec<NameAndShape>) -> (r: Result<(), ShapeEncodingError>)
        requires
            kollider_supported_datasets(datasets_view(shapes@)),
        ensures
            r is Ok,
            encoder_events(*final(self)) == encoder_events(*old(self))
                + kollider_datasets_events(seed, start@, datasets_view(shapes@)),
    {
        let ghost before = encoder_events(*self);
        let ghost dv = datasets_view(shapes@);
        let _ = self.writer.step_in(IonContainer::Struct);
        self.writer.set_field_name("seed");
        let _ = self.writer.write_int(seed as i64);
        self.writer.set_field_name("start");
        let _ = self.writer.write_ion_text(start);
        self.writer.set_field_name("shapes");
        let _ = self.writer.step_in(IonContainer::Struct);
        let ghost head = encoder_events(*self);
        let mut i: usize = 0;
        proof { assert(dv.take(0) =~= Seq::<(Seq<char>, ShapeV)>::empty()); assert(head + Seq::<IonEventV>::empty() =~= head); }
        while i < shapes.len()
            invariant
                i <= shapes@.len(),
                dv == datasets_view(shapes@),
                dv.len() == shapes@.len(),
                kollider_supported_datasets(dv),
                encoder_events(*self) == head + dataset_shapes(dv.take(i as int), |s: ShapeV| kollider_events(s)),
            decreases shapes@.len() - i,
        {
            let ghost pre = dv.take(i + 1);
            proof {
                assert(pre.drop_last() =~= dv.take(i as int));
                assert(pre.last() == (shapes@[i as int].name@, shapes@[i as int].shape@));
                assert(kollider_supported(dv[i as int].1));
            }
            self.writer.set_field_name(shapes[i].name.as_str());
            annotate_shape(&mut self.writer);
            let _ = self.write_shape(&shapes[i].shape);
            proof {
                assert(encoder_events(*self) =~= head + dataset_shapes(pre, |s: ShapeV| kollider_events(s)));
            }
            i += 1;
        }
        proof { assert(dv.take(dv.len() as int) =~= dv); }
        let _ = self.writer.step_out();
        let _ = self.writer.step_out();
        proof {
            assert(encoder_events(*self) =~= before + kollider_datasets_events(seed, start@, dv));
        }
        Ok(())
    }
}

proof fn lemma_supported_all(v: Seq<ShapeV>)
    requires
        kollider_supported_all(v),
    ensures
        forall|j: int| 0 <= j < v.len() ==> kollider_supported(#[trigger] v[j]),
    decreases v.len(),
{
    if v.len() > 0 {
        lemma_supported_all(v.drop_last());
        assert forall|j: int| 0 <= j < v.len() implies kollider_supported(#[trigger] v[j]) by {
            if j < v.len() - 1 {
                assert(v.drop_last()[j] == v[j]);
            }
        }
    }
}

proof fn lemma_supported_fields(fs: Seq<FieldV>)
    requires
        kollider_supported_fields(fs),
    ensures
        forall|j: int| 0 <= j < fs.len() ==> kollider_supported(#[trigger] fs[j].ty),
    decreases fs.len(),
{
    if fs.len() > 0 {
        lemma_supported_fields(fs.drop_last());
        assert forall|j: int| 0 <= j < fs.len() implies kollider_supported(#[trigger] fs[j].ty) by {
            if j < fs.len() - 1 {
                assert(fs.drop_last()[j] == fs[j]);
            }
        }
    }
}

/// Every Kollider encoding of a shape is one well-nested Ion value.
pub proof fn lemma_kollider_balanced(s: ShapeV)
    ensures
        balanced(kollider_events(s)),
    decreases s,
{
    let open = IonEventV::StepIn(IonContainer::Struct);
    let list = IonEventV::StepIn(IonContainer::List);
    let close = IonEventV::StepOut;
    match s {
        ShapeV::AnyOf(v) => {
            lemma_kollider_all_balanced(v);
            lemma_balanced_wrap(IonContainer::List, kollider_all(v));
            let l = seq![list] + kollider_all(v) + seq![close];
            lemma_lead(fname("types"@), l);
            lemma_lead(IonEventV::String("union"@), seq![fname("types"@)] + l);
            lemma_lead(fname("name"@), seq![IonEventV::String("union"@)] + (seq![fname("types"@)] + l));
            let inner = seq![fname("name"@)] + (seq![IonEventV::String("union"@)] + (seq![fname("types"@)] + l));
            lemma_balanced_wrap(IonContainer::Struct, inner);
            assert(kollider_events(s) =~= seq![open] + inner + seq![close]);
        },
        ShapeV::Static(t) => match t {
            StaticV::Struct(fs) => {
                lemma_kollider_fields_balanced(fs);
                lemma_balanced_wrap(IonContainer::List, kollider_fields(fs));
                let l = seq![list] + kollider_fields(fs) + seq![close];
                let cons = seq![IonEventV::Symbol("ordered"@), IonEventV::Symbol("closed"@)];
                assert(flat(cons)) by {
                    assert forall|i: int| 0 <= i < cons.len() implies !(#[trigger] cons[i] is StepIn) && !(cons[i] is StepOut) by {}
                }
                lemma_flat_balanced(cons);
                lemma_balanced_wrap(IonContainer::List, cons);
                let c = seq![list] + cons + seq![close];
                let head = seq![fname("type"@), IonEventV::String("struct"@), fname("constraints"@)];
                assert(flat(head)) by {
                    assert forall|i: int| 0 <= i < head.len() implies !(#[trigger] head[i] is StepIn) && !(head[i] is StepOut) by {}
                }
                lemma_flat_balanced(head);
                lemma_lead(fname("fields"@), l);
                lemma_balanced_concat(c, seq![fname("fields"@)] + l);
                lemma_balanced_concat(head, c + (seq![fname("fields"@)] + l));
                let inner = head + (c + (seq![fname("fields"@)] + l));
                lemma_balanced_wrap(IonContainer::Struct, inner);
                assert(kollider_events(s) =~= seq![open] + inner + seq![close]);
            },
            StaticV::Bag(b) => {
                lemma_kollider_balanced(*b);
                let inner = seq![fname("type"@), IonEventV::String("bag"@), fname("items"@)] + kollider_events(*b);
                lemma_lead(fname("items"@), kollider_events(*b));
                lemma_lead(IonEventV::String("bag"@), seq![fname("items"@)] + kollider_events(*b));
                lemma_lead(fname("type"@), seq![IonEventV::String("bag"@)] + (seq![fname("items"@)] + kollider_events(*b)));
                assert(inner =~= seq![fname("type"@)] + (seq![IonEventV::String("bag"@)] + (seq![fname("items"@)] + kollider_events(*b))));
                lemma_balanced_wrap(IonContainer::Struct, inner);
                assert(kollider_events(s) =~= seq![open] + inner + seq![close]);
            },
            StaticV::Array(a) => {
                lemma_kollider_balanced(*a);
                let inner = seq![fname("type"@), IonEventV::String("list"@), fname("items"@)] + kollider_events(*a);
                lemma_lead(fname("items"@), kollider_events(*a));
                lemma_lead(IonEventV::String("list"@), seq![fname("items"@)] + kollider_events(*a));
                lemma_lead(fname("type"@), seq![IonEventV::String("list"@)] + (seq![fname("items"@)] + kollider_events(*a)));
                assert(inner =~= seq![fname("type"@)] + (seq![IonEventV::String("list"@)] + (seq![fname("items"@)] + kollider_events(*a))));
                lemma_balanced_wrap(IonContainer::Struct, inner);
                assert(kollider_events(s) =~= seq![open] + inner + seq![close]);
            },
            _ => {
                lemma_flat_balanced(kollider_events(s));
            },
        },
        _ => {
            lemma_flat_balanced(kollider_events(s));
        },
    }
}

proof fn lemma_kollider_all_balanced(v: Seq<ShapeV>)
    ensures
        balanced(kollider_all(v)),
    decreases v,
{
    if v.len() == 0 {
        lemma_flat_balanced(kollider_all(v));
    } else {
        lemma_kollider_all_balanced(v.drop_last());
        lemma_kollider_balanced(v.last());
        lemma_balanced_concat(kollider_all(v.drop_last()), kollider_events(v.last()));
    }
}

proof fn lemma_kollider_field_balanced(f: FieldV)
    ensures
        balanced(kollider_field(f)),
    decreases f,
{
    lemma_kollider_balanced(f.ty);
    let body = kollider_events(f.ty);
    lemma_lead(fname("type"@), body);
    lemma_lead(IonEventV::String(f.name), seq![fname("type"@)] + body);
    lemma_lead(fname("name"@), seq![IonEventV::String(f.name)] + (seq![fname("type"@)] + body));
    let inner = seq![fname("name"@)] + (seq![IonEventV::String(f.name)] + (seq![fname("type"@)] + body));
    lemma_balanced_wrap(IonContainer::Struct, inner);
    assert(kollider_field(f) =~= seq![IonEventV::StepIn(IonContainer::Struct)] + inner + seq![IonEventV::StepOut]);
}

proof fn lemma_kollider_fields_balanced(fs: Seq<FieldV>)
    ensures
        balanced(kollider_fields(fs)),
    decreases fs,
{
    if fs.len() == 0 {
        lemma_flat_balanced(kollider_fields(fs));
    } else {
        lemma_kollider_fields_balanced(fs.drop_last());
        lemma_kollider_field_balanced(fs.last());
        lemma_balanced_concat(kollider_fields(fs.drop_last()), kollider_field(fs.last()));
    }
}

/// The Kollider document of a simulation's shapes is one well-nested Ion
/// struct.
pub proof fn lemma_kollider_document_balanced(seed: u64, start: Seq<char>, ds: Seq<(Seq<char>, ShapeV)>)
    ensures
        balanced(kollider_datasets_events(seed, start, ds)),
{
    let head = seq![fname("seed"@), IonEventV::Int(seed as i64), fname("start"@), IonEventV::IonText(start), fname("shapes"@)];
    assert(flat(head)) by {
        assert forall|i: int| 0 <= i < head.len() implies !(#[trigger] head[i] is StepIn) && !(head[i] is StepOut) by {}
    }
    let enc = |s: ShapeV| kollider_events(s);
    assert forall|s: ShapeV| balanced(#[trigger] enc(s)) by {
        lemma_kollider_balanced(s);
    }
    lemma_document_balanced(head, ds, enc);
    assert(kollider_datasets_events(seed, start, ds) =~= seq![IonEventV::StepIn(IonContainer::Struct)] + head
            + seq![IonEventV::StepIn(IonContainer::Struct)] + dataset_shapes(ds, enc)
            + seq![IonEventV::StepOut, IonEventV::StepOut]);
}

/// The scalar types that the Kollider encoding writes by name.
pub open spec fn named_scalar(t: StaticV) -> bool {
    t is Int || t is Int8 || t is Int16 || t is Int32 || t is Int64 || t is Bool || t is Decimal
        || t is DateTime || t is Float32 || t is Float64 || t is String
}

/// Each scalar type is written as one string, its own Kollider type name:
/// `Int` as `int`, `Int8` as `tinyint`, `Int16` as `smallint`, `Int32` as
/// `integer`, `Int64` as `int8`, `Bool` as `bool`, `Decimal` as `decimal`,
/// `DateTime` as `datetime`, `Float32` as `real`, `Float64` as `double`,
/// `String` as `string`; no two of these types share a name.
pub proof fn lemma_kollider_scalar_names(t: StaticV, u: StaticV)
    requires
        named_scalar(t),
        named_scalar(u),
    ensures
        kollider_events(ShapeV::Static(t)) == seq![IonEventV::String(kollider_typename(t))],
        kollider_events(ShapeV::Static(t)) == kollider_events(ShapeV::Static(u)) ==> t == u,
        t is Int ==> kollider_typename(t) == "int"@,
        t is Int8 ==> kollider_typename(t) == "tinyint"@,
        t is Int16 ==> kollider_typename(t) == "smallint"@,
        t is Int32 ==> kollider_typename(t) == "integer"@,
        t is Int64 ==> kollider_typename(t) == "int8"@,
        t is Bool ==> kollider_typename(t) == "bool"@,
        t is Decimal ==> kollider_typename(t) == "decimal"@,
        t is DateTime ==> kollider_typename(t) == "datetime"@,
        t is Float32 ==> kollider_typename(t) == "real"@,
        t is Float64 ==> kollider_typename(t) == "double"@,
        t is String ==> kollider_typename(t) == "string"@,
{
    reveal_strlit("int");
    reveal_strlit("tinyint");
    reveal_strlit("smallint");
    reveal_strlit("integer");
    reveal_strlit("int8");
    reveal_strlit("bool");
    reveal_strlit("decimal");
    reveal_strlit("datetime");
    reveal_strlit("real");
    reveal_strlit("double");
    reveal_strlit("string");
    if kollider_events(ShapeV::Static(t)) == kollider_events(ShapeV::Static(u)) {
        assert(kollider_events(ShapeV::Static(t))[0] == kollider_events(ShapeV::Static(u))[0]);
        assert(kollider_typename(t) == kollider_typename(u));
        let a = kollider_typename(t);
        let b = kollider_typename(u);
        assert(a.len() == b.len());
        if a.len() > 0 { assert(a[0] == b[0]); }
        if a.len() > 1 { assert(a[1] == b[1]); }
        if a.len() > 2 { assert(a[2] == b[2]); }
        if a.len() > 3 { assert(a[3] == b[3]); }
        if a.len() > 4 { assert(a[4] == b[4]); }
    }
}

/// A bag is written as a struct of type `bag` and an array as a struct of
/// type `list`, each with its items' encoding under `items`: a bag and an
/// array of the same items are written differently.
pub proof fn lemma_kollider_collections(items: ShapeV)
    ensures
        kollider_events(ShapeV::Static(StaticV::Bag(Box::new(items)))) == seq![
            IonEventV::StepIn(IonContainer::Struct), fname("type"@), IonEventV::String("bag"@), fname("items"@)]
            + kollider_events(items) + seq![IonEventV::StepOut],
        kollider_events(ShapeV::Static(StaticV::Array(Box::new(items)))) == seq![
            IonEventV::StepIn(IonContainer::Struct), fname("type"@), IonEventV::String("list"@), fname("items"@)]
            + kollider_events(items) + seq![IonEventV::StepOut],
        kollider_events(ShapeV::Static(StaticV::Bag(Box::new(items))))
            != kollider_events(ShapeV::Static(StaticV::Array(Box::new(items)))),
{
    reveal_strlit("bag");
    reveal_strlit("list");
    let b = kollider_events(ShapeV::Static(StaticV::Bag(Box::new(items))));
    let a = kollider_events(ShapeV::Static(StaticV::Array(Box::new(items))));
    assert(b[2] == IonEventV::String("bag"@));
    assert(a[2] == IonEventV::String("list"@));
    assert("bag"@ != "list"@) by { assert("bag"@.len() != "list"@.len()); }
}

} // verus!
