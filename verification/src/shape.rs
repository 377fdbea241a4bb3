//! The shape (type) model of PartiQL data: what the simulator infers for a
//! dataset, and what every encoder and query-generation strategy reads.
use vstd::prelude::*;

verus! {

/// A PartiQL shape: a dynamic (any) type, a union of shapes, a static type,
/// or an undefined type.
#[derive(Debug)]
pub enum PartiqlShape {
    Dynamic,
    AnyOf(Vec<PartiqlShape>),
    Static(Static),
    Undefined,
}

/// The static PartiQL types.
#[derive(Debug)]
pub enum Static {
    Int,
    Int8,
    Int16,
    Int32,
    Int64,
    Bool,
    Decimal,
    DecimalP(usize, usize),
    Float32,
    Float64,
    String,
    StringFixed(usize),
    StringVarying(usize),
    DateTime,
    Struct(Vec<StructField>),
    Bag(Box<PartiqlShape>),
    Array(Box<PartiqlShape>),
}

/// A named field of a struct type.
#[derive(Debug)]
pub struct StructField {
    pub name: String,
    pub ty: PartiqlShape,
}

/// A dataset's name together with the shape of its rows' collection.
#[derive(Debug)]
pub struct NameAndShape {
    pub name: String,
    pub shape: PartiqlShape,
}

impl Static {
    /// Scalar types: neither a collection nor a struct.
    pub open spec fn spec_is_scalar(&self) -> bool {
        !(self is Struct || self is Bag || self is Array)
    }

    /// Sequence types: bags and arrays.
    pub open spec fn spec_is_sequence(&self) -> bool {
        self is Bag || self is Array
    }

    pub fn is_scalar(&self) -> (b: bool)
        ensures
            b == self.spec_is_scalar(),
    {
        match self {
            Static::Struct(_) | Static::Bag(_) | Static::Array(_) => false,
            _ => true,
        }
    }

    pub fn is_sequence(&self) -> (b: bool)
        ensures
            b == self.spec_is_sequence(),
    {
        match self {
            Static::Bag(_) | Static::Array(_) => true,
            _ => false,
        }
    }

    pub fn is_struct(&self) -> (b: bool)
        ensures
            b == self is Struct,
    {
        match self {
            Static::Struct(_) => true,
            _ => false,
        }
    }
}


/// The mathematical model of a shape: collections are sequences.
pub enum ShapeV {
    Dynamic,
    AnyOf(Seq<ShapeV>),
    Static(StaticV),
    Undefined,
}

/// The model of a static type.
pub enum StaticV {
    Int,
    Int8,
    Int16,
    Int32,
    Int64,
    Bool,
    Decimal,
    DecimalP(usize, usize),
    Float32,
    Float64,
    String,
    StringFixed(usize),
    StringVarying(usize),
    DateTime,
    Struct(Seq<FieldV>),
    Bag(Box<ShapeV>),
    Array(Box<ShapeV>),
}

/// The model of a struct field.
pub struct FieldV {
    pub name: Seq<char>,
    pub ty: ShapeV,
}

pub open spec fn shape_view(s: PartiqlShape) -> ShapeV
    decreases s,
{
    match s {
        PartiqlShape::Dynamic => ShapeV::Dynamic,
        PartiqlShape::AnyOf(v) => ShapeV::AnyOf(shapes_view(v@)),
        PartiqlShape::Static(t) => ShapeV::Static(static_view(t)),
        PartiqlShape::Undefined => ShapeV::Undefined,
    }
}

pub open spec fn shapes_view(v: Seq<PartiqlShape>) -> Seq<ShapeV>
    decreases v,
{
    if v.len() == 0 {
        Seq::empty()
    } else {
        shapes_view(v.drop_last()).push(shape_view(v.last()))
    }
}

pub open spec fn static_view(t: Static) -> StaticV
    decreases t,
{
    match t {
        Static::Int => StaticV::Int,
        Static::Int8 => StaticV::Int8,
        Static::Int16 => StaticV::Int16,
        Static::Int32 => StaticV::Int32,
        Static::Int64 => StaticV::Int64,
        Static::Bool => StaticV::Bool,
        Static::Decimal => StaticV::Decimal,
        Static::DecimalP(p, s) => StaticV::DecimalP(p, s),
        Static::Float32 => StaticV::Float32,
        Static::Float64 => StaticV::Float64,
        Static::String => StaticV::String,
        Static::StringFixed(n) => StaticV::StringFixed(n),
        Static::StringVarying(n) => StaticV::StringVarying(n),
        Static::DateTime => StaticV::DateTime,
        Static::Struct(fs) => StaticV::Struct(fields_view(fs@)),
        Static::Bag(b) => StaticV::Bag(Box::new(shape_view(*b))),
        Static::Array(a) => StaticV::Array(Box::new(shape_view(*a))),
    }
}

pub open spec fn fields_view(fs: Seq<StructField>) -> Seq<FieldV>
    decreases fs,
{
    if fs.len() == 0 {
        Seq::empty()
    } else {
        fields_view(fs.drop_last()).push(FieldV { name: fs.last().name@, ty: shape_view(fs.last().ty) })
    }
}

impl View for PartiqlShape {
    type V = ShapeV;

    open spec fn view(&self) -> ShapeV {
        shape_view(*self)
    }
}

pub proof fn lemma_shapes_view(v: Seq<PartiqlShape>)
    ensures
        shapes_view(v).len() == v.len(),
        forall|i: int| 0 <= i < v.len() ==> #[trigger] shapes_view(v)[i] == shape_view(v[i]),
    decreases v.len(),
{
    if v.len() > 0 {
        lemma_shapes_view(v.drop_last());
        assert forall|i: int| 0 <= i < v.len() implies #[trigger] shapes_view(v)[i] == shape_view(v[i]) by {
            if i < v.len() - 1 {
                assert(v.drop_last()[i] == v[i]);
            }
        }
    }
}

pub proof fn lemma_fields_view(fs: Seq<StructField>)
    ensures
        fields_view(fs).len() == fs.len(),
        forall|i: int| 0 <= i < fs.len() ==> #[trigger] fields_view(fs)[i] == (FieldV { name: fs[i].name@, ty: shape_view(fs[i].ty) }),
    decreases fs.len(),
{
    if fs.len() > 0 {
        lemma_fields_view(fs.drop_last());
        assert forall|i: int| 0 <= i < fs.len() implies #[trigger] fields_view(fs)[i] == (FieldV { name: fs[i].name@, ty: shape_view(fs[i].ty) }) by {
            if i < fs.len() - 1 {
                assert(fs.drop_last()[i] == fs[i]);
            }
        }
    }
}

/// Nesting height of a shape: unions add no level, structs and
/// collections add one.
pub open spec fn height(s: ShapeV) -> nat
    decreases s,
{
    match s {
        ShapeV::AnyOf(v) => max_height(v),
        ShapeV::Static(t) => match t {
            StaticV::Struct(fs) => 1 + max_field_height(fs),
            StaticV::Bag(b) => 1 + height(*b),
            StaticV::Array(a) => 1 + height(*a),
            _ => 0,
        },
        _ => 0,
    }
}

pub open spec fn max_height(v: Seq<ShapeV>) -> nat
    decreases v,
{
    if v.len() == 0 {
        0
    } else {
        let a = max_height(v.drop_last());
        let b = height(v.last());
        if a < b { b } else { a }
    }
}

pub open spec fn max_field_height(fs: Seq<FieldV>) -> nat
    decreases fs,
{
    if fs.len() == 0 {
        0
    } else {
        let a = max_field_height(fs.drop_last());
        let b = height(fs.last().ty);
        if a < b { b } else { a }
    }
}

/// Number of nodes of a shape.
pub open spec fn size(s: ShapeV) -> nat
    decreases s,
{
    match s {
        ShapeV::AnyOf(v) => 1 + sum_size(v),
        ShapeV::Static(t) => match t {
            StaticV::Struct(fs) => 1 + sum_field_size(fs),
            StaticV::Bag(b) => 1 + size(*b),
            StaticV::Array(a) => 1 + size(*a),
            _ => 1,
        },
        _ => 1,
    }
}

pub open spec fn sum_size(v: Seq<ShapeV>) -> nat
    decreases v,
{
    if v.len() == 0 {
        0
    } else {
        sum_size(v.drop_last()) + size(v.last())
    }
}

pub open spec fn sum_field_size(fs: Seq<FieldV>) -> nat
    decreases fs,
{
    if fs.len() == 0 {
        0
    } else {
        sum_field_size(fs.drop_last()) + size(fs.last().ty)
    }
}

pub proof fn lemma_member_bounds(v: Seq<ShapeV>, i: int)
    requires
        0 <= i < v.len(),
    ensures
        height(v[i]) <= max_height(v),
        size(v[i]) <= sum_size(v),
    decreases v.len(),
{
    if i < v.len() - 1 {
        lemma_member_bounds(v.drop_last(), i);
        assert(v.drop_last()[i] == v[i]);
    }
}

pub proof fn lemma_field_bounds(fs: Seq<FieldV>, i: int)
    requires
        0 <= i < fs.len(),
    ensures
        height(fs[i].ty) <= max_field_height(fs),
        size(fs[i].ty) <= sum_field_size(fs),
    decreases fs.len(),
{
    if i < fs.len() - 1 {
        lemma_field_bounds(fs.drop_last(), i);
        assert(fs.drop_last()[i] == fs[i]);
    }
}


/// Structural equality of shapes: `true` exactly when the models agree.
pub fn shape_eq(a: &PartiqlShape, b: &PartiqlShape) -> (r: bool)
    ensures
        r == (a@ == b@),
    decreases a,
{
    match (a, b) {
        (PartiqlShape::Dynamic, PartiqlShape::Dynamic) => true,
        (PartiqlShape::Undefined, PartiqlShape::Undefined) => true,
        (PartiqlShape::AnyOf(v1), PartiqlShape::AnyOf(v2)) => {
            let r = shapes_eq(v1, v2);
            proof {
                if r {
                    assert(shape_view(*a) == ShapeV::AnyOf(shapes_view(v1@)));
                } else {
                    assert(shapes_view(v1@) != shapes_view(v2@));
                }
            }
            r
        },
        (PartiqlShape::Static(t1), PartiqlShape::Static(t2)) => static_eq(t1, t2),
        _ => false,
    }
}

fn shapes_eq(v1: &Vec<PartiqlShape>, v2: &Vec<PartiqlShape>) -> (r: bool)
    ensures
        r == (shapes_view(v1@) == shapes_view(v2@)),
    decreases v1,
{
    proof {
        lemma_shapes_view(v1@);
        lemma_shapes_view(v2@);
    }
    if v1.len() != v2.len() {
        return false;
    }
    let mut i: usize = 0;
    while i < v1.len()
        invariant
            i <= v1.len(),
            v1.len() == v2.len(),
            shapes_view(v1@).len() == v1.len(),
            shapes_view(v2@).len() == v2.len(),
            forall|j: int| 0 <= j < v1.len() ==> #[trigger] shapes_view(v1@)[j] == shape_view(v1@[j]),
            forall|j: int| 0 <= j < v2.len() ==> #[trigger] shapes_view(v2@)[j] == shape_view(v2@[j]),
            forall|j: int| 0 <= j < i ==> shape_view(#[trigger] v1@[j]) == shape_view(v2@[j]),
        decreases v1.len() - i,
    {
        if !shape_eq(&v1[i], &v2[i]) {
            proof {
                assert(shapes_view(v1@)[i as int] != shapes_view(v2@)[i as int]);
            }
            return false;
        }
        i += 1;
    }
    proof {
        assert forall|j: int| 0 <= j < shapes_view(v1@).len() implies shapes_view(v1@)[j] == shapes_view(v2@)[j] by {
            assert(shape_view(v1@[j]) == shape_view(v2@[j]));
        }
        assert(shapes_view(v1@) =~= shapes_view(v2@));
    }
    true
}

fn fields_eq(f1: &Vec<StructField>, f2: &Vec<StructField>) -> (r: bool)
    ensures
        r == (fields_view(f1@) == fields_view(f2@)),
    decreases f1,
{
    proof {
        lemma_fields_view(f1@);
        lemma_fields_view(f2@);
    }
    if f1.len() != f2.len() {
        return false;
    }
    let mut i: usize = 0;
    while i < f1.len()
        invariant
            i <= f1.len(),
            f1.len() == f2.len(),
            fields_view(f1@).len() == f1.len(),
            fields_view(f2@).len() == f2.len(),
            forall|j: int| 0 <= j < f1.len() ==> #[trigger] fields_view(f1@)[j] == (FieldV { name: f1@[j].name@, ty: shape_view(f1@[j].ty) }),
            forall|j: int| 0 <= j < f2.len() ==> #[trigger] fields_view(f2@)[j] == (FieldV { name: f2@[j].name@, ty: shape_view(f2@[j].ty) }),
            forall|j: int| 0 <= j < i ==> fields_view(f1@)[j] == #[trigger] fields_view(f2@)[j],
        decreases f1.len() - i,
    {
        let same_name = f1[i].name == f2[i].name;
        if !same_name || !shape_eq(&f1[i].ty, &f2[i].ty) {
            proof {
                assert(fields_view(f1@)[i as int] != fields_view(f2@)[i as int]);
            }
            return false;
        }
        proof {
            assert(fields_view(f1@)[i as int] == fields_view(f2@)[i as int]);
        }
        i += 1;
    }
    proof {
        assert(fields_view(f1@) =~= fields_view(f2@));
    }
    true
}

pub fn static_eq(t1: &Static, t2: &Static) -> (r: bool)
    ensures
        r == (static_view(*t1) == static_view(*t2)),
    decreases t1,
{
    match (t1, t2) {
        (Static::Int, Static::Int) => true,
        (Static::Int8, Static::Int8) => true,
        (Static::Int16, Static::Int16) => true,
        (Static::Int32, Static::Int32) => true,
        (Static::Int64, Static::Int64) => true,
        (Static::Bool, Static::Bool) => true,
        (Static::Decimal, Static::Decimal) => true,
        (Static::DecimalP(p1, s1), Static::DecimalP(p2, s2)) => *p1 == *p2 && *s1 == *s2,
        (Static::Float32, Static::Float32) => true,
        (Static::Float64, Static::Float64) => true,
        (Static::String, Static::String) => true,
        (Static::StringFixed(n1), Static::StringFixed(n2)) => *n1 == *n2,
        (Static::StringVarying(n1), Static::StringVarying(n2)) => *n1 == *n2,
        (Static::DateTime, Static::DateTime) => true,
        (Static::Struct(f1), Static::Struct(f2)) => fields_eq(f1, f2),
        (Static::Bag(b1), Static::Bag(b2)) => shape_eq(b1, b2),
        (Static::Array(a1), Static::Array(a2)) => shape_eq(a1, a2),
        _ => false,
    }
}

/// A deep copy of a shape.
pub fn clone_shape(s: &PartiqlShape) -> (r: PartiqlShape)
    ensures
        r@ == s@,
    decreases s,
{
    match s {
        PartiqlShape::Dynamic => PartiqlShape::Dynamic,
        PartiqlShape::Undefined => PartiqlShape::Undefined,
        PartiqlShape::AnyOf(v) => {
            let c = clone_shapes(v);
            PartiqlShape::AnyOf(c)
        },
        PartiqlShape::Static(t) => PartiqlShape::Static(clone_static(t)),
    }
}

/// A deep copy of a list of shapes.
pub fn clone_shapes(v: &Vec<PartiqlShape>) -> (r: Vec<PartiqlShape>)
    ensures
        shapes_view(r@) == shapes_view(v@),
        r@.len() == v@.len(),
    decreases v,
{
    let mut r: Vec<PartiqlShape> = Vec::new();
    let mut i: usize = 0;
    while i < v.len()
        invariant
            i <= v.len(),
            r@.len() == i,
            shapes_view(r@) == shapes_view(v@.take(i as int)),
        decreases v.len() - i,
    {
        let c = clone_shape(&v[i]);
        let ghost r0 = r@;
        r.push(c);
        proof {
            assert(r@.drop_last() =~= r0);
            assert(v@.take(i + 1).drop_last() =~= v@.take(i as int));
        }
        i += 1;
    }
    proof { assert(v@.take(v.len() as int) =~= v@); }
    r
}

fn clone_fields(fs: &Vec<StructField>) -> (r: Vec<StructField>)
    ensures
        fields_view(r@) == fields_view(fs@),
    decreases fs,
{
    let mut r: Vec<StructField> = Vec::new();
    let mut i: usize = 0;
    while i < fs.len()
        invariant
            i <= fs.len(),
            r@.len() == i,
            fields_view(r@) == fields_view(fs@.take(i as int)),
        decreases fs.len() - i,
    {
        let ty = clone_shape(&fs[i].ty);
        let ghost r0 = r@;
        r.push(StructField { name: fs[i].name.clone(), ty });
        proof {
            assert(r@.drop_last() =~= r0);
            assert(fs@.take(i + 1).drop_last() =~= fs@.take(i as int));
        }
        i += 1;
    }
    proof { assert(fs@.take(fs.len() as int) =~= fs@); }
    r
}

pub fn clone_static(t: &Static) -> (r: Static)
    ensures
        static_view(r) == static_view(*t),
    decreases t,
{
    match t {
        Static::Int => Static::Int,
        Static::Int8 => Static::Int8,
        Static::Int16 => Static::Int16,
        Static::Int32 => Static::Int32,
        Static::Int64 => Static::Int64,
        Static::Bool => Static::Bool,
        Static::Decimal => Static::Decimal,
        Static::DecimalP(p, s) => Static::DecimalP(*p, *s),
        Static::Float32 => Static::Float32,
        Static::Float64 => Static::Float64,
        Static::String => Static::String,
        Static::StringFixed(n) => Static::StringFixed(*n),
        Static::StringVarying(n) => Static::StringVarying(*n),
        Static::DateTime => Static::DateTime,
        Static::Struct(fs) => Static::Struct(clone_fields(fs)),
        Static::Bag(b) => Static::Bag(Box::new(clone_shape(b))),
        Static::Array(a) => Static::Array(Box::new(clone_shape(a))),
    }
}

} // verus!
