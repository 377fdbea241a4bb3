//! Shapes as sets: the fields of a struct type ordered by name and the
//! members of a union ordered by kind, each held once.
use vstd::prelude::*;
use crate::shape::{PartiqlShape, Static, StructField, ShapeV, StaticV, FieldV, shape_view, shapes_view, fields_view,
    lemma_shapes_view, lemma_fields_view, shape_eq, clone_shape};

verus! {

/// Whether one name comes before another: character by character, by code
/// point, a proper prefix first.
pub open spec fn name_lt(a: Seq<char>, b: Seq<char>) -> bool
    decreases a.len(),
{
    if b.len() == 0 {
        false
    } else if a.len() == 0 {
        true
    } else if a[0] != b[0] {
        a[0] < b[0]
    } else {
        name_lt(a.drop_first(), b.drop_first())
    }
}

/// Whether one name comes before another or is the same.
pub open spec fn name_le(a: Seq<char>, b: Seq<char>) -> bool {
    !name_lt(b, a)
}

proof fn lemma_name_total(a: Seq<char>, b: Seq<char>)
    ensures
        name_lt(a, b) || name_lt(b, a) || a == b,
        !(name_lt(a, b) && name_lt(b, a)),
    decreases a.len(),
{
    if a.len() > 0 && b.len() > 0 {
        if a[0] == b[0] {
            lemma_name_total(a.drop_first(), b.drop_first());
            if a.drop_first() == b.drop_first() {
                assert(a =~= seq![a[0]] + a.drop_first());
                assert(b =~= seq![b[0]] + b.drop_first());
            }
        }
    } else if a.len() == 0 && b.len() == 0 {
        assert(a =~= b);
    }
}

proof fn lemma_name_lt_trans(a: Seq<char>, b: Seq<char>, c: Seq<char>)
    requires
        name_lt(a, b),
        name_lt(b, c),
    ensures
        name_lt(a, c),
    decreases a.len(),
{
    if a.len() > 0 && a[0] == b[0] && b[0] == c[0] {
        lemma_name_lt_trans(a.drop_first(), b.drop_first(), c.drop_first());
    }
}

proof fn lemma_name_le_trans(a: Seq<char>, b: Seq<char>, c: Seq<char>)
    requires
        name_le(a, b),
        name_le(b, c),
    ensures
        name_le(a, c),
{
    if name_lt(c, a) {
        lemma_name_total(a, b);
        if name_lt(a, b) {
            lemma_name_lt_trans(c, a, b);
        }
    }
}

/// The order of kinds of shapes in a union: the static types in the order
/// they are declared, then the dynamic type, unions and undefined types.
pub open spec fn shape_rank(s: ShapeV) -> nat {
    match s {
        ShapeV::Static(t) => match t {
            StaticV::Int => 0,
            StaticV::Int8 => 1,
            StaticV::Int16 => 2,
            StaticV::Int32 => 3,
            StaticV::Int64 => 4,
            StaticV::Bool => 5,
            StaticV::Decimal => 6,
            StaticV::DecimalP(_, _) => 7,
            StaticV::Float32 => 8,
            StaticV::Float64 => 9,
            StaticV::String => 10,
            StaticV::StringFixed(_) => 11,
            StaticV::StringVarying(_) => 12,
            StaticV::DateTime => 13,
            StaticV::Struct(_) => 14,
            StaticV::Bag(_) => 15,
            StaticV::Array(_) => 16,
        },
        ShapeV::Dynamic => 17,
        ShapeV::AnyOf(_) => 18,
        ShapeV::Undefined => 19,
    }
}

/// Fields ordered by name.
pub open spec fn fields_sorted(fs: Seq<FieldV>) -> bool {
    forall|i: int, j: int| 0 <= i < j < fs.len() ==> name_le(#[trigger] fs[i].name, #[trigger] fs[j].name)
}

/// Union members ordered by kind.
pub open spec fn members_sorted(v: Seq<ShapeV>) -> bool {
    forall|i: int, j: int| 0 <= i < j < v.len() ==> shape_rank(#[trigger] v[i]) <= shape_rank(#[trigger] v[j])
}

/// No item occurs twice.
pub open spec fn no_repeats<A>(s: Seq<A>) -> bool {
    forall|i: int, j: int| 0 <= i < j < s.len() ==> #[trigger] s[i] != #[trigger] s[j]
}

proof fn lemma_insert_contains<A>(ov: Seq<A>, q: int, fx: A, before: Seq<A>)
    requires
        0 <= q <= ov.len(),
        forall|x: A| ov.contains(x) <==> before.contains(x),
    ensures
        forall|x: A| ov.insert(q, fx).contains(x) <==> before.push(fx).contains(x),
{
    let nv = ov.insert(q, fx);
    assert forall|x: A| nv.contains(x) <==> before.push(fx).contains(x) by {
        if nv.contains(x) {
            let j = choose|j: int| 0 <= j < nv.len() && nv[j] == x;
            if j == q {
                assert(before.push(fx)[before.len() as int] == x);
            } else {
                if j < q { assert(ov[j] == x); } else { assert(ov[j - 1] == x); }
                assert(ov.contains(x));
                let k = choose|k: int| 0 <= k < before.len() && before[k] == x;
                assert(before.push(fx)[k] == x);
            }
        }
        if before.push(fx).contains(x) {
            let k = choose|k: int| 0 <= k < before.len() + 1 && before.push(fx)[k] == x;
            if k == before.len() {
                assert(nv[q] == x);
            } else {
                assert(before[k] == x);
                assert(before.contains(x));
                let j = choose|j: int| 0 <= j < ov.len() && ov[j] == x;
                if j < q { assert(nv[j] == x); } else { assert(nv[j + 1] == x); }
            }
        }
    }
}

proof fn lemma_insert_no_repeats<A>(ov: Seq<A>, q: int, fx: A)
    requires
        0 <= q <= ov.len(),
        no_repeats(ov),
        forall|j: int| 0 <= j < ov.len() ==> ov[j] != fx,
    ensures
        no_repeats(ov.insert(q, fx)),
{
    let nv = ov.insert(q, fx);
    assert forall|a: int, b: int| 0 <= a < b < nv.len() implies #[trigger] nv[a] != #[trigger] nv[b] by {
        if a == q { assert(nv[b] == ov[b - 1]); }
        else if b == q { assert(nv[a] == ov[a]); }
        else {
            let oa = if a < q { a } else { a - 1 };
            let ob = if b < q { b } else { b - 1 };
            assert(nv[a] == ov[oa] && nv[b] == ov[ob]);
        }
    }
}

proof fn lemma_push_contains<A>(ov: Seq<A>, fx: A, before: Seq<A>)
    requires
        ov.contains(fx),
        forall|x: A| ov.contains(x) <==> before.contains(x),
    ensures
        forall|x: A| ov.contains(x) <==> before.push(fx).contains(x),
{
    assert forall|x: A| ov.contains(x) <==> before.push(fx).contains(x) by {
        if ov.contains(x) {
            if x == fx {
                assert(before.push(fx)[before.len() as int] == x);
            } else {
                let k = choose|k: int| 0 <= k < before.len() && before[k] == x;
                assert(before.push(fx)[k] == x);
            }
        }
        if before.push(fx).contains(x) {
            let k = choose|k: int| 0 <= k < before.len() + 1 && before.push(fx)[k] == x;
            if k < before.len() {
                assert(before[k] == x);
                assert(before.contains(x));
            }
        }
    }
}

fn name_less(a: &String, b: &String) -> (r: bool)
    ensures
        r == name_lt(a@, b@),
{
    let sa = a.as_str();
    let sb = b.as_str();
    let na = sa.unicode_len();
    let nb = sb.unicode_len();
    let mut i: usize = 0;
    proof {
        assert(a@.subrange(0, na as int) =~= a@);
        assert(b@.subrange(0, nb as int) =~= b@);
    }
    while i < na && i < nb
        invariant
            na == a@.len(),
            nb == b@.len(),
            sa@ == a@,
            sb@ == b@,
            i <= na,
            i <= nb,
            name_lt(a@, b@) == name_lt(a@.subrange(i as int, na as int), b@.subrange(i as int, nb as int)),
        decreases na - i,
    {
        let ca = sa.get_char(i);
        let cb = sb.get_char(i);
        let ghost ra = a@.subrange(i as int, na as int);
        let ghost rb = b@.subrange(i as int, nb as int);
        if ca != cb {
            proof { assert(ra[0] == ca && rb[0] == cb); }
            return ca < cb;
        }
        proof {
            assert(ra.drop_first() =~= a@.subrange(i + 1, na as int));
            assert(rb.drop_first() =~= b@.subrange(i + 1, nb as int));
        }
        i += 1;
    }
    i < nb
}

fn field_same(a: &StructField, b: &StructField) -> (r: bool)
    ensures
        r == ((FieldV { name: a.name@, ty: a.ty@ }) == (FieldV { name: b.name@, ty: b.ty@ })),
{
    let same_name = a.name == b.name;
    same_name && shape_eq(&a.ty, &b.ty)
}

/// A struct type of the fields, ordered by name (fields of one name in the
/// order given), each distinct field held once.
pub fn new_struct(fields: Vec<StructField>) -> (s: PartiqlShape)
    ensures
        s@ matches ShapeV::Static(StaticV::Struct(fv)) && fields_sorted(fv) && no_repeats(fv)
            && forall|x: FieldV| fv.contains(x) <==> fields_view(fields@).contains(x),
{
    proof { lemma_fields_view(fields@); }
    let ghost input = fields_view(fields@);
    let mut out: Vec<StructField> = Vec::new();
    let mut i: usize = 0;
    while i < fields.len()
        invariant
            i <= fields@.len(),
            input == fields_view(fields@),
            input.len() == fields@.len(),
            fields_sorted(fields_view(out@)),
            no_repeats(fields_view(out@)),
            forall|x: FieldV| fields_view(out@).contains(x) <==> input.take(i as int).contains(x),
        decreases fields@.len() - i,
    {
        proof { lemma_fields_view(out@); lemma_fields_view(fields@); }
        let ghost ov = fields_view(out@);
        let ghost fx = input[i as int];
        assert(fx == (FieldV { name: fields@[i as int].name@, ty: fields@[i as int].ty@ }));
        let mut k: usize = 0;
        let mut found = false;
        while k < out.len()
            invariant
                k <= out@.len(),
                ov == fields_view(out@),
                ov.len() == out@.len(),
                i < fields@.len(),
                fx == (FieldV { name: fields@[i as int].name@, ty: fields@[i as int].ty@ }),
                found ==> ov.contains(fx),
                !found ==> forall|j: int| 0 <= j < k ==> ov[j] != fx,
            decreases out@.len() - k,
        {
            proof { lemma_fields_view(out@); }
            if field_same(&out[k], &fields[i]) {
                proof { assert(ov[k as int] == fx); }
                found = true;
            }
            k += 1;
        }
        if !found {
            let f = StructField { name: fields[i].name.clone(), ty: clone_shape(&fields[i].ty) };
            assert((FieldV { name: f.name@, ty: f.ty@ }) == fx);
            let mut q: usize = out.len();
            while q > 0 && name_less(&f.name, &out[q - 1].name)
                invariant
                    q <= out@.len(),
                    ov == fields_view(out@),
                    ov.len() == out@.len(),
                    f.name@ == fx.name,
                    forall|j: int| q <= j < ov.len() ==> name_lt(fx.name, #[trigger] ov[j].name),
                decreases q,
            {
                proof { lemma_fields_view(out@); }
                q -= 1;
            }
            proof {
                lemma_fields_view(out@);
                assert forall|j: int| 0 <= j < q implies name_le(#[trigger] ov[j].name, fx.name) by {
                    assert(name_le(ov[q - 1].name, fx.name));
                    if j < q - 1 {
                        assert(name_le(ov[j].name, ov[q - 1].name));
                        lemma_name_le_trans(ov[j].name, ov[q - 1].name, fx.name);
                    }
                }
                assert forall|j: int| q <= j < ov.len() implies name_le(fx.name, #[trigger] ov[j].name) by {
                    lemma_name_total(fx.name, ov[j].name);
                }
            }
            out.insert(q, f);
            proof {
                lemma_fields_view(out@);
                let nv = fields_view(out@);
                assert(nv =~= ov.insert(q as int, fx)) by {
                    assert forall|j: int| 0 <= j < nv.len() implies nv[j] == ov.insert(q as int, fx)[j] by {}
                }
                assert forall|a: int, b: int| 0 <= a < b < nv.len() implies name_le(#[trigger] nv[a].name, #[trigger] nv[b].name) by {
                    if a < q && b > q {
                        lemma_name_le_trans(ov[a].name, fx.name, ov[b - 1].name);
                    }
                }
                assert(input.take(i + 1) =~= input.take(i as int).push(fx));
                lemma_insert_contains(ov, q as int, fx, input.take(i as int));
                lemma_insert_no_repeats(ov, q as int, fx);
            }
        } else {
            proof {
                assert(input.take(i + 1) =~= input.take(i as int).push(fx));
                lemma_push_contains(ov, fx, input.take(i as int));
            }
        }
        i += 1;
    }
    proof { assert(input.take(fields@.len() as int) =~= input); }
    PartiqlShape::Static(Static::Struct(out))
}

/// A union of the shapes, ordered by kind (shapes of one kind in the order
/// given), each distinct shape held once.
pub fn any_of(types: Vec<PartiqlShape>) -> (s: PartiqlShape)
    ensures
        s@ matches ShapeV::AnyOf(v) && members_sorted(v) && no_repeats(v)
            && forall|x: ShapeV| v.contains(x) <==> shapes_view(types@).contains(x),
{
    proof { lemma_shapes_view(types@); }
    let ghost input = shapes_view(types@);
    let mut out: Vec<PartiqlShape> = Vec::new();
    let mut i: usize = 0;
    while i < types.len()
        invariant
            i <= types@.len(),
            input == shapes_view(types@),
            input.len() == types@.len(),
            members_sorted(shapes_view(out@)),
            no_repeats(shapes_view(out@)),
            forall|x: ShapeV| shapes_view(out@).contains(x) <==> input.take(i as int).contains(x),
        decreases types@.len() - i,
    {
        proof { lemma_shapes_view(out@); lemma_shapes_view(types@); }
        let ghost ov = shapes_view(out@);
        let ghost sx = input[i as int];
        assert(sx == types@[i as int]@);
        let mut k: usize = 0;
        let mut found = false;
        while k < out.len()
            invariant
                k <= out@.len(),
                ov == shapes_view(out@),
                ov.len() == out@.len(),
                i < types@.len(),
                sx == types@[i as int]@,
                found ==> ov.contains(sx),
                !found ==> forall|j: int| 0 <= j < k ==> ov[j] != sx,
            decreases out@.len() - k,
        {
            proof { lemma_shapes_view(out@); }
            if shape_eq(&out[k], &types[i]) {
                proof { assert(ov[k as int] == sx); }
                found = true;
            }
            k += 1;
        }
        if !found {
            let t = clone_shape(&types[i]);
            let rt = kind_rank(&t);
            let mut q: usize = out.len();
            while q > 0 && rt < kind_rank(&out[q - 1])
                invariant
                    q <= out@.len(),
                    ov == shapes_view(out@),
                    ov.len() == out@.len(),
                    rt == shape_rank(sx),
                    forall|j: int| q <= j < ov.len() ==> shape_rank(sx) < shape_rank(#[trigger] ov[j]),
                decreases q,
            {
                proof { lemma_shapes_view(out@); }
                q -= 1;
            }
            proof { lemma_shapes_view(out@); }
            out.insert(q, t);
            proof {
                lemma_shapes_view(out@);
                let nv = shapes_view(out@);
                assert(nv =~= ov.insert(q as int, sx)) by {
                    assert forall|j: int| 0 <= j < nv.len() implies nv[j] == ov.insert(q as int, sx)[j] by {}
                }
                assert forall|a: int, b: int| 0 <= a < b < nv.len() implies shape_rank(#[trigger] nv[a]) <= shape_rank(#[trigger] nv[b]) by {
                    if a < q && b == q {
                        assert(shape_rank(ov[a]) <= shape_rank(ov[q - 1]));
                    }
                    if a < q && b > q {
                        assert(shape_rank(ov[a]) <= shape_rank(ov[q - 1]));
                    }
                }
                assert(input.take(i + 1) =~= input.take(i as int).push(sx));
                lemma_insert_contains(ov, q as int, sx, input.take(i as int));
                lemma_insert_no_repeats(ov, q as int, sx);
            }
        } else {
            proof {
                assert(input.take(i + 1) =~= input.take(i as int).push(sx));
                lemma_push_contains(ov, sx, input.take(i as int));
            }
        }
        i += 1;
    }
    proof { assert(input.take(types@.len() as int) =~= input); }
    PartiqlShape::AnyOf(out)
}

fn kind_rank(s: &PartiqlShape) -> (r: u8)
    ensures
        r as nat == shape_rank(s@),
{
    match s {
        PartiqlShape::Static(t) => match t {
            Static::Int => 0,
            Static::Int8 => 1,
            Static::Int16 => 2,
            Static::Int32 => 3,
            Static::Int64 => 4,
            Static::Bool => 5,
            Static::Decimal => 6,
            Static::DecimalP(_, _) => 7,
            Static::Float32 => 8,
            Static::Float64 => 9,
            Static::String => 10,
            Static::StringFixed(_) => 11,
            Static::StringVarying(_) => 12,
            Static::DateTime => 13,
            Static::Struct(_) => 14,
            Static::Bag(_) => 15,
            Static::Array(_) => 16,
        },
        PartiqlShape::Dynamic => 17,
        PartiqlShape::AnyOf(_) => 18,
        PartiqlShape::Undefined => 19,
    }
}

} // verus!
