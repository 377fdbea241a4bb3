//! Random query generation: the random draws it makes, the types a shape
//! offers for random values, the values, predicates and clauses it builds.
use vstd::prelude::*;
use crate::shape::{PartiqlShape, Static, StructField, ShapeV, StaticV, FieldV, shape_view, shapes_view, static_view, fields_view, lemma_shapes_view, lemma_fields_view, size, sum_size, lemma_field_bounds, static_eq, clone_static};
use crate::path::{unique_seq, PathGenStep, PathAndShape, PathV, StepV, steps_view, clone_step, clone_steps};
use crate::predicate::{Predicate, PredicateDirection, PathPredicates, DatasetPredicates, matching_bits, matching_fold, static_pred_bits, in_bits, absent_bits, equality_bits, logical_bits, like_bits, preds_of_bits, pred_of_bit, spec_predicates_for, BETWEEN_BITS, LTE_BITS, LT_BITS, GTE_BITS, GT_BITS};
use crate::ast::{Lit, LitV, Expr, ExprV, BinOpKind, UniOpKind, QueryPath, QueryPathV, expr_view, exprs_view, lemma_exprs_view, lemma_expr_pairs_view};

verus! {

/// The random number generator of query generation (`rand_pcg::Pcg64Mcg`).
#[verifier::external_type_specification]
#[verifier::external_body]
pub struct ExPcg64Mcg(rand_pcg::Mcg128Xsl64);

/// `rand_pcg::Pcg64Mcg::seed_from_u64`: the generator seeded from the seed.
#[verifier::external_body]
pub fn seeded_rng(seed: u64) -> rand_pcg::Mcg128Xsl64 {
    <rand_pcg::Mcg128Xsl64 as rand::SeedableRng>::seed_from_u64(seed)
}

/// `Pcg64Mcg::from_rng(rng.clone())`: a new generator seeded from a copy of
/// `rng`, which itself does not advance. Pcg64Mcg never fails to seed.
#[verifier::external_body]
pub(crate) fn fork_rng(rng: &rand_pcg::Mcg128Xsl64) -> rand_pcg::Mcg128Xsl64 {
    <rand_pcg::Mcg128Xsl64 as rand::SeedableRng>::from_rng(rng.clone()).unwrap()
}

/// `Pcg64Mcg::from_rng(&mut rng)`: a new generator seeded from `rng`, which
/// advances.
#[verifier::external_body]
fn split_rng(rng: &mut rand_pcg::Mcg128Xsl64) -> rand_pcg::Mcg128Xsl64 {
    <rand_pcg::Mcg128Xsl64 as rand::SeedableRng>::from_rng(&mut *rng).unwrap()
}

/// `rng.gen_range(lo..=hi)`, the draw behind a sample of statrs's
/// `DiscreteUniform::new(lo, hi)`: an integer from `lo` to `hi`.
#[verifier::external_body]
pub(crate) fn draw_int(rng: &mut rand_pcg::Mcg128Xsl64, lo: i64, hi: i64) -> (r: i64)
    requires
        lo <= hi,
    ensures
        lo <= r <= hi,
{
    rand::Rng::gen_range(rng, lo..=hi)
}

/// `rng.gen_range(0..n)`: an index below `n`.
#[verifier::external_body]
fn draw_below(rng: &mut rand_pcg::Mcg128Xsl64, n: usize) -> (r: usize)
    requires
        n > 0,
    ensures
        r < n,
{
    rand::Rng::gen_range(rng, 0..n)
}

/// An index below `n`, drawn as a sample of statrs's
/// `DiscreteUniform::new(0, n - 1)` is: an integer from 0 to `n - 1`. The
/// draw is over `i64`, whose largest value bounds it (no vector is longer).
pub(crate) fn draw_index(rng: &mut rand_pcg::Mcg128Xsl64, n: usize) -> (r: usize)
    requires
        n > 0,
    ensures
        r < n,
{
    let last: u64 = (n - 1) as u64;
    let hi: i64 = if last <= 0x7fff_ffff_ffff_ffff { last as i64 } else { i64::MAX };
    let r: i64 = draw_int(rng, 0, hi);
    r as usize
}

/// A fair coin: a sample of `rand`'s `Bernoulli::from_ratio(1, 2)`, the draw
/// `gen_bool(0.5)` makes behind statrs's `Bernoulli::new(0.5)`.
#[verifier::external_body]
pub(crate) fn draw_coin(rng: &mut rand_pcg::Mcg128Xsl64) -> bool {
    rand::Rng::sample(rng, rand::distributions::Bernoulli::from_ratio(1, 2).unwrap())
}

/// The bits of a double drawn by statrs's `Uniform::new(-50, 50)`: what the
/// value is is not stated.
#[verifier::external_body]
fn draw_double_bits(rng: &mut rand_pcg::Mcg128Xsl64) -> u64 {
    let d = statrs::distribution::Uniform::new((-50i8).into(), 50i8.into()).unwrap();
    rand::distributions::Distribution::sample(&d, rng).to_bits()
}

/// `IteratorRandom::choose` on an iterator of `n` items: the position of the
/// item chosen, nothing exactly when there is none.
#[verifier::external_body]
fn choose_position(rng: &mut rand_pcg::Mcg128Xsl64, n: usize) -> (r: Option<usize>)
    ensures
        n == 0 <==> r is None,
        r matches Some(i) ==> i < n,
{
    rand::seq::IteratorRandom::choose(0..n, rng)
}

/// `IteratorRandom::choose` on the items kept by a filter: the position of
/// the item chosen, nothing exactly when no item is kept. The filter stays
/// inside the iterator handed to `choose`, as the lazy filter it is: `choose`
/// draws differently from an iterator whose length it knows, so collecting
/// the kept positions first would change the draws.
#[verifier::external_body]
fn choose_kept(rng: &mut rand_pcg::Mcg128Xsl64, keep: &Vec<bool>) -> (r: Option<usize>)
    ensures
        r is None <==> forall|i: int| 0 <= i < keep@.len() ==> !keep@[i],
        r matches Some(i) ==> i < keep@.len() && keep@[i as int],
{
    rand::seq::IteratorRandom::choose(keep.iter().enumerate().filter(|p| *p.1).map(|p| p.0), rng)
}

/// `lipsum::lipsum_words_with_rng`: `n` words of lorem ipsum; the text is not
/// stated.
#[verifier::external_body]
fn lorem_words(rng: &mut rand_pcg::Mcg128Xsl64, n: usize) -> String {
    lipsum::lipsum_words_with_rng(&mut *rng, n)
}

/// The sum of the sizes of shapes side by side.
pub proof fn lemma_sum_size_concat(a: Seq<ShapeV>, b: Seq<ShapeV>)
    ensures
        sum_size(a + b) == sum_size(a) + sum_size(b),
    decreases b.len(),
{
    if b.len() > 0 {
        lemma_sum_size_concat(a, b.drop_last());
        assert((a + b).drop_last() =~= a + b.drop_last());
    }
}

/// The last shape of a stack counts at least one node.
pub proof fn lemma_sum_size_last(stack: Seq<ShapeV>)
    requires
        stack.len() > 0,
    ensures
        sum_size(stack) == sum_size(stack.drop_last()) + size(stack.last()),
        size(stack.last()) >= 1,
{
    match stack.last() {
        ShapeV::Static(t) => {
            match t {
                StaticV::Struct(_) | StaticV::Bag(_) | StaticV::Array(_) => {},
                _ => {},
            }
        },
        _ => {},
    }
}

/// The static types met walking a stack of shapes, the top first, unions
/// opened in place (their members then taken from the last).
pub open spec fn visit_statics(stack: Seq<ShapeV>) -> Seq<StaticV>
    decreases sum_size(stack),
{
    if stack.len() == 0 {
        Seq::empty()
    } else {
        let rest = stack.drop_last();
        proof { lemma_sum_size_last(stack); }
        match stack.last() {
            ShapeV::AnyOf(v) => {
                proof { lemma_sum_size_concat(rest, v); }
                visit_statics(rest + v)
            },
            ShapeV::Static(t) => seq![t] + visit_statics(rest),
            _ => visit_statics(rest),
        }
    }
}

/// Whether walking the stack meets a dynamic or undefined shape.
pub open spec fn visit_dynamic(stack: Seq<ShapeV>) -> bool
    decreases sum_size(stack),
{
    if stack.len() == 0 {
        false
    } else {
        let rest = stack.drop_last();
        proof { lemma_sum_size_last(stack); }
        match stack.last() {
            ShapeV::AnyOf(v) => {
                proof { lemma_sum_size_concat(rest, v); }
                visit_dynamic(rest + v)
            },
            ShapeV::Static(_) => visit_dynamic(rest),
            _ => true,
        }
    }
}

/// The simple types a dynamic shape stands for.
pub open spec fn dynamic_variants() -> Seq<StaticV> {
    seq![StaticV::Int, StaticV::Int8, StaticV::Int16, StaticV::Int32, StaticV::Int64, StaticV::Bool,
        StaticV::Decimal, StaticV::Float64, StaticV::String]
}

/// The static types of a shape, each once, in the order met: those of its
/// unions' members, and the simple types where it is dynamic or undefined.
pub open spec fn flat_types(s: ShapeV) -> Seq<StaticV> {
    unique_seq(visit_statics(seq![s]) + if visit_dynamic(seq![s]) { dynamic_variants() } else { Seq::empty() })
}

/// Types whose values compare with `<`.
pub open spec fn comparable(t: StaticV) -> bool {
    match t {
        StaticV::Int | StaticV::Int8 | StaticV::Int16 | StaticV::Int32 | StaticV::Int64 => true,
        StaticV::Bool => true,
        StaticV::Decimal | StaticV::DecimalP(_, _) => true,
        StaticV::Float32 | StaticV::Float64 => true,
        StaticV::DateTime => true,
        _ => false,
    }
}

/// Whether values of the static type compare with `<`.
pub fn is_comparable(t: &Static) -> (r: bool)
    ensures
        r == comparable(static_view(*t)),
{
    match t {
        Static::Int | Static::Int8 | Static::Int16 | Static::Int32 | Static::Int64 => true,
        Static::Bool => true,
        Static::Decimal | Static::DecimalP(_, _) => true,
        Static::Float32 | Static::Float64 => true,
        Static::DateTime => true,
        _ => false,
    }
}

pub open spec fn statics_view(v: Seq<Static>) -> Seq<StaticV> {
    v.map_values(|t: Static| static_view(t))
}

/// Adds a type to a list of distinct types unless it is there.
fn insert_type(flat: &mut Vec<Static>, t: &Static)
    ensures
        statics_view(final(flat)@) == if statics_view(old(flat)@).contains(static_view(*t)) {
            statics_view(old(flat)@)
        } else {
            statics_view(old(flat)@).push(static_view(*t))
        },
{
    let ghost fv = statics_view(flat@);
    let mut i: usize = 0;
    while i < flat.len()
        invariant
            i <= flat@.len(),
            flat@ == old(flat)@,
            fv == statics_view(flat@),
            forall|j: int| 0 <= j < i ==> fv[j] != static_view(*t),
        decreases flat@.len() - i,
    {
        if static_eq(&flat[i], t) {
            proof { assert(fv[i as int] == static_view(*t)); }
            return;
        }
        i += 1;
    }
    let c = clone_static(t);
    flat.push(c);
    proof { assert(statics_view(flat@) =~= fv.push(static_view(*t))); }
}

fn dynamic_variant(i: usize) -> (t: Static)
    requires
        i < 9,
    ensures
        static_view(t) == dynamic_variants()[i as int],
{
    if i == 0 { Static::Int }
    else if i == 1 { Static::Int8 }
    else if i == 2 { Static::Int16 }
    else if i == 3 { Static::Int32 }
    else if i == 4 { Static::Int64 }
    else if i == 5 { Static::Bool }
    else if i == 6 { Static::Decimal }
    else if i == 7 { Static::Float64 }
    else { Static::String }
}

pub open spec fn stack_view(v: Seq<&PartiqlShape>) -> Seq<ShapeV> {
    v.map_values(|s: &PartiqlShape| shape_view(*s))
}

/// The static types of a shape (see `flat_types`).
pub fn flatten_types(shape: &PartiqlShape) -> (r: Vec<Static>)
    ensures
        statics_view(r@) == flat_types(shape@),
{
    let mut dynamic = false;
    let mut candidates: Vec<&PartiqlShape> = Vec::new();
    candidates.push(shape);
    let mut flat: Vec<Static> = Vec::new();
    let ghost init = seq![shape@];
    let ghost mut emitted: Seq<StaticV> = Seq::empty();
    proof { assert(stack_view(candidates@) =~= init); }
    while candidates.len() > 0
        invariant
            visit_statics(init) == emitted + visit_statics(stack_view(candidates@)),
            visit_dynamic(init) == (dynamic || visit_dynamic(stack_view(candidates@))),
            statics_view(flat@) == unique_seq(emitted),
        decreases sum_size(stack_view(candidates@)),
    {
        let ghost st = stack_view(candidates@);
        proof { lemma_sum_size_last(st); }
        let candidate = candidates.pop().unwrap();
        proof { assert(stack_view(candidates@) =~= st.drop_last()); }
        match candidate {
            PartiqlShape::Dynamic => { dynamic = true; },
            PartiqlShape::AnyOf(any) => {
                let ghost before = stack_view(candidates@);
                proof { lemma_shapes_view(any@); lemma_sum_size_concat(before, shapes_view(any@)); }
                let mut k: usize = 0;
                while k < any.len()
                    invariant
                        k <= any@.len(),
                        shapes_view(any@).len() == any@.len(),
                        forall|j: int| 0 <= j < any@.len() ==> #[trigger] shapes_view(any@)[j] == shape_view(any@[j]),
                        stack_view(candidates@) == before + shapes_view(any@).take(k as int),
                    decreases any@.len() - k,
                {
                    let ghost c0 = stack_view(candidates@);
                    candidates.push(&any[k]);
                    proof {
                        assert(stack_view(candidates@) =~= c0.push(shape_view(any@[k as int])));
                        assert(shapes_view(any@).take(k + 1) =~= shapes_view(any@).take(k as int).push(shapes_view(any@)[k as int]));
                    }
                    k += 1;
                }
                proof { assert(shapes_view(any@).take(any@.len() as int) =~= shapes_view(any@)); }
            },
            PartiqlShape::Static(sty) => {
                insert_type(&mut flat, sty);
                proof {
                    assert((emitted.push(static_view(*sty))).drop_last() =~= emitted);
                    assert(emitted + (seq![static_view(*sty)] + visit_statics(stack_view(candidates@)))
                        =~= emitted.push(static_view(*sty)) + visit_statics(stack_view(candidates@)));
                    emitted = emitted.push(static_view(*sty));
                }
            },
            PartiqlShape::Undefined => { dynamic = true; },
        }
    }
    proof { assert(emitted + Seq::<StaticV>::empty() =~= emitted); }
    if dynamic {
        let ghost base = emitted;
        let mut i: usize = 0;
        while i < 9
            invariant
                i <= 9,
                statics_view(flat@) == unique_seq(base + dynamic_variants().take(i as int)),
            decreases 9 - i,
        {
            let t = dynamic_variant(i);
            insert_type(&mut flat, &t);
            proof {
                let s1 = base + dynamic_variants().take(i + 1);
                assert(s1.drop_last() =~= base + dynamic_variants().take(i as int));
                assert(s1.last() == dynamic_variants()[i as int]);
            }
            i += 1;
        }
        proof { assert(dynamic_variants().take(9) =~= dynamic_variants()); }
    }
    flat
}


/// Whether an expression is a random value of the static type: an integer
/// literal from -50 to 50, a boolean, a double (for decimals and floats), a
/// string, `UTCNOW()` for a date-time, a struct of the fields' names with
/// values of their shapes, or a list of two to five values of the element
/// shape.
pub open spec fn value_of(t: StaticV, e: ExprV) -> bool
    decreases e, 1nat,
{
    match t {
        StaticV::Int | StaticV::Int8 | StaticV::Int16 | StaticV::Int32 | StaticV::Int64 =>
            e matches ExprV::Lit(LitV::Int64(i)) && -50 <= i <= 50,
        StaticV::Bool => e matches ExprV::Lit(LitV::Bool(_)),
        StaticV::Decimal | StaticV::DecimalP(_, _) | StaticV::Float32 | StaticV::Float64 =>
            e matches ExprV::Lit(LitV::Double(_)),
        StaticV::String | StaticV::StringFixed(_) | StaticV::StringVarying(_) =>
            e matches ExprV::Lit(LitV::CharString(_)),
        StaticV::DateTime => e == ExprV::Call("UTCNOW"@, Seq::empty()),
        StaticV::Struct(fs) => match e {
            ExprV::Struct(ps) => ps.len() == fs.len() && forall|i: int| 0 <= i < ps.len() ==>
                ps[i].0 == ExprV::Lit(LitV::CharString(fs[i].name)) && #[trigger] shape_value(fs[i].ty, ps[i].1),
            _ => false,
        },
        StaticV::Bag(b) => list_of(*b, e),
        StaticV::Array(a) => list_of(*a, e),
    }
}

/// Whether an expression is a list of two to five random values of the
/// shape.
pub open spec fn list_of(s: ShapeV, e: ExprV) -> bool
    decreases e, 0nat,
{
    match e {
        ExprV::List(vs) => 2 <= vs.len() <= 5 && forall|i: int| 0 <= i < vs.len() ==> #[trigger] shape_value(s, vs[i]),
        _ => false,
    }
}

/// Whether an expression is a random value of one of the shape's types.
pub open spec fn shape_value(s: ShapeV, e: ExprV) -> bool
    decreases e, 2nat,
{
    exists|k: int| 0 <= k < flat_types(s).len() && value_of(#[trigger] flat_types(s)[k], e)
}


/// Whether random values of the shape can be made: it offers a type, and
/// so do the fields and elements of every type it offers.
pub open spec fn gen_ok(s: ShapeV) -> bool
    decreases s, 1nat,
{
    has_type(s) && shape_ok(s)
}

/// Whether every static type a shape offers through its unions can have
/// random values made.
pub open spec fn shape_ok(s: ShapeV) -> bool
    decreases s, 0nat,
{
    match s {
        ShapeV::AnyOf(v) => all_ok(v),
        ShapeV::Static(t) => static_ok(t),
        _ => true,
    }
}

pub open spec fn all_ok(v: Seq<ShapeV>) -> bool
    decreases v, 0nat,
{
    if v.len() == 0 {
        true
    } else {
        all_ok(v.drop_last()) && shape_ok(v.last())
    }
}

/// Whether random values of the static type can be made.
pub open spec fn static_ok(t: StaticV) -> bool
    decreases t, 0nat,
{
    match t {
        StaticV::Struct(fs) => fields_ok(fs),
        StaticV::Bag(b) => gen_ok(*b),
        StaticV::Array(a) => gen_ok(*a),
        _ => true,
    }
}

pub open spec fn fields_ok(fs: Seq<FieldV>) -> bool
    decreases fs, 0nat,
{
    if fs.len() == 0 {
        true
    } else {
        fields_ok(fs.drop_last()) && gen_ok(fs.last().ty)
    }
}

/// Whether a shape offers a type: any but an empty union, or a union of
/// such.
pub open spec fn has_type(s: ShapeV) -> bool
    decreases s,
{
    match s {
        ShapeV::AnyOf(v) => any_type(v),
        _ => true,
    }
}

pub open spec fn any_type(v: Seq<ShapeV>) -> bool
    decreases v,
{
    if v.len() == 0 {
        false
    } else {
        any_type(v.drop_last()) || has_type(v.last())
    }
}

proof fn lemma_all_ok(v: Seq<ShapeV>)
    ensures
        all_ok(v) <==> forall|i: int| 0 <= i < v.len() ==> shape_ok(#[trigger] v[i]),
    decreases v.len(),
{
    if v.len() > 0 {
        lemma_all_ok(v.drop_last());
        if forall|i: int| 0 <= i < v.len() ==> shape_ok(#[trigger] v[i]) {
            assert forall|i: int| 0 <= i < v.len() - 1 implies shape_ok(#[trigger] v.drop_last()[i]) by {
                assert(v.drop_last()[i] == v[i]);
            }
            assert(shape_ok(v[v.len() - 1]));
        }
        if all_ok(v) {
            assert forall|i: int| 0 <= i < v.len() implies shape_ok(#[trigger] v[i]) by {
                if i < v.len() - 1 {
                    assert(v.drop_last()[i] == v[i]);
                }
            }
        }
    }
}

proof fn lemma_fields_ok(fs: Seq<FieldV>)
    ensures
        fields_ok(fs) <==> forall|i: int| 0 <= i < fs.len() ==> gen_ok(#[trigger] fs[i].ty),
    decreases fs.len(),
{
    if fs.len() > 0 {
        lemma_fields_ok(fs.drop_last());
        if forall|i: int| 0 <= i < fs.len() ==> gen_ok(#[trigger] fs[i].ty) {
            assert forall|i: int| 0 <= i < fs.len() - 1 implies gen_ok(#[trigger] fs.drop_last()[i].ty) by {
                assert(fs.drop_last()[i] == fs[i]);
            }
            assert(gen_ok(fs[fs.len() - 1].ty));
        }
        if fields_ok(fs) {
            assert forall|i: int| 0 <= i < fs.len() implies gen_ok(#[trigger] fs[i].ty) by {
                if i < fs.len() - 1 {
                    assert(fs.drop_last()[i] == fs[i]);
                }
            }
        }
    }
}

proof fn lemma_any_type(v: Seq<ShapeV>)
    ensures
        any_type(v) <==> exists|i: int| 0 <= i < v.len() && has_type(#[trigger] v[i]),
    decreases v.len(),
{
    if v.len() > 0 {
        lemma_any_type(v.drop_last());
        if any_type(v.drop_last()) {
            let i = choose|i: int| 0 <= i < v.drop_last().len() && has_type(#[trigger] v.drop_last()[i]);
            assert(v[i] == v.drop_last()[i]);
        }
        if has_type(v.last()) {
            assert(has_type(v[v.len() - 1]));
        }
        if exists|i: int| 0 <= i < v.len() && has_type(#[trigger] v[i]) {
            let i = choose|i: int| 0 <= i < v.len() && has_type(#[trigger] v[i]);
            if i < v.len() - 1 {
                assert(v.drop_last()[i] == v[i]);
            }
        }
    }
}

/// Walking a stack of shapes that all can have values made meets only
/// types that can, and meets a type (or a dynamic shape) when one of them
/// offers one.
proof fn lemma_visit_ok(stack: Seq<ShapeV>)
    requires
        forall|i: int| 0 <= i < stack.len() ==> shape_ok(#[trigger] stack[i]),
    ensures
        forall|k: int| 0 <= k < visit_statics(stack).len() ==> static_ok(#[trigger] visit_statics(stack)[k]),
        (exists|i: int| 0 <= i < stack.len() && has_type(#[trigger] stack[i]))
            ==> visit_statics(stack).len() > 0 || visit_dynamic(stack),
    decreases sum_size(stack),
{
    if stack.len() > 0 {
        let rest = stack.drop_last();
        lemma_sum_size_last(stack);
        assert forall|i: int| 0 <= i < rest.len() implies shape_ok(#[trigger] rest[i]) by {
            assert(rest[i] == stack[i]);
        }
        let top = stack.last();
        assert(shape_ok(stack[stack.len() - 1]));
        match top {
            ShapeV::AnyOf(v) => {
                lemma_sum_size_concat(rest, v);
                lemma_all_ok(v);
                lemma_any_type(v);
                let st2 = rest + v;
                assert forall|i: int| 0 <= i < st2.len() implies shape_ok(#[trigger] st2[i]) by {
                    if i < rest.len() {
                        assert(st2[i] == rest[i]);
                    } else {
                        assert(st2[i] == v[i - rest.len()]);
                    }
                }
                lemma_visit_ok(st2);
                if exists|i: int| 0 <= i < stack.len() && has_type(#[trigger] stack[i]) {
                    let i = choose|i: int| 0 <= i < stack.len() && has_type(#[trigger] stack[i]);
                    if i < rest.len() {
                        assert(st2[i] == rest[i]);
                        assert(rest[i] == stack[i]);
                    } else {
                        assert(has_type(stack[stack.len() - 1]));
                        let j = choose|j: int| 0 <= j < v.len() && has_type(#[trigger] v[j]);
                        assert(st2[rest.len() + j] == v[j]);
                    }
                }
            },
            ShapeV::Static(t) => {
                lemma_visit_ok(rest);
                let vs = visit_statics(stack);
                assert(vs == seq![t] + visit_statics(rest));
                assert forall|k: int| 0 <= k < vs.len() implies static_ok(#[trigger] vs[k]) by {
                    if k > 0 {
                        assert(vs[k] == visit_statics(rest)[k - 1]);
                    }
                }
            },
            _ => {
                lemma_visit_ok(rest);
            },
        }
    }
}

proof fn lemma_unique_nonempty<A>(s: Seq<A>)
    requires
        s.len() > 0,
    ensures
        unique_seq(s).len() > 0,
    decreases s.len(),
{
    if s.drop_last().len() > 0 {
        lemma_unique_nonempty(s.drop_last());
    }
}

/// A shape whose values can be made offers a type, and each type it offers
/// can have values made.
pub proof fn lemma_flat_types_ok(s: ShapeV)
    requires
        gen_ok(s),
    ensures
        flat_types(s).len() > 0,
        forall|k: int| 0 <= k < flat_types(s).len() ==> static_ok(#[trigger] flat_types(s)[k]),
{
    let st = seq![s];
    assert(st[0] == s);
    lemma_visit_ok(st);
    let all = visit_statics(st) + if visit_dynamic(st) { dynamic_variants() } else { Seq::empty() };
    assert forall|k: int| 0 <= k < all.len() implies static_ok(#[trigger] all[k]) by {
        if k < visit_statics(st).len() {
            assert(all[k] == visit_statics(st)[k]);
        }
    }
    lemma_unique_nonempty(all);
    crate::path::lemma_unique_contained(all);
    assert forall|k: int| 0 <= k < flat_types(s).len() implies static_ok(#[trigger] flat_types(s)[k]) by {
        assert(all.contains(flat_types(s)[k]));
    }
}


/// A type met walking a stack counts no more nodes than the stack.
proof fn lemma_visit_size(stack: Seq<ShapeV>)
    ensures
        forall|k: int| 0 <= k < visit_statics(stack).len() ==>
            size(ShapeV::Static(#[trigger] visit_statics(stack)[k])) <= sum_size(stack),
    decreases sum_size(stack),
{
    if stack.len() > 0 {
        let rest = stack.drop_last();
        lemma_sum_size_last(stack);
        match stack.last() {
            ShapeV::AnyOf(v) => {
                lemma_sum_size_concat(rest, v);
                lemma_visit_size(rest + v);
            },
            ShapeV::Static(t) => {
                lemma_visit_size(rest);
                let vs = visit_statics(stack);
                assert forall|k: int| 0 <= k < vs.len() implies size(ShapeV::Static(#[trigger] vs[k])) <= sum_size(stack) by {
                    if k > 0 {
                        assert(vs[k] == visit_statics(rest)[k - 1]);
                    }
                }
            },
            _ => {
                lemma_visit_size(rest);
            },
        }
    }
}

/// A type a shape offers counts no more nodes than the shape.
pub proof fn lemma_flat_types_size(s: ShapeV)
    ensures
        forall|k: int| 0 <= k < flat_types(s).len() ==> size(ShapeV::Static(#[trigger] flat_types(s)[k])) <= size(s),
{
    let st = seq![s];
    lemma_sum_size_last(st);
    assert(st.drop_last() =~= Seq::<ShapeV>::empty());
    lemma_visit_size(st);
    let all = visit_statics(st) + if visit_dynamic(st) { dynamic_variants() } else { Seq::empty() };
    assert forall|k: int| 0 <= k < all.len() implies size(ShapeV::Static(#[trigger] all[k])) <= size(s) by {
        if k < visit_statics(st).len() {
            assert(all[k] == visit_statics(st)[k]);
        }
    }
    crate::path::lemma_unique_contained(all);
    assert forall|k: int| 0 <= k < flat_types(s).len() implies size(ShapeV::Static(#[trigger] flat_types(s)[k])) <= size(s) by {
        assert(all.contains(flat_types(s)[k]));
    }
}

/// Makes random literal values for query predicates.
pub struct SimpleRandomValueGenerator {}

impl SimpleRandomValueGenerator {
    pub fn new() -> (g: Self) {
        SimpleRandomValueGenerator {}
    }

    /// A random boolean literal.
    pub fn rand_bool(&self, rng: &mut rand_pcg::Mcg128Xsl64) -> (e: Expr)
        ensures
            e@ matches ExprV::Lit(LitV::Bool(_)),
    {
        Expr::Lit(Lit::Bool(draw_coin(rng)))
    }

    /// A random integer literal from -50 to 50.
    pub fn rand_int(&self, rng: &mut rand_pcg::Mcg128Xsl64) -> (e: Expr)
        ensures
            e@ matches ExprV::Lit(LitV::Int64(i)) && -50 <= i <= 50,
    {
        Expr::Lit(Lit::Int64(draw_int(rng, -50, 50)))
    }

    /// A random double literal (from -50 to 50).
    pub fn rand_float(&self, rng: &mut rand_pcg::Mcg128Xsl64) -> (e: Expr)
        ensures
            e@ matches ExprV::Lit(LitV::Double(_)),
    {
        Expr::Lit(Lit::Double(draw_double_bits(rng)))
    }

    /// A random text literal of one to three lorem ipsum words.
    pub fn rand_text(&self, rng: &mut rand_pcg::Mcg128Xsl64) -> (e: Expr)
        ensures
            e@ matches ExprV::Lit(LitV::CharString(_)),
    {
        let len = draw_int(rng, 1, 3);
        let txt = lorem_words(rng, len as usize);
        Expr::Lit(Lit::CharString(txt))
    }

    /// The current time, `UTCNOW()`.
    pub fn rand_datetime(&self, rng: &mut rand_pcg::Mcg128Xsl64) -> (e: Expr)
        ensures
            e@ == ExprV::Call("UTCNOW"@, Seq::empty()),
    {
        let args: Vec<Expr> = Vec::new();
        let e = Expr::Call(String::from_str("UTCNOW"), args);
        proof { assert(exprs_view(args@) =~= Seq::<ExprV>::empty()); }
        e
    }

    /// A struct of each field's name with a random value of its shape.
    pub fn rand_struct(&self, fields: &Vec<StructField>, rng: &mut rand_pcg::Mcg128Xsl64) -> (e: Expr)
        requires
            fields_ok(fields_view(fields@)),
        ensures
            value_of(StaticV::Struct(fields_view(fields@)), e@),
        decreases size(ShapeV::Static(StaticV::Struct(fields_view(fields@)))), 1nat,
    {
        let ghost fv = fields_view(fields@);
        proof { lemma_fields_view(fields@); lemma_fields_ok(fv); }
        let mut pairs: Vec<(Expr, Expr)> = Vec::new();
        let mut i: usize = 0;
        while i < fields.len()
            invariant
                i <= fields@.len(),
                fv == fields_view(fields@),
                fv.len() == fields@.len(),
                forall|j: int| 0 <= j < fields@.len() ==> #[trigger] fv[j] == (FieldV { name: fields@[j].name@, ty: shape_view(fields@[j].ty) }),
                forall|j: int| 0 <= j < fv.len() ==> gen_ok(#[trigger] fv[j].ty),
                pairs@.len() == i,
                forall|j: int| 0 <= j < i ==> expr_view(#[trigger] pairs@[j].0) == ExprV::Lit(LitV::CharString(fv[j].name))
                    && shape_value(fv[j].ty, expr_view(pairs@[j].1)),
            decreases fields@.len() - i,
        {
            proof {
                assert(gen_ok(fv[i as int].ty));
                lemma_field_bounds(fv, i as int);
            }
            let first = Expr::Lit(Lit::CharString(fields[i].name.clone()));
            let second = self.rand_val_from_shape(&fields[i].ty, rng);
            pairs.push((first, second));
            i += 1;
        }
        proof { lemma_expr_pairs_view(pairs@); }
        Expr::Struct(pairs)
    }

    /// A list of two to five random values of the shape.
    fn rand_list(&self, shape: &PartiqlShape, rng: &mut rand_pcg::Mcg128Xsl64) -> (e: Expr)
        requires
            gen_ok(shape@),
        ensures
            list_of(shape@, e@),
        decreases size(shape@), 4nat,
    {
        let len = draw_int(rng, 2, 5);
        let mut values: Vec<Expr> = Vec::new();
        let mut i: i64 = 0;
        while i < len
            invariant
                0 <= i <= len <= 5,
                gen_ok(shape@),
                values@.len() == i,
                forall|j: int| 0 <= j < i ==> shape_value(shape@, expr_view(#[trigger] values@[j])),
            decreases len - i,
        {
            let v = self.rand_val_from_shape(shape, rng);
            values.push(v);
            i += 1;
        }
        proof { lemma_exprs_view(values@); }
        Expr::List(values)
    }

    /// A bag of random values of the element shape, written as a list.
    pub fn rand_bag(&self, shape: &PartiqlShape, rng: &mut rand_pcg::Mcg128Xsl64) -> (e: Expr)
        requires
            gen_ok(shape@),
        ensures
            list_of(shape@, e@),
    {
        self.rand_list(shape, rng)
    }

    /// An array of random values of the element shape.
    pub fn rand_static_array(&self, shape: &PartiqlShape, rng: &mut rand_pcg::Mcg128Xsl64) -> (e: Expr)
        requires
            gen_ok(shape@),
        ensures
            list_of(shape@, e@),
    {
        self.rand_list(shape, rng)
    }

    /// An array of random values of the shape.
    pub fn rand_array(&self, shape: &PartiqlShape, rng: &mut rand_pcg::Mcg128Xsl64) -> (e: Expr)
        requires
            gen_ok(shape@),
        ensures
            list_of(shape@, e@),
    {
        self.rand_list(shape, rng)
    }

    /// A random value of the static type.
    pub fn rand_val(&self, ty: &Static, rng: &mut rand_pcg::Mcg128Xsl64) -> (e: Expr)
        requires
            static_ok(static_view(*ty)),
        ensures
            value_of(static_view(*ty), e@),
        decreases size(ShapeV::Static(static_view(*ty))), 2nat,
    {
        match ty {
            Static::Int | Static::Int8 | Static::Int16 | Static::Int32 | Static::Int64 => self.rand_int(rng),
            Static::Bool => self.rand_bool(rng),
            Static::Decimal | Static::DecimalP(_, _) => self.rand_float(rng),
            Static::Float32 | Static::Float64 => self.rand_float(rng),
            Static::String | Static::StringFixed(_) | Static::StringVarying(_) => self.rand_text(rng),
            Static::DateTime => self.rand_datetime(rng),
            Static::Struct(strct) => self.rand_struct(strct, rng),
            Static::Bag(bag) => self.rand_list(bag, rng),
            Static::Array(array) => self.rand_list(array, rng),
        }
    }

    /// A random value of one of the shape's types, chosen uniformly.
    pub fn rand_val_from_shape(&self, shape: &PartiqlShape, rng: &mut rand_pcg::Mcg128Xsl64) -> (e: Expr)
        requires
            gen_ok(shape@),
        ensures
            shape_value(shape@, e@),
        decreases size(shape@), 3nat,
    {
        let flat = flatten_types(shape);
        proof { lemma_flat_types_ok(shape@); lemma_flat_types_size(shape@); }
        match choose_position(rng, flat.len()) {
            Some(k) => {
                proof {
                    assert(statics_view(flat@)[k as int] == static_view(flat@[k as int]));
                    assert(static_ok(flat_types(shape@)[k as int]));
                }
                let e = self.rand_val(&flat[k], rng);
                proof { assert(value_of(flat_types(shape@)[k as int], e@)); }
                e
            },
            None => {
                proof { assert(false); }
                Expr::Lit(Lit::Null)
            },
        }
    }
}


/// The expression of a dataset's path: the dataset's variable and the
/// path's steps after its first.
pub open spec fn path_expr(name: Seq<char>, p: PathV) -> ExprV {
    ExprV::Path(QueryPathV { root: name, steps: if p.steps.len() == 0 { Seq::empty() } else { p.steps.skip(1) } })
}

/// The query path of a dataset's path.
pub fn dataset_path(name: &str, path_and_shape: &PathAndShape) -> (r: QueryPath)
    ensures
        ExprV::Path(r@) == path_expr(name@, path_and_shape@),
{
    let mut steps: Vec<PathGenStep> = Vec::new();
    let mut i: usize = 1;
    let ghost sv = steps_view(path_and_shape.steps@);
    while i < path_and_shape.steps.len()
        invariant
            1 <= i <= path_and_shape.steps@.len() || path_and_shape.steps@.len() == 0,
            sv == steps_view(path_and_shape.steps@),
            steps@.len() == if i >= 1 && path_and_shape.steps@.len() > 0 { i - 1 } else { 0 },
            forall|j: int| 0 <= j < steps@.len() ==> (#[trigger] steps@[j])@ == sv[j + 1],
        decreases path_and_shape.steps@.len() - i,
    {
        steps.push(clone_step(&path_and_shape.steps[i]));
        i += 1;
    }
    proof {
        if sv.len() == 0 {
            assert(steps_view(steps@) =~= Seq::<StepV>::empty());
        } else {
            assert(steps_view(steps@) =~= sv.skip(1));
        }
    }
    QueryPath { root: name.to_owned(), steps }
}

/// Whether an expression is a random value of a comparable type the shape
/// offers.
pub open spec fn comparable_value(s: ShapeV, e: ExprV) -> bool {
    exists|k: int| 0 <= k < flat_types(s).len() && comparable(flat_types(s)[k]) && #[trigger] value_of(flat_types(s)[k], e)
}

/// Whether two expressions are random values of one comparable type the
/// shape offers.
pub open spec fn comparable_values(s: ShapeV, a: ExprV, b: ExprV) -> bool {
    exists|k: int| 0 <= k < flat_types(s).len() && comparable(flat_types(s)[k])
        && #[trigger] value_of(flat_types(s)[k], a) && value_of(flat_types(s)[k], b)
}

/// Whether the shape offers a comparable type.
pub open spec fn has_comparable(s: ShapeV) -> bool {
    exists|k: int| 0 <= k < flat_types(s).len() && comparable(#[trigger] flat_types(s)[k])
}

/// Whether `e` is `path op r` with `r` as `right` says.
pub open spec fn binop_of(op: BinOpKind, path: ExprV, right: spec_fn(ExprV) -> bool, e: ExprV) -> bool {
    match e {
        ExprV::BinOp(k, l, r) => k == op && *l == path && right(*r),
        _ => false,
    }
}

/// Whether `e` is `path op b` for a boolean literal `b`.
pub open spec fn bool_op_of(op: BinOpKind, path: ExprV, e: ExprV) -> bool {
    match e {
        ExprV::BinOp(k, l, r) => k == op && *l == path && (*r matches ExprV::Lit(LitV::Bool(_))),
        _ => false,
    }
}

/// Whether `e` is `x`, or `NOT x` when inverted, with `x` as `test` says.
pub open spec fn directed_of(d: PredicateDirection, test: spec_fn(ExprV) -> bool, e: ExprV) -> bool {
    match d {
        PredicateDirection::Normal => test(e),
        PredicateDirection::Inverted => match e {
            ExprV::UniOp(UniOpKind::Not, x) => test(*x),
            _ => false,
        },
    }
}

/// Whether `x` is `path LIKE 'text'`.
pub open spec fn like_of(path: ExprV, x: ExprV) -> bool {
    match x {
        ExprV::Like(v, p, None) => *v == path && (*p matches ExprV::Lit(LitV::CharString(_))),
        _ => false,
    }
}

/// Whether `x` is `path IN [values of the shape]`.
pub open spec fn in_of(path: ExprV, s: ShapeV, x: ExprV) -> bool {
    match x {
        ExprV::In(l, r) => *l == path && list_of(s, *r),
        _ => false,
    }
}

/// Whether `e` tests the path (of the shape) by the predicate: `AND`/`OR`
/// with a random boolean, `NOT`, a comparison with a random value of one of
/// its types (a comparable one for an ordering), `BETWEEN` two random values
/// of a comparable type, `IS NULL` / `IS MISSING`, `LIKE` a random text, or
/// `IN` a list of random values; the directed ones negated when inverted.
pub open spec fn pred_expr(p: Predicate, path: ExprV, s: ShapeV, e: ExprV) -> bool {
    match p {
        Predicate::AND => bool_op_of(BinOpKind::And, path, e),
        Predicate::OR => bool_op_of(BinOpKind::Or, path, e),
        Predicate::NOT => e == ExprV::UniOp(UniOpKind::Not, Box::new(path)),
        Predicate::EQ => binop_of(BinOpKind::Eq, path, |r: ExprV| shape_value(s, r), e),
        Predicate::NEQ => binop_of(BinOpKind::Ne, path, |r: ExprV| shape_value(s, r), e),
        Predicate::LTE => binop_of(BinOpKind::Lte, path, |r: ExprV| comparable_value(s, r), e),
        Predicate::LT => binop_of(BinOpKind::Lt, path, |r: ExprV| comparable_value(s, r), e),
        Predicate::GTE => binop_of(BinOpKind::Gte, path, |r: ExprV| comparable_value(s, r), e),
        Predicate::GT => binop_of(BinOpKind::Gt, path, |r: ExprV| comparable_value(s, r), e),
        Predicate::BETWEEN => match e {
            ExprV::Between(v, a, b) => *v == path && comparable_values(s, *a, *b),
            _ => false,
        },
        Predicate::IS_NULL(d) => directed_of(d, |x: ExprV|
            x == ExprV::BinOp(BinOpKind::Is, Box::new(path), Box::new(ExprV::Lit(LitV::Null))), e),
        Predicate::IS_MISSING(d) => directed_of(d, |x: ExprV|
            x == ExprV::BinOp(BinOpKind::Is, Box::new(path), Box::new(ExprV::Lit(LitV::Missing))), e),
        Predicate::LIKE(d) => directed_of(d, |x: ExprV| like_of(path, x), e),
        Predicate::IN(d) => directed_of(d, |x: ExprV| in_of(path, s, x), e),
    }
}

/// Whether a predicate can be generated for a path of the shape: those that
/// draw values need a shape whose values can be made, the orderings a
/// comparable type too.
pub open spec fn applicable(p: Predicate, s: ShapeV) -> bool {
    match p {
        Predicate::EQ | Predicate::NEQ | Predicate::IN(_) => gen_ok(s),
        Predicate::LTE | Predicate::LT | Predicate::GTE | Predicate::GT | Predicate::BETWEEN =>
            gen_ok(s) && has_comparable(s),
        _ => true,
    }
}

fn direct(d: PredicateDirection, x: Expr) -> (e: Expr)
    ensures
        match d {
            PredicateDirection::Normal => e@ == x@,
            PredicateDirection::Inverted => e@ == ExprV::UniOp(UniOpKind::Not, Box::new(x@)),
        },
{
    match d {
        PredicateDirection::Normal => x,
        PredicateDirection::Inverted => Expr::UniOp(UniOpKind::Not, Box::new(x)),
    }
}

/// A random comparable type the shape offers.
fn choose_comparable(flat: &Vec<Static>, rng: &mut rand_pcg::Mcg128Xsl64) -> (k: usize)
    requires
        exists|k: int| 0 <= k < flat@.len() && comparable(#[trigger] static_view(flat@[k])),
    ensures
        k < flat@.len(),
        comparable(static_view(flat@[k as int])),
{
    let mut keep: Vec<bool> = Vec::new();
    let mut i: usize = 0;
    while i < flat.len()
        invariant
            i <= flat@.len(),
            keep@.len() == i,
            forall|j: int| 0 <= j < i ==> keep@[j] == comparable(static_view(flat@[j])),
        decreases flat@.len() - i,
    {
        keep.push(is_comparable(&flat[i]));
        i += 1;
    }
    match choose_kept(rng, &keep) {
        Some(k) => k,
        None => {
            proof {
                let k = choose|k: int| 0 <= k < flat@.len() && comparable(#[trigger] static_view(flat@[k]));
                assert(keep@[k]);
            }
            0
        },
    }
}


/// Generates a test of one path by predicates chosen among those offered.
pub struct PredicateGen {
    pub dataset: String,
    pub predicates: PathPredicates,
    pub rng: rand_pcg::Mcg128Xsl64,
}

impl PredicateGen {
    /// A test of the path by one of the predicates, chosen uniformly.
    pub fn gen_ast(&mut self) -> (e: Expr)
        requires
            old(self).predicates.predicates@.len() > 0,
            forall|j: int| 0 <= j < old(self).predicates.predicates@.len() ==>
                applicable(#[trigger] old(self).predicates.predicates@[j], old(self).predicates.path_and_shape.shape@),
        ensures
            final(self).dataset == old(self).dataset,
            final(self).predicates == old(self).predicates,
            exists|j: int| 0 <= j < old(self).predicates.predicates@.len() && #[trigger] pred_expr(
                old(self).predicates.predicates@[j], path_expr(old(self).dataset@, old(self).predicates.path_and_shape@),
                old(self).predicates.path_and_shape.shape@, e@),
    {
        let n = self.predicates.predicates.len();
        let pred_idx = draw_index(&mut self.rng, n);
        let predicate = self.predicates.predicates[pred_idx];
        let path = Expr::Path(dataset_path(self.dataset.as_str(), &self.predicates.path_and_shape));
        proof { assert(applicable(self.predicates.predicates@[pred_idx as int], self.predicates.path_and_shape.shape@)); }
        let e = test_for(path, &self.predicates.path_and_shape.shape, predicate, &mut self.rng);
        proof {
            assert(pred_expr(self.predicates.predicates@[pred_idx as int],
                path_expr(self.dataset@, self.predicates.path_and_shape@), self.predicates.path_and_shape.shape@, e@));
        }
        e
    }
}

/// A test of the path expression, of a path of the shape, by the
/// predicate, with the random values it needs.
pub fn test_for(path: Expr, shape: &PartiqlShape, predicate: Predicate, rng: &mut rand_pcg::Mcg128Xsl64) -> (e: Expr)
    requires
        applicable(predicate, shape@),
    ensures
        pred_expr(predicate, path@, shape@, e@),
{
    let val_gen = SimpleRandomValueGenerator::new();
    match predicate {
        Predicate::AND => {
            let b = val_gen.rand_bool(rng);
            Expr::BinOp(BinOpKind::And, Box::new(path), Box::new(b))
        },
        Predicate::OR => {
            let b = val_gen.rand_bool(rng);
            Expr::BinOp(BinOpKind::Or, Box::new(path), Box::new(b))
        },
        Predicate::NOT => Expr::UniOp(UniOpKind::Not, Box::new(path)),
        Predicate::EQ | Predicate::NEQ => test_equality(path, shape, predicate, rng),
        Predicate::LTE | Predicate::LT | Predicate::GTE | Predicate::GT | Predicate::BETWEEN =>
            test_ordering(path, shape, predicate, rng),
        Predicate::IS_NULL(flag) => {
            let lit = Expr::Lit(Lit::Null);
            proof { assert(lit@ == ExprV::Lit(LitV::Null)); }
            let op = Expr::BinOp(BinOpKind::Is, Box::new(path), Box::new(lit));
            direct(flag, op)
        },
        Predicate::IS_MISSING(flag) => {
            let lit = Expr::Lit(Lit::Missing);
            proof { assert(lit@ == ExprV::Lit(LitV::Missing)); }
            let op = Expr::BinOp(BinOpKind::Is, Box::new(path), Box::new(lit));
            direct(flag, op)
        },
        Predicate::LIKE(flag) => {
            let pattern = val_gen.rand_text(rng);
            direct(flag, Expr::Like(Box::new(path), Box::new(pattern), None))
        },
        Predicate::IN(flag) => {
            let values = val_gen.rand_array(shape, rng);
            direct(flag, Expr::In(Box::new(path), Box::new(values)))
        },
    }
}

/// `path = v` or `path <> v` for a random value of one of the shape's
/// types.
fn test_equality(path: Expr, shape: &PartiqlShape, predicate: Predicate, rng: &mut rand_pcg::Mcg128Xsl64) -> (e: Expr)
    requires
        predicate is EQ || predicate is NEQ,
        gen_ok(shape@),
    ensures
        pred_expr(predicate, path@, shape@, e@),
{
    let val_gen = SimpleRandomValueGenerator::new();
    let flat = flatten_types(shape);
    proof { lemma_flat_types_ok(shape@); }
    let k = match choose_position(rng, flat.len()) {
        Some(k) => k,
        None => 0,
    };
    proof { assert(statics_view(flat@)[k as int] == static_view(flat@[k as int])); }
    let v = val_gen.rand_val(&flat[k], rng);
    proof { assert(value_of(flat_types(shape@)[k as int], v@)); }
    match predicate {
        Predicate::EQ => Expr::BinOp(BinOpKind::Eq, Box::new(path), Box::new(v)),
        _ => Expr::BinOp(BinOpKind::Ne, Box::new(path), Box::new(v)),
    }
}

/// An ordering of the path against a random value (two for `BETWEEN`) of a
/// comparable type the shape offers.
fn test_ordering(path: Expr, shape: &PartiqlShape, predicate: Predicate, rng: &mut rand_pcg::Mcg128Xsl64) -> (e: Expr)
    requires
        predicate is LTE || predicate is LT || predicate is GTE || predicate is GT || predicate is BETWEEN,
        gen_ok(shape@),
        has_comparable(shape@),
    ensures
        pred_expr(predicate, path@, shape@, e@),
{
    let val_gen = SimpleRandomValueGenerator::new();
    let flat = flatten_types(shape);
    proof {
        lemma_flat_types_ok(shape@);
        let k = choose|k: int| 0 <= k < flat_types(shape@).len() && comparable(#[trigger] flat_types(shape@)[k]);
        assert(statics_view(flat@)[k] == static_view(flat@[k]));
    }
    let k = choose_comparable(&flat, rng);
    proof {
        assert(statics_view(flat@)[k as int] == static_view(flat@[k as int]));
        assert(static_ok(flat_types(shape@)[k as int]));
    }
    let v = val_gen.rand_val(&flat[k], rng);
    proof { assert(value_of(flat_types(shape@)[k as int], v@)); }
    match predicate {
        Predicate::BETWEEN => {
            let w = val_gen.rand_val(&flat[k], rng);
            proof { assert(value_of(flat_types(shape@)[k as int], w@)); }
            Expr::Between(Box::new(path), Box::new(v), Box::new(w))
        },
        Predicate::LTE => Expr::BinOp(BinOpKind::Lte, Box::new(path), Box::new(v)),
        Predicate::LT => Expr::BinOp(BinOpKind::Lt, Box::new(path), Box::new(v)),
        Predicate::GTE => Expr::BinOp(BinOpKind::Gte, Box::new(path), Box::new(v)),
        _ => Expr::BinOp(BinOpKind::Gt, Box::new(path), Box::new(v)),
    }
}


/// Whether `e` tests some path of the dataset by one of that path's
/// predicates.
pub open spec fn leaf_of(name: Seq<char>, paths: Seq<(PathV, Seq<Predicate>)>, e: ExprV) -> bool {
    exists|i: int, j: int| 0 <= i < paths.len() && 0 <= j < paths[i].1.len()
        && #[trigger] pred_expr(paths[i].1[j], path_expr(name, paths[i].0), paths[i].0.shape, e)
}

/// Whether `e` joins `n` such tests with `AND` and `OR`.
pub open spec fn combo_of(name: Seq<char>, paths: Seq<(PathV, Seq<Predicate>)>, e: ExprV, n: nat) -> bool
    decreases e,
{
    if n == 1 {
        leaf_of(name, paths, e)
    } else {
        match e {
            ExprV::BinOp(k, l, r) => (k == BinOpKind::And || k == BinOpKind::Or) && exists|a: nat|
                #[trigger] part(a, n) && combo_of(name, paths, *l, a) && combo_of(name, paths, *r, (n - a) as nat),
            _ => false,
        }
    }
}

/// Whether `n` is from `lo` to `hi`.
pub open spec fn within(n: nat, lo: nat, hi: nat) -> bool {
    lo <= n <= hi
}

/// Whether `a` leaves a nonempty part of `n`.
pub open spec fn part(a: nat, n: nat) -> bool {
    1 <= a < n
}

/// Joining two combinations of tests with `AND` or `OR` combines all
/// their tests.
proof fn lemma_combo_join(name: Seq<char>, paths: Seq<(PathV, Seq<Predicate>)>, k: BinOpKind, l: ExprV, r: ExprV, a: nat, b: nat)
    requires
        k == BinOpKind::And || k == BinOpKind::Or,
        a >= 1,
        b >= 1,
        combo_of(name, paths, l, a),
        combo_of(name, paths, r, b),
    ensures
        combo_of(name, paths, ExprV::BinOp(k, Box::new(l), Box::new(r)), a + b),
{
    assert(((a + b) - a) as nat == b);
    assert(part(a, a + b));
}

/// The sum of the counts.
pub open spec fn total(c: Seq<nat>) -> nat
    decreases c.len(),
{
    if c.len() == 0 {
        0
    } else {
        total(c.drop_last()) + c.last()
    }
}

proof fn lemma_total_remove(c: Seq<nat>, i: int)
    requires
        0 <= i < c.len(),
    ensures
        total(c.remove(i)) + c[i] == total(c),
    decreases c.len(),
{
    if i == c.len() - 1 {
        assert(c.remove(i) =~= c.drop_last());
    } else {
        lemma_total_remove(c.drop_last(), i);
        assert(c.remove(i).drop_last() =~= c.drop_last().remove(i));
        assert(c.remove(i).last() == c.last());
    }
}

fn clone_path_and_shape(p: &PathAndShape) -> (r: PathAndShape)
    ensures
        r@ == p@,
{
    PathAndShape { steps: clone_steps(&p.steps), shape: crate::shape::clone_shape(&p.shape) }
}

fn clone_path_predicates(p: &PathPredicates) -> (r: PathPredicates)
    ensures
        r.path_and_shape@ == p.path_and_shape@,
        r.predicates@ == p.predicates@,
{
    let mut preds: Vec<Predicate> = Vec::new();
    let mut i: usize = 0;
    while i < p.predicates.len()
        invariant
            i <= p.predicates@.len(),
            preds@ == p.predicates@.take(i as int),
        decreases p.predicates@.len() - i,
    {
        preds.push(p.predicates[i]);
        proof { assert(preds@ =~= p.predicates@.take(i + 1)); }
        i += 1;
    }
    proof { assert(p.predicates@.take(p.predicates@.len() as int) =~= p.predicates@); }
    PathPredicates { path_and_shape: clone_path_and_shape(&p.path_and_shape), predicates: preds }
}

/// Whether every path of a dataset has predicates, each of which can be
/// generated for the path's shape.
pub open spec fn predicates_ok(paths: Seq<(PathV, Seq<Predicate>)>) -> bool {
    forall|i: int| 0 <= i < paths.len() ==> paths[i].1.len() > 0
        && forall|j: int| 0 <= j < paths[i].1.len() ==> #[trigger] applicable(paths[i].1[j], paths[i].0.shape)
}

/// A `WHERE` clause of a random number of tests of random paths, joined
/// at random with `AND` and `OR`.
pub struct PathRowFilter {
    pub paths: DatasetPredicates,
    /// The least and the most tests.
    pub min_items: u8,
    pub max_items: u8,
    pub rng: rand_pcg::Mcg128Xsl64,
}

impl PathRowFilter {
    /// The filter: between the least and the most tests, each of a path
    /// chosen uniformly, joined pairwise at random until one expression is
    /// left; a random boolean literal when there are none.
    pub fn gen_ast(&mut self) -> (e: Expr)
        requires
            old(self).paths.paths@.len() > 0,
            old(self).min_items <= old(self).max_items,
            predicates_ok(crate::predicate::path_predicates_view(old(self).paths.paths@)),
        ensures
            final(self).paths == old(self).paths,
            final(self).min_items == old(self).min_items,
            final(self).max_items == old(self).max_items,
            exists|n: nat| #[trigger] within(n, old(self).min_items as nat, old(self).max_items as nat)
                && (n == 0 ==> e@ matches ExprV::Lit(LitV::Bool(_)))
                && (n >= 1 ==> combo_of(old(self).paths.name@,
                    crate::predicate::path_predicates_view(old(self).paths.paths@), e@, n)),
    {
        let ghost name = self.paths.name@;
        let ghost pv = crate::predicate::path_predicates_view(self.paths.paths@);
        let num = draw_int(&mut self.rng, self.min_items as i64, self.max_items as i64) as usize;
        let n = self.paths.paths.len();
        let mut idxs: Vec<usize> = Vec::new();
        let mut k: usize = 0;
        while k < num
            invariant
                k <= num,
                self.paths == old(self).paths,
                n == self.paths.paths@.len(),
                self.min_items == old(self).min_items,
                self.max_items == old(self).max_items,
                old(self).min_items <= num <= old(self).max_items,
                n > 0,
                idxs@.len() == k,
                forall|j: int| 0 <= j < k ==> #[trigger] idxs@[j] < n,
            decreases num - k,
        {
            idxs.push(draw_index(&mut self.rng, n));
            k += 1;
        }
        let mut exprs: Vec<Expr> = Vec::new();
        let ghost mut counts: Seq<nat> = Seq::empty();
        let mut k: usize = 0;
        while k < num
            invariant
                k <= num,
                self.paths == old(self).paths,
                idxs@.len() == num,
                self.min_items == old(self).min_items,
                self.max_items == old(self).max_items,
                old(self).min_items <= num <= old(self).max_items,
                forall|j: int| 0 <= j < num ==> #[trigger] idxs@[j] < self.paths.paths@.len(),
                name == self.paths.name@,
                pv == crate::predicate::path_predicates_view(self.paths.paths@),
                predicates_ok(pv),
                exprs@.len() == k,
                counts.len() == k,
                total(counts) == k,
                forall|j: int| 0 <= j < k ==> #[trigger] counts[j] == 1 && combo_of(name, pv, exprs@[j]@, 1),
            decreases num - k,
        {
            let idx = idxs[k];
            let sub_rng = split_rng(&mut self.rng);
            let predicates = clone_path_predicates(&self.paths.paths[idx]);
            proof {
                assert(pv[idx as int] == (self.paths.paths@[idx as int].path_and_shape@, self.paths.paths@[idx as int].predicates@));
                assert(pv[idx as int].1.len() > 0);
                assert forall|j: int| 0 <= j < predicates.predicates@.len() implies
                    applicable(#[trigger] predicates.predicates@[j], predicates.path_and_shape.shape@) by {
                    assert(applicable(pv[idx as int].1[j], pv[idx as int].0.shape));
                }
            }
            let mut pg = PredicateGen { dataset: self.paths.name.clone(), predicates, rng: sub_rng };
            let ghost pg0 = pg;
            let leaf = pg.gen_ast();
            proof {
                let j = choose|j: int| 0 <= j < pg0.predicates.predicates@.len() && #[trigger] pred_expr(
                    pg0.predicates.predicates@[j], path_expr(pg0.dataset@, pg0.predicates.path_and_shape@),
                    pg0.predicates.path_and_shape.shape@, leaf@);
                assert(pred_expr(pv[idx as int].1[j], path_expr(name, pv[idx as int].0), pv[idx as int].0.shape, leaf@));
                assert(leaf_of(name, pv, leaf@));
            }
            let ghost c0 = counts;
            exprs.push(leaf);
            proof {
                counts = counts.push(1);
                assert(counts.drop_last() =~= c0);
            }
            k += 1;
        }
        while exprs.len() >= 2
            invariant
                self.paths == old(self).paths,
                name == self.paths.name@,
                pv == crate::predicate::path_predicates_view(self.paths.paths@),
                counts.len() == exprs@.len(),
                self.min_items == old(self).min_items,
                self.max_items == old(self).max_items,
                old(self).min_items <= num <= old(self).max_items,
                total(counts) == num,
                forall|j: int| 0 <= j < counts.len() ==> #[trigger] counts[j] >= 1 && combo_of(name, pv, exprs@[j]@, counts[j]),
            decreases exprs@.len(),
        {
            let ghost e0 = exprs@;
            let ghost c0 = counts;
            let next = draw_below(&mut self.rng, exprs.len());
            let lhs = exprs.remove(next);
            proof {
                lemma_total_remove(c0, next as int);
                counts = c0.remove(next as int);
                assert forall|j: int| 0 <= j < counts.len() implies #[trigger] counts[j] >= 1 && combo_of(name, pv, exprs@[j]@, counts[j]) by {
                    if j < next { assert(counts[j] == c0[j] && exprs@[j] == e0[j]); }
                    else { assert(counts[j] == c0[j + 1] && exprs@[j] == e0[j + 1]); }
                }
            }
            let ghost lc = c0[next as int];
            proof { assert(c0[next as int] >= 1 && combo_of(name, pv, e0[next as int]@, c0[next as int])); }
            let ghost e1 = exprs@;
            let ghost c1 = counts;
            let next = draw_below(&mut self.rng, exprs.len());
            let rhs = exprs.remove(next);
            proof {
                lemma_total_remove(c1, next as int);
                counts = c1.remove(next as int);
                assert forall|j: int| 0 <= j < counts.len() implies #[trigger] counts[j] >= 1 && combo_of(name, pv, exprs@[j]@, counts[j]) by {
                    if j < next { assert(counts[j] == c1[j] && exprs@[j] == e1[j]); }
                    else { assert(counts[j] == c1[j + 1] && exprs@[j] == e1[j + 1]); }
                }
            }
            let ghost rc = c1[next as int];
            proof { assert(c1[next as int] >= 1 && combo_of(name, pv, e1[next as int]@, c1[next as int])); }
            let is_and = draw_coin(&mut self.rng);
            let kind = if is_and { BinOpKind::And } else { BinOpKind::Or };
            let joined = Expr::BinOp(kind, Box::new(lhs), Box::new(rhs));
            proof {
                assert(joined@ == ExprV::BinOp(kind, Box::new(lhs@), Box::new(rhs@)));
                assert(combo_of(name, pv, lhs@, lc));
                assert(combo_of(name, pv, rhs@, ((lc + rc) - lc) as nat));
                lemma_combo_join(name, pv, kind, lhs@, rhs@, lc, rc);
                assert(combo_of(name, pv, joined@, lc + rc));
            }
            let ghost c2 = counts;
            exprs.push(joined);
            proof {
                counts = counts.push(lc + rc);
                assert(counts.drop_last() =~= c2);
            }
        }
        if exprs.len() == 1 {
            proof {
                assert(counts.drop_last().len() == 0);
                assert(total(counts.drop_last()) == 0);
                assert(total(counts) == counts[0]);
                assert(counts[0] >= 1 && combo_of(name, pv, exprs@[0]@, counts[0]));
            }
            let e = exprs.pop().unwrap();
            proof {
                assert(combo_of(name, pv, e@, num as nat));
                assert(self.min_items <= num <= self.max_items && (num == 0 ==> e@ matches ExprV::Lit(LitV::Bool(_)))
                    && (num >= 1 ==> combo_of(name, pv, e@, num as nat)));
                assert(name == old(self).paths.name@);
                assert(pv == crate::predicate::path_predicates_view(old(self).paths.paths@));
                assert(within(num as nat, old(self).min_items as nat, old(self).max_items as nat));
            }
            e
        } else {
            proof { assert(counts.len() == 0); }
            let e = Expr::Lit(Lit::Bool(draw_coin(&mut self.rng)));
            proof {
                assert(self.min_items <= num <= self.max_items && (num == 0 ==> e@ matches ExprV::Lit(LitV::Bool(_)))
                    && (num >= 1 ==> combo_of(name, pv, e@, num as nat)));
                assert(name == old(self).paths.name@);
                assert(pv == crate::predicate::path_predicates_view(old(self).paths.paths@));
                assert(within(num as nat, old(self).min_items as nat, old(self).max_items as nat));
            }
            e
        }
    }
}


/// Walking a stack walks its top part first, then the rest.
pub proof fn lemma_visit_concat(a: Seq<ShapeV>, b: Seq<ShapeV>)
    ensures
        visit_statics(a + b) == visit_statics(b) + visit_statics(a),
        visit_dynamic(a + b) == (visit_dynamic(a) || visit_dynamic(b)),
    decreases sum_size(b),
{
    if b.len() == 0 {
        assert(a + b =~= a);
        assert(visit_statics(b) + visit_statics(a) =~= visit_statics(a));
    } else {
        let ab = a + b;
        lemma_sum_size_last(b);
        assert(ab.drop_last() =~= a + b.drop_last());
        assert(ab.last() == b.last());
        match b.last() {
            ShapeV::AnyOf(v) => {
                let b2 = b.drop_last() + v;
                lemma_sum_size_concat(b.drop_last(), v);
                assert(a + b.drop_last() + v =~= a + b2);
                lemma_visit_concat(a, b2);
            },
            ShapeV::Static(t) => {
                lemma_visit_concat(a, b.drop_last());
                assert(seq![t] + (visit_statics(b.drop_last()) + visit_statics(a))
                    =~= (seq![t] + visit_statics(b.drop_last())) + visit_statics(a));
            },
            _ => {
                lemma_visit_concat(a, b.drop_last());
            },
        }
    }
}

/// An element of a sequence is kept by `unique_seq`.
pub proof fn lemma_unique_has<A>(s: Seq<A>, x: A)
    requires
        s.contains(x),
    ensures
        unique_seq(s).contains(x),
    decreases s.len(),
{
    if s.last() == x {
        let u = unique_seq(s.drop_last());
        if !u.contains(x) {
            assert(u.push(x)[u.len() as int] == x);
        }
    } else {
        let k = choose|k: int| 0 <= k < s.len() && s[k] == x;
        assert(s.drop_last()[k] == x);
        lemma_unique_has(s.drop_last(), x);
        let u = unique_seq(s.drop_last());
        let j = choose|j: int| 0 <= j < u.len() && u[j] == x;
        if !u.contains(s.last()) {
            assert(u.push(s.last())[j] == x);
        }
    }
}

/// A type a union's member offers, the union offers too.
proof fn lemma_member_comparable(v: Seq<ShapeV>, i: int)
    requires
        0 <= i < v.len(),
        has_comparable(v[i]),
    ensures
        has_comparable(ShapeV::AnyOf(v)),
{
    let m = v[i];
    let k = choose|k: int| 0 <= k < flat_types(m).len() && comparable(#[trigger] flat_types(m)[k]);
    let t = flat_types(m)[k];
    let sm = seq![m];
    let all_m = visit_statics(sm) + if visit_dynamic(sm) { dynamic_variants() } else { Seq::empty() };
    crate::path::lemma_unique_contained(all_m);
    assert(all_m.contains(t));
    // the whole union walks its members as a stack
    let su = seq![ShapeV::AnyOf(v)];
    lemma_sum_size_last(su);
    assert(su.drop_last() + v =~= v);
    assert(visit_statics(su) == visit_statics(v));
    assert(visit_dynamic(su) == visit_dynamic(v));
    let front = v.take(i);
    let back = v.skip(i + 1);
    assert(v =~= front + sm + back);
    lemma_visit_concat(front + sm, back);
    lemma_visit_concat(front, sm);
    let all_u = visit_statics(su) + if visit_dynamic(su) { dynamic_variants() } else { Seq::empty() };
    let j = choose|j: int| 0 <= j < all_m.len() && all_m[j] == t;
    if j < visit_statics(sm).len() {
        assert(visit_statics(v) == visit_statics(back) + (visit_statics(sm) + visit_statics(front)));
        assert(visit_statics(v)[visit_statics(back).len() + j] == t);
        assert(all_u[visit_statics(back).len() + j] == t);
    } else {
        assert(visit_dynamic(sm));
        assert(visit_dynamic(v));
        assert(all_u[visit_statics(su).len() + (j - visit_statics(sm).len())] == t);
    }
    assert(all_u.contains(t));
    lemma_unique_has(all_u, t);
    let q = choose|q: int| 0 <= q < flat_types(ShapeV::AnyOf(v)).len() && flat_types(ShapeV::AnyOf(v))[q] == t;
    assert(comparable(flat_types(ShapeV::AnyOf(v))[q]));
}

/// The predicate bits that order a path against values.
pub open spec fn ordering_bits() -> u32 {
    BETWEEN_BITS | (LTE_BITS | LT_BITS) | (GTE_BITS | GT_BITS)
}

/// No ordering among the predicate bits of absent values, of equality, of
/// logic, of `LIKE` or of `IN`.
proof fn lemma_ordering_bits()
    ensures
        ordering_bits() == 32888u32,
        absent_bits() & ordering_bits() == 0,
        in_bits() & ordering_bits() == 0,
        (absent_bits() | equality_bits()) & ordering_bits() == 0,
        ((absent_bits() | equality_bits()) | logical_bits()) & ordering_bits() == 0,
        ((absent_bits() | equality_bits()) | like_bits()) & ordering_bits() == 0,
{
    assert(ordering_bits() == 32888u32) by (bit_vector);
    assert(absent_bits() & ordering_bits() == 0) by (bit_vector);
    assert(in_bits() & ordering_bits() == 0) by (bit_vector);
    assert((absent_bits() | equality_bits()) & ordering_bits() == 0) by (bit_vector);
    assert(((absent_bits() | equality_bits()) | logical_bits()) & ordering_bits() == 0) by (bit_vector);
    assert(((absent_bits() | equality_bits()) | like_bits()) & ordering_bits() == 0) by (bit_vector);
}

/// An ordering bit of a union of bits is one of a part.
proof fn lemma_or_ordering(x: u32, y: u32)
    ensures
        (x | y) & ordering_bits() != 0 ==> x & ordering_bits() != 0 || y & ordering_bits() != 0,
{
    assert((x | y) & ordering_bits() != 0 ==> x & ordering_bits() != 0 || y & ordering_bits() != 0) by (bit_vector);
}

/// Where a shape's matching predicates include an ordering, it offers a
/// comparable type.
proof fn lemma_ordering_comparable(s: ShapeV)
    requires
        matching_bits(s) is Some,
        matching_bits(s)->0 & ordering_bits() != 0,
    ensures
        has_comparable(s),
    decreases s, 1nat,
{
    match s {
        ShapeV::Dynamic => {
            let st = seq![s];
            lemma_sum_size_last(st);
            assert(st.drop_last() =~= Seq::<ShapeV>::empty());
            assert(st.last() == s);
            assert(visit_statics(Seq::<ShapeV>::empty()) == Seq::<StaticV>::empty());
            assert(visit_statics(st) =~= Seq::<StaticV>::empty());
            assert(visit_dynamic(st));
            let all = visit_statics(st) + dynamic_variants();
            assert(flat_types(s) == unique_seq(all));
            assert(all[0] == StaticV::Int);
            assert(all.contains(StaticV::Int));
            lemma_unique_has(all, StaticV::Int);
            let q = choose|q: int| 0 <= q < flat_types(s).len() && flat_types(s)[q] == StaticV::Int;
            assert(comparable(flat_types(s)[q]));
        },
        ShapeV::Undefined => {},
        ShapeV::Static(t) => {
            let b = static_pred_bits(t);
            lemma_ordering_bits();
            lemma_or_ordering(b, in_bits());
            assert(b & ordering_bits() != 0);
            assert(comparable(t));
            let st = seq![s];
            lemma_sum_size_last(st);
            assert(st.drop_last() =~= Seq::<ShapeV>::empty());
            assert(st.last() == s);
            assert(visit_statics(Seq::<ShapeV>::empty()) == Seq::<StaticV>::empty());
            assert(!visit_dynamic(Seq::<ShapeV>::empty()));
            assert(visit_statics(st) =~= seq![t]);
            assert(!visit_dynamic(st));
            let all = visit_statics(st) + Seq::<StaticV>::empty();
            assert(flat_types(s) == unique_seq(all));
            assert(all[0] == t);
            assert(all.contains(t));
            lemma_unique_has(all, t);
            let q = choose|q: int| 0 <= q < flat_types(s).len() && flat_types(s)[q] == t;
            assert(comparable(flat_types(s)[q]));
        },
        ShapeV::AnyOf(v) => {
            let f = matching_fold(v)->0;
            lemma_ordering_bits();
            lemma_or_ordering(f, in_bits());
            assert(f & ordering_bits() != 0);
            let i = lemma_fold_ordering(v);
            lemma_ordering_comparable(v[i]);
            lemma_member_comparable(v, i);
        },
    }
}

/// Where a union's folded predicates include an ordering, one member's do.
proof fn lemma_fold_ordering(v: Seq<ShapeV>) -> (i: int)
    requires
        matching_fold(v) is Some,
        matching_fold(v)->0 & ordering_bits() != 0,
    ensures
        0 <= i < v.len(),
        matching_bits(v[i]) is Some,
        matching_bits(v[i])->0 & ordering_bits() != 0,
    decreases v, 0nat,
{
    lemma_ordering_bits();
    if v.len() == 0 {
        0
    } else {
        let a = matching_fold(v.drop_last())->0;
        let b = matching_bits(v.last())->0;
        lemma_or_ordering(a, b);
        if b & ordering_bits() != 0 {
            (v.len() - 1) as int
        } else {
            let i = lemma_fold_ordering(v.drop_last());
            assert(v.drop_last()[i] == v[i]);
            i
        }
    }
}


proof fn lemma_preds_of_bits(bits: u32, n: nat)
    requires
        n <= 32,
    ensures
        forall|j: int| #![trigger preds_of_bits(bits, n)[j]] 0 <= j < preds_of_bits(bits, n).len() ==> exists|i: u32| #![trigger pred_of_bit(i as nat)]
            i < n && (bits >> i) & 1 == 1 && preds_of_bits(bits, n)[j] == pred_of_bit(i as nat),
    decreases n,
{
    if n > 0 {
        let m = (n - 1) as nat;
        lemma_preds_of_bits(bits, m);
        let p = preds_of_bits(bits, m);
        let tail = if (bits >> (m as u32)) & 1 == 1 { seq![pred_of_bit(m)] } else { Seq::<Predicate>::empty() };
        assert(preds_of_bits(bits, n) == p + tail);
        assert forall|j: int| #![trigger preds_of_bits(bits, n)[j]] 0 <= j < preds_of_bits(bits, n).len() implies exists|i: u32| #![trigger pred_of_bit(i as nat)]
            i < n && (bits >> i) & 1 == 1 && preds_of_bits(bits, n)[j] == pred_of_bit(i as nat) by {
            if j < p.len() {
                assert(preds_of_bits(bits, n)[j] == p[j]);
            } else {
                let i = m as u32;
                assert(preds_of_bits(bits, n)[j] == pred_of_bit(i as nat));
            }
        }
    }
}

proof fn lemma_ordering_bit(m: u32, a: u32, i: u32)
    requires
        ((m & a) >> i) & 1 == 1,
        i == 3 || i == 4 || i == 5 || i == 6 || i == 15,
    ensures
        m & ordering_bits() != 0,
{
    lemma_ordering_bits();
    assert(((m & a) >> i) & 1 == 1 && (i == 3 || i == 4 || i == 5 || i == 6 || i == 15) ==> m & 32888u32 != 0)
        by (bit_vector);
}

/// Every predicate offered for a path of a shape whose values can be made
/// can be generated: the orderings are offered only where the shape has a
/// comparable type.
pub proof fn lemma_offered_applicable(s: ShapeV, allowed: u32)
    requires
        gen_ok(s),
        matching_bits(s) is Some,
    ensures
        forall|j: int| 0 <= j < spec_predicates_for(s, allowed).len()
            ==> applicable(#[trigger] spec_predicates_for(s, allowed)[j], s),
{
    let m = matching_bits(s)->0;
    lemma_preds_of_bits(m & allowed, 18);
    assert forall|j: int| 0 <= j < spec_predicates_for(s, allowed).len()
        implies applicable(#[trigger] spec_predicates_for(s, allowed)[j], s) by {
        let i = choose|i: u32| #![trigger pred_of_bit(i as nat)]
            i < 18 && ((m & allowed) >> i) & 1 == 1 && preds_of_bits(m & allowed, 18)[j] == pred_of_bit(i as nat);
        if i == 3 || i == 4 || i == 5 || i == 6 || i == 15 {
            lemma_ordering_bit(m, allowed, i);
            lemma_ordering_comparable(s);
        }
    }
}

} // verus!
