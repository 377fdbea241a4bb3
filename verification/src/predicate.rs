//! The predicates a generated `WHERE` clause may apply to a path, and which
//! of them suit which types.
use vstd::prelude::*;
use crate::shape::{PartiqlShape, Static, ShapeV, StaticV, shape_view, shapes_view, lemma_shapes_view, NameAndShape, height};
use crate::path::{PathGenSpec, PathAndShape, PathV, DatasetPaths, gen, paths_view, spec_paths_for_shape};
use crate::strategy::StrategyError;

verus! {

pub const NOT_BITS: u32 = 1;
pub const EQ_BITS: u32 = 2;
pub const NEQ_BITS: u32 = 4;
pub const LTE_BITS: u32 = 8;
pub const LT_BITS: u32 = 16;
pub const GTE_BITS: u32 = 32;
pub const GT_BITS: u32 = 64;
pub const IS_NULL_BITS: u32 = 128;
pub const IS_NOT_NULL_BITS: u32 = 256;
pub const IS_MISSING_BITS: u32 = 512;
pub const IS_NOT_MISSING_BITS: u32 = 1024;
pub const LIKE_BITS: u32 = 2048;
pub const NOT_LIKE_BITS: u32 = 4096;
pub const IN_BITS: u32 = 8192;
pub const NOT_IN_BITS: u32 = 16384;
pub const BETWEEN_BITS: u32 = 32768;
pub const AND_BITS: u32 = 65536;
pub const OR_BITS: u32 = 131072;
/// All eighteen predicate flags.
pub const ALL_BITS: u32 = 262143;

/// A set of predicates, one bit each.
#[derive(Debug)]
pub struct PredicateFlags {
    pub bits: u32,
}

/// Which way a predicate is applied.
#[derive(Debug, Clone, Copy)]
pub enum PredicateDirection {
    Normal,
    Inverted,
}

/// A predicate on a path.
#[allow(non_camel_case_types)]
#[derive(Debug, Clone, Copy)]
pub enum Predicate {
    AND,
    OR,
    NOT,
    EQ,
    NEQ,
    LTE,
    LT,
    GTE,
    GT,
    BETWEEN,
    IS_NULL(PredicateDirection),
    IS_MISSING(PredicateDirection),
    LIKE(PredicateDirection),
    IN(PredicateDirection),
}

/// `IS [NOT] NULL`
pub open spec fn nullable_bits() -> u32 {
    IS_NULL_BITS | IS_NOT_NULL_BITS
}

/// `IS [NOT] MISSING`
pub open spec fn optional_bits() -> u32 {
    IS_MISSING_BITS | IS_NOT_MISSING_BITS
}

pub open spec fn absent_bits() -> u32 {
    nullable_bits() | optional_bits()
}

pub open spec fn equality_bits() -> u32 {
    EQ_BITS | NEQ_BITS
}

pub open spec fn comparison_bits() -> u32 {
    BETWEEN_BITS | (LTE_BITS | LT_BITS) | (GTE_BITS | GT_BITS)
}

pub open spec fn numeric_bits() -> u32 {
    equality_bits() | comparison_bits()
}

pub open spec fn like_bits() -> u32 {
    LIKE_BITS | NOT_LIKE_BITS
}

pub open spec fn in_bits() -> u32 {
    IN_BITS | NOT_IN_BITS
}

pub open spec fn logical_connective_bits() -> u32 {
    AND_BITS | OR_BITS
}

pub open spec fn logical_bits() -> u32 {
    logical_connective_bits() | NOT_BITS
}

/// The number of set bits among the lowest `n` bits of `x`.
pub open spec fn popcount(x: u32, n: nat) -> nat
    decreases n,
{
    if n == 0 {
        0
    } else {
        popcount(x, (n - 1) as nat) + (if (x >> ((n - 1) as u32)) & 1 == 1 { 1nat } else { 0nat })
    }
}

/// Counts the set bits of a one-word bit array (bitvec's
/// `BitArray::<[u32; 1], Msb0>::count_ones`): every bit of the word.
#[verifier::external_body]
fn count_ones_u32(bits: u32) -> (n: usize)
    ensures
        n == popcount(bits, 32),
{
    bitvec::array::BitArray::<[u32; 1], bitvec::order::Msb0>::from([bits]).count_ones()
}

impl PredicateFlags {
    pub fn empty() -> (r: Self)
        ensures
            r.bits == 0,
    {
        PredicateFlags { bits: 0 }
    }

    pub fn all() -> (r: Self)
        ensures
            r.bits == ALL_BITS,
    {
        PredicateFlags { bits: ALL_BITS }
    }

    pub fn from_bits_retain(bits: u32) -> (r: Self)
        ensures
            r.bits == bits,
    {
        PredicateFlags { bits }
    }

    pub fn bits(&self) -> (b: u32)
        ensures
            b == self.bits,
    {
        self.bits
    }

    pub fn union(&self, other: &Self) -> (r: Self)
        ensures
            r.bits == self.bits | other.bits,
    {
        PredicateFlags { bits: self.bits | other.bits }
    }

    pub fn intersection(&self, other: &Self) -> (r: Self)
        ensures
            r.bits == self.bits & other.bits,
    {
        PredicateFlags { bits: self.bits & other.bits }
    }

    pub fn contains(&self, other: &Self) -> (r: bool)
        ensures
            r == (self.bits & other.bits == other.bits),
    {
        (self.bits & other.bits) == other.bits
    }

    pub fn is_empty(&self) -> (r: bool)
        ensures
            r == (self.bits == 0),
    {
        self.bits == 0
    }

    /// `IS NULL` and `IS NOT NULL`.
    pub fn flags_nullable() -> (r: Self)
        ensures
            r.bits == nullable_bits(),
    {
        PredicateFlags { bits: IS_NULL_BITS | IS_NOT_NULL_BITS }
    }

    /// `IS MISSING` and `IS NOT MISSING`.
    pub fn flags_optional() -> (r: Self)
        ensures
            r.bits == optional_bits(),
    {
        PredicateFlags { bits: IS_MISSING_BITS | IS_NOT_MISSING_BITS }
    }

    /// The null and missing tests.
    pub fn flags_absent() -> (r: Self)
        ensures
            r.bits == absent_bits(),
    {
        Self::flags_nullable().union(&Self::flags_optional())
    }

    /// `=` and `<>`.
    pub fn flags_equality() -> (r: Self)
        ensures
            r.bits == equality_bits(),
    {
        PredicateFlags { bits: EQ_BITS | NEQ_BITS }
    }

    /// `<`, `<=`, `>`, `>=` and `BETWEEN`.
    pub fn flags_comparison() -> (r: Self)
        ensures
            r.bits == comparison_bits(),
    {
        PredicateFlags { bits: BETWEEN_BITS | (LTE_BITS | LT_BITS) | (GTE_BITS | GT_BITS) }
    }

    /// Equality and comparison.
    pub fn flags_numeric() -> (r: Self)
        ensures
            r.bits == numeric_bits(),
    {
        Self::flags_equality().union(&Self::flags_comparison())
    }

    /// `LIKE` and `NOT LIKE`.
    pub fn flags_like() -> (r: Self)
        ensures
            r.bits == like_bits(),
    {
        PredicateFlags { bits: LIKE_BITS | NOT_LIKE_BITS }
    }

    /// `IN` and `NOT IN`.
    pub fn flags_in() -> (r: Self)
        ensures
            r.bits == in_bits(),
    {
        PredicateFlags { bits: IN_BITS | NOT_IN_BITS }
    }

    /// `AND` and `OR`.
    pub fn flags_logical_connectives() -> (r: Self)
        ensures
            r.bits == logical_connective_bits(),
    {
        PredicateFlags { bits: AND_BITS | OR_BITS }
    }

    /// `AND`, `OR` and `NOT`.
    pub fn flags_logical() -> (r: Self)
        ensures
            r.bits == logical_bits(),
    {
        Self::flags_logical_connectives().union(&PredicateFlags { bits: NOT_BITS })
    }

    /// The number of predicates in the set.
    pub fn count(&self) -> (n: usize)
        ensures
            n == popcount(self.bits, 32),
    {
        count_ones_u32(self.bits)
    }
}


/// The predicates that suit a static type (before `IN`, which suits all).
pub open spec fn static_pred_bits(t: StaticV) -> u32 {
    let flags = absent_bits() | equality_bits();
    match t {
        StaticV::Int | StaticV::Int8 | StaticV::Int16 | StaticV::Int32 | StaticV::Int64 => flags | numeric_bits(),
        StaticV::Bool => flags | logical_bits(),
        StaticV::Decimal | StaticV::DecimalP(_, _) => flags | numeric_bits(),
        StaticV::Float32 | StaticV::Float64 => flags | numeric_bits(),
        StaticV::String | StaticV::StringFixed(_) | StaticV::StringVarying(_) => flags | like_bits(),
        _ => flags,
    }
}

/// The predicates that suit a shape: all of them for a dynamic type, those
/// of any member for a union (plus the absence tests), those of the type
/// for a static type, and always `IN`/`NOT IN`; `None` for undefined
/// types, which are not handled.
pub open spec fn matching_bits(s: ShapeV) -> Option<u32>
    decreases s,
{
    match s {
        ShapeV::Dynamic => Some(ALL_BITS | in_bits()),
        ShapeV::AnyOf(v) => match matching_fold(v) {
            Some(b) => Some(b | in_bits()),
            None => None,
        },
        ShapeV::Static(t) => Some(static_pred_bits(t) | in_bits()),
        ShapeV::Undefined => None,
    }
}

pub open spec fn matching_fold(v: Seq<ShapeV>) -> Option<u32>
    decreases v,
{
    if v.len() == 0 {
        Some(absent_bits())
    } else {
        match (matching_fold(v.drop_last()), matching_bits(v.last())) {
            (Some(a), Some(b)) => Some(a | b),
            _ => None,
        }
    }
}

/// The predicate of each flag bit.
pub open spec fn pred_of_bit(i: nat) -> Predicate {
    if i == 0 { Predicate::NOT }
    else if i == 1 { Predicate::EQ }
    else if i == 2 { Predicate::NEQ }
    else if i == 3 { Predicate::LTE }
    else if i == 4 { Predicate::LT }
    else if i == 5 { Predicate::GTE }
    else if i == 6 { Predicate::GT }
    else if i == 7 { Predicate::IS_NULL(PredicateDirection::Normal) }
    else if i == 8 { Predicate::IS_NULL(PredicateDirection::Inverted) }
    else if i == 9 { Predicate::IS_MISSING(PredicateDirection::Normal) }
    else if i == 10 { Predicate::IS_MISSING(PredicateDirection::Inverted) }
    else if i == 11 { Predicate::LIKE(PredicateDirection::Normal) }
    else if i == 12 { Predicate::LIKE(PredicateDirection::Inverted) }
    else if i == 13 { Predicate::IN(PredicateDirection::Normal) }
    else if i == 14 { Predicate::IN(PredicateDirection::Inverted) }
    else if i == 15 { Predicate::BETWEEN }
    else if i == 16 { Predicate::AND }
    else { Predicate::OR }
}

/// The predicates whose bits are set among the lowest `n`, in bit order.
pub open spec fn preds_of_bits(bits: u32, n: nat) -> Seq<Predicate>
    decreases n,
{
    if n == 0 {
        Seq::empty()
    } else {
        preds_of_bits(bits, (n - 1) as nat) + (if (bits >> ((n - 1) as u32)) & 1 == 1 {
            seq![pred_of_bit((n - 1) as nat)]
        } else {
            Seq::empty()
        })
    }
}

fn pred_of_bit_exec(i: u32) -> (p: Predicate)
    requires
        i < 18,
    ensures
        p == pred_of_bit(i as nat),
{
    if i == 0 { Predicate::NOT }
    else if i == 1 { Predicate::EQ }
    else if i == 2 { Predicate::NEQ }
    else if i == 3 { Predicate::LTE }
    else if i == 4 { Predicate::LT }
    else if i == 5 { Predicate::GTE }
    else if i == 6 { Predicate::GT }
    else if i == 7 { Predicate::IS_NULL(PredicateDirection::Normal) }
    else if i == 8 { Predicate::IS_NULL(PredicateDirection::Inverted) }
    else if i == 9 { Predicate::IS_MISSING(PredicateDirection::Normal) }
    else if i == 10 { Predicate::IS_MISSING(PredicateDirection::Inverted) }
    else if i == 11 { Predicate::LIKE(PredicateDirection::Normal) }
    else if i == 12 { Predicate::LIKE(PredicateDirection::Inverted) }
    else if i == 13 { Predicate::IN(PredicateDirection::Normal) }
    else if i == 14 { Predicate::IN(PredicateDirection::Inverted) }
    else if i == 15 { Predicate::BETWEEN }
    else if i == 16 { Predicate::AND }
    else { Predicate::OR }
}

fn static_matching(t: &Static) -> (b: u32)
    ensures
        b == static_pred_bits(crate::shape::static_view(*t)) | in_bits(),
{
    let flags = PredicateFlags::flags_absent().union(&PredicateFlags::flags_equality());
    let r = match t {
        Static::Int | Static::Int8 | Static::Int16 | Static::Int32 | Static::Int64 => flags.union(&PredicateFlags::flags_numeric()),
        Static::Bool => flags.union(&PredicateFlags::flags_logical()),
        Static::Decimal | Static::DecimalP(_, _) => flags.union(&PredicateFlags::flags_numeric()),
        Static::Float32 | Static::Float64 => flags.union(&PredicateFlags::flags_numeric()),
        Static::String | Static::StringFixed(_) | Static::StringVarying(_) => flags.union(&PredicateFlags::flags_like()),
        _ => flags,
    };
    r.union(&PredicateFlags::flags_in()).bits
}

impl PredicateFlags {
    /// The predicates that suit `ty` (see `matching_bits`).
    pub fn matching(ty: &PartiqlShape) -> (r: Self)
        requires
            matching_bits(ty@) is Some,
        ensures
            r.bits == matching_bits(ty@)->0,
            ty@ matches ShapeV::AnyOf(v) ==> r.bits == absent_bits() | in_bits() | members_bits(v),
            r.bits & (absent_bits() | in_bits()) == absent_bits() | in_bits(),
        decreases ty,
    {
        proof {
            lemma_matching_has_absent_and_in(ty@);
            if let ShapeV::AnyOf(v) = ty@ {
                lemma_fold_some(v);
                lemma_union_flags(v);
            }
        }
        match ty {
            PartiqlShape::Dynamic => PredicateFlags::all().union(&PredicateFlags::flags_in()),
            PartiqlShape::AnyOf(v) => Self::matching_any(v).union(&PredicateFlags::flags_in()),
            PartiqlShape::Static(t) => PredicateFlags { bits: static_matching(t) },
            PartiqlShape::Undefined => {
                proof { assert(false); }
                PredicateFlags::empty()
            },
        }
    }

    fn matching_any(v: &Vec<PartiqlShape>) -> (r: Self)
        requires
            matching_fold(shapes_view(v@)) is Some,
        ensures
            r.bits == matching_fold(shapes_view(v@))->0,
        decreases v,
    {
        proof { lemma_shapes_view(v@); }
        let ghost vv = shapes_view(v@);
        let mut acc = PredicateFlags::flags_absent();
        let mut i: usize = 0;
        while i < v.len()
            invariant
                i <= v.len(),
                vv == shapes_view(v@),
                vv.len() == v.len(),
                forall|j: int| 0 <= j < v.len() ==> #[trigger] vv[j] == shape_view(v@[j]),
                matching_fold(vv) is Some,
                matching_fold(vv.take(i as int)) == Some(acc.bits),
            decreases v.len() - i,
        {
            proof {
                assert(vv.take(i + 1).drop_last() =~= vv.take(i as int));
                assert(vv.take(i + 1).last() == vv[i as int]);
                lemma_fold_prefix_some(vv, i + 1);
            }
            let m = Self::matching(&v[i]);
            acc = acc.union(&m);
            i += 1;
        }
        proof { assert(vv.take(v.len() as int) =~= vv); }
        acc

    }
}

pub proof fn lemma_fold_prefix_some(v: Seq<ShapeV>, n: int)
    requires
        0 <= n <= v.len(),
        matching_fold(v) is Some,
    ensures
        matching_fold(v.take(n)) is Some,
        n > 0 ==> matching_bits(v[n - 1]) is Some,
    decreases v.len(),
{
    if n < v.len() {
        lemma_fold_prefix_some(v.drop_last(), n);
        assert(v.drop_last().take(n) =~= v.take(n));
        if n > 0 {
            assert(v.drop_last()[n - 1] == v[n - 1]);
        }
    } else {
        assert(v.take(n) =~= v);
    }
}

/// The predicates in `bits`, in bit order.
pub fn predicates_of(bits: u32) -> (r: Vec<Predicate>)
    ensures
        r@ == preds_of_bits(bits, 18),
{
    let mut r: Vec<Predicate> = Vec::new();
    let mut i: u32 = 0;
    while i < 18
        invariant
            i <= 18,
            r@ == preds_of_bits(bits, i as nat),
        decreases 18 - i,
    {
        if (bits >> i) & 1 == 1 {
            r.push(pred_of_bit_exec(i));
        }
        proof {
            assert(r@ =~= preds_of_bits(bits, (i + 1) as nat));
        }
        i += 1;
    }
    r
}

/// A path with the predicates that may be applied to it.
#[derive(Debug)]
pub struct PathPredicates {
    pub path_and_shape: PathAndShape,
    pub predicates: Vec<Predicate>,
}

/// The paths of a dataset that have at least one applicable predicate.
#[derive(Debug)]
pub struct DatasetPredicates {
    pub name: String,
    pub paths: Vec<PathPredicates>,
}

/// Limits on the paths and predicates of generated filters.
#[derive(Debug)]
pub struct PathPredicateGenSpec {
    pub path_spec: PathGenSpec,
    pub allowed_predicates: PredicateFlags,
}

/// The predicates of a path: those that suit its shape and are allowed.
pub open spec fn spec_predicates_for(s: ShapeV, allowed: u32) -> Seq<Predicate> {
    preds_of_bits(matching_bits(s)->0 & allowed, 18)
}

/// Each path with its predicates, paths without any predicate left out.
pub open spec fn path_predicates(ps: Seq<PathV>, allowed: u32) -> Seq<(PathV, Seq<Predicate>)>
    decreases ps.len(),
{
    if ps.len() == 0 {
        Seq::empty()
    } else {
        let rest = path_predicates(ps.drop_last(), allowed);
        let preds = spec_predicates_for(ps.last().shape, allowed);
        if preds.len() > 0 { rest.push((ps.last(), preds)) } else { rest }
    }
}

pub open spec fn path_predicates_view(v: Seq<PathPredicates>) -> Seq<(PathV, Seq<Predicate>)> {
    v.map_values(|p: PathPredicates| (p.path_and_shape@, p.predicates@))
}

impl PathPredicateGenSpec {
    /// The predicates that suit `shape` and are allowed, in flag order.
    pub fn predicates_for(&self, shape: &PartiqlShape) -> (r: Vec<Predicate>)
        requires
            matching_bits(shape@) is Some,
        ensures
            r@ == spec_predicates_for(shape@, self.allowed_predicates.bits),
    {
        let candidates = PredicateFlags::matching(shape).intersection(&self.allowed_predicates);
        predicates_of(candidates.bits)
    }

    /// The dataset's paths that admit at least one allowed predicate, each
    /// with those predicates; an error when there is none.
    pub fn predicate_paths_for_dataset(&self, data: &NameAndShape) -> (r: Result<DatasetPredicates, StrategyError>)
        requires
            gen(self.path_spec, 0, Seq::empty(), data.shape@) is Some,
            height(data.shape@) < usize::MAX,
            forall|i: int| 0 <= i < spec_paths_for_shape(self.path_spec, data.shape@).len()
                ==> matching_bits(#[trigger] spec_paths_for_shape(self.path_spec, data.shape@)[i].shape) is Some,
        ensures
            r is Ok <==> path_predicates(spec_paths_for_shape(self.path_spec, data.shape@), self.allowed_predicates.bits).len() > 0,
            r matches Ok(dp) ==> dp.name@ == data.name@
                && path_predicates_view(dp.paths@)
                    == path_predicates(spec_paths_for_shape(self.path_spec, data.shape@), self.allowed_predicates.bits),
            r matches Err(e) ==> e matches StrategyError::PredicatePaths(m)
                && m@ == "Configuration leaves no valid paths available for use in predicates."@,
    {
        let dp = match self.path_spec.paths_for_dataset(data) {
            Ok(dp) => dp,
            Err(e) => return Err(e),
        };
        let DatasetPaths { name, paths } = dp;
        let ghost ps = paths_view(paths@);
        let ghost allowed = self.allowed_predicates.bits;
        let mut out: Vec<PathPredicates> = Vec::new();
        let mut rest = paths;
        // reverse the paths so that popping visits them front to back
        let mut rev: Vec<PathAndShape> = Vec::new();
        while rest.len() > 0
            invariant
                ps.len() == rest@.len() + rev@.len(),
                paths_view(rest@) == ps.take(rest@.len() as int),
                paths_view(rev@) == ps.skip(rest@.len() as int).reverse(),
            decreases rest.len(),
        {
            let ghost n = rest@.len();
            let p = rest.pop().unwrap();
            let ghost r0 = rev@;
            rev.push(p);
            proof {
                assert(paths_view(rest@) =~= ps.take(n - 1));
                assert(ps.take(n as int)[n - 1] == p@);
                assert(paths_view(rev@) =~= paths_view(r0).push(p@));
                assert(ps.skip(n - 1).reverse() =~= ps.skip(n as int).reverse().push(ps[n - 1]));
            }
        }
        proof { assert(ps.skip(0).reverse().reverse() =~= ps); }
        let mut i: usize = 0;
        let ghost rv = paths_view(rev@);
        let total = rev.len();
        proof { assert(ps.len() == total); }
        proof { assert(rv =~= ps.reverse()); }
        while rev.len() > 0
            invariant
                rv == ps.reverse(),
                ps.len() == rev@.len() + i,
                ps.len() <= usize::MAX,
                paths_view(rev@) == rv.take(rev@.len() as int),
                path_predicates_view(out@) == path_predicates(ps.take(i as int), allowed),
                allowed == self.allowed_predicates.bits,
                forall|j: int| 0 <= j < ps.len() ==> matching_bits(#[trigger] ps[j].shape) is Some,
            decreases rev.len(),
        {
            let ghost n = rev@.len();
            let p = rev.pop().unwrap();
            proof {
                assert(paths_view(rev@) =~= rv.take(n - 1));
                assert(rv.take(n as int)[n - 1] == p@);
                assert(rv[n - 1] == ps[i as int]);
                assert(ps.take(i + 1).drop_last() =~= ps.take(i as int));
                assert(ps.take(i + 1).last() == ps[i as int]);
            }
            proof { assert(p.shape@ == ps[i as int].shape); }
            let predicates = self.predicates_for(&p.shape);
            if predicates.len() > 0 {
                let ghost o0 = out@;
                out.push(PathPredicates { path_and_shape: p, predicates });
                proof { assert(path_predicates_view(out@) =~= path_predicates_view(o0).push((ps[i as int], predicates@))); }
            }
            i += 1;
        }
        proof { assert(ps.take(i as int) =~= ps); }
        if out.len() == 0 {
            Err(StrategyError::PredicatePaths(String::from_str(
                "Configuration leaves no valid paths available for use in predicates.",
            )))
        } else {
            Ok(DatasetPredicates { name, paths: out })
        }
    }
}

/// The flags of each member of a union, or-ed together (no flags for a
/// member whose type is not handled).
pub open spec fn members_bits(v: Seq<ShapeV>) -> u32
    decreases v,
{
    if v.len() == 0 {
        0
    } else {
        members_bits(v.drop_last()) | match matching_bits(v.last()) {
            Some(b) => b,
            None => 0,
        }
    }
}

proof fn lemma_absent_in_values()
    ensures
        absent_bits() == 1920u32,
        in_bits() == 24576u32,
{
    assert((128u32 | 256u32) | (512u32 | 1024u32) == 1920u32) by (bit_vector);
    assert((8192u32 | 16384u32) == 24576u32) by (bit_vector);
}

proof fn lemma_fold_members(v: Seq<ShapeV>)
    requires
        forall|k: int| 0 <= k < v.len() ==> (#[trigger] matching_bits(v[k])) is Some,
    ensures
        matching_fold(v) == Some(absent_bits() | members_bits(v)),
    decreases v.len(),
{
    lemma_absent_in_values();
    if v.len() == 0 {
        assert(1920u32 | 0u32 == 1920u32) by (bit_vector);
    } else {
        let w = v.drop_last();
        assert forall|k: int| 0 <= k < w.len() implies (#[trigger] matching_bits(w[k])) is Some by {
            assert(w[k] == v[k]);
        }
        lemma_fold_members(w);
        assert(matching_bits(v[v.len() - 1]) is Some);
        let b = matching_bits(v.last())->0;
        let m = members_bits(w);
        assert(forall|a: u32, x: u32, y: u32| #[trigger] ((a | x) | y) == a | (x | y)) by (bit_vector);
        assert((absent_bits() | m) | b == absent_bits() | (m | b));
    }
}

proof fn lemma_fold_some(v: Seq<ShapeV>)
    ensures
        matching_fold(v) is Some ==> forall|k: int| 0 <= k < v.len() ==> (#[trigger] matching_bits(v[k])) is Some,
    decreases v.len(),
{
    if v.len() > 0 {
        lemma_fold_some(v.drop_last());
        if matching_fold(v) is Some {
            assert forall|k: int| 0 <= k < v.len() implies (#[trigger] matching_bits(v[k])) is Some by {
                if k < v.len() - 1 {
                    assert(v.drop_last()[k] == v[k]);
                }
            }
        }
    }
}

/// The predicates that suit a union are the absence tests, `IN` and
/// `NOT IN`, and those that suit any of its members, where every member's
/// type is handled.
pub proof fn lemma_union_flags(v: Seq<ShapeV>)
    requires
        forall|k: int| 0 <= k < v.len() ==> (#[trigger] matching_bits(v[k])) is Some,
    ensures
        matching_bits(ShapeV::AnyOf(v)) == Some(absent_bits() | in_bits() | members_bits(v)),
{
    lemma_fold_members(v);
    let m = members_bits(v);
    assert(forall|a: u32, i: u32, x: u32| #[trigger] ((a | x) | i) == (a | i) | x) by (bit_vector);
    assert((absent_bits() | m) | in_bits() == (absent_bits() | in_bits()) | m);
}

proof fn lemma_fold_has_absent(v: Seq<ShapeV>)
    ensures
        matching_fold(v) matches Some(b) ==> b & 1920u32 == 1920u32,
    decreases v.len(),
{
    lemma_absent_in_values();
    if v.len() == 0 {
        assert(1920u32 & 1920u32 == 1920u32) by (bit_vector);
    } else {
        lemma_fold_has_absent(v.drop_last());
        assert(forall|a: u32, x: u32| a & 1920u32 == 1920u32 ==> #[trigger] ((a | x) & 1920u32) == 1920u32) by (bit_vector);
    }
}

/// Every handled shape is offered the absence tests and `IN` / `NOT IN`.
pub proof fn lemma_matching_has_absent_and_in(s: ShapeV)
    requires
        matching_bits(s) is Some,
    ensures
        matching_bits(s)->0 & (absent_bits() | in_bits()) == absent_bits() | in_bits(),
{
    lemma_absent_in_values();
    assert(1920u32 | 24576u32 == 26496u32) by (bit_vector);
    assert(forall|x: u32| #[trigger] ((x | 24576u32) & 26496u32) == 26496u32 <== x & 1920u32 == 1920u32) by (bit_vector);
    match s {
        ShapeV::Dynamic => {
            assert(262143u32 & 1920u32 == 1920u32) by (bit_vector);
        },
        ShapeV::AnyOf(v) => {
            lemma_fold_has_absent(v);
        },
        ShapeV::Static(t) => {
            assert(forall|x: u32| #[trigger] ((1920u32 | x) & 1920u32) == 1920u32) by (bit_vector);
            assert(forall|x: u32, y: u32| #[trigger] (((1920u32 | x) | y) & 1920u32) == 1920u32) by (bit_vector);
        },
        ShapeV::Undefined => {},
    }
}

/// Whether a static type is numeric: an integer, decimal or float type.
pub open spec fn numeric_type(t: StaticV) -> bool {
    t is Int || t is Int8 || t is Int16 || t is Int32 || t is Int64 || t is Decimal || t is DecimalP
        || t is Float32 || t is Float64
}

/// Whether a static type is a string type.
pub open spec fn string_type(t: StaticV) -> bool {
    t is String || t is StringFixed || t is StringVarying
}

/// The predicates offered for a static type: the comparisons (`<`, `<=`,
/// `>`, `>=`, `BETWEEN`) exactly for numeric types (integers, decimals and
/// floats), `LIKE` and `NOT LIKE` exactly for string types, the logical
/// connectives exactly for booleans; equality, absence and `IN` for all.
pub proof fn lemma_static_predicates(t: StaticV)
    ensures
        matching_bits(ShapeV::Static(t)) matches Some(b) && {
            &&& (b & comparison_bits() == comparison_bits()) == numeric_type(t)
            &&& (b & comparison_bits() == 0) == !numeric_type(t)
            &&& (b & like_bits() == like_bits()) == string_type(t)
            &&& (b & like_bits() == 0) == !string_type(t)
            &&& (b & logical_bits() == logical_bits()) == (t is Bool)
            &&& b & (equality_bits() | absent_bits() | in_bits()) == equality_bits() | absent_bits() | in_bits()
        },
{
    lemma_absent_in_values();
    assert((2u32 | 4u32) == 6u32) by (bit_vector);
    assert(32768u32 | (8u32 | 16u32) | (32u32 | 64u32) == 32888u32) by (bit_vector);
    assert((2048u32 | 4096u32) == 6144u32) by (bit_vector);
    assert(((65536u32 | 131072u32) | 1u32) == 196609u32) by (bit_vector);
    assert(equality_bits() == 6u32);
    assert(comparison_bits() == 32888u32);
    assert(like_bits() == 6144u32);
    assert(logical_bits() == 196609u32);
    assert(numeric_bits() == 32894u32) by {
        assert(6u32 | 32888u32 == 32894u32) by (bit_vector);
    }
    assert((1920u32 | 6u32) == 1926u32) by (bit_vector);
    match t {
        StaticV::Int | StaticV::Int8 | StaticV::Int16 | StaticV::Int32 | StaticV::Int64 | StaticV::Decimal
        | StaticV::DecimalP(_, _) | StaticV::Float32 | StaticV::Float64 => {
            assert(((1926u32 | 32894u32) | 24576u32) == 59390u32) by (bit_vector);
            assert(59390u32 & 32888u32 == 32888u32) by (bit_vector);
            assert(59390u32 & 6144u32 == 0u32) by (bit_vector);
            assert(59390u32 & 196609u32 != 196609u32) by (bit_vector);
            assert(59390u32 & (6u32 | 1920u32 | 24576u32) == (6u32 | 1920u32 | 24576u32)) by (bit_vector);
        },
        StaticV::Bool => {
            assert(((1926u32 | 196609u32) | 24576u32) == 223111u32) by (bit_vector);
            assert(223111u32 & 32888u32 == 0u32) by (bit_vector);
            assert(223111u32 & 6144u32 == 0u32) by (bit_vector);
            assert(223111u32 & 196609u32 == 196609u32) by (bit_vector);
            assert(223111u32 & (6u32 | 1920u32 | 24576u32) == (6u32 | 1920u32 | 24576u32)) by (bit_vector);
        },
        StaticV::String | StaticV::StringFixed(_) | StaticV::StringVarying(_) => {
            assert(((1926u32 | 6144u32) | 24576u32) == 32646u32) by (bit_vector);
            assert(32646u32 & 32888u32 == 0u32) by (bit_vector);
            assert(32646u32 & 6144u32 == 6144u32) by (bit_vector);
            assert(32646u32 & 196609u32 != 196609u32) by (bit_vector);
            assert(32646u32 & (6u32 | 1920u32 | 24576u32) == (6u32 | 1920u32 | 24576u32)) by (bit_vector);
        },
        _ => {
            assert((1926u32 | 24576u32) == 26502u32) by (bit_vector);
            assert(26502u32 & 32888u32 == 0u32) by (bit_vector);
            assert(26502u32 & 6144u32 == 0u32) by (bit_vector);
            assert(26502u32 & 196609u32 != 196609u32) by (bit_vector);
            assert(26502u32 & (6u32 | 1920u32 | 24576u32) == (6u32 | 1920u32 | 24576u32)) by (bit_vector);
        },
    }
}

} // verus!
