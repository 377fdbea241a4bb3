//! Discovery of the paths into a dataset's shape that query generation may
//! project, exclude or filter on.
use vstd::prelude::*;
use crate::strategy::StrategyError;
use crate::groups::{DepthKey, group_positions, group_by, lemma_group_positions_in_range};
use crate::shape::{PartiqlShape, Static, StructField, ShapeV, StaticV, FieldV, shape_view, shapes_view, fields_view, height, max_height, max_field_height, size, sum_size, sum_field_size, lemma_shapes_view, lemma_fields_view, lemma_member_bounds, lemma_field_bounds};

verus! {

/// The kinds of path steps, as a bit set: project `.foo` (1), index `[3]`
/// (2), for-each `[*]` (4) and unpivot `.*` (8).
#[derive(Debug)]
pub struct PathStepFlags {
    pub bits: u32,
}

/// The kinds of types a path may end on, as a bit set: scalar (1),
/// sequence (2) and struct (4).
#[derive(Debug)]
pub struct PathTypeFlags {
    pub bits: u32,
}

pub open spec fn has_bits(bits: u32, f: u32) -> bool {
    bits & f == f
}

impl PathStepFlags {
    pub fn empty() -> (r: Self)
        ensures
            r.bits == 0,
    {
        PathStepFlags { bits: 0 }
    }

    pub fn all() -> (r: Self)
        ensures
            r.bits == 15,
    {
        PathStepFlags { bits: 15 }
    }

    /// `.foo`
    pub fn path_project() -> (r: Self)
        ensures
            r.bits == 1,
    {
        PathStepFlags { bits: 1 }
    }

    /// `[3]`
    pub fn path_index() -> (r: Self)
        ensures
            r.bits == 2,
    {
        PathStepFlags { bits: 2 }
    }

    /// `[*]`
    pub fn path_for_each() -> (r: Self)
        ensures
            r.bits == 4,
    {
        PathStepFlags { bits: 4 }
    }

    /// `.*`
    pub fn path_unpivot() -> (r: Self)
        ensures
            r.bits == 8,
    {
        PathStepFlags { bits: 8 }
    }

    pub fn union(&self, other: &Self) -> (r: Self)
        ensures
            r.bits == self.bits | other.bits,
    {
        PathStepFlags { bits: self.bits | other.bits }
    }

    /// The flags of `self` that are not in `other`.
    pub fn difference(&self, other: &Self) -> (r: Self)
        ensures
            r.bits == self.bits & !other.bits,
    {
        PathStepFlags { bits: self.bits & !other.bits }
    }

    pub fn contains(&self, other: &Self) -> (r: bool)
        ensures
            r == has_bits(self.bits, other.bits),
    {
        (self.bits & other.bits) == other.bits
    }

    /// Whether the kind of `step` is in the set.
    pub fn matches(&self, step: &PathGenStep) -> (r: bool)
        ensures
            r == has_bits(self.bits, step_bit(step@)),
    {
        let bit: u32 = match step {
            PathGenStep::PathProject(_) => 1,
            PathGenStep::PathIndex(_) => 2,
            PathGenStep::PathForEach => 4,
            PathGenStep::PathUnpivot => 8,
        };
        (self.bits & bit) == bit
    }
}

impl PathTypeFlags {
    pub fn empty() -> (r: Self)
        ensures
            r.bits == 0,
    {
        PathTypeFlags { bits: 0 }
    }

    pub fn all() -> (r: Self)
        ensures
            r.bits == 7,
    {
        PathTypeFlags { bits: 7 }
    }

    pub fn scalar() -> (r: Self)
        ensures
            r.bits == 1,
    {
        PathTypeFlags { bits: 1 }
    }

    pub fn sequence() -> (r: Self)
        ensures
            r.bits == 2,
    {
        PathTypeFlags { bits: 2 }
    }

    pub fn struct_() -> (r: Self)
        ensures
            r.bits == 4,
    {
        PathTypeFlags { bits: 4 }
    }

    pub fn union(&self, other: &Self) -> (r: Self)
        ensures
            r.bits == self.bits | other.bits,
    {
        PathTypeFlags { bits: self.bits | other.bits }
    }

    pub fn contains(&self, other: &Self) -> (r: bool)
        ensures
            r == has_bits(self.bits, other.bits),
    {
        (self.bits & other.bits) == other.bits
    }

    /// Whether a static type is of a kind in the set.
    pub fn matches_static(&self, t: &Static) -> (r: bool)
        ensures
            r == static_bits_match(self.bits, crate::shape::static_view(*t)),
    {
        (t.is_scalar() && (self.bits & 1) == 1) || (t.is_sequence() && (self.bits & 2) == 2)
            || (t.is_struct() && (self.bits & 4) == 4)
    }

    /// Whether a shape is of a kind in the set; a union matches when one
    /// of its members does, tried in order.
    pub fn matches(&self, ty: &PartiqlShape) -> (r: bool)
        requires
            type_match(self.bits, ty@) is Some,
        ensures
            r == type_match(self.bits, ty@)->0,
        decreases ty,
    {
        match ty {
            PartiqlShape::AnyOf(v) => self.matches_any(v),
            PartiqlShape::Static(t) => self.matches_static(t),
            _ => {
                proof { assert(false); }
                false
            },
        }
    }

    fn matches_any(&self, v: &Vec<PartiqlShape>) -> (r: bool)
        requires
            type_match_any(self.bits, shapes_view(v@)) is Some,
        ensures
            r == type_match_any(self.bits, shapes_view(v@))->0,
        decreases v,
    {
        proof {
            lemma_shapes_view(v@);
            assert(shapes_view(v@).skip(0) =~= shapes_view(v@));
        }
        let mut i: usize = 0;
        while i < v.len()
            invariant
                i <= v.len(),
                shapes_view(v@).len() == v.len(),
                forall|j: int| 0 <= j < v.len() ==> #[trigger] shapes_view(v@)[j] == shape_view(v@[j]),
                type_match_any(self.bits, shapes_view(v@).skip(i as int)) is Some,
                type_match_any(self.bits, shapes_view(v@))
                    == type_match_any(self.bits, shapes_view(v@).skip(i as int)),
            decreases v.len() - i,
        {
            let ghost rest = shapes_view(v@).skip(i as int);
            proof {
                assert(rest[0] == shape_view(v@[i as int]));
                assert(rest.drop_first() =~= shapes_view(v@).skip(i + 1));
            }
            if self.matches(&v[i]) {
                return true;
            }
            i += 1;
        }
        false
    }
}

/// The bit of a step's kind.
pub open spec fn step_bit(st: StepV) -> u32 {
    match st {
        StepV::Project(_) => 1,
        StepV::Index(_) => 2,
        StepV::ForEach => 4,
        StepV::Unpivot => 8,
    }
}

/// Whether a static type's kind is in `bits`.
pub open spec fn static_bits_match(bits: u32, t: StaticV) -> bool {
    (!(t is Struct || t is Bag || t is Array) && has_bits(bits, 1))
        || ((t is Bag || t is Array) && has_bits(bits, 2))
        || (t is Struct && has_bits(bits, 4))
}

/// Type matching of a shape against `bits`; `None` where the matching
/// does not return (dynamic and undefined types are not handled).
pub open spec fn type_match(bits: u32, s: ShapeV) -> Option<bool>
    decreases s,
{
    match s {
        ShapeV::AnyOf(v) => type_match_any(bits, v),
        ShapeV::Static(t) => Some(static_bits_match(bits, t)),
        _ => None,
    }
}

/// Matching of union members, in order, stopping at the first match.
pub open spec fn type_match_any(bits: u32, v: Seq<ShapeV>) -> Option<bool>
    decreases v,
{
    if v.len() == 0 {
        Some(false)
    } else {
        match type_match(bits, v[0]) {
            None => None,
            Some(true) => Some(true),
            Some(false) => type_match_any(bits, v.drop_first()),
        }
    }
}

/// A step of a path.
#[derive(Debug)]
pub enum PathGenStep {
    PathProject(String),
    PathIndex(u32),
    PathForEach,
    PathUnpivot,
}

/// The model of a path step.
pub enum StepV {
    Project(Seq<char>),
    Index(u32),
    ForEach,
    Unpivot,
}

impl View for PathGenStep {
    type V = StepV;

    open spec fn view(&self) -> StepV {
        match self {
            PathGenStep::PathProject(s) => StepV::Project(s@),
            PathGenStep::PathIndex(i) => StepV::Index(*i),
            PathGenStep::PathForEach => StepV::ForEach,
            PathGenStep::PathUnpivot => StepV::Unpivot,
        }
    }
}

pub open spec fn steps_view(v: Seq<PathGenStep>) -> Seq<StepV> {
    v.map_values(|s: PathGenStep| s@)
}

/// A path (its steps) together with the shape it reaches.
#[derive(Debug)]
pub struct PathAndShape {
    pub steps: Vec<PathGenStep>,
    pub shape: PartiqlShape,
}

/// The model of a path and its shape.
pub struct PathV {
    pub steps: Seq<StepV>,
    pub shape: ShapeV,
}

impl View for PathAndShape {
    type V = PathV;

    open spec fn view(&self) -> PathV {
        PathV { steps: steps_view(self.steps@), shape: self.shape@ }
    }
}

pub open spec fn paths_view(v: Seq<PathAndShape>) -> Seq<PathV> {
    v.map_values(|p: PathAndShape| p@)
}

/// The paths found in one dataset.
#[derive(Debug)]
pub struct DatasetPaths {
    pub name: String,
    pub paths: Vec<PathAndShape>,
}

pub(crate) fn clone_step(s: &PathGenStep) -> (r: PathGenStep)
    ensures
        r@ == s@,
{
    match s {
        PathGenStep::PathProject(n) => PathGenStep::PathProject(n.clone()),
        PathGenStep::PathIndex(i) => PathGenStep::PathIndex(*i),
        PathGenStep::PathForEach => PathGenStep::PathForEach,
        PathGenStep::PathUnpivot => PathGenStep::PathUnpivot,
    }
}

/// A copy of `steps` with `step` appended.
fn push_step(steps: &Vec<PathGenStep>, step: PathGenStep) -> (r: Vec<PathGenStep>)
    ensures
        steps_view(r@) == steps_view(steps@).push(step@),
{
    let mut r: Vec<PathGenStep> = Vec::new();
    let mut i: usize = 0;
    while i < steps.len()
        invariant
            i <= steps.len(),
            r@.len() == i,
            forall|j: int| 0 <= j < i ==> (#[trigger] r@[j])@ == steps@[j]@,
        decreases steps.len() - i,
    {
        r.push(clone_step(&steps[i]));
        i += 1;
    }
    proof { assert(steps_view(r@) =~= steps_view(steps@)); }
    let ghost before = r@;
    r.push(step);
    proof { assert(steps_view(r@) =~= steps_view(before).push(step@)); }
    r
}

pub(crate) fn clone_steps(steps: &Vec<PathGenStep>) -> (r: Vec<PathGenStep>)
    ensures
        steps_view(r@) == steps_view(steps@),
{
    let mut r: Vec<PathGenStep> = Vec::new();
    let mut i: usize = 0;
    while i < steps.len()
        invariant
            i <= steps.len(),
            r@.len() == i,
            forall|j: int| 0 <= j < i ==> (#[trigger] r@[j])@ == steps@[j]@,
        decreases steps.len() - i,
    {
        r.push(clone_step(&steps[i]));
        i += 1;
    }
    proof { assert(steps_view(r@) =~= steps_view(steps@)); }
    r
}


/// A bound of a depth range.
#[derive(Debug)]
pub enum Bound {
    Included(usize),
    Excluded(usize),
    Unbounded,
}

/// How two bounds are merged: the smaller or the larger.
pub enum MergeOp {
    Min,
    Max,
}

/// Whether two bounds are one included and one excluded, a combination
/// that merging does not handle.
pub open spec fn mixed_bounds(l: Bound, r: Bound) -> bool {
    (l is Included && r is Excluded) || (l is Excluded && r is Included)
}

pub open spec fn pick(a: usize, b: usize, take_max: bool) -> usize {
    if take_max {
        if a < b { b } else { a }
    } else {
        if a < b { a } else { b }
    }
}

pub open spec fn spec_merge_bound(l: Bound, r: Bound, take_max: bool) -> Bound {
    match (l, r) {
        (Bound::Unbounded, _) => Bound::Unbounded,
        (_, Bound::Unbounded) => Bound::Unbounded,
        (Bound::Included(a), Bound::Included(b)) => Bound::Included(pick(a, b, take_max)),
        (Bound::Excluded(a), Bound::Excluded(b)) => Bound::Excluded(pick(a, b, take_max)),
        _ => Bound::Unbounded,
    }
}

pub open spec fn spec_merge_range(l: (Bound, Bound), r: (Bound, Bound)) -> (Bound, Bound) {
    (spec_merge_bound(l.0, r.0, false), spec_merge_bound(l.1, r.1, true))
}

/// Merges two bounds: unbounded wins, else the smaller (`Min`) or larger
/// (`Max`) value.
pub fn merge_bound(l: &Bound, r: &Bound, op: MergeOp) -> (b: Bound)
    requires
        !mixed_bounds(*l, *r),
    ensures
        b == spec_merge_bound(*l, *r, op is Max),
{
    match (l, r) {
        (Bound::Unbounded, _) => Bound::Unbounded,
        (_, Bound::Unbounded) => Bound::Unbounded,
        (Bound::Included(a), Bound::Included(b)) => Bound::Included(
            match op {
                MergeOp::Max => if *a < *b { *b } else { *a },
                MergeOp::Min => if *a < *b { *a } else { *b },
            },
        ),
        (Bound::Excluded(a), Bound::Excluded(b)) => Bound::Excluded(
            match op {
                MergeOp::Max => if *a < *b { *b } else { *a },
                MergeOp::Min => if *a < *b { *a } else { *b },
            },
        ),
        _ => {
            proof { assert(false); }
            Bound::Unbounded
        },
    }
}

/// Merges two depth ranges: the smaller start and the larger end.
pub fn merge_range(l: &(Bound, Bound), r: &(Bound, Bound)) -> (m: (Bound, Bound))
    requires
        !mixed_bounds(l.0, r.0),
        !mixed_bounds(l.1, r.1),
    ensures
        m == spec_merge_range(*l, *r),
{
    (merge_bound(&l.0, &r.0, MergeOp::Min), merge_bound(&l.1, &r.1, MergeOp::Max))
}

pub open spec fn bump(b: Bound) -> Bound {
    match b {
        Bound::Included(n) => Bound::Included((n + 1) as usize),
        Bound::Excluded(n) => Bound::Excluded((n + 1) as usize),
        Bound::Unbounded => Bound::Unbounded,
    }
}

/// The range of path lengths that lead from a shape to its leaves: unions
/// merge their members' ranges, structs and collections add one step to
/// the end, and dynamic or undefined shapes are unbounded.
pub open spec fn path_depth(s: ShapeV) -> (Bound, Bound)
    decreases s,
{
    match s {
        ShapeV::AnyOf(v) => depth_fold(v),
        ShapeV::Static(t) => match t {
            StaticV::Struct(fs) => (field_depth_fold(fs).0, bump(field_depth_fold(fs).1)),
            StaticV::Bag(b) => (path_depth(*b).0, bump(path_depth(*b).1)),
            StaticV::Array(a) => (path_depth(*a).0, bump(path_depth(*a).1)),
            _ => (Bound::Included(0), Bound::Included(0)),
        },
        _ => (Bound::Unbounded, Bound::Unbounded),
    }
}

pub open spec fn depth_fold(v: Seq<ShapeV>) -> (Bound, Bound)
    decreases v,
{
    if v.len() == 0 {
        (Bound::Included(0), Bound::Included(0))
    } else {
        spec_merge_range(depth_fold(v.drop_last()), path_depth(v.last()))
    }
}

pub open spec fn field_depth_fold(fs: Seq<FieldV>) -> (Bound, Bound)
    decreases fs,
{
    if fs.len() == 0 {
        (Bound::Included(0), Bound::Included(0))
    } else {
        spec_merge_range(field_depth_fold(fs.drop_last()), path_depth(fs.last().ty))
    }
}

/// A bound that is unbounded or included and at most `h`.
pub open spec fn depth_bound_within(b: Bound, h: nat) -> bool {
    b is Unbounded || (b matches Bound::Included(n) && n <= h)
}

/// Merging two depth bounds within a height stays within it.
pub proof fn lemma_merge_within(l: Bound, r: Bound, take_max: bool, h: nat)
    requires
        depth_bound_within(l, h),
        depth_bound_within(r, h),
    ensures
        depth_bound_within(spec_merge_bound(l, r, take_max), h),
        !mixed_bounds(l, r),
{
}

/// The path depth bounds of a shape never exceed the shape's height.
pub proof fn lemma_path_depth_within(s: ShapeV)
    requires
        height(s) <= usize::MAX,
    ensures
        depth_bound_within(path_depth(s).0, height(s)),
        depth_bound_within(path_depth(s).1, height(s)),
    decreases s,
{
    match s {
        ShapeV::AnyOf(v) => {
            lemma_depth_fold_within(v);
        },
        ShapeV::Static(t) => match t {
            StaticV::Struct(fs) => {
                lemma_field_depth_fold_within(fs);
            },
            StaticV::Bag(b) => {
                lemma_path_depth_within(*b);
            },
            StaticV::Array(a) => {
                lemma_path_depth_within(*a);
            },
            _ => {},
        },
        _ => {},
    }
}

pub proof fn lemma_depth_fold_within(v: Seq<ShapeV>)
    requires
        max_height(v) <= usize::MAX,
    ensures
        depth_bound_within(depth_fold(v).0, max_height(v)),
        depth_bound_within(depth_fold(v).1, max_height(v)),
    decreases v,
{
    if v.len() > 0 {
        lemma_depth_fold_within(v.drop_last());
        lemma_path_depth_within(v.last());
        let h = max_height(v);
        lemma_merge_within(depth_fold(v.drop_last()).0, path_depth(v.last()).0, false, h);
        lemma_merge_within(depth_fold(v.drop_last()).1, path_depth(v.last()).1, true, h);
    }
}

pub proof fn lemma_field_depth_fold_within(fs: Seq<FieldV>)
    requires
        max_field_height(fs) <= usize::MAX,
    ensures
        depth_bound_within(field_depth_fold(fs).0, max_field_height(fs)),
        depth_bound_within(field_depth_fold(fs).1, max_field_height(fs)),
    decreases fs,
{
    if fs.len() > 0 {
        lemma_field_depth_fold_within(fs.drop_last());
        lemma_path_depth_within(fs.last().ty);
        let h = max_field_height(fs);
        lemma_merge_within(field_depth_fold(fs.drop_last()).0, path_depth(fs.last().ty).0, false, h);
        lemma_merge_within(field_depth_fold(fs.drop_last()).1, path_depth(fs.last().ty).1, true, h);
    }
}

fn bump_bound(b: Bound, Ghost(h): Ghost<nat>) -> (r: Bound)
    requires
        depth_bound_within(b, h),
        h < usize::MAX,
    ensures
        r == bump(b),
{
    match b {
        Bound::Included(n) => Bound::Included(n + 1),
        Bound::Excluded(n) => Bound::Excluded(n + 1),
        Bound::Unbounded => Bound::Unbounded,
    }
}

/// The range of path lengths of a shape (see `path_depth`).
pub fn shape_path_depth(shape: &PartiqlShape) -> (r: (Bound, Bound))
    requires
        height(shape@) <= usize::MAX,
    ensures
        r == path_depth(shape@),
    decreases shape,
{
    match shape {
        PartiqlShape::AnyOf(v) => shapes_depth_fold(v),
        PartiqlShape::Static(t) => match t {
            Static::Struct(fs) => {
                let (s, e) = fields_depth_fold(fs);
                proof { lemma_field_depth_fold_within(fields_view(fs@)); }
                (s, bump_bound(e, Ghost(max_field_height(fields_view(fs@)))))
            },
            Static::Bag(b) => {
                let (s, e) = shape_path_depth(b);
                proof { lemma_path_depth_within(shape_view(**b)); }
                (s, bump_bound(e, Ghost(height(shape_view(**b)))))
            },
            Static::Array(a) => {
                let (s, e) = shape_path_depth(a);
                proof { lemma_path_depth_within(shape_view(**a)); }
                (s, bump_bound(e, Ghost(height(shape_view(**a)))))
            },
            _ => (Bound::Included(0), Bound::Included(0)),
        },
        _ => (Bound::Unbounded, Bound::Unbounded),
    }
}

fn shapes_depth_fold(v: &Vec<PartiqlShape>) -> (r: (Bound, Bound))
    requires
        max_height(shapes_view(v@)) <= usize::MAX,
    ensures
        r == depth_fold(shapes_view(v@)),
    decreases v,
{
    proof { lemma_shapes_view(v@); }
    let ghost vv = shapes_view(v@);
    let mut acc = (Bound::Included(0), Bound::Included(0));
    let mut i: usize = 0;
    while i < v.len()
        invariant
            i <= v.len(),
            vv == shapes_view(v@),
            vv.len() == v.len(),
            forall|j: int| 0 <= j < v.len() ==> #[trigger] vv[j] == shape_view(v@[j]),
            max_height(vv) <= usize::MAX,
            acc == depth_fold(vv.take(i as int)),
        decreases v.len() - i,
    {
        proof {
            lemma_member_bounds(vv, i as int);
            lemma_max_height_prefix(vv, i as int);
            lemma_depth_fold_within(vv.take(i as int));
            lemma_path_depth_within(vv[i as int]);
            assert(vv.take(i + 1).drop_last() =~= vv.take(i as int));
        }
        let d = shape_path_depth(&v[i]);
        acc = merge_range(&acc, &d);
        i += 1;
    }
    proof { assert(vv.take(v.len() as int) =~= vv); }
    acc
}

fn fields_depth_fold(fs: &Vec<StructField>) -> (r: (Bound, Bound))
    requires
        max_field_height(fields_view(fs@)) < usize::MAX,
    ensures
        r == field_depth_fold(fields_view(fs@)),
    decreases fs,
{
    proof { lemma_fields_view(fs@); }
    let ghost fv = fields_view(fs@);
    let mut acc = (Bound::Included(0), Bound::Included(0));
    let mut i: usize = 0;
    while i < fs.len()
        invariant
            i <= fs.len(),
            fv == fields_view(fs@),
            fv.len() == fs.len(),
            forall|j: int| 0 <= j < fs.len() ==> #[trigger] fv[j] == (FieldV { name: fs@[j].name@, ty: shape_view(fs@[j].ty) }),
            max_field_height(fv) < usize::MAX,
            acc == field_depth_fold(fv.take(i as int)),
        decreases fs.len() - i,
    {
        proof {
            lemma_field_bounds(fv, i as int);
            lemma_max_field_height_prefix(fv, i as int);
            lemma_field_depth_fold_within(fv.take(i as int));
            lemma_path_depth_within(fv[i as int].ty);
            assert(fv.take(i + 1).drop_last() =~= fv.take(i as int));
        }
        let d = shape_path_depth(&fs[i].ty);
        acc = merge_range(&acc, &d);
        i += 1;
    }
    proof { assert(fv.take(fs.len() as int) =~= fv); }
    acc
}

pub proof fn lemma_max_height_prefix(v: Seq<ShapeV>, i: int)
    requires
        0 <= i <= v.len(),
    ensures
        max_height(v.take(i)) <= max_height(v),
    decreases v.len(),
{
    if i < v.len() {
        lemma_max_height_prefix(v.drop_last(), i);
        assert(v.drop_last().take(i) =~= v.take(i));
    } else {
        assert(v.take(i) =~= v);
    }
}

pub proof fn lemma_max_field_height_prefix(fs: Seq<FieldV>, i: int)
    requires
        0 <= i <= fs.len(),
    ensures
        max_field_height(fs.take(i)) <= max_field_height(fs),
    decreases fs.len(),
{
    if i < fs.len() {
        lemma_max_field_height_prefix(fs.drop_last(), i);
        assert(fs.drop_last().take(i) =~= fs.take(i));
    } else {
        assert(fs.take(i) =~= fs);
    }
}


/// Limits on the paths to generate: which step kinds may appear inside a
/// path and at its end, which kinds of types it may end on, and its depth.
#[derive(Debug)]
pub struct PathGenSpec {
    pub allowed_internal_steps: PathStepFlags,
    pub allowed_final_types: PathTypeFlags,
    pub allowed_final_steps: PathStepFlags,
    pub min_depth: Bound,
    pub max_depth: Bound,
}

/// The paths of a shape, as `paths_for_shape` reports them: the search
/// order reversed.
pub open spec fn spec_paths_for_shape(sp: PathGenSpec, s: ShapeV) -> Seq<PathV> {
    gen(sp, 0, Seq::empty(), s)->0.reverse()
}

/// The least accepted depth of a path.
pub open spec fn min_depth_of(b: Bound) -> int {
    match b {
        Bound::Included(n) => n as int,
        Bound::Excluded(n) => if n == 0 { 0 } else { n - 1 },
        Bound::Unbounded => 0,
    }
}

/// The greatest explored depth of a path.
pub open spec fn max_depth_of(b: Bound) -> int {
    match b {
        Bound::Included(n) => n as int,
        Bound::Excluded(n) => if n == 0 { 0 } else { n - 1 },
        Bound::Unbounded => usize::MAX as int,
    }
}

/// The key under which union members are grouped: their depth range.
pub open spec fn depth_key(d: (Bound, Bound)) -> DepthKey {
    let tag = |b: Bound| -> u8 {
        match b {
            Bound::Included(_) => 0u8,
            Bound::Excluded(_) => 1u8,
            Bound::Unbounded => 2u8,
        }
    };
    let val = |b: Bound| -> usize {
        match b {
            Bound::Included(n) => n,
            Bound::Excluded(n) => n,
            Bound::Unbounded => 0usize,
        }
    };
    (tag(d.0), val(d.0), tag(d.1), val(d.1))
}

pub open spec fn member_keys(v: Seq<ShapeV>) -> Seq<DepthKey> {
    v.map_values(|m: ShapeV| depth_key(path_depth(m)))
}

/// The sequence without repeated elements, first occurrences kept in order.
pub open spec fn unique_seq<A>(s: Seq<A>) -> Seq<A>
    decreases s.len(),
{
    if s.len() == 0 {
        Seq::empty()
    } else {
        let u = unique_seq(s.drop_last());
        if u.contains(s.last()) { u } else { u.push(s.last()) }
    }
}

pub open spec fn field_types(fs: Seq<FieldV>) -> Seq<ShapeV> {
    fs.map_values(|f: FieldV| f.ty)
}

pub open spec fn opt_concat(a: Option<Seq<PathV>>, b: Option<Seq<PathV>>) -> Option<Seq<PathV>> {
    match (a, b) {
        (Some(x), Some(y)) => Some(x + y),
        _ => None,
    }
}

pub open spec fn last_step_ok(bits: u32, steps: Seq<StepV>) -> bool {
    steps.len() == 0 || has_bits(bits, step_bit(steps.last()))
}

pub open spec fn step_allowed(sp: PathGenSpec, f: u32) -> bool {
    has_bits(sp.allowed_internal_steps.bits, f) || has_bits(sp.allowed_final_steps.bits, f)
}

/// The path itself, when it is accepted as a result: deep enough, of an
/// allowed final type and ending in an allowed final step.
pub open spec fn own_path(sp: PathGenSpec, depth: nat, steps: Seq<StepV>, s: ShapeV, type_ok: bool) -> Seq<PathV> {
    if depth >= min_depth_of(sp.min_depth) && type_ok && last_step_ok(sp.allowed_final_steps.bits, steps) {
        seq![PathV { steps, shape: s }]
    } else {
        Seq::empty()
    }
}

/// A union group of several members: its members share one depth range,
/// so it is only ever a result itself, never explored further.
pub open spec fn group_leaf(sp: PathGenSpec, depth: nat, steps: Seq<StepV>, members: Seq<ShapeV>) -> Option<Seq<PathV>> {
    match type_match_any(sp.allowed_final_types.bits, members) {
        None => None,
        Some(tm) => Some(own_path(sp, depth, steps, ShapeV::AnyOf(members), tm)),
    }
}

/// The paths found from a candidate `(depth, steps, s)`, in the order the
/// search reports them (before the final reversal): the candidate itself
/// when accepted, then the paths from its children, last child first.
/// `None` where the search does not return: an undefined or dynamic shape
/// is reached, or an array is reached while index steps are allowed.
pub open spec fn gen(sp: PathGenSpec, depth: nat, steps: Seq<StepV>, s: ShapeV) -> Option<Seq<PathV>>
    decreases height(s), size(s), 3nat, 0nat,
{
    if depth > max_depth_of(sp.max_depth) {
        Some(Seq::empty())
    } else {
        match s {
            ShapeV::AnyOf(v) => gen_anyof(sp, depth, steps, v),
            ShapeV::Static(t) => {
                let o = own_path(sp, depth, steps, s, static_bits_match(sp.allowed_final_types.bits, t));
                if !last_step_ok(sp.allowed_internal_steps.bits, steps) {
                    Some(o)
                } else {
                    match t {
                        StaticV::Struct(fs) => {
                            let proj = if step_allowed(sp, 1) {
                                gen_fields_rev(sp, depth + 1, steps, fs)
                            } else {
                                Some(Seq::empty())
                            };
                            let unp = if step_allowed(sp, 8) {
                                let u = unique_seq(field_types(fs));
                                let st = steps.push(StepV::Unpivot);
                                proof {
                                    lemma_unique_field_types_height(fs);
                                }
                                if u.len() == 1 {
                                    proof { lemma_member_bounds(u, 0); }
                                    gen(sp, depth + 1, st, u[0])
                                } else {
                                    gen_anyof(sp, depth + 1, st, u)
                                }
                            } else {
                                Some(Seq::empty())
                            };
                            opt_concat(opt_concat(Some(o), proj), unp)
                        },
                        StaticV::Bag(b) => if step_allowed(sp, 4) {
                            opt_concat(Some(o), gen(sp, depth + 1, steps.push(StepV::ForEach), *b))
                        } else {
                            Some(o)
                        },
                        StaticV::Array(a) => if step_allowed(sp, 2) {
                            None
                        } else if step_allowed(sp, 4) {
                            opt_concat(Some(o), gen(sp, depth + 1, steps.push(StepV::ForEach), *a))
                        } else {
                            Some(o)
                        },
                        _ => Some(o),
                    }
                }
            },
            _ => None,
        }
    }
}

/// The paths found from a candidate whose shape is the union of `members`.
/// When the members fall into several depth ranges, the union is replaced
/// by one candidate per range (a lone member stands for itself).
pub open spec fn gen_anyof(sp: PathGenSpec, depth: nat, steps: Seq<StepV>, members: Seq<ShapeV>) -> Option<Seq<PathV>>
    decreases max_height(members), 1 + sum_size(members), 2nat, 0nat,
{
    if depth > max_depth_of(sp.max_depth) {
        Some(Seq::empty())
    } else {
        match type_match_any(sp.allowed_final_types.bits, members) {
            None => None,
            Some(tm) => {
                let o = own_path(sp, depth, steps, ShapeV::AnyOf(members), tm);
                if !last_step_ok(sp.allowed_internal_steps.bits, steps) {
                    Some(o)
                } else {
                    let groups = group_positions(member_keys(members));
                    if groups.len() > 1 {
                        gen_groups_rev(sp, depth, steps, members, groups)
                    } else {
                        Some(o)
                    }
                }
            },
        }
    }
}

/// The paths from the union groups, last group first.
pub open spec fn gen_groups_rev(
    sp: PathGenSpec,
    depth: nat,
    steps: Seq<StepV>,
    members: Seq<ShapeV>,
    groups: Seq<Seq<usize>>,
) -> Option<Seq<PathV>>
    decreases max_height(members), 1 + sum_size(members), 1nat, groups.len(),
{
    if groups.len() == 0 {
        Some(Seq::empty())
    } else {
        let g = groups.last();
        let first = if g.len() == 1 {
            if g[0] < members.len() {
                proof { lemma_member_bounds(members, g[0] as int); }
                gen(sp, depth, steps, members[g[0] as int])
            } else {
                Some(Seq::empty())
            }
        } else {
            group_leaf(sp, depth, steps, g.map_values(|i: usize| members[i as int]))
        };
        opt_concat(first, gen_groups_rev(sp, depth, steps, members, groups.drop_last()))
    }
}

/// The paths from projecting each field (`.name`), last field first.
pub open spec fn gen_fields_rev(sp: PathGenSpec, depth: nat, steps: Seq<StepV>, fs: Seq<FieldV>) -> Option<Seq<PathV>>
    decreases max_field_height(fs), 1 + sum_field_size(fs), 1nat, fs.len(),
{
    if fs.len() == 0 {
        Some(Seq::empty())
    } else {
        let f = fs.last();
        proof { lemma_field_bounds(fs, fs.len() - 1); }
        opt_concat(
            gen(sp, depth, steps.push(StepV::Project(f.name)), f.ty),
            gen_fields_rev(sp, depth, steps, fs.drop_last()),
        )
    }
}

/// Whether a reported path is a result: it ends in an allowed final step
/// and its shape is of an allowed final type.
pub open spec fn path_accepted(sp: PathGenSpec, p: PathV) -> bool {
    last_step_ok(sp.allowed_final_steps.bits, p.steps) && type_match(sp.allowed_final_types.bits, p.shape) == Some(true)
}

/// Whether every path reported is a result.
pub open spec fn all_accepted(sp: PathGenSpec, r: Option<Seq<PathV>>) -> bool {
    r matches Some(ps) ==> forall|i: int| 0 <= i < ps.len() ==> path_accepted(sp, #[trigger] ps[i])
}

proof fn lemma_concat_accepted(sp: PathGenSpec, a: Option<Seq<PathV>>, b: Option<Seq<PathV>>)
    requires
        all_accepted(sp, a),
        all_accepted(sp, b),
    ensures
        all_accepted(sp, opt_concat(a, b)),
{
    if let (Some(x), Some(y)) = (a, b) {
        assert forall|i: int| 0 <= i < (x + y).len() implies path_accepted(sp, #[trigger] (x + y)[i]) by {
            if i < x.len() { assert((x + y)[i] == x[i]); } else { assert((x + y)[i] == y[i - x.len()]); }
        }
    }
}

proof fn lemma_own_accepted(sp: PathGenSpec, depth: nat, steps: Seq<StepV>, s: ShapeV, tm: bool)
    requires
        tm ==> type_match(sp.allowed_final_types.bits, s) == Some(true),
    ensures
        all_accepted(sp, Some(own_path(sp, depth, steps, s, tm))),
{
}

proof fn lemma_gen_accepted(sp: PathGenSpec, depth: nat, steps: Seq<StepV>, s: ShapeV)
    ensures
        all_accepted(sp, gen(sp, depth, steps, s)),
    decreases height(s), size(s), 3nat, 0nat,
{
    if depth <= max_depth_of(sp.max_depth) {
        match s {
            ShapeV::AnyOf(v) => lemma_gen_anyof_accepted(sp, depth, steps, v),
            ShapeV::Static(t) => {
                let o = own_path(sp, depth, steps, s, static_bits_match(sp.allowed_final_types.bits, t));
                lemma_own_accepted(sp, depth, steps, s, static_bits_match(sp.allowed_final_types.bits, t));
                if last_step_ok(sp.allowed_internal_steps.bits, steps) {
                    match t {
                        StaticV::Struct(fs) => {
                            let proj = if step_allowed(sp, 1) {
                                lemma_gen_fields_accepted(sp, depth + 1, steps, fs);
                                gen_fields_rev(sp, depth + 1, steps, fs)
                            } else {
                                Some(Seq::empty())
                            };
                            let unp = if step_allowed(sp, 8) {
                                let u = unique_seq(field_types(fs));
                                let st = steps.push(StepV::Unpivot);
                                lemma_unique_field_types_height(fs);
                                if u.len() == 1 {
                                    lemma_member_bounds(u, 0);
                                    lemma_gen_accepted(sp, depth + 1, st, u[0]);
                                    gen(sp, depth + 1, st, u[0])
                                } else {
                                    lemma_gen_anyof_accepted(sp, depth + 1, st, u);
                                    gen_anyof(sp, depth + 1, st, u)
                                }
                            } else {
                                Some(Seq::empty())
                            };
                            lemma_concat_accepted(sp, Some(o), proj);
                            lemma_concat_accepted(sp, opt_concat(Some(o), proj), unp);
                        },
                        StaticV::Bag(b) => if step_allowed(sp, 4) {
                            lemma_gen_accepted(sp, depth + 1, steps.push(StepV::ForEach), *b);
                            lemma_concat_accepted(sp, Some(o), gen(sp, depth + 1, steps.push(StepV::ForEach), *b));
                        },
                        StaticV::Array(a) => if !step_allowed(sp, 2) && step_allowed(sp, 4) {
                            lemma_gen_accepted(sp, depth + 1, steps.push(StepV::ForEach), *a);
                            lemma_concat_accepted(sp, Some(o), gen(sp, depth + 1, steps.push(StepV::ForEach), *a));
                        },
                        _ => {},
                    }
                }
            },
            _ => {},
        }
    }
}

proof fn lemma_gen_anyof_accepted(sp: PathGenSpec, depth: nat, steps: Seq<StepV>, members: Seq<ShapeV>)
    ensures
        all_accepted(sp, gen_anyof(sp, depth, steps, members)),
    decreases max_height(members), 1 + sum_size(members), 2nat, 0nat,
{
    if depth <= max_depth_of(sp.max_depth) {
        if let Some(tm) = type_match_any(sp.allowed_final_types.bits, members) {
            lemma_own_accepted(sp, depth, steps, ShapeV::AnyOf(members), tm);
            if last_step_ok(sp.allowed_internal_steps.bits, steps) {
                let groups = group_positions(member_keys(members));
                if groups.len() > 1 {
                    lemma_gen_groups_accepted(sp, depth, steps, members, groups);
                }
            }
        }
    }
}

proof fn lemma_gen_groups_accepted(
    sp: PathGenSpec,
    depth: nat,
    steps: Seq<StepV>,
    members: Seq<ShapeV>,
    groups: Seq<Seq<usize>>,
)
    ensures
        all_accepted(sp, gen_groups_rev(sp, depth, steps, members, groups)),
    decreases max_height(members), 1 + sum_size(members), 1nat, groups.len(),
{
    if groups.len() > 0 {
        let g = groups.last();
        let first = if g.len() == 1 {
            if g[0] < members.len() {
                lemma_member_bounds(members, g[0] as int);
                lemma_gen_accepted(sp, depth, steps, members[g[0] as int]);
                gen(sp, depth, steps, members[g[0] as int])
            } else {
                Some(Seq::empty())
            }
        } else {
            let ms = g.map_values(|i: usize| members[i as int]);
            if let Some(tm) = type_match_any(sp.allowed_final_types.bits, ms) {
                lemma_own_accepted(sp, depth, steps, ShapeV::AnyOf(ms), tm);
            }
            group_leaf(sp, depth, steps, ms)
        };
        lemma_gen_groups_accepted(sp, depth, steps, members, groups.drop_last());
        lemma_concat_accepted(sp, first, gen_groups_rev(sp, depth, steps, members, groups.drop_last()));
    }
}

proof fn lemma_gen_fields_accepted(sp: PathGenSpec, depth: nat, steps: Seq<StepV>, fs: Seq<FieldV>)
    ensures
        all_accepted(sp, gen_fields_rev(sp, depth, steps, fs)),
    decreases max_field_height(fs), 1 + sum_field_size(fs), 1nat, fs.len(),
{
    if fs.len() > 0 {
        let f = fs.last();
        lemma_field_bounds(fs, fs.len() - 1);
        lemma_gen_accepted(sp, depth, steps.push(StepV::Project(f.name)), f.ty);
        lemma_gen_fields_accepted(sp, depth, steps, fs.drop_last());
        lemma_concat_accepted(sp, gen(sp, depth, steps.push(StepV::Project(f.name)), f.ty),
            gen_fields_rev(sp, depth, steps, fs.drop_last()));
    }
}

/// Every path found for a shape is a result of the search: it ends in an
/// allowed final step, and its shape is of an allowed final type.
pub proof fn lemma_found_paths_accepted(sp: PathGenSpec, s: ShapeV)
    requires
        gen(sp, 0, Seq::empty(), s) is Some,
    ensures
        forall|i: int| 0 <= i < spec_paths_for_shape(sp, s).len() ==> path_accepted(sp,
            #[trigger] spec_paths_for_shape(sp, s)[i]),
{
    lemma_gen_accepted(sp, 0, Seq::empty(), s);
    let ps = gen(sp, 0, Seq::empty(), s)->0;
    assert forall|i: int| 0 <= i < spec_paths_for_shape(sp, s).len() implies path_accepted(sp,
        #[trigger] spec_paths_for_shape(sp, s)[i]) by {
        assert(spec_paths_for_shape(sp, s)[i] == ps[ps.len() - 1 - i]);
    }
}

pub proof fn lemma_unique_contained<A>(s: Seq<A>)
    ensures
        forall|i: int| 0 <= i < unique_seq(s).len() ==> s.contains(#[trigger] unique_seq(s)[i]),
    decreases s.len(),
{
    if s.len() > 0 {
        lemma_unique_contained(s.drop_last());
        let u = unique_seq(s.drop_last());
        assert forall|i: int| 0 <= i < unique_seq(s).len() implies s.contains(#[trigger] unique_seq(s)[i]) by {
            if i < u.len() {
                let x = u[i];
                assert(s.drop_last().contains(x));
                let k = choose|k: int| 0 <= k < s.drop_last().len() && s.drop_last()[k] == x;
                assert(s[k] == x);
            } else {
                assert(s[s.len() - 1] == s.last());
            }
        }
    }
}

pub proof fn lemma_max_height_le(v: Seq<ShapeV>, b: nat)
    requires
        forall|i: int| 0 <= i < v.len() ==> height(#[trigger] v[i]) <= b,
    ensures
        max_height(v) <= b,
    decreases v.len(),
{
    if v.len() > 0 {
        lemma_max_height_le(v.drop_last(), b);
        assert(height(v[v.len() - 1]) <= b);
    }
}

pub proof fn lemma_unique_field_types_height(fs: Seq<FieldV>)
    ensures
        max_height(unique_seq(field_types(fs))) <= max_field_height(fs),
{
    let tys = field_types(fs);
    let u = unique_seq(tys);
    lemma_unique_contained(tys);
    assert forall|i: int| 0 <= i < u.len() implies height(#[trigger] u[i]) <= max_field_height(fs) by {
        assert(tys.contains(u[i]));
        let k = choose|k: int| 0 <= k < tys.len() && tys[k] == u[i];
        lemma_field_bounds(fs, k);
    }
    lemma_max_height_le(u, max_field_height(fs));
}


fn min_depth_value(b: &Bound) -> (n: usize)
    ensures
        n == min_depth_of(*b),
{
    match b {
        Bound::Included(n) => *n,
        Bound::Excluded(n) => if *n == 0 { 0 } else { *n - 1 },
        Bound::Unbounded => 0,
    }
}

fn max_depth_value(b: &Bound) -> (n: usize)
    ensures
        n == max_depth_of(*b),
{
    match b {
        Bound::Included(n) => *n,
        Bound::Excluded(n) => if *n == 0 { 0 } else { *n - 1 },
        Bound::Unbounded => usize::MAX,
    }
}

fn last_ok(flags: &PathStepFlags, steps: &Vec<PathGenStep>) -> (r: bool)
    ensures
        r == last_step_ok(flags.bits, steps_view(steps@)),
{
    if steps.len() == 0 {
        true
    } else {
        flags.matches(&steps[steps.len() - 1])
    }
}

fn key_of(d: &(Bound, Bound)) -> (k: DepthKey)
    ensures
        k == depth_key(*d),
{
    let t0: u8 = match d.0 { Bound::Included(_) => 0, Bound::Excluded(_) => 1, Bound::Unbounded => 2 };
    let v0: usize = match d.0 { Bound::Included(n) => n, Bound::Excluded(n) => n, Bound::Unbounded => 0 };
    let t1: u8 = match d.1 { Bound::Included(_) => 0, Bound::Excluded(_) => 1, Bound::Unbounded => 2 };
    let v1: usize = match d.1 { Bound::Included(n) => n, Bound::Excluded(n) => n, Bound::Unbounded => 0 };
    (t0, v0, t1, v1)
}

/// The distinct types of a struct's fields, in order of first appearance.
fn unique_field_types(fs: &Vec<StructField>) -> (r: Vec<PartiqlShape>)
    ensures
        shapes_view(r@) == unique_seq(field_types(fields_view(fs@))),
{
    proof { lemma_fields_view(fs@); }
    let ghost fv = fields_view(fs@);
    let mut r: Vec<PartiqlShape> = Vec::new();
    let mut i: usize = 0;
    while i < fs.len()
        invariant
            i <= fs.len(),
            fv == fields_view(fs@),
            fv.len() == fs.len(),
            forall|j: int| 0 <= j < fs.len() ==> #[trigger] fv[j] == (FieldV { name: fs@[j].name@, ty: shape_view(fs@[j].ty) }),
            shapes_view(r@) == unique_seq(field_types(fv.take(i as int))),
        decreases fs.len() - i,
    {
        proof {
            lemma_shapes_view(r@);
            assert(field_types(fv.take(i + 1)).drop_last() =~= field_types(fv.take(i as int)));
            assert(field_types(fv.take(i + 1)).last() == shape_view(fs@[i as int].ty));
        }
        let ghost u = shapes_view(r@);
        let mut found = false;
        let mut j: usize = 0;
        while j < r.len()
            invariant
                j <= r.len(),
                u == shapes_view(r@),
                u.len() == r.len(),
                forall|k: int| 0 <= k < r.len() ==> #[trigger] u[k] == shape_view(r@[k]),
                i < fs.len(),
                found <==> (exists|k: int| 0 <= k < j && u[k] == shape_view(fs@[i as int].ty)),
            decreases r.len() - j,
        {
            if crate::shape::shape_eq(&r[j], &fs[i].ty) {
                found = true;
                proof { assert(u[j as int] == shape_view(fs@[i as int].ty)); }
            }
            j += 1;
        }
        proof {
            if found {
                let k = choose|k: int| 0 <= k < j && u[k] == shape_view(fs@[i as int].ty);
                assert(u.contains(shape_view(fs@[i as int].ty)));
            } else {
                assert(!u.contains(shape_view(fs@[i as int].ty)));
            }
        }
        if !found {
            let c = crate::shape::clone_shape(&fs[i].ty);
            let ghost r0 = r@;
            r.push(c);
            proof {
                assert(r@.drop_last() =~= r0);
            }
        }
        i += 1;
    }
    proof { assert(fv.take(fs.len() as int) =~= fv); }
    r
}

impl PathGenSpec {
    /// Whether a step kind may appear anywhere in a path.
    pub fn allowed_step(&self, step: &PathStepFlags) -> (r: bool)
        ensures
            r == (has_bits(self.allowed_internal_steps.bits, step.bits)
                || has_bits(self.allowed_final_steps.bits, step.bits)),
    {
        self.allowed_internal_steps.contains(step) || self.allowed_final_steps.contains(step)
    }

    /// Appends to `paths` the paths of `shape`, in search order (the
    /// reverse of the order `paths_for_shape` reports).
    pub fn path_for_type(&self, shape: &PartiqlShape, paths: &mut Vec<PathAndShape>) -> (r: Result<(), StrategyError>)
        requires
            gen(*self, 0, Seq::empty(), shape@) is Some,
            height(shape@) < usize::MAX,
        ensures
            r is Ok,
            paths_view(final(paths)@) == paths_view(old(paths)@) + gen(*self, 0, Seq::empty(), shape@)->0,
    {
        let steps: Vec<PathGenStep> = Vec::new();
        proof { assert(steps_view(steps@) =~= Seq::<StepV>::empty()); }
        self.visit(0, &steps, shape, paths);
        Ok(())
    }

    /// The paths of `shape`, shallow paths first.
    pub fn paths_for_shape(&self, shape: &PartiqlShape) -> (r: Result<Vec<PathAndShape>, StrategyError>)
        requires
            gen(*self, 0, Seq::empty(), shape@) is Some,
            height(shape@) < usize::MAX,
        ensures
            r matches Ok(ps) && paths_view(ps@) == spec_paths_for_shape(*self, shape@),
    {
        let mut paths: Vec<PathAndShape> = Vec::new();
        let _ = self.path_for_type(shape, &mut paths);
        proof { assert(paths_view(paths@) =~= Seq::<PathV>::empty() + gen(*self, 0, Seq::empty(), shape@)->0); }
        let ghost found = paths_view(paths@);
        let mut rev: Vec<PathAndShape> = Vec::new();
        while paths.len() > 0
            invariant
                found.len() == paths@.len() + rev@.len(),
                paths_view(paths@) == found.take(paths@.len() as int),
                paths_view(rev@) == found.skip(paths@.len() as int).reverse(),
            decreases paths.len(),
        {
            let ghost n = paths@.len();
            let p = paths.pop().unwrap();
            let ghost r0 = rev@;
            rev.push(p);
            proof {
                assert(paths_view(paths@) =~= found.take(n - 1));
                assert(found.take(n as int)[n - 1] == p@);
                assert(paths_view(rev@) =~= paths_view(r0).push(p@));
                assert(found.skip(n - 1).reverse() =~= found.skip(n as int).reverse().push(found[n - 1]));
                assert(paths_view(rev@) =~= found.skip(n - 1).reverse());
            }
        }
        proof { assert(found.skip(0) =~= found); }
        Ok(rev)
    }

    /// The paths of a dataset's shape, under the dataset's name.
    pub fn paths_for_dataset(&self, dataset: &crate::shape::NameAndShape) -> (r: Result<DatasetPaths, StrategyError>)
        requires
            gen(*self, 0, Seq::empty(), dataset.shape@) is Some,
            height(dataset.shape@) < usize::MAX,
        ensures
            r matches Ok(dp) && dp.name@ == dataset.name@
                && paths_view(dp.paths@) == spec_paths_for_shape(*self, dataset.shape@),
    {
        let paths = match self.paths_for_shape(&dataset.shape) {
            Ok(p) => p,
            Err(e) => return Err(e),
        };
        Ok(DatasetPaths { name: dataset.name.clone(), paths })
    }

    fn accepts(&self, depth: usize, steps: &Vec<PathGenStep>, type_ok: bool) -> (r: bool)
        ensures
            r == (depth >= min_depth_of(self.min_depth) && type_ok
                && last_step_ok(self.allowed_final_steps.bits, steps_view(steps@))),
    {
        depth >= min_depth_value(&self.min_depth) && type_ok && last_ok(&self.allowed_final_steps, steps)
    }

    #[verifier::rlimit(30)]
    fn visit(&self, depth: usize, steps: &Vec<PathGenStep>, shape: &PartiqlShape, out: &mut Vec<PathAndShape>)
        requires
            gen(*self, depth as nat, steps_view(steps@), shape@) is Some,
            depth + height(shape@) < usize::MAX,
        ensures
            paths_view(final(out)@) == paths_view(old(out)@) + gen(*self, depth as nat, steps_view(steps@), shape@)->0,
        decreases height(shape@), size(shape@), 3nat, 0nat,
    {
        let ghost sv = steps_view(steps@);
        let max = max_depth_value(&self.max_depth);
        if depth > max {
            proof { assert(paths_view(out@) =~= paths_view(out@) + Seq::<PathV>::empty()); }
            return;
        }
        match shape {
            PartiqlShape::AnyOf(v) => {
                self.visit_anyof(depth, steps, v, out);
            },
            PartiqlShape::Static(t) => {
                let ghost o = own_path(*self, depth as nat, sv, shape@, static_bits_match(self.allowed_final_types.bits, crate::shape::static_view(*t)));
                let tm = self.allowed_final_types.matches_static(t);
                if self.accepts(depth, steps, tm) {
                    let p = PathAndShape { steps: clone_steps(steps), shape: crate::shape::clone_shape(shape) };
                    let ghost before = out@;
                    out.push(p);
                    proof { assert(paths_view(out@) =~= paths_view(before) + o); }
                } else {
                    proof { assert(paths_view(out@) =~= paths_view(out@) + o); }
                }
                let ghost after_own = out@;
                if !last_ok(&self.allowed_internal_steps, steps) {
                    return;
                }
                match t {
                    Static::Struct(fs) => {
                        proof { lemma_fields_view(fs@); }
                        let ghost fv = fields_view(fs@);
                        if self.allowed_step(&PathStepFlags::path_project()) {
                            let mut i: usize = fs.len();
                            proof { assert(fv.take(fs.len() as int) =~= fv); }
                            while i > 0
                                invariant
                                    i <= fs.len(),
                                    fv == fields_view(fs@),
                                    fv.len() == fs.len(),
                                    forall|j: int| 0 <= j < fs.len() ==> #[trigger] fv[j] == (FieldV { name: fs@[j].name@, ty: shape_view(fs@[j].ty) }),
                                    depth + height(shape@) < usize::MAX,
                                    height(shape@) == 1 + max_field_height(fv),
                                    size(shape@) == 1 + crate::shape::sum_field_size(fv),
                                    gen_fields_rev(*self, depth as nat + 1, sv, fv) is Some,
                                    sv == steps_view(steps@),
                                    gen_fields_rev(*self, depth as nat + 1, sv, fv.take(i as int)) is Some,
                                    gen_fields_rev(*self, depth as nat + 1, sv, fv)->0
                                        == paths_view(out@).skip(after_own.len() as int)
                                        + gen_fields_rev(*self, depth as nat + 1, sv, fv.take(i as int))->0,
                                    paths_view(out@).take(after_own.len() as int) == paths_view(after_own),
                                    out@.len() >= after_own.len(),
                                decreases i,
                            {
                                i -= 1;
                                let ghost pre = fv.take(i + 1);
                                proof {
                                    assert(pre.drop_last() =~= fv.take(i as int));
                                    assert(pre.last() == fv[i as int]);
                                    lemma_field_bounds(fv, i as int);
                                }
                                let st = push_step(steps, PathGenStep::PathProject(fs[i].name.clone()));
                                let ghost before = out@;
                                self.visit(depth + 1, &st, &fs[i].ty, out);
                                proof {
                                    assert(paths_view(out@).skip(after_own.len() as int)
                                        =~= paths_view(before).skip(after_own.len() as int)
                                            + gen(*self, depth as nat + 1, sv.push(StepV::Project(fv[i as int].name)), fv[i as int].ty)->0);
                                    assert(paths_view(out@).take(after_own.len() as int) =~= paths_view(before).take(after_own.len() as int));
                                }
                            }
                            proof {
                                assert(fv.take(0) =~= Seq::<FieldV>::empty());
                                assert(paths_view(out@) =~= paths_view(out@).take(after_own.len() as int) + paths_view(out@).skip(after_own.len() as int));
                            }
                        }
                        let ghost after_proj = out@;
                        if self.allowed_step(&PathStepFlags::path_unpivot()) {
                            let u = unique_field_types(fs);
                            let st = push_step(steps, PathGenStep::PathUnpivot);
                            proof {
                                lemma_unique_field_types_height(fv);
                                lemma_shapes_view(u@);
                            }
                            if u.len() == 1 {
                                proof { lemma_member_bounds(shapes_view(u@), 0); }
                                self.visit(depth + 1, &st, &u[0], out);
                            } else {
                                self.visit_anyof(depth + 1, &st, &u, out);
                            }
                        }
                    },
                    Static::Bag(b) => {
                        if self.allowed_step(&PathStepFlags::path_for_each()) {
                            let st = push_step(steps, PathGenStep::PathForEach);
                            self.visit(depth + 1, &st, b, out);
                        }
                    },
                    Static::Array(a) => {
                        if self.allowed_step(&PathStepFlags::path_index()) {
                            proof { assert(false); }
                        } else if self.allowed_step(&PathStepFlags::path_for_each()) {
                            let st = push_step(steps, PathGenStep::PathForEach);
                            self.visit(depth + 1, &st, a, out);
                        }
                    },
                    _ => {},
                }
            },
            _ => {
                proof { assert(false); }
            },
        }
    }

    fn visit_anyof(&self, depth: usize, steps: &Vec<PathGenStep>, members: &Vec<PartiqlShape>, out: &mut Vec<PathAndShape>)
        requires
            gen_anyof(*self, depth as nat, steps_view(steps@), shapes_view(members@)) is Some,
            depth + max_height(shapes_view(members@)) < usize::MAX,
        ensures
            paths_view(final(out)@) == paths_view(old(out)@)
                + gen_anyof(*self, depth as nat, steps_view(steps@), shapes_view(members@))->0,
        decreases max_height(shapes_view(members@)), 1 + sum_size(shapes_view(members@)), 2nat, 0nat,
    {
        let ghost mv = shapes_view(members@);
        let ghost sv = steps_view(steps@);
        proof { lemma_shapes_view(members@); }
        let max = max_depth_value(&self.max_depth);
        if depth > max {
            proof { assert(paths_view(out@) =~= paths_view(out@) + Seq::<PathV>::empty()); }
            return;
        }
        let tm = self.allowed_final_types.matches_any(members);
        let accept = self.accepts(depth, steps, tm);
        let ghost o = own_path(*self, depth as nat, sv, ShapeV::AnyOf(mv), tm);
        if !last_ok(&self.allowed_internal_steps, steps) {
            if accept {
                let p = PathAndShape { steps: clone_steps(steps), shape: PartiqlShape::AnyOf(crate::shape::clone_shapes(members)) };
                let ghost before = out@;
                out.push(p);
                proof { assert(paths_view(out@) =~= paths_view(before) + o); }
            } else {
                proof { assert(paths_view(out@) =~= paths_view(out@) + o); }
            }
            return;
        }
        let mut keys: Vec<DepthKey> = Vec::new();
        let mut i: usize = 0;
        while i < members.len()
            invariant
                i <= members.len(),
                mv == shapes_view(members@),
                mv.len() == members.len(),
                forall|j: int| 0 <= j < members.len() ==> #[trigger] mv[j] == shape_view(members@[j]),
                depth + max_height(mv) < usize::MAX,
                keys@ == member_keys(mv).take(i as int),
            decreases members.len() - i,
        {
            proof { lemma_member_bounds(mv, i as int); }
            let d = shape_path_depth(&members[i]);
            keys.push(key_of(&d));
            proof { assert(keys@ =~= member_keys(mv).take(i + 1)); }
            i += 1;
        }
        proof { assert(member_keys(mv).take(members.len() as int) =~= member_keys(mv)); }
        let groups = group_by(&keys);
        let ghost gp = group_positions(member_keys(mv));
        if groups.len() <= 1 {
            if accept {
                let p = PathAndShape { steps: clone_steps(steps), shape: PartiqlShape::AnyOf(crate::shape::clone_shapes(members)) };
                let ghost before = out@;
                out.push(p);
                proof { assert(paths_view(out@) =~= paths_view(before) + o); }
            } else {
                proof { assert(paths_view(out@) =~= paths_view(out@) + o); }
            }
            return;
        }
        proof {
            lemma_group_positions_in_range(member_keys(mv));
            assert(gp.take(groups.len() as int) =~= gp);
        }
        let ghost start = out@;
        let ghost total = gen_groups_rev(*self, depth as nat, sv, mv, gp);
        let mut j: usize = groups.len();
        while j > 0
            invariant
                j <= groups.len(),
                groups@.len() == gp.len(),
                forall|k: int| 0 <= k < groups@.len() ==> (#[trigger] groups@[k])@ == gp[k],
                forall|a: int, b: int| 0 <= a < gp.len() && 0 <= b < gp[a].len() ==> #[trigger] gp[a][b] < mv.len(),
                gp == group_positions(member_keys(mv)),
                mv == shapes_view(members@),
                mv.len() == members.len(),
                forall|k: int| 0 <= k < members.len() ==> #[trigger] mv[k] == shape_view(members@[k]),
                sv == steps_view(steps@),
                depth + max_height(mv) < usize::MAX,
                total == gen_groups_rev(*self, depth as nat, sv, mv, gp),
                total is Some,
                gen_groups_rev(*self, depth as nat, sv, mv, gp.take(j as int)) is Some,
                total->0 == paths_view(out@).skip(start.len() as int)
                    + gen_groups_rev(*self, depth as nat, sv, mv, gp.take(j as int))->0,
                paths_view(out@).take(start.len() as int) == paths_view(start),
                out@.len() >= start.len(),
            decreases j,
        {
            j -= 1;
            let ghost pre = gp.take(j + 1);
            proof {
                assert(pre.drop_last() =~= gp.take(j as int));
                assert(pre.last() == gp[j as int]);
            }
            let g = &groups[j];
            let ghost before = out@;
            if g.len() == 1 {
                if g[0] < members.len() {
                    proof { lemma_member_bounds(mv, g[0] as int); }
                    self.visit(depth, steps, &members[g[0]], out);
                    proof {
                        assert(paths_view(out@).skip(start.len() as int)
                            =~= paths_view(before).skip(start.len() as int)
                                + gen(*self, depth as nat, sv, mv[g[0] as int])->0);
                        assert(paths_view(out@).take(start.len() as int) =~= paths_view(before).take(start.len() as int));
                    }
                } else {
                    proof { assert(paths_view(out@).skip(start.len() as int) =~= paths_view(before).skip(start.len() as int) + Seq::<PathV>::empty()); }
                }
            } else {
                let ghost gm = g@.map_values(|i: usize| mv[i as int]);
                let mut leaf: Vec<PartiqlShape> = Vec::new();
                let mut k: usize = 0;
                while k < g.len()
                    invariant
                        k <= g.len(),
                        g@ == gp[j as int],
                        j < gp.len(),
                        forall|a: int, b: int| 0 <= a < gp.len() && 0 <= b < gp[a].len() ==> #[trigger] gp[a][b] < mv.len(),
                        mv.len() == members.len(),
                        forall|q: int| 0 <= q < members.len() ==> #[trigger] mv[q] == shape_view(members@[q]),
                        gm == g@.map_values(|i: usize| mv[i as int]),
                        shapes_view(leaf@) == gm.take(k as int),
                    decreases g.len() - k,
                {
                    proof { assert(gp[j as int][k as int] < mv.len()); }
                    let c = crate::shape::clone_shape(&members[g[k]]);
                    let ghost l0 = leaf@;
                    leaf.push(c);
                    proof {
                        assert(leaf@.drop_last() =~= l0);
                        assert(gm.take(k + 1).drop_last() =~= gm.take(k as int));
                    }
                    k += 1;
                }
                proof { assert(gm.take(g.len() as int) =~= gm); }
                let tm2 = self.allowed_final_types.matches_any(&leaf);
                if self.accepts(depth, steps, tm2) {
                    let p = PathAndShape { steps: clone_steps(steps), shape: PartiqlShape::AnyOf(leaf) };
                    out.push(p);
                }
                proof {
                    assert(paths_view(out@).skip(start.len() as int)
                        =~= paths_view(before).skip(start.len() as int)
                            + group_leaf(*self, depth as nat, sv, gm)->0);
                    assert(paths_view(out@).take(start.len() as int) =~= paths_view(before).take(start.len() as int));
                }
            }
        }
        proof {
            assert(gp.take(0) =~= Seq::<Seq<usize>>::empty());
            assert(paths_view(out@) =~= paths_view(out@).take(start.len() as int) + paths_view(out@).skip(start.len() as int));
        }
    }
}


/// The text of a path step: `.name`, `[index]`, `[*]` or `.*`.
pub open spec fn step_text(st: StepV) -> Seq<char> {
    match st {
        StepV::Project(k) => seq!['.'] + k,
        StepV::Index(i) => seq!['['] + crate::text::decimal(i as nat) + seq![']'],
        StepV::ForEach => "[*]"@,
        StepV::Unpivot => ".*"@,
    }
}

/// The text of a path: its steps' texts one after another.
pub open spec fn steps_text(v: Seq<StepV>) -> Seq<char>
    decreases v.len(),
{
    if v.len() == 0 {
        Seq::empty()
    } else {
        steps_text(v.drop_last()) + step_text(v.last())
    }
}

impl PathAndShape {
    /// The text of the path (what its `Debug` form shows before the shape).
    pub fn path_text(&self) -> (r: String)
        ensures
            r@ == steps_text(steps_view(self.steps@)),
    {
        let mut path = String::new();
        let mut i: usize = 0;
        let ghost sv = steps_view(self.steps@);
        while i < self.steps.len()
            invariant
                i <= self.steps@.len(),
                sv == steps_view(self.steps@),
                path@ == steps_text(sv.take(i as int)),
            decreases self.steps@.len() - i,
        {
            let ghost before = path@;
            match &self.steps[i] {
                PathGenStep::PathProject(k) => {
                    crate::text::push_char(&mut path, '.');
                    path.append(k.as_str());
                    proof { assert(path@ =~= before + (seq!['.'] + k@)); }
                },
                PathGenStep::PathIndex(n) => {
                    crate::text::push_char(&mut path, '[');
                    crate::text::push_decimal(&mut path, *n as u64);
                    crate::text::push_char(&mut path, ']');
                    proof { assert(path@ =~= before + (seq!['['] + crate::text::decimal(*n as nat) + seq![']'])); }
                },
                PathGenStep::PathForEach => {
                    path.append("[*]");
                },
                PathGenStep::PathUnpivot => {
                    path.append(".*");
                },
            }
            proof {
                assert(sv.take(i + 1).drop_last() =~= sv.take(i as int));
                assert(sv.take(i + 1).last() == self.steps@[i as int]@);
            }
            i += 1;
        }
        proof { assert(sv.take(sv.len() as int) =~= sv); }
        path
    }
}

} // verus!
