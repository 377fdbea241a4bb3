//! The arguments of the query generator and how they become a query
//! strategy: projection, exclusion and filter lists, their counts, path
//! specifications and allowed predicates.
use vstd::prelude::*;
use crate::path::{Bound, PathGenSpec, PathStepFlags, PathTypeFlags};
use crate::predicate::{PredicateFlags, ALL_BITS, IS_NULL_BITS, IS_NOT_NULL_BITS, IS_MISSING_BITS, IS_NOT_MISSING_BITS, EQ_BITS, NEQ_BITS, LT_BITS, LTE_BITS, GT_BITS, GTE_BITS, BETWEEN_BITS, LIKE_BITS, NOT_LIKE_BITS, IN_BITS, NOT_IN_BITS, AND_BITS, OR_BITS, NOT_BITS, absent_bits, nullable_bits, optional_bits, equality_bits, comparison_bits, numeric_bits, like_bits, in_bits, logical_bits};
use crate::strategy::{StrategyError, PathGenSpecBuilder, RandomProjectListBuilder, RandomExcludeListBuilder, RandomRowPredicateBuilder, SelectFromWhereBuilder, SelectFromWhere, Projections, Exclusions, TableFilter, RandomProjectList, RandomExcludeList, RandomRowPredicate};

verus! {

/// `b` if the switch is on, else nothing.
pub open spec fn when(on: bool, b: u32) -> u32 {
    if on { b } else { 0 }
}

fn when_exec(on: bool, b: u32) -> (r: u32)
    ensures
        r == when(on, b),
{
    if on { b } else { 0 }
}

/// The step kinds selected by the five switches of a path specification.
pub open spec fn step_bits(all: bool, project: bool, index: bool, foreach: bool, unpivot: bool) -> u32 {
    when(all, 15) | when(project, 1) | when(index, 2) | when(foreach, 4) | when(unpivot, 8)
}

/// The final types selected by the four switches of a path specification.
pub open spec fn type_bits(all: bool, scalar: bool, sequence: bool, struct_: bool) -> u32 {
    when(all, 7) | when(scalar, 1) | when(sequence, 2) | when(struct_, 4)
}

fn step_flags(all: bool, project: bool, index: bool, foreach: bool, unpivot: bool) -> (r: PathStepFlags)
    ensures
        r.bits == step_bits(all, project, index, foreach, unpivot),
{
    let flags = PathStepFlags { bits: when_exec(all, 15) };
    let flags = flags.union(&PathStepFlags { bits: when_exec(project, 1) });
    let flags = flags.union(&PathStepFlags { bits: when_exec(index, 2) });
    let flags = flags.union(&PathStepFlags { bits: when_exec(foreach, 4) });
    flags.union(&PathStepFlags { bits: when_exec(unpivot, 8) })
}

fn type_flags(all: bool, scalar: bool, sequence: bool, struct_: bool) -> (r: PathTypeFlags)
    ensures
        r.bits == type_bits(all, scalar, sequence, struct_),
{
    let flags = PathTypeFlags { bits: when_exec(all, 7) };
    let flags = flags.union(&PathTypeFlags { bits: when_exec(scalar, 1) });
    let flags = flags.union(&PathTypeFlags { bits: when_exec(sequence, 2) });
    flags.union(&PathTypeFlags { bits: when_exec(struct_, 4) })
}

/// A depth limit: the given number, inclusive, or no limit.
pub open spec fn depth_bound(n: Option<u8>) -> Bound {
    match n {
        Some(d) => Bound::Included(d as usize),
        None => Bound::Unbounded,
    }
}

fn depth_bound_exec(n: Option<u8>) -> (b: Bound)
    ensures
        b == depth_bound(n),
{
    match n {
        Some(d) => Bound::Included(d as usize),
        None => Bound::Unbounded,
    }
}

/// The path specification selected by the switches of a path argument group.
pub open spec fn path_spec_of(depth_min: Option<u8>, depth_max: Option<u8>, internal: u32, final_steps: u32, types: u32) -> PathGenSpec {
    PathGenSpec {
        allowed_internal_steps: PathStepFlags { bits: internal },
        allowed_final_types: PathTypeFlags { bits: types },
        allowed_final_steps: PathStepFlags { bits: final_steps },
        min_depth: depth_bound(depth_min),
        max_depth: depth_bound(depth_max),
    }
}

fn build_path_spec(depth_min: Option<u8>, depth_max: Option<u8>, internal: PathStepFlags, final_steps: PathStepFlags, types: PathTypeFlags) -> (r: Result<PathGenSpec, StrategyError>)
    ensures
        r == Ok::<PathGenSpec, StrategyError>(path_spec_of(depth_min, depth_max, internal.bits, final_steps.bits, types.bits)),
{
    let mut b = PathGenSpecBuilder::default();
    b.min_depth = Some(depth_bound_exec(depth_min));
    b.max_depth = Some(depth_bound_exec(depth_max));
    b.allowed_internal_steps = Some(internal);
    b.allowed_final_steps = Some(final_steps);
    b.allowed_final_types = Some(types);
    b.build()
}

/// The range `min..=max` of a count argument, when `0 < min <= max`; the
/// error names the flags by their prefix.
pub open spec fn count_range_ok(min: u8, max: u8) -> bool {
    0 < min && min <= max
}

/// The message for a count whose minimum is zero.
pub open spec fn min_zero_message(prefix: Seq<char>) -> Seq<char> {
    "--"@ + prefix + "-rand-min must be greater than 0"@
}

/// The message for a count whose maximum is below its minimum.
pub open spec fn max_below_min_message(prefix: Seq<char>) -> Seq<char> {
    "--"@ + prefix + "-rand-max must be greater than or equal to --"@ + prefix + "-rand-min"@
}

fn min_zero_text(prefix: &str) -> (s: String)
    ensures
        s@ == min_zero_message(prefix@),
{
    let mut s = String::from_str("--");
    s.append(prefix);
    s.append("-rand-min must be greater than 0");
    proof { assert(s@ =~= min_zero_message(prefix@)); }
    s
}

fn max_below_min_text(prefix: &str) -> (s: String)
    ensures
        s@ == max_below_min_message(prefix@),
{
    let mut s = String::from_str("--");
    s.append(prefix);
    s.append("-rand-max must be greater than or equal to --");
    s.append(prefix);
    s.append("-rand-min");
    proof { assert(s@ =~= max_below_min_message(prefix@)); }
    s
}

/// Projection list generation.
#[derive(Debug)]
pub struct ProjectListArg {
    pub project_count: ProjectListCountArg,
    pub path_spec: ProjectListPathSpecArg,
}

/// Count of projections to generate.
#[derive(PartialEq, Eq, Structural, Clone, Copy, Debug)]
pub struct ProjectListCountArg {
    /// Minimum number of projections; 1-255.
    pub project_rand_min: u8,
    /// Maximum number of projections; 1-255.
    pub project_rand_max: u8,
}

impl ProjectListCountArg {
    /// The range of projection counts; the minimum must be positive and not
    /// above the maximum.
    pub fn range(&self) -> (r: Result<(u8, u8), StrategyError>)
        ensures
            r is Ok <==> count_range_ok(self.project_rand_min, self.project_rand_max),
            r matches Ok(p) ==> p == (self.project_rand_min, self.project_rand_max),
            r matches Err(e) ==> e matches StrategyError::ProjectPaths(m) && m@ == (
                if self.project_rand_min == 0 { min_zero_message("project"@) }
                else { max_below_min_message("project"@) }),
    {
        let min = self.project_rand_min;
        let max = self.project_rand_max;
        if min == 0 {
            return Err(StrategyError::ProjectPaths(min_zero_text("project")));
        }
        if min > max {
            return Err(StrategyError::ProjectPaths(max_below_min_text("project")));
        }
        Ok((min, max))
    }
}

/// The paths projections may take; at least one of the switches is given.
#[derive(PartialEq, Eq, Structural, Clone, Copy, Debug)]
pub struct ProjectListPathSpecArg {
    pub project_path_depth_min: Option<u8>,
    pub project_path_depth_max: Option<u8>,
    pub project_pathstep_internal_all: bool,
    pub project_pathstep_internal_project: bool,
    pub project_pathstep_internal_index: bool,
    pub project_pathstep_internal_foreach: bool,
    pub project_pathstep_internal_unpivot: bool,
    pub project_pathstep_final_all: bool,
    pub project_pathstep_final_project: bool,
    pub project_pathstep_final_index: bool,
    pub project_pathstep_final_foreach: bool,
    pub project_pathstep_final_unpivot: bool,
    pub project_type_final_all: bool,
    pub project_type_final_scalar: bool,
    pub project_type_final_sequence: bool,
    pub project_type_final_struct: bool,
}

impl ProjectListPathSpecArg {
    pub open spec fn spec_value(self) -> PathGenSpec {
        path_spec_of(
            self.project_path_depth_min,
            self.project_path_depth_max,
            step_bits(self.project_pathstep_internal_all, self.project_pathstep_internal_project,
                self.project_pathstep_internal_index, self.project_pathstep_internal_foreach,
                self.project_pathstep_internal_unpivot),
            step_bits(self.project_pathstep_final_all, self.project_pathstep_final_project,
                self.project_pathstep_final_index, self.project_pathstep_final_foreach,
                self.project_pathstep_final_unpivot),
            type_bits(self.project_type_final_all, self.project_type_final_scalar,
                self.project_type_final_sequence, self.project_type_final_struct),
        )
    }

    /// The path specification the switches select; unset depths are
    /// unbounded.
    pub fn spec(&self) -> (r: Result<PathGenSpec, StrategyError>)
        ensures
            r == Ok::<PathGenSpec, StrategyError>(self.spec_value()),
    {
        build_path_spec(
            self.project_path_depth_min,
            self.project_path_depth_max,
            self.allowed_internal_steps(),
            self.allowed_final_steps(),
            self.allowed_final_types(),
        )
    }

    fn allowed_internal_steps(&self) -> (r: PathStepFlags)
        ensures
            r.bits == step_bits(self.project_pathstep_internal_all, self.project_pathstep_internal_project,
                self.project_pathstep_internal_index, self.project_pathstep_internal_foreach,
                self.project_pathstep_internal_unpivot),
    {
        step_flags(self.project_pathstep_internal_all, self.project_pathstep_internal_project,
            self.project_pathstep_internal_index, self.project_pathstep_internal_foreach,
            self.project_pathstep_internal_unpivot)
    }

    fn allowed_final_steps(&self) -> (r: PathStepFlags)
        ensures
            r.bits == step_bits(self.project_pathstep_final_all, self.project_pathstep_final_project,
                self.project_pathstep_final_index, self.project_pathstep_final_foreach,
                self.project_pathstep_final_unpivot),
    {
        step_flags(self.project_pathstep_final_all, self.project_pathstep_final_project,
            self.project_pathstep_final_index, self.project_pathstep_final_foreach,
            self.project_pathstep_final_unpivot)
    }

    fn allowed_final_types(&self) -> (r: PathTypeFlags)
        ensures
            r.bits == type_bits(self.project_type_final_all, self.project_type_final_scalar,
                self.project_type_final_sequence, self.project_type_final_struct),
    {
        type_flags(self.project_type_final_all, self.project_type_final_scalar,
            self.project_type_final_sequence, self.project_type_final_struct)
    }
}

impl ProjectListArg {
    pub open spec fn count_ok(self) -> bool {
        count_range_ok(self.project_count.project_rand_min, self.project_count.project_rand_max)
    }

    pub open spec fn spec_strategy(self) -> Projections {
        Projections::RandomList(RandomProjectList {
            min_items: self.project_count.project_rand_min,
            max_items: self.project_count.project_rand_max,
            path_spec: self.path_spec.spec_value(),
        })
    }

    /// The error for a bad count.
    pub open spec fn is_count_error(self, e: StrategyError) -> bool {
        e matches StrategyError::ProjectPaths(m) && m@ == (
            if self.project_count.project_rand_min == 0 { min_zero_message("project"@) }
            else { max_below_min_message("project"@) })
    }

    /// A random projection list between the counts, over the selected paths.
    pub fn into_strategy(self) -> (r: Result<Projections, StrategyError>)
        ensures
            r is Ok <==> count_range_ok(self.project_count.project_rand_min, self.project_count.project_rand_max),
            r matches Ok(p) ==> p == Projections::RandomList(RandomProjectList {
                min_items: self.project_count.project_rand_min,
                max_items: self.project_count.project_rand_max,
                path_spec: self.path_spec.spec_value(),
            }),
            r matches Err(e) ==> e matches StrategyError::ProjectPaths(m) && m@ == (
                if self.project_count.project_rand_min == 0 { min_zero_message("project"@) }
                else { max_below_min_message("project"@) }),
    {
        let (min, max) = match self.project_count.range() {
            Ok(p) => p,
            Err(e) => return Err(e),
        };
        let spec = match self.path_spec.spec() {
            Ok(s) => s,
            Err(e) => return Err(e),
        };
        let mut b = RandomProjectListBuilder::default();
        b.min_items = Some(min);
        b.max_items = Some(max);
        b.path_spec = Some(spec);
        match b.build() {
            Ok(p) => Ok(Projections::RandomList(p)),
            Err(e) => Err(e),
        }
    }
}

/// Table filter generation (`WHERE`).
#[derive(Debug)]
pub struct TableFilterArg {
    pub filter_count: TableFilterCountArg,
    pub pred_flags: PredicateFlagArgs,
    pub path_spec: TableFilterPathSpecArg,
}

/// Count of table filter predicates to generate.
#[derive(PartialEq, Eq, Structural, Clone, Copy, Debug)]
pub struct TableFilterCountArg {
    /// Minimum number of predicates in the filter; 1-255.
    pub tbl_flt_rand_min: u8,
    /// Maximum number of predicates in the filter; 1-255.
    pub tbl_flt_rand_max: u8,
}

impl TableFilterCountArg {
    /// The range of predicate counts; the minimum must be positive and not
    /// above the maximum.
    pub fn range(&self) -> (r: Result<(u8, u8), StrategyError>)
        ensures
            r is Ok <==> count_range_ok(self.tbl_flt_rand_min, self.tbl_flt_rand_max),
            r matches Ok(p) ==> p == (self.tbl_flt_rand_min, self.tbl_flt_rand_max),
            r matches Err(e) ==> e matches StrategyError::ProjectPaths(m) && m@ == (
                if self.tbl_flt_rand_min == 0 { min_zero_message("tbl-flt"@) }
                else { max_below_min_message("tbl-flt"@) }),
    {
        let min = self.tbl_flt_rand_min;
        let max = self.tbl_flt_rand_max;
        if min == 0 {
            return Err(StrategyError::ProjectPaths(min_zero_text("tbl-flt")));
        }
        if min > max {
            return Err(StrategyError::ProjectPaths(max_below_min_text("tbl-flt")));
        }
        Ok((min, max))
    }
}

/// The paths filter predicates may test; at least one of the switches is given.
#[derive(PartialEq, Eq, Structural, Clone, Copy, Debug)]
pub struct TableFilterPathSpecArg {
    pub tbl_flt_path_depth_min: Option<u8>,
    pub tbl_flt_path_depth_max: Option<u8>,
    pub tbl_flt_pathstep_internal_all: bool,
    pub tbl_flt_pathstep_internal_project: bool,
    pub tbl_flt_pathstep_internal_index: bool,
    pub tbl_flt_pathstep_internal_foreach: bool,
    pub tbl_flt_pathstep_internal_unpivot: bool,
    pub tbl_flt_pathstep_final_all: bool,
    pub tbl_flt_pathstep_final_project: bool,
    pub tbl_flt_pathstep_final_index: bool,
    pub tbl_flt_pathstep_final_foreach: bool,
    pub tbl_flt_pathstep_final_unpivot: bool,
    pub tbl_flt_type_final_all: bool,
    pub tbl_flt_type_final_scalar: bool,
    pub tbl_flt_type_final_sequence: bool,
    pub tbl_flt_type_final_struct: bool,
}

impl TableFilterPathSpecArg {
    pub open spec fn spec_value(self) -> PathGenSpec {
        path_spec_of(
            self.tbl_flt_path_depth_min,
            self.tbl_flt_path_depth_max,
            step_bits(self.tbl_flt_pathstep_internal_all, self.tbl_flt_pathstep_internal_project,
                self.tbl_flt_pathstep_internal_index, self.tbl_flt_pathstep_internal_foreach,
                self.tbl_flt_pathstep_internal_unpivot),
            step_bits(self.tbl_flt_pathstep_final_all, self.tbl_flt_pathstep_final_project,
                self.tbl_flt_pathstep_final_index, self.tbl_flt_pathstep_final_foreach,
                self.tbl_flt_pathstep_final_unpivot),
            type_bits(self.tbl_flt_type_final_all, self.tbl_flt_type_final_scalar,
                self.tbl_flt_type_final_sequence, self.tbl_flt_type_final_struct),
        )
    }

    /// The path specification the switches select; unset depths are
    /// unbounded.
    pub fn spec(&self) -> (r: Result<PathGenSpec, StrategyError>)
        ensures
            r == Ok::<PathGenSpec, StrategyError>(self.spec_value()),
    {
        build_path_spec(
            self.tbl_flt_path_depth_min,
            self.tbl_flt_path_depth_max,
            self.allowed_internal_steps(),
            self.allowed_final_steps(),
            self.allowed_final_types(),
        )
    }

    fn allowed_internal_steps(&self) -> (r: PathStepFlags)
        ensures
            r.bits == step_bits(self.tbl_flt_pathstep_internal_all, self.tbl_flt_pathstep_internal_project,
                self.tbl_flt_pathstep_internal_index, self.tbl_flt_pathstep_internal_foreach,
                self.tbl_flt_pathstep_internal_unpivot),
    {
        step_flags(self.tbl_flt_pathstep_internal_all, self.tbl_flt_pathstep_internal_project,
            self.tbl_flt_pathstep_internal_index, self.tbl_flt_pathstep_internal_foreach,
            self.tbl_flt_pathstep_internal_unpivot)
    }

    fn allowed_final_steps(&self) -> (r: PathStepFlags)
        ensures
            r.bits == step_bits(self.tbl_flt_pathstep_final_all, self.tbl_flt_pathstep_final_project,
                self.tbl_flt_pathstep_final_index, self.tbl_flt_pathstep_final_foreach,
                self.tbl_flt_pathstep_final_unpivot),
    {
        step_flags(self.tbl_flt_pathstep_final_all, self.tbl_flt_pathstep_final_project,
            self.tbl_flt_pathstep_final_index, self.tbl_flt_pathstep_final_foreach,
            self.tbl_flt_pathstep_final_unpivot)
    }

    fn allowed_final_types(&self) -> (r: PathTypeFlags)
        ensures
            r.bits == type_bits(self.tbl_flt_type_final_all, self.tbl_flt_type_final_scalar,
                self.tbl_flt_type_final_sequence, self.tbl_flt_type_final_struct),
    {
        type_flags(self.tbl_flt_type_final_all, self.tbl_flt_type_final_scalar,
            self.tbl_flt_type_final_sequence, self.tbl_flt_type_final_struct)
    }
}


impl TableFilterArg {
    pub open spec fn count_ok(self) -> bool {
        count_range_ok(self.filter_count.tbl_flt_rand_min, self.filter_count.tbl_flt_rand_max)
    }

    pub open spec fn spec_strategy(self) -> TableFilter {
        TableFilter::RandomRowPredicate(RandomRowPredicate {
            allowed_predicates: PredicateFlags { bits: self.pred_flags.spec_bits() },
            min_items: self.filter_count.tbl_flt_rand_min,
            max_items: self.filter_count.tbl_flt_rand_max,
            path_spec: self.path_spec.spec_value(),
        })
    }

    /// The error for a bad count.
    pub open spec fn is_count_error(self, e: StrategyError) -> bool {
        e matches StrategyError::ProjectPaths(m) && m@ == (
            if self.filter_count.tbl_flt_rand_min == 0 { min_zero_message("tbl-flt"@) }
            else { max_below_min_message("tbl-flt"@) })
    }

    /// A random row predicate between the counts, over the selected paths,
    /// with the selected predicates.
    pub fn into_strategy(self) -> (r: Result<TableFilter, StrategyError>)
        ensures
            r is Ok <==> count_range_ok(self.filter_count.tbl_flt_rand_min, self.filter_count.tbl_flt_rand_max),
            r matches Ok(f) ==> f == TableFilter::RandomRowPredicate(RandomRowPredicate {
                allowed_predicates: PredicateFlags { bits: self.pred_flags.spec_bits() },
                min_items: self.filter_count.tbl_flt_rand_min,
                max_items: self.filter_count.tbl_flt_rand_max,
                path_spec: self.path_spec.spec_value(),
            }),
            r matches Err(e) ==> e matches StrategyError::ProjectPaths(m) && m@ == (
                if self.filter_count.tbl_flt_rand_min == 0 { min_zero_message("tbl-flt"@) }
                else { max_below_min_message("tbl-flt"@) }),
    {
        let (min, max) = match self.filter_count.range() {
            Ok(p) => p,
            Err(e) => return Err(e),
        };
        let pred_spec = self.pred_flags.flags();
        let path_spec = match self.path_spec.spec() {
            Ok(s) => s,
            Err(e) => return Err(e),
        };
        let mut b = RandomRowPredicateBuilder::default();
        b.min_items = Some(min);
        b.max_items = Some(max);
        b.path_spec = Some(path_spec);
        b.allowed_predicates = Some(pred_spec);
        match b.build() {
            Ok(p) => Ok(TableFilter::RandomRowPredicate(p)),
            Err(e) => Err(e),
        }
    }
}

/// Exclusion list generation (`EXCLUDE`).
#[derive(Debug)]
pub struct ExcludeListArg {
    pub exclude_count: ExcludeListCountArg,
    pub path_spec: ExcludeListPathSpecArg,
}

/// Count of exclusions to generate.
#[derive(PartialEq, Eq, Structural, Clone, Copy, Debug)]
pub struct ExcludeListCountArg {
    /// Minimum number of exclusions; 1-255.
    pub exclude_rand_min: u8,
    /// Maximum number of exclusions; 1-255.
    pub exclude_rand_max: u8,
}

impl ExcludeListCountArg {
    /// The range of exclusion counts; the minimum must be positive and not
    /// above the maximum.
    pub fn range(&self) -> (r: Result<(u8, u8), StrategyError>)
        ensures
            r is Ok <==> count_range_ok(self.exclude_rand_min, self.exclude_rand_max),
            r matches Ok(p) ==> p == (self.exclude_rand_min, self.exclude_rand_max),
            r matches Err(e) ==> e matches StrategyError::ExcludePaths(m) && m@ == (
                if self.exclude_rand_min == 0 { min_zero_message("exclude"@) }
                else { max_below_min_message("exclude"@) }),
    {
        let min = self.exclude_rand_min;
        let max = self.exclude_rand_max;
        if min == 0 {
            return Err(StrategyError::ExcludePaths(min_zero_text("exclude")));
        }
        if min > max {
            return Err(StrategyError::ExcludePaths(max_below_min_text("exclude")));
        }
        Ok((min, max))
    }
}

/// The paths exclusions may remove; at least one of the switches is given.
#[derive(PartialEq, Eq, Structural, Clone, Copy, Debug)]
pub struct ExcludeListPathSpecArg {
    pub exclude_path_depth_min: Option<u8>,
    pub exclude_path_depth_max: Option<u8>,
    pub exclude_pathstep_internal_all: bool,
    pub exclude_pathstep_internal_project: bool,
    pub exclude_pathstep_internal_index: bool,
    pub exclude_pathstep_internal_foreach: bool,
    pub exclude_pathstep_internal_unpivot: bool,
    pub exclude_pathstep_final_all: bool,
    pub exclude_pathstep_final_project: bool,
    pub exclude_pathstep_final_index: bool,
    pub exclude_pathstep_final_foreach: bool,
    pub exclude_pathstep_final_unpivot: bool,
    pub exclude_type_final_all: bool,
    pub exclude_type_final_scalar: bool,
    pub exclude_type_final_sequence: bool,
    pub exclude_type_final_struct: bool,
}

impl ExcludeListPathSpecArg {
    pub open spec fn spec_value(self) -> PathGenSpec {
        path_spec_of(
            self.exclude_path_depth_min,
            self.exclude_path_depth_max,
            step_bits(self.exclude_pathstep_internal_all, self.exclude_pathstep_internal_project,
                self.exclude_pathstep_internal_index, self.exclude_pathstep_internal_foreach,
                self.exclude_pathstep_internal_unpivot),
            step_bits(self.exclude_pathstep_final_all, self.exclude_pathstep_final_project,
                self.exclude_pathstep_final_index, self.exclude_pathstep_final_foreach,
                self.exclude_pathstep_final_unpivot),
            type_bits(self.exclude_type_final_all, self.exclude_type_final_scalar,
                self.exclude_type_final_sequence, self.exclude_type_final_struct),
        )
    }

    /// The path specification the switches select; unset depths are
    /// unbounded.
    pub fn spec(&self) -> (r: Result<PathGenSpec, StrategyError>)
        ensures
            r == Ok::<PathGenSpec, StrategyError>(self.spec_value()),
    {
        build_path_spec(
            self.exclude_path_depth_min,
            self.exclude_path_depth_max,
            self.allowed_internal_steps(),
            self.allowed_final_steps(),
            self.allowed_final_types(),
        )
    }

    fn allowed_internal_steps(&self) -> (r: PathStepFlags)
        ensures
            r.bits == step_bits(self.exclude_pathstep_internal_all, self.exclude_pathstep_internal_project,
                self.exclude_pathstep_internal_index, self.exclude_pathstep_internal_foreach,
                self.exclude_pathstep_internal_unpivot),
    {
        step_flags(self.exclude_pathstep_internal_all, self.exclude_pathstep_internal_project,
            self.exclude_pathstep_internal_index, self.exclude_pathstep_internal_foreach,
            self.exclude_pathstep_internal_unpivot)
    }

    fn allowed_final_steps(&self) -> (r: PathStepFlags)
        ensures
            r.bits == step_bits(self.exclude_pathstep_final_all, self.exclude_pathstep_final_project,
                self.exclude_pathstep_final_index, self.exclude_pathstep_final_foreach,
                self.exclude_pathstep_final_unpivot),
    {
        step_flags(self.exclude_pathstep_final_all, self.exclude_pathstep_final_project,
            self.exclude_pathstep_final_index, self.exclude_pathstep_final_foreach,
            self.exclude_pathstep_final_unpivot)
    }

    fn allowed_final_types(&self) -> (r: PathTypeFlags)
        ensures
            r.bits == type_bits(self.exclude_type_final_all, self.exclude_type_final_scalar,
                self.exclude_type_final_sequence, self.exclude_type_final_struct),
    {
        type_flags(self.exclude_type_final_all, self.exclude_type_final_scalar,
            self.exclude_type_final_sequence, self.exclude_type_final_struct)
    }
}


impl ExcludeListArg {
    pub open spec fn count_ok(self) -> bool {
        count_range_ok(self.exclude_count.exclude_rand_min, self.exclude_count.exclude_rand_max)
    }

    pub open spec fn spec_strategy(self) -> Exclusions {
        Exclusions::RandomList(RandomExcludeList {
            min_items: self.exclude_count.exclude_rand_min,
            max_items: self.exclude_count.exclude_rand_max,
            path_spec: self.path_spec.spec_value(),
        })
    }

    /// The error for a bad count.
    pub open spec fn is_count_error(self, e: StrategyError) -> bool {
        e matches StrategyError::ExcludePaths(m) && m@ == (
            if self.exclude_count.exclude_rand_min == 0 { min_zero_message("exclude"@) }
            else { max_below_min_message("exclude"@) })
    }

    /// A random exclusion list between the counts, over the selected paths.
    pub fn into_strategy(self) -> (r: Result<Exclusions, StrategyError>)
        ensures
            r is Ok <==> count_range_ok(self.exclude_count.exclude_rand_min, self.exclude_count.exclude_rand_max),
            r matches Ok(x) ==> x == Exclusions::RandomList(RandomExcludeList {
                min_items: self.exclude_count.exclude_rand_min,
                max_items: self.exclude_count.exclude_rand_max,
                path_spec: self.path_spec.spec_value(),
            }),
            r matches Err(e) ==> e matches StrategyError::ExcludePaths(m) && m@ == (
                if self.exclude_count.exclude_rand_min == 0 { min_zero_message("exclude"@) }
                else { max_below_min_message("exclude"@) }),
    {
        let (min, max) = match self.exclude_count.range() {
            Ok(p) => p,
            Err(e) => return Err(e),
        };
        let spec = match self.path_spec.spec() {
            Ok(s) => s,
            Err(e) => return Err(e),
        };
        let mut b = RandomExcludeListBuilder::default();
        b.min_items = Some(min);
        b.max_items = Some(max);
        b.path_spec = Some(spec);
        match b.build() {
            Ok(p) => Ok(Exclusions::RandomList(p)),
            Err(e) => Err(e),
        }
    }
}

/// The predicates a table filter may use; at least one switch is given.
#[derive(PartialEq, Eq, Structural, Clone, Copy, Debug)]
pub struct PredicateFlagArgs {
    /// Enable all predicates.
    pub pred_all: bool,
    /// Enable no predicates.
    pub pred_none: bool,
    /// Enable `IS NULL`, `IS NOT NULL`, `IS MISSING` and `IS NOT MISSING`.
    pub pred_absent: bool,
    /// Enable `IS NULL` and `IS NOT NULL`.
    pub pred_nullable: bool,
    /// Enable `IS NULL`.
    pub pred_is_null: bool,
    /// Enable `IS NOT NULL`.
    pub pred_is_not_null: bool,
    /// Enable `IS MISSING` and `IS NOT MISSING`.
    pub pred_optional: bool,
    /// Enable `IS MISSING`.
    pub pred_is_missing: bool,
    /// Enable `IS NOT MISSING`.
    pub pred_is_not_missing: bool,
    /// Enable `=` and `<>`.
    pub pred_equality: bool,
    /// Enable `=`.
    pub pred_eq: bool,
    /// Enable `<>`.
    pub pred_neq: bool,
    /// Enable `<`, `<=`, `>`, `>=` and `BETWEEN`.
    pub pred_comparison: bool,
    /// Enable `<`.
    pub pred_lt: bool,
    /// Enable `<=`.
    pub pred_lte: bool,
    /// Enable `>`.
    pub pred_gt: bool,
    /// Enable `>=`.
    pub pred_gte: bool,
    /// Enable `BETWEEN`.
    pub pred_between: bool,
    /// Enable `=`, `<>`, `<`, `<=`, `>`, `>=` and `BETWEEN`.
    pub pred_numeric: bool,
    /// Enable `LIKE` and `NOT LIKE`.
    pub pred_like_all: bool,
    /// Enable `LIKE`.
    pub pred_like: bool,
    /// Enable `NOT LIKE`.
    pub pred_not_like: bool,
    /// Enable `IN` and `NOT IN`.
    pub pred_in_all: bool,
    /// Enable `IN`.
    pub pred_in: bool,
    /// Enable `NOT IN`.
    pub pred_not_in: bool,
    /// Enable `AND`, `OR` and `NOT`.
    pub pred_logical_all: bool,
    /// Enable `AND`.
    pub pred_logical_and: bool,
    /// Enable `OR`.
    pub pred_logical_or: bool,
    /// Enable `NOT`.
    pub pred_logical_not: bool,
}

fn chosen(on: bool, f: PredicateFlags) -> (r: PredicateFlags)
    ensures
        r.bits == when(on, f.bits),
{
    if on { f } else { PredicateFlags::empty() }
}

impl PredicateFlagArgs {
    /// The predicates the switches enable: the union of each switch's set.
    pub open spec fn spec_bits(self) -> u32 {
        when(self.pred_all, ALL_BITS)
            | when(self.pred_absent, absent_bits())
            | when(self.pred_nullable, nullable_bits())
            | when(self.pred_is_null, IS_NULL_BITS)
            | when(self.pred_is_not_null, IS_NOT_NULL_BITS)
            | when(self.pred_optional, optional_bits())
            | when(self.pred_is_missing, IS_MISSING_BITS)
            | when(self.pred_is_not_missing, IS_NOT_MISSING_BITS)
            | when(self.pred_equality, equality_bits())
            | when(self.pred_eq, EQ_BITS)
            | when(self.pred_neq, NEQ_BITS)
            | when(self.pred_comparison, comparison_bits())
            | when(self.pred_lt, LT_BITS)
            | when(self.pred_lte, LTE_BITS)
            | when(self.pred_gt, GT_BITS)
            | when(self.pred_gte, GTE_BITS)
            | when(self.pred_between, BETWEEN_BITS)
            | when(self.pred_numeric, numeric_bits())
            | when(self.pred_like_all, like_bits())
            | when(self.pred_like, LIKE_BITS)
            | when(self.pred_not_like, NOT_LIKE_BITS)
            | when(self.pred_in_all, in_bits())
            | when(self.pred_in, IN_BITS)
            | when(self.pred_not_in, NOT_IN_BITS)
            | when(self.pred_logical_all, logical_bits())
            | when(self.pred_logical_and, AND_BITS)
            | when(self.pred_logical_or, OR_BITS)
            | when(self.pred_logical_not, NOT_BITS)
    }

    /// The set of predicates the switches enable.
    pub fn flags(&self) -> (r: PredicateFlags)
        ensures
            r.bits == self.spec_bits(),
    {
        let flags = chosen(self.pred_all, PredicateFlags::all());
        let flags = flags.union(&chosen(self.pred_absent, PredicateFlags::flags_absent()));
        let flags = flags.union(&chosen(self.pred_nullable, PredicateFlags::flags_nullable()));
        let flags = flags.union(&chosen(self.pred_is_null, PredicateFlags { bits: IS_NULL_BITS }));
        let flags = flags.union(&chosen(self.pred_is_not_null, PredicateFlags { bits: IS_NOT_NULL_BITS }));
        let flags = flags.union(&chosen(self.pred_optional, PredicateFlags::flags_optional()));
        let flags = flags.union(&chosen(self.pred_is_missing, PredicateFlags { bits: IS_MISSING_BITS }));
        let flags = flags.union(&chosen(self.pred_is_not_missing, PredicateFlags { bits: IS_NOT_MISSING_BITS }));
        let flags = flags.union(&chosen(self.pred_equality, PredicateFlags::flags_equality()));
        let flags = flags.union(&chosen(self.pred_eq, PredicateFlags { bits: EQ_BITS }));
        let flags = flags.union(&chosen(self.pred_neq, PredicateFlags { bits: NEQ_BITS }));
        let flags = flags.union(&chosen(self.pred_comparison, PredicateFlags::flags_comparison()));
        let flags = flags.union(&chosen(self.pred_lt, PredicateFlags { bits: LT_BITS }));
        let flags = flags.union(&chosen(self.pred_lte, PredicateFlags { bits: LTE_BITS }));
        let flags = flags.union(&chosen(self.pred_gt, PredicateFlags { bits: GT_BITS }));
        let flags = flags.union(&chosen(self.pred_gte, PredicateFlags { bits: GTE_BITS }));
        let flags = flags.union(&chosen(self.pred_between, PredicateFlags { bits: BETWEEN_BITS }));
        let flags = flags.union(&chosen(self.pred_numeric, PredicateFlags::flags_numeric()));
        let flags = flags.union(&chosen(self.pred_like_all, PredicateFlags::flags_like()));
        let flags = flags.union(&chosen(self.pred_like, PredicateFlags { bits: LIKE_BITS }));
        let flags = flags.union(&chosen(self.pred_not_like, PredicateFlags { bits: NOT_LIKE_BITS }));
        let flags = flags.union(&chosen(self.pred_in_all, PredicateFlags::flags_in()));
        let flags = flags.union(&chosen(self.pred_in, PredicateFlags { bits: IN_BITS }));
        let flags = flags.union(&chosen(self.pred_not_in, PredicateFlags { bits: NOT_IN_BITS }));
        let flags = flags.union(&chosen(self.pred_logical_all, PredicateFlags::flags_logical()));
        let flags = flags.union(&chosen(self.pred_logical_and, PredicateFlags { bits: AND_BITS }));
        let flags = flags.union(&chosen(self.pred_logical_or, PredicateFlags { bits: OR_BITS }));
        let flags = flags.union(&chosen(self.pred_logical_not, PredicateFlags { bits: NOT_BITS }));
        flags
    }
}

/// A `SELECT .. FROM .. WHERE ..` query with random projections and filter.
#[derive(Debug)]
pub struct QueryGenStratBasicRandomSFW {
    pub projections: ProjectListArg,
    pub table_filter: TableFilterArg,
}

/// A `SELECT .. EXCLUDE .. FROM .. WHERE ..` query with random projections,
/// exclusions and filter.
#[derive(Debug)]
pub struct QueryGenStratBasicRandomSEFW {
    pub projections: ProjectListArg,
    pub exclusions: ExcludeListArg,
    pub table_filter: TableFilterArg,
}

/// A `SELECT * FROM .. WHERE ..` query with a random filter.
#[derive(Debug)]
pub struct QueryGenStratBasicRandomSelectAllFW {
    pub table_filter: TableFilterArg,
}

/// A `SELECT * EXCLUDE .. FROM .. WHERE ..` query with random exclusions
/// and filter.
#[derive(Debug)]
pub struct QueryGenStratBasicRandomSelectAllEFW {
    pub exclusions: ExcludeListArg,
    pub table_filter: TableFilterArg,
}

/// Query generation strategy to use to generate queries.
#[derive(Debug)]
pub enum QueryGenStrategy {
    RandSFW(QueryGenStratBasicRandomSFW),
    RandSEFW(QueryGenStratBasicRandomSEFW),
    RandSelectAllFW(QueryGenStratBasicRandomSelectAllFW),
    RandSelectAllEFW(QueryGenStratBasicRandomSelectAllEFW),
}

impl QueryGenStratBasicRandomSFW {
    pub fn into_strategy(self) -> (r: Result<SelectFromWhere, StrategyError>)
        ensures
            r is Ok <==> self.projections.count_ok() && self.table_filter.count_ok(),
            r matches Ok(q) ==> q == (SelectFromWhere {
                projections: self.projections.spec_strategy(),
                exclusions: None,
                table_filter: Some(self.table_filter.spec_strategy()),
            }),
            r matches Err(e) ==> if !self.projections.count_ok() { self.projections.is_count_error(e) }
                else { self.table_filter.is_count_error(e) },
    {
        let projections = match self.projections.into_strategy() {
            Ok(p) => p,
            Err(e) => return Err(e),
        };
        let table_filter = match self.table_filter.into_strategy() {
            Ok(t) => t,
            Err(e) => return Err(e),
        };
        let mut b = SelectFromWhereBuilder::default();
        b.projections = Some(projections);
        b.table_filter = Some(table_filter);
        b.build()
    }
}

impl QueryGenStratBasicRandomSEFW {
    pub fn into_strategy(self) -> (r: Result<SelectFromWhere, StrategyError>)
        ensures
            r is Ok <==> self.projections.count_ok() && self.exclusions.count_ok() && self.table_filter.count_ok(),
            r matches Ok(q) ==> q == (SelectFromWhere {
                projections: self.projections.spec_strategy(),
                exclusions: Some(self.exclusions.spec_strategy()),
                table_filter: Some(self.table_filter.spec_strategy()),
            }),
            r matches Err(e) ==> if !self.projections.count_ok() { self.projections.is_count_error(e) }
                else if !self.exclusions.count_ok() { self.exclusions.is_count_error(e) }
                else { self.table_filter.is_count_error(e) },
    {
        let projections = match self.projections.into_strategy() {
            Ok(p) => p,
            Err(e) => return Err(e),
        };
        let exclusions = match self.exclusions.into_strategy() {
            Ok(x) => x,
            Err(e) => return Err(e),
        };
        let table_filter = match self.table_filter.into_strategy() {
            Ok(t) => t,
            Err(e) => return Err(e),
        };
        let mut b = SelectFromWhereBuilder::default();
        b.projections = Some(projections);
        b.exclusions = Some(exclusions);
        b.table_filter = Some(table_filter);
        b.build()
    }
}

impl QueryGenStratBasicRandomSelectAllFW {
    pub fn into_strategy(self) -> (r: Result<SelectFromWhere, StrategyError>)
        ensures
            r is Ok <==> self.table_filter.count_ok(),
            r matches Ok(q) ==> q.projections is Star && q.exclusions is None
                && q.table_filter == Some(self.table_filter.spec_strategy()),
            r matches Err(e) ==> self.table_filter.is_count_error(e),
    {
        let table_filter = match self.table_filter.into_strategy() {
            Ok(t) => t,
            Err(e) => return Err(e),
        };
        let mut b = SelectFromWhereBuilder::select_all();
        b.table_filter = Some(table_filter);
        b.build()
    }
}

impl QueryGenStratBasicRandomSelectAllEFW {
    pub fn into_strategy(self) -> (r: Result<SelectFromWhere, StrategyError>)
        ensures
            r is Ok <==> self.exclusions.count_ok() && self.table_filter.count_ok(),
            r matches Ok(q) ==> q.projections is Star
                && q.exclusions == Some(self.exclusions.spec_strategy())
                && q.table_filter == Some(self.table_filter.spec_strategy()),
            r matches Err(e) ==> if !self.exclusions.count_ok() { self.exclusions.is_count_error(e) }
                else { self.table_filter.is_count_error(e) },
    {
        let exclusions = match self.exclusions.into_strategy() {
            Ok(x) => x,
            Err(e) => return Err(e),
        };
        let table_filter = match self.table_filter.into_strategy() {
            Ok(t) => t,
            Err(e) => return Err(e),
        };
        let mut b = SelectFromWhereBuilder::select_all();
        b.exclusions = Some(exclusions);
        b.table_filter = Some(table_filter);
        b.build()
    }
}

impl QueryGenStrategy {
    /// The query strategy of the chosen variant.
    pub fn into_strategy(self) -> (r: Result<SelectFromWhere, StrategyError>)
        ensures
            match self {
                QueryGenStrategy::RandSFW(inner) => r is Ok <==> inner.projections.count_ok() && inner.table_filter.count_ok(),
                QueryGenStrategy::RandSEFW(inner) => r is Ok <==> inner.projections.count_ok()
                    && inner.exclusions.count_ok() && inner.table_filter.count_ok(),
                QueryGenStrategy::RandSelectAllFW(inner) => r is Ok <==> inner.table_filter.count_ok(),
                QueryGenStrategy::RandSelectAllEFW(inner) => r is Ok <==> inner.exclusions.count_ok() && inner.table_filter.count_ok(),
            },
            r matches Ok(q) ==> match self {
                QueryGenStrategy::RandSFW(inner) => q == (SelectFromWhere {
                    projections: inner.projections.spec_strategy(),
                    exclusions: None,
                    table_filter: Some(inner.table_filter.spec_strategy()),
                }),
                QueryGenStrategy::RandSEFW(inner) => q == (SelectFromWhere {
                    projections: inner.projections.spec_strategy(),
                    exclusions: Some(inner.exclusions.spec_strategy()),
                    table_filter: Some(inner.table_filter.spec_strategy()),
                }),
                QueryGenStrategy::RandSelectAllFW(inner) => q.projections is Star && q.exclusions is None
                    && q.table_filter == Some(inner.table_filter.spec_strategy()),
                QueryGenStrategy::RandSelectAllEFW(inner) => q.projections is Star
                    && q.exclusions == Some(inner.exclusions.spec_strategy())
                    && q.table_filter == Some(inner.table_filter.spec_strategy()),
            },
    {
        match self {
            QueryGenStrategy::RandSFW(inner) => inner.into_strategy(),
            QueryGenStrategy::RandSEFW(inner) => inner.into_strategy(),
            QueryGenStrategy::RandSelectAllFW(inner) => inner.into_strategy(),
            QueryGenStrategy::RandSelectAllEFW(inner) => inner.into_strategy(),
        }
    }
}

} // verus!
