//! Query-generation strategies: their configuration, validation and the
//! errors they report.
use vstd::prelude::*;
use crate::path::{Bound, PathGenSpec, PathStepFlags, PathTypeFlags};
use crate::predicate::{PredicateFlags, ALL_BITS};

verus! {

/// Errors while building a query-generation strategy.
#[derive(Debug)]
pub enum StrategyError {
    /// The input held a number of datasets other than the one expected.
    DataSetCardinality { expected: usize, actual: usize },
    /// A path specification could not be built.
    Path(String),
    /// The projection configuration is unusable.
    ProjectPaths(String),
    /// The exclusion configuration is unusable.
    ExcludePaths(String),
    /// The predicate configuration is unusable.
    PredicatePaths(String),
    /// A strategy builder was missing a field or failed validation.
    Builder(String),
    /// A distribution's parameters were refused (statrs's `StatsError`).
    Stats(String),
    Other(String),
}


/// A builder of `PathGenSpec`s; every field left unset takes its default:
/// all step kinds, all final types, unbounded depths.
#[derive(Debug)]
pub struct PathGenSpecBuilder {
    pub allowed_internal_steps: Option<PathStepFlags>,
    pub allowed_final_types: Option<PathTypeFlags>,
    pub allowed_final_steps: Option<PathStepFlags>,
    pub min_depth: Option<Bound>,
    pub max_depth: Option<Bound>,
}

/// The spec a builder yields.
pub open spec fn built_path_spec(b: PathGenSpecBuilder) -> PathGenSpec {
    PathGenSpec {
        allowed_internal_steps: match b.allowed_internal_steps {
            Some(f) => f,
            None => PathStepFlags { bits: 15 },
        },
        allowed_final_types: match b.allowed_final_types {
            Some(f) => f,
            None => PathTypeFlags { bits: 7 },
        },
        allowed_final_steps: match b.allowed_final_steps {
            Some(f) => f,
            None => PathStepFlags { bits: 15 },
        },
        min_depth: match b.min_depth {
            Some(d) => d,
            None => Bound::Unbounded,
        },
        max_depth: match b.max_depth {
            Some(d) => d,
            None => Bound::Unbounded,
        },
    }
}

fn copy_bound(b: &Bound) -> (r: Bound)
    ensures
        r == *b,
{
    match b {
        Bound::Included(n) => Bound::Included(*n),
        Bound::Excluded(n) => Bound::Excluded(*n),
        Bound::Unbounded => Bound::Unbounded,
    }
}

impl PathGenSpecBuilder {
    /// A builder with nothing set.
    pub fn default() -> (b: Self)
        ensures
            b.allowed_internal_steps is None,
            b.allowed_final_types is None,
            b.allowed_final_steps is None,
            b.min_depth is None,
            b.max_depth is None,
    {
        PathGenSpecBuilder {
            allowed_internal_steps: None,
            allowed_final_types: None,
            allowed_final_steps: None,
            min_depth: None,
            max_depth: None,
        }
    }

    /// The spec, with defaults for unset fields; it always succeeds.
    pub fn build(&self) -> (r: Result<PathGenSpec, StrategyError>)
        ensures
            r == Ok::<PathGenSpec, StrategyError>(built_path_spec(*self)),
    {
        let allowed_internal_steps = match &self.allowed_internal_steps {
            Some(f) => PathStepFlags { bits: f.bits },
            None => PathStepFlags::all(),
        };
        let allowed_final_types = match &self.allowed_final_types {
            Some(f) => PathTypeFlags { bits: f.bits },
            None => PathTypeFlags::all(),
        };
        let allowed_final_steps = match &self.allowed_final_steps {
            Some(f) => PathStepFlags { bits: f.bits },
            None => PathStepFlags::all(),
        };
        let min_depth = match &self.min_depth {
            Some(d) => copy_bound(d),
            None => Bound::Unbounded,
        };
        let max_depth = match &self.max_depth {
            Some(d) => copy_bound(d),
            None => Bound::Unbounded,
        };
        Ok(PathGenSpec { allowed_internal_steps, allowed_final_types, allowed_final_steps, min_depth, max_depth })
    }
}

/// Projections of a random number (between the bounds) of paths.
#[derive(Debug)]
pub struct RandomProjectList {
    pub min_items: u8,
    pub max_items: u8,
    pub path_spec: PathGenSpec,
}

/// Exclusions of a random number (between the bounds) of paths.
#[derive(Debug)]
pub struct RandomExcludeList {
    pub min_items: u8,
    pub max_items: u8,
    pub path_spec: PathGenSpec,
}

/// Projection of all columns (`SELECT *`).
#[derive(Debug)]
pub struct ProjectStar {}

/// A `WHERE` clause that is a random boolean literal.
#[derive(Debug)]
pub struct RandomRowFilter {}

/// A `WHERE` clause of a random number (between the bounds) of predicates
/// on paths.
#[derive(Debug)]
pub struct RandomRowPredicate {
    pub allowed_predicates: PredicateFlags,
    pub min_items: u8,
    pub max_items: u8,
    pub path_spec: PathGenSpec,
}

/// A builder of `RandomProjectList`s; the path spec defaults to one that
/// never unpivots inside a path.
pub struct RandomProjectListBuilder {
    pub min_items: Option<u8>,
    pub max_items: Option<u8>,
    pub path_spec: Option<PathGenSpec>,
}

/// A builder of `RandomExcludeList`s; the path spec defaults to paths of at
/// least two steps, and the minimum must be positive.
pub struct RandomExcludeListBuilder {
    pub min_items: Option<u8>,
    pub max_items: Option<u8>,
    pub path_spec: Option<PathGenSpec>,
}

/// A builder of `RandomRowPredicate`s; all predicates are allowed unless
/// set otherwise.
pub struct RandomRowPredicateBuilder {
    pub allowed_predicates: Option<PredicateFlags>,
    pub min_items: Option<u8>,
    pub max_items: Option<u8>,
    pub path_spec: Option<PathGenSpec>,
}

/// The message of a builder error for a field that was not set.
pub open spec fn uninitialized(field: Seq<char>) -> Seq<char> {
    "Uninitialized field `"@ + field + "`"@
}

fn uninitialized_error(field: &str) -> (e: StrategyError)
    ensures
        e matches StrategyError::Builder(m) && m@ == uninitialized(field@),
{
    let mut m = String::from_str("Uninitialized field `");
    m.append(field);
    m.append("`");
    StrategyError::Builder(m)
}

pub(crate) fn copy_spec(s: &PathGenSpec) -> (r: PathGenSpec)
    ensures
        r == *s,
{
    PathGenSpec {
        allowed_internal_steps: PathStepFlags { bits: s.allowed_internal_steps.bits },
        allowed_final_types: PathTypeFlags { bits: s.allowed_final_types.bits },
        allowed_final_steps: PathStepFlags { bits: s.allowed_final_steps.bits },
        min_depth: copy_bound(&s.min_depth),
        max_depth: copy_bound(&s.max_depth),
    }
}

impl RandomProjectListBuilder {
    pub fn default() -> (b: Self)
        ensures
            b.min_items is None,
            b.max_items is None,
            b.path_spec is None,
    {
        RandomProjectListBuilder { min_items: None, max_items: None, path_spec: None }
    }

    /// The default path spec of projections: every step kind but unpivot
    /// inside a path.
    pub fn default_paths() -> (r: Result<PathGenSpecBuilder, StrategyError>)
        ensures
            r matches Ok(b) && b.allowed_internal_steps == Some(PathStepFlags { bits: 15u32 & !8u32 })
                && b.allowed_final_types is None && b.allowed_final_steps is None
                && b.min_depth is None && b.max_depth is None,
    {
        let mut builder = PathGenSpecBuilder::default();
        builder.allowed_internal_steps = Some(PathStepFlags::all().difference(&PathStepFlags::path_unpivot()));
        Ok(builder)
    }

    /// The strategy; both bounds must be set.
    pub fn build(&self) -> (r: Result<RandomProjectList, StrategyError>)
        ensures
            r is Ok <==> (self.min_items is Some && self.max_items is Some),
            r matches Ok(p) ==> Some(p.min_items) == self.min_items && Some(p.max_items) == self.max_items
                && p.path_spec == (match self.path_spec {
                    Some(s) => s,
                    None => PathGenSpec {
                        allowed_internal_steps: PathStepFlags { bits: 15u32 & !8u32 },
                        allowed_final_types: PathTypeFlags { bits: 7 },
                        allowed_final_steps: PathStepFlags { bits: 15 },
                        min_depth: Bound::Unbounded,
                        max_depth: Bound::Unbounded,
                    },
                }),
            r matches Err(e) ==> e matches StrategyError::Builder(m) && m@ == uninitialized(
                if self.min_items is None { "min_items"@ } else { "max_items"@ }),
    {
        let min_items = match self.min_items {
            Some(m) => m,
            None => return Err(uninitialized_error("min_items")),
        };
        let max_items = match self.max_items {
            Some(m) => m,
            None => return Err(uninitialized_error("max_items")),
        };
        let path_spec = match &self.path_spec {
            Some(s) => copy_spec(s),
            None => match Self::default_paths() {
                Ok(b) => match b.build() {
                    Ok(s) => s,
                    Err(e) => return Err(e),
                },
                Err(e) => return Err(e),
            },
        };
        Ok(RandomProjectList { min_items, max_items, path_spec })
    }
}

impl RandomExcludeListBuilder {
    pub fn default() -> (b: Self)
        ensures
            b.min_items is None,
            b.max_items is None,
            b.path_spec is None,
    {
        RandomExcludeListBuilder { min_items: None, max_items: None, path_spec: None }
    }

    /// Rejects a minimum of zero.
    pub fn validate(&self) -> (r: Result<(), String>)
        ensures
            r is Err <==> self.min_items == Some(0u8),
            r matches Err(m) ==> m@ == "Exclude list minimum must be greater than 0"@,
    {
        if let Some(min) = self.min_items {
            if min < 1 {
                return Err(String::from_str("Exclude list minimum must be greater than 0"));
            }
        }
        Ok(())
    }

    /// The default path spec of exclusions: paths of at least two steps.
    pub fn default_paths() -> (r: Result<PathGenSpecBuilder, StrategyError>)
        ensures
            r matches Ok(b) && b.min_depth == Some(Bound::Included(2)) && b.max_depth == Some(Bound::Unbounded)
                && b.allowed_internal_steps is None && b.allowed_final_types is None
                && b.allowed_final_steps is None,
    {
        let mut builder = PathGenSpecBuilder::default();
        builder.min_depth = Some(Bound::Included(2));
        builder.max_depth = Some(Bound::Unbounded);
        Ok(builder)
    }

    /// The strategy: validation first, then both bounds must be set.
    pub fn build(&self) -> (r: Result<RandomExcludeList, StrategyError>)
        ensures
            r is Ok <==> (self.min_items is Some && self.max_items is Some && self.min_items != Some(0u8)),
            r matches Ok(p) ==> Some(p.min_items) == self.min_items && Some(p.max_items) == self.max_items
                && p.path_spec == (match self.path_spec {
                    Some(s) => s,
                    None => PathGenSpec {
                        allowed_internal_steps: PathStepFlags { bits: 15 },
                        allowed_final_types: PathTypeFlags { bits: 7 },
                        allowed_final_steps: PathStepFlags { bits: 15 },
                        min_depth: Bound::Included(2),
                        max_depth: Bound::Unbounded,
                    },
                }),
            r matches Err(e) ==> e matches StrategyError::Builder(m) && m@ == (
                if self.min_items == Some(0u8) { "Exclude list minimum must be greater than 0"@ }
                else if self.min_items is None { uninitialized("min_items"@) }
                else { uninitialized("max_items"@) }),
    {
        match self.validate() {
            Ok(()) => {},
            Err(m) => return Err(StrategyError::Builder(m)),
        }
        let min_items = match self.min_items {
            Some(m) => m,
            None => return Err(uninitialized_error("min_items")),
        };
        let max_items = match self.max_items {
            Some(m) => m,
            None => return Err(uninitialized_error("max_items")),
        };
        let path_spec = match &self.path_spec {
            Some(s) => copy_spec(s),
            None => match Self::default_paths() {
                Ok(b) => match b.build() {
                    Ok(s) => s,
                    Err(e) => return Err(e),
                },
                Err(e) => return Err(e),
            },
        };
        Ok(RandomExcludeList { min_items, max_items, path_spec })
    }
}

impl RandomRowPredicateBuilder {
    pub fn default() -> (b: Self)
        ensures
            b.allowed_predicates is None,
            b.min_items is None,
            b.max_items is None,
            b.path_spec is None,
    {
        RandomRowPredicateBuilder { allowed_predicates: None, min_items: None, max_items: None, path_spec: None }
    }

    /// The strategy; the bounds and the path spec must be set.
    pub fn build(&self) -> (r: Result<RandomRowPredicate, StrategyError>)
        ensures
            r is Ok <==> (self.min_items is Some && self.max_items is Some && self.path_spec is Some),
            r matches Ok(p) ==> Some(p.min_items) == self.min_items && Some(p.max_items) == self.max_items
                && Some(p.path_spec) == self.path_spec
                && p.allowed_predicates.bits == (match self.allowed_predicates {
                    Some(f) => f.bits,
                    None => ALL_BITS,
                }),
            r matches Err(e) ==> e matches StrategyError::Builder(m) && m@ == uninitialized(
                if self.min_items is None { "min_items"@ }
                else if self.max_items is None { "max_items"@ }
                else { "path_spec"@ }),
    {
        let allowed_predicates = match &self.allowed_predicates {
            Some(f) => PredicateFlags::from_bits_retain(f.bits),
            None => PredicateFlags::all(),
        };
        let min_items = match self.min_items {
            Some(m) => m,
            None => return Err(uninitialized_error("min_items")),
        };
        let max_items = match self.max_items {
            Some(m) => m,
            None => return Err(uninitialized_error("max_items")),
        };
        let path_spec = match &self.path_spec {
            Some(s) => copy_spec(s),
            None => return Err(uninitialized_error("path_spec")),
        };
        Ok(RandomRowPredicate { allowed_predicates, min_items, max_items, path_spec })
    }
}

/// The projection strategies of a query.
#[derive(Debug)]
pub enum Projections {
    Star(ProjectStar),
    RandomList(RandomProjectList),
}

/// The exclusion strategies of a query.
#[derive(Debug)]
pub enum Exclusions {
    RandomList(RandomExcludeList),
}

/// The filter strategies of a query.
#[derive(Debug)]
pub enum TableFilter {
    RandomRowFilter(RandomRowFilter),
    RandomRowPredicate(RandomRowPredicate),
}

/// A `SELECT .. [EXCLUDE ..] FROM .. [WHERE ..]` query strategy.
#[derive(Debug)]
pub struct SelectFromWhere {
    pub projections: Projections,
    pub exclusions: Option<Exclusions>,
    pub table_filter: Option<TableFilter>,
}

/// A builder of `SelectFromWhere` strategies; projections must be set.
pub struct SelectFromWhereBuilder {
    pub projections: Option<Projections>,
    pub exclusions: Option<Exclusions>,
    pub table_filter: Option<TableFilter>,
}

impl SelectFromWhereBuilder {
    pub fn default() -> (b: Self)
        ensures
            b.projections is None,
            b.exclusions is None,
            b.table_filter is None,
    {
        SelectFromWhereBuilder { projections: None, exclusions: None, table_filter: None }
    }

    /// A builder that projects all columns (`SELECT *`).
    pub fn select_all() -> (b: Self)
        ensures
            b.projections matches Some(Projections::Star(_)),
            b.exclusions is None,
            b.table_filter is None,
    {
        let mut bld = Self::default();
        bld.projections = Some(Projections::Star(ProjectStar {}));
        bld
    }

    /// The strategy; fails when no projections were set.
    pub fn build(self) -> (r: Result<SelectFromWhere, StrategyError>)
        ensures
            r is Ok <==> self.projections is Some,
            r matches Ok(q) ==> Some(q.projections) == self.projections && q.exclusions == self.exclusions
                && q.table_filter == self.table_filter,
            r matches Err(e) ==> e matches StrategyError::Builder(m) && m@ == uninitialized("projections"@),
    {
        match self.projections {
            Some(projections) => Ok(SelectFromWhere {
                projections,
                exclusions: self.exclusions,
                table_filter: self.table_filter,
            }),
            None => Err(uninitialized_error("projections")),
        }
    }
}

} // verus!
