//! `SELECT .. [EXCLUDE ..] FROM .. [WHERE ..]` generation: the generators
//! of each clause, and how a query strategy builds them for a dataset.
use vstd::prelude::*;
use crate::ast::{Lit, LitV, Expr, ExprV, QueryPath, QueryPathV, Projection, ProjectionV, Query, query_paths_view};
use crate::exprgen::{Expression, generated};
use crate::generator::{PathRowFilter, path_expr, dataset_path, combo_of, within, predicates_ok, gen_ok, lemma_offered_applicable, seeded_rng, fork_rng, draw_int, draw_index, draw_coin};
use crate::path::{DatasetPaths, PathV, PathGenSpec, gen, paths_view, spec_paths_for_shape};
use crate::predicate::{PathPredicateGenSpec, PredicateFlags, path_predicates, path_predicates_view, spec_predicates_for, matching_bits};
use crate::shape::{NameAndShape, ShapeV, height};
use crate::strategy::{StrategyError, SelectFromWhere, Projections, Exclusions, TableFilter, ProjectStar, RandomProjectList, RandomExcludeList, RandomRowFilter, RandomRowPredicate};

verus! {

/// Whether each item is the path expression of one of the dataset's
/// paths, and there are from `min` to `max` of them.
pub open spec fn paths_pick(name: Seq<char>, paths: Seq<PathV>, min: nat, max: nat, items: Seq<QueryPathV>) -> bool {
    &&& min <= items.len() <= max
    &&& forall|i: int| 0 <= i < items.len() ==> #[trigger] picked(name, paths, items[i])
}

/// Whether the item is the path expression of one of the dataset's paths.
pub open spec fn picked(name: Seq<char>, paths: Seq<PathV>, item: QueryPathV) -> bool {
    exists|k: int| 0 <= k < paths.len() && #[trigger] path_expr(name, paths[k]) == ExprV::Path(item)
}

/// From `min_items` to `max_items` paths of the dataset, each chosen
/// uniformly.
fn random_paths(paths: &DatasetPaths, min_items: u8, max_items: u8, rng: &mut rand_pcg::Mcg128Xsl64)
    -> (r: Vec<QueryPath>)
    requires
        paths.paths@.len() > 0,
        min_items <= max_items,
    ensures
        paths_pick(paths.name@, paths_view(paths.paths@), min_items as nat, max_items as nat, query_paths_view(r@)),
{
    let num = draw_int(rng, min_items as i64, max_items as i64) as usize;
    let n = paths.paths.len();
    let mut items: Vec<QueryPath> = Vec::new();
    let mut k: usize = 0;
    while k < num
        invariant
            k <= num,
            min_items <= num <= max_items,
            n == paths.paths@.len(),
            n > 0,
            items@.len() == k,
            forall|i: int| 0 <= i < k ==> #[trigger] picked(paths.name@, paths_view(paths.paths@), items@[i]@),
        decreases num - k,
    {
        let idx = draw_index(rng, n);
        let item = dataset_path(paths.name.as_str(), &paths.paths[idx]);
        proof {
            assert(paths_view(paths.paths@)[idx as int] == paths.paths@[idx as int]@);
            assert(picked(paths.name@, paths_view(paths.paths@), item@));
        }
        items.push(item);
        k += 1;
    }
    proof {
        assert forall|i: int| 0 <= i < query_paths_view(items@).len()
            implies #[trigger] picked(paths.name@, paths_view(paths.paths@), query_paths_view(items@)[i]) by {
            assert(query_paths_view(items@)[i] == items@[i]@);
        }
    }
    items
}

/// A projection of a random number of random paths of a dataset.
pub struct SelectPaths {
    pub paths: DatasetPaths,
    pub min_items: u8,
    pub max_items: u8,
    pub rng: rand_pcg::Mcg128Xsl64,
}

impl SelectPaths {
    pub open spec fn wf(&self) -> bool {
        self.paths.paths@.len() > 0 && self.min_items <= self.max_items
    }

    /// From the least to the most paths, each chosen uniformly.
    pub fn gen_ast(&mut self) -> (r: Vec<QueryPath>)
        requires
            old(self).wf(),
        ensures
            final(self).paths == old(self).paths,
            final(self).min_items == old(self).min_items,
            final(self).max_items == old(self).max_items,
            paths_pick(old(self).paths.name@, paths_view(old(self).paths.paths@), old(self).min_items as nat,
                old(self).max_items as nat, query_paths_view(r@)),
    {
        random_paths(&self.paths, self.min_items, self.max_items, &mut self.rng)
    }
}

/// An exclusion of a random number of random paths of a dataset.
pub struct ExcludePaths {
    pub paths: DatasetPaths,
    pub min_items: u8,
    pub max_items: u8,
    pub rng: rand_pcg::Mcg128Xsl64,
}

impl ExcludePaths {
    pub open spec fn wf(&self) -> bool {
        self.paths.paths@.len() > 0 && self.min_items <= self.max_items
    }

    /// From the least to the most paths, each chosen uniformly.
    pub fn gen_ast(&mut self) -> (r: Vec<QueryPath>)
        requires
            old(self).wf(),
        ensures
            final(self).paths == old(self).paths,
            final(self).min_items == old(self).min_items,
            final(self).max_items == old(self).max_items,
            paths_pick(old(self).paths.name@, paths_view(old(self).paths.paths@), old(self).min_items as nat,
                old(self).max_items as nat, query_paths_view(r@)),
    {
        random_paths(&self.paths, self.min_items, self.max_items, &mut self.rng)
    }
}

/// A `WHERE` clause that is a random boolean literal, true or false alike.
pub struct RowFilter {
    pub rng: rand_pcg::Mcg128Xsl64,
}

impl RowFilter {
    pub fn gen_ast(&mut self) -> (e: Expr)
        ensures
            e@ matches ExprV::Lit(LitV::Bool(_)),
    {
        Expr::Lit(Lit::Bool(draw_coin(&mut self.rng)))
    }
}

/// What generates a query's projection.
pub enum ProjectionGen {
    Star,
    Paths(SelectPaths),
}

/// What generates a query's `WHERE` clause.
pub enum FilterGen {
    Literal(RowFilter),
    Paths(PathRowFilter),
    /// A given expression, as its generator gives it.
    Expr(Expression),
}

impl PathRowFilter {
    pub open spec fn wf(&self) -> bool {
        &&& self.paths.paths@.len() > 0
        &&& self.min_items <= self.max_items
        &&& predicates_ok(path_predicates_view(self.paths.paths@))
    }
}

/// Whether `e` is what the filter generator gives: a boolean literal, or
/// between its least and most tests of its paths.
pub open spec fn filter_pick(g: FilterGen, e: ExprV) -> bool {
    match g {
        FilterGen::Literal(_) => e matches ExprV::Lit(LitV::Bool(_)),
        FilterGen::Expr(x) => e == generated(x.expr),
        FilterGen::Paths(f) => exists|n: nat| #[trigger] within(n, f.min_items as nat, f.max_items as nat)
            && (n == 0 ==> e matches ExprV::Lit(LitV::Bool(_)))
            && (n >= 1 ==> combo_of(f.paths.name@, path_predicates_view(f.paths.paths@), e, n)),
    }
}

/// Whether two generators are the same but for their random states.
pub open spec fn same_rules(a: BasicSFW, b: BasicSFW) -> bool {
    &&& a.from@ == b.from@
    &&& match (a.project, b.project) {
        (ProjectionGen::Star, ProjectionGen::Star) => true,
        (ProjectionGen::Paths(p), ProjectionGen::Paths(q)) => p.paths == q.paths && p.min_items == q.min_items
            && p.max_items == q.max_items,
        _ => false,
    }
    &&& match (a.exclude, b.exclude) {
        (None, None) => true,
        (Some(p), Some(q)) => p.paths == q.paths && p.min_items == q.min_items && p.max_items == q.max_items,
        _ => false,
    }
    &&& match (a.where_clause, b.where_clause) {
        (None, None) => true,
        (Some(FilterGen::Literal(_)), Some(FilterGen::Literal(_))) => true,
        (Some(FilterGen::Paths(p)), Some(FilterGen::Paths(q))) => p.paths == q.paths && p.min_items == q.min_items
            && p.max_items == q.max_items,
        (Some(FilterGen::Expr(x)), Some(FilterGen::Expr(y))) => x == y,
        _ => false,
    }
}

/// Whether `q` is a query the generator gives: from its table, each clause
/// as that clause's generator gives it.
pub open spec fn query_pick(g: BasicSFW, q: Query) -> bool {
    &&& q.from@ == g.from@
    &&& match g.project {
        ProjectionGen::Star => q.project@ == ProjectionV::Star,
        ProjectionGen::Paths(p) => q.project@ matches ProjectionV::List(items) && paths_pick(p.paths.name@,
            paths_view(p.paths.paths@), p.min_items as nat, p.max_items as nat, items),
    }
    &&& match g.exclude {
        None => q.exclude is None,
        Some(x) => q.exclude matches Some(items) && paths_pick(x.paths.name@, paths_view(x.paths.paths@),
            x.min_items as nat, x.max_items as nat, query_paths_view(items@)),
    }
    &&& match g.where_clause {
        None => q.where_clause is None,
        Some(f) => q.where_clause matches Some(e) && filter_pick(f, e@),
    }
}

/// A generator gives queries by the same rules after each query: two
/// generators that differ only in their random states give the same
/// queries.
pub proof fn lemma_same_rules_same_queries(a: BasicSFW, b: BasicSFW, q: Query)
    requires
        same_rules(a, b),
    ensures
        query_pick(a, q) == query_pick(b, q),
{
}

/// Generates `SELECT .. [EXCLUDE ..] FROM table AS table [WHERE ..]`
/// queries over one dataset.
pub struct BasicSFW {
    pub project: ProjectionGen,
    pub exclude: Option<ExcludePaths>,
    pub from: String,
    pub where_clause: Option<FilterGen>,
}

impl BasicSFW {
    pub open spec fn wf(&self) -> bool {
        &&& (self.project matches ProjectionGen::Paths(p) ==> p.wf())
        &&& (self.exclude matches Some(x) ==> x.wf())
        &&& (self.where_clause matches Some(FilterGen::Paths(f)) ==> f.wf())
    }

    /// A query: each clause as its generator gives it, from the table.
    /// The generator stays as it was but for its random states.
    pub fn gen_ast(&mut self) -> (q: Query)
        requires
            old(self).wf(),
        ensures
            final(self).wf(),
            same_rules(*final(self), *old(self)),
            query_pick(*old(self), q),
    {
        let project = match &mut self.project {
            ProjectionGen::Star => Projection::Star,
            ProjectionGen::Paths(p) => Projection::List(p.gen_ast()),
        };
        let exclude = match &mut self.exclude {
            None => None,
            Some(x) => Some(x.gen_ast()),
        };
        let from = self.from.clone();
        let where_clause = match &mut self.where_clause {
            None => None,
            Some(FilterGen::Literal(f)) => Some(f.gen_ast()),
            Some(FilterGen::Paths(f)) => Some(f.gen_ast()),
            Some(FilterGen::Expr(x)) => Some(x.gen_ast()),
        };
        Query { project, exclude, from, where_clause }
    }
}


pub open spec fn stats_message() -> Seq<char> {
    "Bad distribution parameters"@
}

pub open spec fn no_project_paths() -> Seq<char> {
    "Configuration leaves no valid paths available for use in projections."@
}

pub open spec fn no_exclude_paths() -> Seq<char> {
    "Configuration leaves no valid paths available for use in exclusions."@
}

pub open spec fn no_predicate_paths() -> Seq<char> {
    "Configuration leaves no valid paths available for use in predicates."@
}

/// statrs's `DiscreteUniform::new(min, max)` refuses `max < min` with
/// `StatsError::BadParams`.
fn stats_error() -> (e: StrategyError)
    ensures
        e matches StrategyError::Stats(m) && m@ == stats_message(),
{
    StrategyError::Stats(String::from_str("Bad distribution parameters"))
}

/// Whether paths can be found in a shape under the specification.
pub open spec fn paths_ok(sp: PathGenSpec, s: ShapeV) -> bool {
    gen(sp, 0, Seq::empty(), s) is Some && height(s) < usize::MAX
}

/// Whether each path found in the shape admits the predicates' tests:
/// its shape is handled, and values of it can be made.
pub open spec fn predicate_paths_ok(sp: PathGenSpec, s: ShapeV) -> bool {
    &&& paths_ok(sp, s)
    &&& forall|i: int| 0 <= i < spec_paths_for_shape(sp, s).len() ==> {
        let p = #[trigger] spec_paths_for_shape(sp, s)[i];
        matching_bits(p.shape) is Some && gen_ok(p.shape)
    }
}

/// The error the paths of a list strategy give: the bounds' when they are
/// reversed, else the one for no paths found; none when all is well.
pub open spec fn list_error(min: u8, max: u8, found: nat, e: StrategyError, no_paths: Seq<char>) -> bool {
    if max < min {
        e matches StrategyError::Stats(m) && m@ == stats_message()
    } else {
        found == 0 && (e matches StrategyError::ProjectPaths(m) || e matches StrategyError::ExcludePaths(m)
            || e matches StrategyError::PredicatePaths(m)) && match e {
            StrategyError::ProjectPaths(m) => m@ == no_paths && no_paths == no_project_paths(),
            StrategyError::ExcludePaths(m) => m@ == no_paths && no_paths == no_exclude_paths(),
            StrategyError::PredicatePaths(m) => m@ == no_paths && no_paths == no_predicate_paths(),
            _ => false,
        }
    }
}

impl ProjectStar {
    /// `SELECT *`.
    pub fn build(&self, data: &NameAndShape, rng: rand_pcg::Mcg128Xsl64) -> (g: ProjectionGen)
        ensures
            g is Star,
    {
        ProjectionGen::Star
    }
}

impl RandomProjectList {
    /// Projections of the dataset's paths, or the error of reversed bounds
    /// or of no paths found.
    pub fn build(&self, data: &NameAndShape, rng: rand_pcg::Mcg128Xsl64) -> (r: Result<SelectPaths, StrategyError>)
        requires
            paths_ok(self.path_spec, data.shape@),
        ensures
            r is Ok <==> self.min_items <= self.max_items && spec_paths_for_shape(self.path_spec, data.shape@).len() > 0,
            r matches Ok(g) ==> g.wf() && g.paths.name@ == data.name@ && g.min_items == self.min_items
                && g.max_items == self.max_items
                && paths_view(g.paths.paths@) == spec_paths_for_shape(self.path_spec, data.shape@),
            r matches Err(e) ==> list_error(self.min_items, self.max_items,
                spec_paths_for_shape(self.path_spec, data.shape@).len(), e, no_project_paths()),
    {
        let rng = fork_rng(&rng);
        if self.max_items < self.min_items {
            return Err(stats_error());
        }
        let paths = match self.path_spec.paths_for_dataset(data) {
            Ok(p) => p,
            Err(e) => return Err(e),
        };
        if paths.paths.len() == 0 {
            Err(StrategyError::ProjectPaths(String::from_str(
                "Configuration leaves no valid paths available for use in projections.")))
        } else {
            Ok(SelectPaths { paths, min_items: self.min_items, max_items: self.max_items, rng })
        }
    }
}

impl RandomExcludeList {
    /// Exclusions of the dataset's paths, or the error of reversed bounds
    /// or of no paths found.
    pub fn build(&self, data: &NameAndShape, rng: rand_pcg::Mcg128Xsl64) -> (r: Result<ExcludePaths, StrategyError>)
        requires
            paths_ok(self.path_spec, data.shape@),
        ensures
            r is Ok <==> self.min_items <= self.max_items && spec_paths_for_shape(self.path_spec, data.shape@).len() > 0,
            r matches Ok(g) ==> g.wf() && g.paths.name@ == data.name@ && g.min_items == self.min_items
                && g.max_items == self.max_items
                && paths_view(g.paths.paths@) == spec_paths_for_shape(self.path_spec, data.shape@),
            r matches Err(e) ==> list_error(self.min_items, self.max_items,
                spec_paths_for_shape(self.path_spec, data.shape@).len(), e, no_exclude_paths()),
    {
        let rng = fork_rng(&rng);
        if self.max_items < self.min_items {
            return Err(stats_error());
        }
        let paths = match self.path_spec.paths_for_dataset(data) {
            Ok(p) => p,
            Err(e) => return Err(e),
        };
        if paths.paths.len() == 0 {
            Err(StrategyError::ExcludePaths(String::from_str(
                "Configuration leaves no valid paths available for use in exclusions.")))
        } else {
            Ok(ExcludePaths { paths, min_items: self.min_items, max_items: self.max_items, rng })
        }
    }
}

impl RandomRowFilter {
    /// A random boolean `WHERE` clause; it never fails and reads nothing of
    /// the dataset. Its only part is the random state it draws from, seeded
    /// from `rng` by the outside generator, of which nothing is stated.
    pub fn build(&self, data: &NameAndShape, rng: rand_pcg::Mcg128Xsl64) -> (g: RowFilter) {
        RowFilter { rng: fork_rng(&rng) }
    }
}

/// Each path with predicates is one of the paths, with its predicates,
/// and has some.
proof fn lemma_path_predicates_elems(ps: Seq<PathV>, allowed: u32)
    ensures
        forall|i: int| 0 <= i < path_predicates(ps, allowed).len() ==> exists|k: int| 0 <= k < ps.len()
            && #[trigger] path_predicates(ps, allowed)[i] == (ps[k], spec_predicates_for(ps[k].shape, allowed))
            && spec_predicates_for(ps[k].shape, allowed).len() > 0,
    decreases ps.len(),
{
    if ps.len() > 0 {
        lemma_path_predicates_elems(ps.drop_last(), allowed);
        let rest = path_predicates(ps.drop_last(), allowed);
        assert forall|i: int| 0 <= i < path_predicates(ps, allowed).len() implies exists|k: int| 0 <= k < ps.len()
            && #[trigger] path_predicates(ps, allowed)[i] == (ps[k], spec_predicates_for(ps[k].shape, allowed))
            && spec_predicates_for(ps[k].shape, allowed).len() > 0 by {
            if i < rest.len() {
                assert(path_predicates(ps, allowed)[i] == rest[i]);
                let k = choose|k: int| 0 <= k < ps.drop_last().len()
                    && #[trigger] rest[i] == (ps.drop_last()[k], spec_predicates_for(ps.drop_last()[k].shape, allowed))
                    && spec_predicates_for(ps.drop_last()[k].shape, allowed).len() > 0;
                assert(ps.drop_last()[k] == ps[k]);
            } else {
                let k = ps.len() - 1;
                assert(ps[k] == ps.last());
            }
        }
    }
}

impl RandomRowPredicate {
    /// A filter of tests of the dataset's paths that admit an allowed
    /// predicate, or the error of reversed bounds or of no such path.
    pub fn build(&self, data: &NameAndShape, rng: rand_pcg::Mcg128Xsl64) -> (r: Result<PathRowFilter, StrategyError>)
        requires
            predicate_paths_ok(self.path_spec, data.shape@),
        ensures
            r is Ok <==> self.min_items <= self.max_items && path_predicates(spec_paths_for_shape(self.path_spec,
                data.shape@), self.allowed_predicates.bits).len() > 0,
            r matches Ok(f) ==> f.wf() && f.paths.name@ == data.name@ && f.min_items == self.min_items
                && f.max_items == self.max_items
                && path_predicates_view(f.paths.paths@) == path_predicates(spec_paths_for_shape(self.path_spec,
                    data.shape@), self.allowed_predicates.bits),
            r matches Err(e) ==> list_error(self.min_items, self.max_items, path_predicates(spec_paths_for_shape(
                self.path_spec, data.shape@), self.allowed_predicates.bits).len(), e, no_predicate_paths()),
    {
        let rng = fork_rng(&rng);
        if self.max_items < self.min_items {
            return Err(stats_error());
        }
        let pred_spec = PathPredicateGenSpec {
            path_spec: crate::strategy::copy_spec(&self.path_spec),
            allowed_predicates: PredicateFlags { bits: self.allowed_predicates.bits },
        };
        let ghost ps = spec_paths_for_shape(self.path_spec, data.shape@);
        proof {
            assert forall|i: int| 0 <= i < ps.len() implies matching_bits(#[trigger] ps[i].shape) is Some by {
                assert(ps[i] == spec_paths_for_shape(self.path_spec, data.shape@)[i]);
            }
        }
        let paths = match pred_spec.predicate_paths_for_dataset(data) {
            Ok(p) => p,
            Err(e) => return Err(e),
        };
        proof {
            let allowed = self.allowed_predicates.bits;
            let pp = path_predicates(ps, allowed);
            lemma_path_predicates_elems(ps, allowed);
            assert forall|i: int| 0 <= i < pp.len() implies pp[i].1.len() > 0
                && forall|j: int| 0 <= j < pp[i].1.len() ==> #[trigger] crate::generator::applicable(pp[i].1[j], pp[i].0.shape) by {
                let k = choose|k: int| 0 <= k < ps.len()
                    && #[trigger] pp[i] == (ps[k], spec_predicates_for(ps[k].shape, allowed))
                    && spec_predicates_for(ps[k].shape, allowed).len() > 0;
                assert(ps[k] == spec_paths_for_shape(self.path_spec, data.shape@)[k]);
                lemma_offered_applicable(ps[k].shape, allowed);
            }
            assert(predicates_ok(pp));
        }
        Ok(PathRowFilter { paths, min_items: self.min_items, max_items: self.max_items, rng })
    }
}


/// Whether building the projections fails for a shape.
pub open spec fn project_fails(p: Projections, s: ShapeV) -> bool {
    match p {
        Projections::Star(_) => false,
        Projections::RandomList(l) => !(l.min_items <= l.max_items && spec_paths_for_shape(l.path_spec, s).len() > 0),
    }
}

pub open spec fn project_error(p: Projections, s: ShapeV, e: StrategyError) -> bool {
    match p {
        Projections::Star(_) => false,
        Projections::RandomList(l) => list_error(l.min_items, l.max_items, spec_paths_for_shape(l.path_spec, s).len(),
            e, no_project_paths()),
    }
}

/// Whether building the exclusions fails for a shape.
pub open spec fn exclude_fails(x: Option<Exclusions>, s: ShapeV) -> bool {
    match x {
        None => false,
        Some(Exclusions::RandomList(l)) => !(l.min_items <= l.max_items
            && spec_paths_for_shape(l.path_spec, s).len() > 0),
    }
}

pub open spec fn exclude_error(x: Option<Exclusions>, s: ShapeV, e: StrategyError) -> bool {
    match x {
        None => false,
        Some(Exclusions::RandomList(l)) => list_error(l.min_items, l.max_items,
            spec_paths_for_shape(l.path_spec, s).len(), e, no_exclude_paths()),
    }
}

/// Whether building the filter fails for a shape.
pub open spec fn filter_fails(f: Option<TableFilter>, s: ShapeV) -> bool {
    match f {
        Some(TableFilter::RandomRowPredicate(p)) => !(p.min_items <= p.max_items
            && path_predicates(spec_paths_for_shape(p.path_spec, s), p.allowed_predicates.bits).len() > 0),
        _ => false,
    }
}

pub open spec fn filter_error(f: Option<TableFilter>, s: ShapeV, e: StrategyError) -> bool {
    match f {
        Some(TableFilter::RandomRowPredicate(p)) => list_error(p.min_items, p.max_items,
            path_predicates(spec_paths_for_shape(p.path_spec, s), p.allowed_predicates.bits).len(), e,
            no_predicate_paths()),
        _ => false,
    }
}

/// Whether a projection generator is the one the strategy builds for the
/// dataset: its paths, and its bounds.
pub open spec fn project_built(p: Projections, name: Seq<char>, s: ShapeV, g: ProjectionGen) -> bool {
    match (p, g) {
        (Projections::Star(_), ProjectionGen::Star) => true,
        (Projections::RandomList(l), ProjectionGen::Paths(sp)) => sp.paths.name@ == name
            && paths_view(sp.paths.paths@) == spec_paths_for_shape(l.path_spec, s)
            && sp.min_items == l.min_items && sp.max_items == l.max_items,
        _ => false,
    }
}

/// Whether an exclusion generator is the one the strategy builds.
pub open spec fn exclude_built(x: Option<Exclusions>, name: Seq<char>, s: ShapeV, g: Option<ExcludePaths>) -> bool {
    match (x, g) {
        (None, None) => true,
        (Some(Exclusions::RandomList(l)), Some(ep)) => ep.paths.name@ == name
            && paths_view(ep.paths.paths@) == spec_paths_for_shape(l.path_spec, s)
            && ep.min_items == l.min_items && ep.max_items == l.max_items,
        _ => false,
    }
}

/// Whether a filter generator is the one the strategy builds.
pub open spec fn filter_built(f: Option<TableFilter>, name: Seq<char>, s: ShapeV, g: Option<FilterGen>) -> bool {
    match (f, g) {
        (None, None) => true,
        (Some(TableFilter::RandomRowFilter(_)), Some(FilterGen::Literal(_))) => true,
        (Some(TableFilter::RandomRowPredicate(p)), Some(FilterGen::Paths(rf))) => rf.paths.name@ == name
            && path_predicates_view(rf.paths.paths@) == path_predicates(spec_paths_for_shape(p.path_spec, s),
                p.allowed_predicates.bits)
            && rf.min_items == p.min_items && rf.max_items == p.max_items,
        _ => false,
    }
}

/// Whether the strategy's paths can be searched in the shape.
pub open spec fn buildable(q: SelectFromWhere, s: ShapeV) -> bool {
    &&& (q.projections matches Projections::RandomList(l) ==> paths_ok(l.path_spec, s))
    &&& (q.exclusions matches Some(Exclusions::RandomList(l)) ==> paths_ok(l.path_spec, s))
    &&& (q.table_filter matches Some(TableFilter::RandomRowPredicate(p)) ==> predicate_paths_ok(p.path_spec, s))
}

impl SelectFromWhere {
    /// The query generator of one dataset: its projections, exclusions and
    /// filter built each from a generator seeded from `rng`, from the
    /// dataset's table; or the first of their errors.
    pub fn build(&self, data: &NameAndShape, rng: rand_pcg::Mcg128Xsl64) -> (r: Result<BasicSFW, StrategyError>)
        requires
            buildable(*self, data.shape@),
        ensures
            r is Ok <==> !project_fails(self.projections, data.shape@) && !exclude_fails(self.exclusions, data.shape@)
                && !filter_fails(self.table_filter, data.shape@),
            r matches Err(e) ==> if project_fails(self.projections, data.shape@) {
                project_error(self.projections, data.shape@, e)
            } else if exclude_fails(self.exclusions, data.shape@) {
                exclude_error(self.exclusions, data.shape@, e)
            } else {
                filter_error(self.table_filter, data.shape@, e)
            },
            r matches Ok(g) ==> g.wf() && g.from@ == data.name@
                && (g.project is Star <==> self.projections is Star)
                && (g.exclude is Some <==> self.exclusions is Some)
                && (g.where_clause is None <==> self.table_filter is None)
                && (g.where_clause matches Some(FilterGen::Literal(_)) <==> self.table_filter matches Some(TableFilter::RandomRowFilter(_)))
                && project_built(self.projections, data.name@, data.shape@, g.project)
                && exclude_built(self.exclusions, data.name@, data.shape@, g.exclude)
                && filter_built(self.table_filter, data.name@, data.shape@, g.where_clause),
    {
        let project = match &self.projections {
            Projections::Star(p) => p.build(data, fork_rng(&rng)),
            Projections::RandomList(l) => match l.build(data, fork_rng(&rng)) {
                Ok(g) => ProjectionGen::Paths(g),
                Err(e) => return Err(e),
            },
        };
        let exclude = match &self.exclusions {
            None => None,
            Some(Exclusions::RandomList(l)) => match l.build(data, fork_rng(&rng)) {
                Ok(g) => Some(g),
                Err(e) => return Err(e),
            },
        };
        let from = data.name.clone();
        let where_clause = match &self.table_filter {
            None => None,
            Some(TableFilter::RandomRowFilter(f)) => Some(FilterGen::Literal(f.build(data, fork_rng(&rng)))),
            Some(TableFilter::RandomRowPredicate(p)) => match p.build(data, fork_rng(&rng)) {
                Ok(g) => Some(FilterGen::Paths(g)),
                Err(e) => return Err(e),
            },
        };
        Ok(BasicSFW { project, exclude, from, where_clause })
    }
}

/// The query generator of a strategy over datasets, which must be exactly
/// one: the cardinality error otherwise.
pub fn build_query(strategy: &SelectFromWhere, datasets: &Vec<NameAndShape>, rng: rand_pcg::Mcg128Xsl64)
    -> (r: Result<BasicSFW, StrategyError>)
    requires
        datasets@.len() == 1 ==> buildable(*strategy, datasets@[0].shape@),
    ensures
        datasets@.len() != 1 ==> (r matches Err(StrategyError::DataSetCardinality { expected, actual })
            && expected == 1 && actual == datasets@.len()),
        datasets@.len() == 1 ==> (r is Ok <==> !project_fails(strategy.projections, datasets@[0].shape@)
            && !exclude_fails(strategy.exclusions, datasets@[0].shape@)
            && !filter_fails(strategy.table_filter, datasets@[0].shape@)),
        r matches Ok(g) ==> g.wf() && g.from@ == datasets@[0].name@
            && project_built(strategy.projections, datasets@[0].name@, datasets@[0].shape@, g.project)
            && exclude_built(strategy.exclusions, datasets@[0].name@, datasets@[0].shape@, g.exclude)
            && filter_built(strategy.table_filter, datasets@[0].name@, datasets@[0].shape@, g.where_clause),
{
    if datasets.len() != 1 {
        Err(StrategyError::DataSetCardinality { expected: 1, actual: datasets.len() })
    } else {
        strategy.build(&datasets[0], rng)
    }
}

/// The query generator of a strategy over datasets, its generators seeded
/// from `seed`.
pub fn query_generator(seed: u64, strategy: &SelectFromWhere, datasets: &Vec<NameAndShape>)
    -> (r: Result<BasicSFW, StrategyError>)
    requires
        datasets@.len() == 1 ==> buildable(*strategy, datasets@[0].shape@),
    ensures
        datasets@.len() != 1 ==> (r matches Err(StrategyError::DataSetCardinality { expected, actual })
            && expected == 1 && actual == datasets@.len()),
        datasets@.len() == 1 ==> (r is Ok <==> !project_fails(strategy.projections, datasets@[0].shape@)
            && !exclude_fails(strategy.exclusions, datasets@[0].shape@)
            && !filter_fails(strategy.table_filter, datasets@[0].shape@)),
        r matches Ok(g) ==> g.wf() && g.from@ == datasets@[0].name@
            && project_built(strategy.projections, datasets@[0].name@, datasets@[0].shape@, g.project)
            && exclude_built(strategy.exclusions, datasets@[0].name@, datasets@[0].shape@, g.exclude)
            && filter_built(strategy.table_filter, datasets@[0].name@, datasets@[0].shape@, g.where_clause),
{
    build_query(strategy, datasets, seeded_rng(seed))
}


/// The `FROM` clause of a table: the table, aliased by its own name.
pub struct FromTable {
    pub name: String,
}

impl FromTable {
    /// The table scanned (and its alias).
    pub fn gen_ast(&self) -> (r: String)
        ensures
            r@ == self.name@,
    {
        self.name.clone()
    }
}

/// The projection of all columns.
pub struct SelectStar {}

impl SelectStar {
    /// `SELECT *`.
    pub fn gen_ast(&self) -> (p: Projection)
        ensures
            p@ == ProjectionV::Star,
    {
        Projection::Star
    }
}

} // verus!
