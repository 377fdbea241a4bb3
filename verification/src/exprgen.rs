//! Expression generators built from parts: constants and the operators,
//! tests and `CASE` forms over the expressions of other generators.
use vstd::prelude::*;
use crate::ast::{ConstantLiteral, BinOpKind, UniOpKind, Expr, ExprV, constant_lit, expr_view, lemma_expr_pairs_view};

verus! {

/// A generator of an expression.
#[derive(Debug)]
pub enum ExprGenerator {
    Constant(ConstantLiteral),
    Expression(Box<Expression>),
    BinOp(Box<BinOp>),
    UniOp(Box<UniOp>),
    Like(Box<Like>),
    Between(Box<Between>),
    In(Box<In>),
    SimpleCase(Box<SimpleCase>),
    SearchedCase(Box<SearchedCase>),
}

/// The expression of another generator, as it gives it.
#[derive(Debug)]
pub struct Expression {
    pub expr: ExprGenerator,
}

/// `lhs kind rhs`.
#[derive(Debug)]
pub struct BinOp {
    pub kind: BinOpKind,
    pub lhs: ExprGenerator,
    pub rhs: ExprGenerator,
}

/// `kind expr`.
#[derive(Debug)]
pub struct UniOp {
    pub kind: UniOpKind,
    pub expr: ExprGenerator,
}

/// `value LIKE pattern [ESCAPE escape]`.
#[derive(Debug)]
pub struct Like {
    pub value: ExprGenerator,
    pub pattern: ExprGenerator,
    pub escape: Option<ExprGenerator>,
}

/// `value BETWEEN from AND to`.
#[derive(Debug)]
pub struct Between {
    pub value: ExprGenerator,
    pub from: ExprGenerator,
    pub to: ExprGenerator,
}

/// `lhs IN rhs`.
#[derive(Debug)]
pub struct In {
    pub lhs: ExprGenerator,
    pub rhs: ExprGenerator,
}

/// One `WHEN first THEN second` of a `CASE`.
#[derive(Debug)]
pub struct ExprPair {
    pub first: ExprGenerator,
    pub second: ExprGenerator,
}

/// `CASE expr WHEN .. THEN .. ... [ELSE default] END`.
#[derive(Debug)]
pub struct SimpleCase {
    pub expr: ExprGenerator,
    pub cases: Vec<ExprPair>,
    pub default: Option<ExprGenerator>,
}

/// `CASE WHEN .. THEN .. ... [ELSE default] END`.
#[derive(Debug)]
pub struct SearchedCase {
    pub cases: Vec<ExprPair>,
    pub default: Option<ExprGenerator>,
}

/// The expression a generator gives: each part in its place, as the part's
/// own generator gives it.
pub open spec fn generated(g: ExprGenerator) -> ExprV
    decreases g,
{
    match g {
        ExprGenerator::Constant(c) => ExprV::Lit(constant_lit(c)),
        ExprGenerator::Expression(x) => generated(x.expr),
        ExprGenerator::BinOp(b) => ExprV::BinOp(b.kind, Box::new(generated(b.lhs)), Box::new(generated(b.rhs))),
        ExprGenerator::UniOp(u) => ExprV::UniOp(u.kind, Box::new(generated(u.expr))),
        ExprGenerator::Like(l) => ExprV::Like(Box::new(generated(l.value)), Box::new(generated(l.pattern)),
            match l.escape {
                Some(x) => Some(Box::new(generated(x))),
                None => None,
            }),
        ExprGenerator::Between(b) => ExprV::Between(Box::new(generated(b.value)), Box::new(generated(b.from)),
            Box::new(generated(b.to))),
        ExprGenerator::In(i) => ExprV::In(Box::new(generated(i.lhs)), Box::new(generated(i.rhs))),
        ExprGenerator::SimpleCase(c) => ExprV::SimpleCase(Box::new(generated(c.expr)), generated_pairs(c.cases@),
            match c.default {
                Some(d) => Some(Box::new(generated(d))),
                None => None,
            }),
        ExprGenerator::SearchedCase(c) => ExprV::SearchedCase(generated_pairs(c.cases@),
            match c.default {
                Some(d) => Some(Box::new(generated(d))),
                None => None,
            }),
    }
}

/// The `WHEN .. THEN ..` pairs the generators of a `CASE` give, in order.
pub open spec fn generated_pairs(v: Seq<ExprPair>) -> Seq<(ExprV, ExprV)>
    decreases v,
{
    if v.len() == 0 {
        Seq::empty()
    } else {
        generated_pairs(v.drop_last()).push((generated(v.last().first), generated(v.last().second)))
    }
}

proof fn lemma_generated_pairs(v: Seq<ExprPair>)
    ensures
        generated_pairs(v).len() == v.len(),
        forall|i: int| 0 <= i < v.len() ==> #[trigger] generated_pairs(v)[i] == (generated(v[i].first),
            generated(v[i].second)),
    decreases v.len(),
{
    if v.len() > 0 {
        lemma_generated_pairs(v.drop_last());
        assert forall|i: int| 0 <= i < v.len() implies #[trigger] generated_pairs(v)[i] == (generated(v[i].first),
            generated(v[i].second)) by {
            if i < v.len() - 1 {
                assert(v.drop_last()[i] == v[i]);
            }
        }
    }
}

impl ExprGenerator {
    pub fn gen_ast(&self) -> (e: Expr)
        ensures
            e@ == generated(*self),
        decreases self,
    {
        match self {
            ExprGenerator::Constant(c) => c.gen_ast(),
            ExprGenerator::Expression(x) => x.gen_ast(),
            ExprGenerator::BinOp(b) => b.gen_ast(),
            ExprGenerator::UniOp(u) => u.gen_ast(),
            ExprGenerator::Like(l) => l.gen_ast(),
            ExprGenerator::Between(b) => b.gen_ast(),
            ExprGenerator::In(i) => i.gen_ast(),
            ExprGenerator::SimpleCase(c) => c.gen_ast(),
            ExprGenerator::SearchedCase(c) => c.gen_ast(),
        }
    }
}

impl Expression {
    pub fn gen_ast(&self) -> (e: Expr)
        ensures
            e@ == generated(self.expr),
        decreases self,
    {
        self.expr.gen_ast()
    }
}

impl BinOp {
    pub fn gen_ast(&self) -> (e: Expr)
        ensures
            e@ == ExprV::BinOp(self.kind, Box::new(generated(self.lhs)), Box::new(generated(self.rhs))),
        decreases self,
    {
        let lhs = self.lhs.gen_ast();
        let rhs = self.rhs.gen_ast();
        Expr::BinOp(self.kind, Box::new(lhs), Box::new(rhs))
    }
}

impl UniOp {
    pub fn gen_ast(&self) -> (e: Expr)
        ensures
            e@ == ExprV::UniOp(self.kind, Box::new(generated(self.expr))),
        decreases self,
    {
        let expr = self.expr.gen_ast();
        Expr::UniOp(self.kind, Box::new(expr))
    }
}

impl Like {
    pub fn gen_ast(&self) -> (e: Expr)
        ensures
            e@ == generated(ExprGenerator::Like(Box::new(*self))),
        decreases self,
    {
        let value = self.value.gen_ast();
        let pattern = self.pattern.gen_ast();
        let escape = match &self.escape {
            Some(x) => Some(Box::new(x.gen_ast())),
            None => None,
        };
        Expr::Like(Box::new(value), Box::new(pattern), escape)
    }
}

impl Between {
    pub fn gen_ast(&self) -> (e: Expr)
        ensures
            e@ == ExprV::Between(Box::new(generated(self.value)), Box::new(generated(self.from)),
                Box::new(generated(self.to))),
        decreases self,
    {
        let value = self.value.gen_ast();
        let from = self.from.gen_ast();
        let to = self.to.gen_ast();
        Expr::Between(Box::new(value), Box::new(from), Box::new(to))
    }
}

impl In {
    pub fn gen_ast(&self) -> (e: Expr)
        ensures
            e@ == ExprV::In(Box::new(generated(self.lhs)), Box::new(generated(self.rhs))),
        decreases self,
    {
        let lhs = self.lhs.gen_ast();
        let rhs = self.rhs.gen_ast();
        Expr::In(Box::new(lhs), Box::new(rhs))
    }
}

impl ExprPair {
    pub fn gen_ast(&self) -> (p: (Expr, Expr))
        ensures
            p.0@ == generated(self.first),
            p.1@ == generated(self.second),
        decreases self,
    {
        (self.first.gen_ast(), self.second.gen_ast())
    }
}

/// The pairs of each generator of the cases, in order.
fn gen_pairs(cases: &Vec<ExprPair>) -> (r: Vec<(Expr, Expr)>)
    ensures
        crate::ast::expr_pairs_view(r@) == generated_pairs(cases@),
    decreases cases,
{
    let mut out: Vec<(Expr, Expr)> = Vec::new();
    let mut i: usize = 0;
    while i < cases.len()
        invariant
            i <= cases@.len(),
            out@.len() == i,
            forall|j: int| 0 <= j < i ==> #[trigger] expr_view(out@[j].0) == generated(cases@[j].first)
                && expr_view(out@[j].1) == generated(cases@[j].second),
        decreases cases@.len() - i,
    {
        let p = cases[i].gen_ast();
        out.push(p);
        i += 1;
    }
    proof {
        lemma_expr_pairs_view(out@);
        lemma_generated_pairs(cases@);
        assert(crate::ast::expr_pairs_view(out@) =~= generated_pairs(cases@));
    }
    out
}

impl SimpleCase {
    pub fn gen_ast(&self) -> (e: Expr)
        ensures
            e@ == generated(ExprGenerator::SimpleCase(Box::new(*self))),
        decreases self,
    {
        let expr = self.expr.gen_ast();
        let cases = gen_pairs(&self.cases);
        let default = match &self.default {
            Some(d) => Some(Box::new(d.gen_ast())),
            None => None,
        };
        Expr::SimpleCase(Box::new(expr), cases, default)
    }
}

impl SearchedCase {
    pub fn gen_ast(&self) -> (e: Expr)
        ensures
            e@ == generated(ExprGenerator::SearchedCase(Box::new(*self))),
        decreases self,
    {
        let cases = gen_pairs(&self.cases);
        let default = match &self.default {
            Some(d) => Some(Box::new(d.gen_ast())),
            None => None,
        };
        Expr::SearchedCase(cases, default)
    }
}

} // verus!
