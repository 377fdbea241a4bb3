//! The query syntax that generation builds: literals, paths, expressions
//! and `SELECT .. [EXCLUDE ..] FROM .. [WHERE ..]` queries.
use vstd::prelude::*;
use crate::path::{PathGenStep, StepV, steps_view};
use crate::value::{Decimal, Value, ValueV};

verus! {

/// A literal. Floating-point literals are held as the bits of their IEEE
/// 754 form.
#[derive(Debug)]
pub enum Lit {
    Null,
    Missing,
    Int8(i8),
    Int16(i16),
    Int32(i32),
    Int64(i64),
    Decimal(Decimal),
    Numeric(Decimal),
    Real(u32),
    Float(u32),
    Double(u64),
    Bool(bool),
    IonString(String),
    CharString(String),
    NationalCharString(String),
    BitString(String),
    HexString(String),
}

pub enum LitV {
    Null,
    Missing,
    Int8(i8),
    Int16(i16),
    Int32(i32),
    Int64(i64),
    Decimal(Decimal),
    Numeric(Decimal),
    Real(u32),
    Float(u32),
    Double(u64),
    Bool(bool),
    IonString(Seq<char>),
    CharString(Seq<char>),
    NationalCharString(Seq<char>),
    BitString(Seq<char>),
    HexString(Seq<char>),
}

impl View for Lit {
    type V = LitV;

    open spec fn view(&self) -> LitV {
        match self {
            Lit::Null => LitV::Null,
            Lit::Missing => LitV::Missing,
            Lit::Int8(i) => LitV::Int8(*i),
            Lit::Int16(i) => LitV::Int16(*i),
            Lit::Int32(i) => LitV::Int32(*i),
            Lit::Int64(i) => LitV::Int64(*i),
            Lit::Decimal(d) => LitV::Decimal(*d),
            Lit::Numeric(d) => LitV::Numeric(*d),
            Lit::Real(f) => LitV::Real(*f),
            Lit::Float(f) => LitV::Float(*f),
            Lit::Double(d) => LitV::Double(*d),
            Lit::Bool(b) => LitV::Bool(*b),
            Lit::IonString(s) => LitV::IonString(s@),
            Lit::CharString(s) => LitV::CharString(s@),
            Lit::NationalCharString(s) => LitV::NationalCharString(s@),
            Lit::BitString(s) => LitV::BitString(s@),
            Lit::HexString(s) => LitV::HexString(s@),
        }
    }
}

/// A binary operator.
#[derive(Debug, PartialEq, Eq, Structural, Clone, Copy)]
pub enum BinOpKind {
    Add,
    Div,
    Exp,
    Mod,
    Mul,
    Sub,
    And,
    Or,
    Concat,
    Eq,
    Ne,
    Lt,
    Lte,
    Gt,
    Gte,
    Is,
}

/// A unary operator.
#[derive(Debug, PartialEq, Eq, Structural, Clone, Copy)]
pub enum UniOpKind {
    Pos,
    Neg,
    Not,
}

/// A path: a variable, named case-insensitively, and the steps from it.
#[derive(Debug)]
pub struct QueryPath {
    pub root: String,
    pub steps: Vec<PathGenStep>,
}

pub struct QueryPathV {
    pub root: Seq<char>,
    pub steps: Seq<StepV>,
}

impl View for QueryPath {
    type V = QueryPathV;

    open spec fn view(&self) -> QueryPathV {
        QueryPathV { root: self.root@, steps: steps_view(self.steps@) }
    }
}

pub open spec fn query_paths_view(v: Seq<QueryPath>) -> Seq<QueryPathV> {
    v.map_values(|p: QueryPath| p@)
}

/// An expression.
#[derive(Debug)]
pub enum Expr {
    Lit(Lit),
    Path(QueryPath),
    BinOp(BinOpKind, Box<Expr>, Box<Expr>),
    UniOp(UniOpKind, Box<Expr>),
    /// `value BETWEEN from AND to`.
    Between(Box<Expr>, Box<Expr>, Box<Expr>),
    /// `value LIKE pattern [ESCAPE escape]`.
    Like(Box<Expr>, Box<Expr>, Option<Box<Expr>>),
    /// `lhs IN rhs`.
    In(Box<Expr>, Box<Expr>),
    List(Vec<Expr>),
    /// A struct of (name, value) pairs.
    Struct(Vec<(Expr, Expr)>),
    /// A call of a function, named case-insensitively.
    Call(String, Vec<Expr>),
    /// `CASE expr WHEN a THEN b ... [ELSE default] END`.
    SimpleCase(Box<Expr>, Vec<(Expr, Expr)>, Option<Box<Expr>>),
    /// `CASE WHEN a THEN b ... [ELSE default] END`.
    SearchedCase(Vec<(Expr, Expr)>, Option<Box<Expr>>),
}

pub enum ExprV {
    Lit(LitV),
    Path(QueryPathV),
    BinOp(BinOpKind, Box<ExprV>, Box<ExprV>),
    UniOp(UniOpKind, Box<ExprV>),
    Between(Box<ExprV>, Box<ExprV>, Box<ExprV>),
    Like(Box<ExprV>, Box<ExprV>, Option<Box<ExprV>>),
    In(Box<ExprV>, Box<ExprV>),
    List(Seq<ExprV>),
    Struct(Seq<(ExprV, ExprV)>),
    Call(Seq<char>, Seq<ExprV>),
    SimpleCase(Box<ExprV>, Seq<(ExprV, ExprV)>, Option<Box<ExprV>>),
    SearchedCase(Seq<(ExprV, ExprV)>, Option<Box<ExprV>>),
}

pub open spec fn expr_view(e: Expr) -> ExprV
    decreases e,
{
    match e {
        Expr::Lit(l) => ExprV::Lit(l@),
        Expr::Path(p) => ExprV::Path(p@),
        Expr::BinOp(k, l, r) => ExprV::BinOp(k, Box::new(expr_view(*l)), Box::new(expr_view(*r))),
        Expr::UniOp(k, x) => ExprV::UniOp(k, Box::new(expr_view(*x))),
        Expr::Between(v, f, t) => ExprV::Between(Box::new(expr_view(*v)), Box::new(expr_view(*f)), Box::new(expr_view(*t))),
        Expr::Like(v, p, x) => ExprV::Like(Box::new(expr_view(*v)), Box::new(expr_view(*p)), match x {
            Some(x) => Some(Box::new(expr_view(*x))),
            None => None,
        }),
        Expr::In(l, r) => ExprV::In(Box::new(expr_view(*l)), Box::new(expr_view(*r))),
        Expr::List(v) => ExprV::List(exprs_view(v@)),
        Expr::Struct(ps) => ExprV::Struct(expr_pairs_view(ps@)),
        Expr::Call(n, args) => ExprV::Call(n@, exprs_view(args@)),
        Expr::SimpleCase(x, cs, d) => ExprV::SimpleCase(Box::new(expr_view(*x)), expr_pairs_view(cs@), match d {
            Some(d) => Some(Box::new(expr_view(*d))),
            None => None,
        }),
        Expr::SearchedCase(cs, d) => ExprV::SearchedCase(expr_pairs_view(cs@), match d {
            Some(d) => Some(Box::new(expr_view(*d))),
            None => None,
        }),
    }
}

pub open spec fn exprs_view(v: Seq<Expr>) -> Seq<ExprV>
    decreases v,
{
    if v.len() == 0 {
        Seq::empty()
    } else {
        exprs_view(v.drop_last()).push(expr_view(v.last()))
    }
}

pub open spec fn expr_pairs_view(v: Seq<(Expr, Expr)>) -> Seq<(ExprV, ExprV)>
    decreases v,
{
    if v.len() == 0 {
        Seq::empty()
    } else {
        expr_pairs_view(v.drop_last()).push((expr_view(v.last().0), expr_view(v.last().1)))
    }
}

impl View for Expr {
    type V = ExprV;

    open spec fn view(&self) -> ExprV {
        expr_view(*self)
    }
}

pub proof fn lemma_exprs_view(v: Seq<Expr>)
    ensures
        exprs_view(v).len() == v.len(),
        forall|i: int| 0 <= i < v.len() ==> #[trigger] exprs_view(v)[i] == expr_view(v[i]),
    decreases v.len(),
{
    if v.len() > 0 {
        lemma_exprs_view(v.drop_last());
        assert forall|i: int| 0 <= i < v.len() implies #[trigger] exprs_view(v)[i] == expr_view(v[i]) by {
            if i < v.len() - 1 {
                assert(v.drop_last()[i] == v[i]);
            }
        }
    }
}

pub proof fn lemma_expr_pairs_view(v: Seq<(Expr, Expr)>)
    ensures
        expr_pairs_view(v).len() == v.len(),
        forall|i: int| 0 <= i < v.len() ==> #[trigger] expr_pairs_view(v)[i] == (expr_view(v[i].0), expr_view(v[i].1)),
    decreases v.len(),
{
    if v.len() > 0 {
        lemma_expr_pairs_view(v.drop_last());
        assert forall|i: int| 0 <= i < v.len() implies #[trigger] expr_pairs_view(v)[i] == (expr_view(v[i].0), expr_view(v[i].1)) by {
            if i < v.len() - 1 {
                assert(v.drop_last()[i] == v[i]);
            }
        }
    }
}

/// What a query projects.
#[derive(Debug)]
pub enum Projection {
    /// `SELECT *`.
    Star,
    /// `SELECT path, ...`.
    List(Vec<QueryPath>),
}

pub enum ProjectionV {
    Star,
    List(Seq<QueryPathV>),
}

impl View for Projection {
    type V = ProjectionV;

    open spec fn view(&self) -> ProjectionV {
        match self {
            Projection::Star => ProjectionV::Star,
            Projection::List(v) => ProjectionV::List(query_paths_view(v@)),
        }
    }
}

/// A `SELECT project [EXCLUDE paths] FROM table AS table [WHERE filter]`
/// query; the table's alias is its own name.
#[derive(Debug)]
pub struct Query {
    pub project: Projection,
    pub exclude: Option<Vec<QueryPath>>,
    pub from: String,
    pub where_clause: Option<Expr>,
}


/// A struct constructor expression, a kind random generation does not make.
pub struct StructExpr {}

/// A bag constructor expression, a kind random generation does not make.
pub struct BagExpr {}

/// A list constructor expression, a kind random generation does not make.
pub struct ListExpr {}

/// An s-expression, a kind random generation does not make.
pub struct SexpExpr {}

/// A path expression built from parts, a kind random generation does not
/// make (paths come from a dataset's shape).
pub struct PathExpr {}

/// A function call expression, a kind random generation does not make.
pub struct CallExpr {}

/// An aggregate call expression, a kind random generation does not make.
pub struct CallAggExpr {}


/// A literal the query holds as it is given.
#[derive(Debug, Clone)]
pub enum ConstantLiteral {
    Null,
    Missing,
    Int8Lit(i8),
    Int16Lit(i16),
    Int32Lit(i32),
    Int64Lit(i64),
    DecimalLit(Decimal),
    NumericLit(Decimal),
    /// By the bits of its IEEE 754 single.
    RealLit(u32),
    /// By the bits of its IEEE 754 single.
    FloatLit(u32),
    /// By the bits of its IEEE 754 double.
    DoubleLit(u64),
    BoolLit(bool),
    IonStringLit(String),
    CharStringLit(String),
    NationalCharStringLit(String),
    BitStringLit(String),
    HexStringLit(String),
}

/// The literal a constant stands for: the same kind and value.
pub open spec fn constant_lit(c: ConstantLiteral) -> LitV {
    match c {
        ConstantLiteral::Null => LitV::Null,
        ConstantLiteral::Missing => LitV::Missing,
        ConstantLiteral::Int8Lit(l) => LitV::Int8(l),
        ConstantLiteral::Int16Lit(l) => LitV::Int16(l),
        ConstantLiteral::Int32Lit(l) => LitV::Int32(l),
        ConstantLiteral::Int64Lit(l) => LitV::Int64(l),
        ConstantLiteral::DecimalLit(l) => LitV::Decimal(l),
        ConstantLiteral::NumericLit(l) => LitV::Numeric(l),
        ConstantLiteral::RealLit(l) => LitV::Real(l),
        ConstantLiteral::FloatLit(l) => LitV::Float(l),
        ConstantLiteral::DoubleLit(l) => LitV::Double(l),
        ConstantLiteral::BoolLit(l) => LitV::Bool(l),
        ConstantLiteral::IonStringLit(l) => LitV::IonString(l@),
        ConstantLiteral::CharStringLit(l) => LitV::CharString(l@),
        ConstantLiteral::NationalCharStringLit(l) => LitV::NationalCharString(l@),
        ConstantLiteral::BitStringLit(l) => LitV::BitString(l@),
        ConstantLiteral::HexStringLit(l) => LitV::HexString(l@),
    }
}

impl ConstantLiteral {
    /// The literal of the constant.
    pub fn gen_ast(&self) -> (e: Expr)
        ensures
            e@ == ExprV::Lit(constant_lit(*self)),
    {
        let lit = match self {
            ConstantLiteral::Null => Lit::Null,
            ConstantLiteral::Missing => Lit::Missing,
            ConstantLiteral::Int8Lit(l) => Lit::Int8(*l),
            ConstantLiteral::Int16Lit(l) => Lit::Int16(*l),
            ConstantLiteral::Int32Lit(l) => Lit::Int32(*l),
            ConstantLiteral::Int64Lit(l) => Lit::Int64(*l),
            ConstantLiteral::DecimalLit(l) => Lit::Decimal(*l),
            ConstantLiteral::NumericLit(l) => Lit::Numeric(*l),
            ConstantLiteral::RealLit(l) => Lit::Real(*l),
            ConstantLiteral::FloatLit(l) => Lit::Float(*l),
            ConstantLiteral::DoubleLit(l) => Lit::Double(*l),
            ConstantLiteral::BoolLit(l) => Lit::Bool(*l),
            ConstantLiteral::IonStringLit(l) => Lit::IonString(l.clone()),
            ConstantLiteral::CharStringLit(l) => Lit::CharString(l.clone()),
            ConstantLiteral::NationalCharStringLit(l) => Lit::NationalCharString(l.clone()),
            ConstantLiteral::BitStringLit(l) => Lit::BitString(l.clone()),
            ConstantLiteral::HexStringLit(l) => Lit::HexString(l.clone()),
        };
        Expr::Lit(lit)
    }
}

/// Whether a value has a literal: a scalar other than a blob or a
/// date-time.
pub open spec fn has_literal(v: ValueV) -> bool {
    match v {
        ValueV::Blob(_) | ValueV::DateTime(_) | ValueV::List(_) | ValueV::Bag(_) | ValueV::Tuple(_) => false,
        _ => true,
    }
}

/// The literal of a value (one that has a literal).
pub open spec fn literal_of(v: ValueV) -> LitV {
    match v {
        ValueV::Null => LitV::Null,
        ValueV::Missing => LitV::Missing,
        ValueV::Boolean(b) => LitV::Bool(b),
        ValueV::Integer(i) => LitV::Int64(i),
        ValueV::Real(r) => LitV::Double(r),
        ValueV::Decimal(d) => LitV::Decimal(d),
        ValueV::String(s) => LitV::CharString(s),
        _ => LitV::Null,
    }
}

/// The literal of a value a data generator presents (the literal a
/// `GeneratedLiteral` becomes).
pub fn literal_of_value(v: &Value) -> (e: Expr)
    requires
        has_literal(v@),
    ensures
        e@ == ExprV::Lit(literal_of(v@)),
{
    let lit = match v {
        Value::Null => Lit::Null,
        Value::Missing => Lit::Missing,
        Value::Boolean(b) => Lit::Bool(*b),
        Value::Integer(i) => Lit::Int64(*i),
        Value::Real(r) => Lit::Double(*r),
        Value::Decimal(d) => Lit::Decimal(*d),
        Value::String(s) => Lit::CharString(s.clone()),
        _ => Lit::Null,
    };
    Expr::Lit(lit)
}

} // verus!
