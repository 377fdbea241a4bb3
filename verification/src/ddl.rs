//! A basic, SQL-like DDL rendering of dataset shapes.
use vstd::prelude::*;
use crate::shape::{PartiqlShape, Static, StructField};
use crate::text::{decimal, push_decimal, digit_char};

verus! {

/// Layout of the rendered DDL: one column per line, or all on one line.
#[derive(Debug)]
pub enum DdlFormat {
    Compact,
    Pretty,
}

/// The name and version of the DDL syntax an encoder emits.
#[derive(Debug)]
pub struct DdlSyntax {
    name: String,
    version: DdlSyntaxVersion,
}

/// A `major.minor` syntax version.
#[derive(Debug)]
pub struct DdlSyntaxVersion {
    major: u8,
    minor: u8,
}

/// Errors while encoding shapes.
#[derive(Debug)]
pub enum ShapeEncodingError {
    UnsupportedEncoding(String),
}

/// Joins `items` with `sep` between consecutive items.
pub open spec fn join(items: Seq<Seq<char>>, sep: Seq<char>) -> Seq<char>
    decreases items.len(),
{
    if items.len() == 0 {
        Seq::empty()
    } else if items.len() == 1 {
        items[0]
    } else {
        join(items.drop_last(), sep) + sep + items.last()
    }
}

/// Shapes the DDL encoder can render: no undefined types and no
/// fixed- or varying-length strings, at any depth.
pub open spec fn ddl_supported(s: PartiqlShape) -> bool
    decreases s,
{
    match s {
        PartiqlShape::Dynamic => true,
        PartiqlShape::Undefined => false,
        PartiqlShape::AnyOf(v) => ddl_supported_all(v@),
        PartiqlShape::Static(t) => match t {
            Static::StringFixed(_) => false,
            Static::StringVarying(_) => false,
            Static::Struct(fs) => ddl_supported_fields(fs@),
            Static::Bag(b) => ddl_supported(*b),
            Static::Array(a) => ddl_supported(*a),
            _ => true,
        },
    }
}

pub open spec fn ddl_supported_all(v: Seq<PartiqlShape>) -> bool
    decreases v,
{
    if v.len() == 0 {
        true
    } else {
        ddl_supported_all(v.drop_last()) && ddl_supported(v.last())
    }
}

pub open spec fn ddl_supported_fields(fs: Seq<StructField>) -> bool
    decreases fs,
{
    if fs.len() == 0 {
        true
    } else {
        ddl_supported_fields(fs.drop_last()) && ddl_supported(fs.last().ty)
    }
}

/// The DDL type name of a shape.
pub open spec fn ddl_type(s: PartiqlShape) -> Seq<char>
    decreases s,
{
    match s {
        PartiqlShape::Dynamic => "ANY"@,
        PartiqlShape::AnyOf(v) => "UNION<"@ + ddl_union(v@) + ">"@,
        PartiqlShape::Static(t) => match t {
            Static::Int => "INT"@,
            Static::Int8 => "TINYINT"@,
            Static::Int16 => "SMALLINT"@,
            Static::Int32 => "INTEGER"@,
            Static::Int64 => "INT8"@,
            Static::Bool => "BOOL"@,
            Static::Decimal => "DECIMAL"@,
            Static::DecimalP(p, sc) => "DECIMAL("@ + decimal(p as nat) + ", "@ + decimal(sc as nat) + ")"@,
            Static::DateTime => "TIMESTAMP"@,
            Static::Float32 => "REAL"@,
            Static::Float64 => "DOUBLE"@,
            Static::String => "VARCHAR"@,
            Static::Struct(fs) => "STRUCT<"@ + ddl_struct_fields(fs@) + ">"@,
            Static::Bag(b) => "BAG<"@ + ddl_type(*b) + ">"@,
            Static::Array(a) => "ARRAY<"@ + ddl_type(*a) + ">"@,
            _ => Seq::empty(),
        },
        PartiqlShape::Undefined => Seq::empty(),
    }
}

/// The members of a union, comma separated.
pub open spec fn ddl_union(v: Seq<PartiqlShape>) -> Seq<char>
    decreases v,
{
    if v.len() == 0 {
        Seq::empty()
    } else if v.len() == 1 {
        ddl_type(v[0])
    } else {
        ddl_union(v.drop_last()) + ","@ + ddl_type(v.last())
    }
}

/// A struct field inside a struct type: `"name": TYPE`.
pub open spec fn ddl_struct_field(f: StructField) -> Seq<char>
    decreases f,
{
    "\""@ + f.name@ + "\": "@ + ddl_type(f.ty)
}

/// The fields of a struct type, comma separated.
pub open spec fn ddl_struct_fields(fs: Seq<StructField>) -> Seq<char>
    decreases fs,
{
    if fs.len() == 0 {
        Seq::empty()
    } else if fs.len() == 1 {
        "\""@ + fs[0].name@ + "\": "@ + ddl_type(fs[0].ty)
    } else {
        ddl_struct_fields(fs.drop_last()) + ","@ + "\""@ + fs.last().name@ + "\": "@ + ddl_type(fs.last().ty)
    }
}


pub proof fn lemma_supported_all(v: Seq<PartiqlShape>)
    requires
        ddl_supported_all(v),
    ensures
        forall|i: int| 0 <= i < v.len() ==> ddl_supported(#[trigger] v[i]),
    decreases v.len(),
{
    if v.len() > 0 {
        lemma_supported_all(v.drop_last());
        assert forall|i: int| 0 <= i < v.len() implies ddl_supported(#[trigger] v[i]) by {
            if i < v.len() - 1 {
                assert(v.drop_last()[i] == v[i]);
            }
        }
    }
}

pub proof fn lemma_supported_fields(fs: Seq<StructField>)
    requires
        ddl_supported_fields(fs),
    ensures
        forall|i: int| 0 <= i < fs.len() ==> ddl_supported(#[trigger] fs[i].ty),
    decreases fs.len(),
{
    if fs.len() > 0 {
        lemma_supported_fields(fs.drop_last());
        assert forall|i: int| 0 <= i < fs.len() implies ddl_supported(#[trigger] fs[i].ty) by {
            if i < fs.len() - 1 {
                assert(fs.drop_last()[i] == fs[i]);
            }
        }
    }
}

/// Renders the DDL type of `shape`.
fn write_shape(shape: &PartiqlShape) -> (out: String)
    requires
        ddl_supported(*shape),
    ensures
        out@ == ddl_type(*shape),
    decreases shape,
{
    match shape {
        PartiqlShape::Dynamic => String::from_str("ANY"),
        PartiqlShape::AnyOf(v) => {
            let mut out = String::from_str("UNION<");
            let items = write_union(v);
            out.append(items.as_str());
            out.append(">");
            out
        },
        PartiqlShape::Static(t) => match t {
            Static::Int => String::from_str("INT"),
            Static::Int8 => String::from_str("TINYINT"),
            Static::Int16 => String::from_str("SMALLINT"),
            Static::Int32 => String::from_str("INTEGER"),
            Static::Int64 => String::from_str("INT8"),
            Static::Bool => String::from_str("BOOL"),
            Static::Decimal => String::from_str("DECIMAL"),
            Static::DecimalP(p, sc) => {
                let mut out = String::from_str("DECIMAL(");
                push_decimal(&mut out, *p as u64);
                out.append(", ");
                push_decimal(&mut out, *sc as u64);
                out.append(")");
                out
            },
            Static::DateTime => String::from_str("TIMESTAMP"),
            Static::Float32 => String::from_str("REAL"),
            Static::Float64 => String::from_str("DOUBLE"),
            Static::String => String::from_str("VARCHAR"),
            Static::Struct(fs) => {
                let mut out = String::from_str("STRUCT<");
                let items = write_struct_fields(fs);
                out.append(items.as_str());
                out.append(">");
                out
            },
            Static::Bag(b) => {
                let mut out = String::from_str("BAG<");
                let inner = write_shape(b);
                out.append(inner.as_str());
                out.append(">");
                out
            },
            Static::Array(a) => {
                let mut out = String::from_str("ARRAY<");
                let inner = write_shape(a);
                out.append(inner.as_str());
                out.append(">");
                out
            },
            Static::StringFixed(_) | Static::StringVarying(_) => {
                proof { assert(false); }
                String::new()
            },
        },
        PartiqlShape::Undefined => {
            proof { assert(false); }
            String::new()
        },
    }
}

/// Renders the members of a union, comma separated.
fn write_union(v: &Vec<PartiqlShape>) -> (out: String)
    requires
        ddl_supported_all(v@),
    ensures
        out@ == ddl_union(v@),
    decreases v,
{
    proof { lemma_supported_all(v@); }
    let mut out = String::new();
    let mut i: usize = 0;
    while i < v.len()
        invariant
            i <= v.len(),
            out@ == ddl_union(v@.take(i as int)),
            forall|j: int| 0 <= j < v.len() ==> ddl_supported(#[trigger] v@[j]),
        decreases v.len() - i,
    {
        if i > 0 {
            out.append(",");
        }
        let t = write_shape(&v[i]);
        out.append(t.as_str());
        proof {
            assert(v@.take(i + 1).drop_last() =~= v@.take(i as int));
            assert(v@.take(i + 1).last() == v@[i as int]);
        }
        i += 1;
    }
    proof { assert(v@.take(v.len() as int) =~= v@); }
    out
}

/// Renders the fields of a struct type, comma separated.
fn write_struct_fields(fs: &Vec<StructField>) -> (out: String)
    requires
        ddl_supported_fields(fs@),
    ensures
        out@ == ddl_struct_fields(fs@),
    decreases fs,
{
    proof { lemma_supported_fields(fs@); }
    let mut out = String::new();
    let mut i: usize = 0;
    while i < fs.len()
        invariant
            i <= fs.len(),
            out@ == ddl_struct_fields(fs@.take(i as int)),
            forall|j: int| 0 <= j < fs.len() ==> ddl_supported(#[trigger] fs@[j].ty),
        decreases fs.len() - i,
    {
        if i > 0 {
            out.append(",");
        }
        out.append("\"");
        out.append(fs[i].name.as_str());
        out.append("\": ");
        let t = write_shape(&fs[i].ty);
        out.append(t.as_str());
        proof {
            assert(fs@.take(i + 1).drop_last() =~= fs@.take(i as int));
            assert(fs@.take(i + 1).last() == fs@[i as int]);
        }
        i += 1;
    }
    proof { assert(fs@.take(fs.len() as int) =~= fs@); }
    out
}


/// The DDL column list of a bag-of-struct dataset shape: one `"name" TYPE`
/// per field, comma separated, with a line break after each comma when
/// `pretty`.
pub open spec fn ddl_columns(fs: Seq<StructField>, pretty: bool) -> Seq<char>
    decreases fs.len(),
{
    if fs.len() == 0 {
        Seq::empty()
    } else if fs.len() == 1 {
        "\""@ + fs[0].name@ + "\" "@ + ddl_type(fs[0].ty)
    } else {
        ddl_columns(fs.drop_last(), pretty) + ","@ + (if pretty { "\n"@ } else { Seq::empty() })
            + "\""@ + fs.last().name@ + "\" "@ + ddl_type(fs.last().ty)
    }
}

/// The row fields of a dataset shape that is a bag of structs.
pub open spec fn bag_struct_fields(s: PartiqlShape) -> Option<Seq<StructField>> {
    match s {
        PartiqlShape::Static(Static::Bag(b)) => match *b {
            PartiqlShape::Static(Static::Struct(fs)) => Some(fs@),
            _ => None,
        },
        _ => None,
    }
}

/// The syntax name that the basic encoder reports.
pub open spec fn partiql_data_type_syntax() -> Seq<char> {
    "partiql_datatype_syntax"@
}

impl DdlSyntax {
    pub closed spec fn spec_name(&self) -> Seq<char> {
        self.name@
    }

    pub closed spec fn spec_major(&self) -> u8 {
        self.version.major
    }

    pub closed spec fn spec_minor(&self) -> u8 {
        self.version.minor
    }

    /// The syntax name.
    pub fn name(&self) -> (n: String)
        ensures
            n@ == self.spec_name(),
    {
        self.name.clone()
    }

    /// The syntax version, `major.minor`.
    pub fn version(&self) -> (v: String)
        ensures
            v@ == decimal(self.spec_major() as nat) + "."@ + decimal(self.spec_minor() as nat),
    {
        let mut v = String::new();
        push_decimal(&mut v, self.version.major as u64);
        v.append(".");
        push_decimal(&mut v, self.version.minor as u64);
        proof {
            assert(Seq::<char>::empty() + decimal(self.spec_major() as nat) =~= decimal(self.spec_major() as nat));
        }
        v
    }

    /// The printed form of the syntax, `name-major.minor`.
    pub fn to_string(&self) -> (v: String)
        ensures
            v@ == self.spec_name() + "-"@ + decimal(self.spec_major() as nat) + "."@
                + decimal(self.spec_minor() as nat),
    {
        let mut v = self.name.clone();
        v.append("-");
        push_decimal(&mut v, self.version.major as u64);
        v.append(".");
        push_decimal(&mut v, self.version.minor as u64);
        v
    }
}

/// An encoder of dataset shapes into the basic DDL syntax.
pub struct PartiqlBasicDdlEncoder {
    format: DdlFormat,
    syntax: DdlSyntax,
}

impl PartiqlBasicDdlEncoder {
    pub closed spec fn is_pretty(&self) -> bool {
        self.format is Pretty
    }

    /// An encoder with the given layout, for syntax `partiql_datatype_syntax` 0.1.
    pub fn new(format: DdlFormat) -> (e: Self)
        ensures
            e.is_pretty() == (format is Pretty),
            e.spec_syntax().spec_name() == partiql_data_type_syntax(),
            e.spec_syntax().spec_major() == 0,
            e.spec_syntax().spec_minor() == 1,
    {
        PartiqlBasicDdlEncoder {
            format,
            syntax: DdlSyntax {
                name: String::from_str("partiql_datatype_syntax"),
                version: DdlSyntaxVersion { major: 0, minor: 1 },
            },
        }
    }

    pub closed spec fn spec_syntax(&self) -> DdlSyntax {
        self.syntax
    }

    /// The syntax this encoder emits.
    pub fn syntax(&self) -> (s: DdlSyntax)
        ensures
            s.spec_name() == self.spec_syntax().spec_name(),
            s.spec_major() == self.spec_syntax().spec_major(),
            s.spec_minor() == self.spec_syntax().spec_minor(),
    {
        DdlSyntax {
            name: self.syntax.name.clone(),
            version: DdlSyntaxVersion { major: self.syntax.version.major, minor: self.syntax.version.minor },
        }
    }

    fn write_line(&self) -> (l: String)
        ensures
            l@ == (if self.is_pretty() { "\n"@ } else { Seq::<char>::empty() }),
    {
        match self.format {
            DdlFormat::Pretty => String::from_str("\n"),
            DdlFormat::Compact => String::new(),
        }
    }

    /// The DDL of a dataset: its shape must be a bag of structs, whose
    /// fields become the columns.
    pub fn ddl(&self, ty: &PartiqlShape) -> (r: Result<String, ShapeEncodingError>)
        requires
            bag_struct_fields(*ty) matches Some(fs) ==> ddl_supported_fields(fs),
        ensures
            r is Ok <==> bag_struct_fields(*ty) is Some,
            r matches Ok(out) ==> out@ == ddl_columns(bag_struct_fields(*ty)->0, self.is_pretty()),
            r matches Err(ShapeEncodingError::UnsupportedEncoding(m)) ==> m@ == (
                if *ty matches PartiqlShape::Static(Static::Bag(_)) {
                    "Unsupported top level element type"@
                } else {
                    "Unsupported top level type"@
                }),
    {
        match ty {
            PartiqlShape::Static(Static::Bag(b)) => match &**b {
                PartiqlShape::Static(Static::Struct(fs)) => {
                    proof { lemma_supported_fields(fs@); }
                    let mut output = String::new();
                    let mut i: usize = 0;
                    while i < fs.len()
                        invariant
                            i <= fs.len(),
                            output@ == ddl_columns(fs@.take(i as int), self.is_pretty()),
                            forall|j: int| 0 <= j < fs.len() ==> ddl_supported(#[trigger] fs@[j].ty),
                        decreases fs.len() - i,
                    {
                        if i > 0 {
                            output.append(",");
                            let l = self.write_line();
                            output.append(l.as_str());
                        }
                        output.append("\"");
                        output.append(fs[i].name.as_str());
                        output.append("\" ");
                        let t = write_shape(&fs[i].ty);
                        output.append(t.as_str());
                        proof {
                            assert(fs@.take(i + 1).drop_last() =~= fs@.take(i as int));
                            assert(fs@.take(i + 1).last() == fs@[i as int]);
                        }
                        i += 1;
                    }
                    proof { assert(fs@.take(fs.len() as int) =~= fs@); }
                    Ok(output)
                },
                _ => Err(ShapeEncodingError::UnsupportedEncoding(
                    String::from_str("Unsupported top level element type"),
                )),
            },
            _ => Err(ShapeEncodingError::UnsupportedEncoding(
                String::from_str("Unsupported top level type"),
            )),
        }
    }
}

/// An encoder of dataset shapes in a DDL syntax.
pub trait PartiqlDdlEncoder {
    type Output;

    /// The DDL of a dataset's shape.
    fn ddl(&self, ty: &PartiqlShape) -> (r: Result<Self::Output, ShapeEncodingError>)
        requires
            bag_struct_fields(*ty) matches Some(fs) ==> ddl_supported_fields(fs),
    ;

    /// The syntax, with its version, that the encoder writes.
    fn syntax(&self) -> DdlSyntax;
}

impl PartiqlDdlEncoder for PartiqlBasicDdlEncoder {
    type Output = String;

    fn ddl(&self, ty: &PartiqlShape) -> (r: Result<String, ShapeEncodingError>)
        ensures
            r is Ok <==> bag_struct_fields(*ty) is Some,
            r matches Ok(out) ==> out@ == ddl_columns(bag_struct_fields(*ty)->0, self.is_pretty()),
            r matches Err(ShapeEncodingError::UnsupportedEncoding(m)) ==> m@ == (
                if *ty matches PartiqlShape::Static(Static::Bag(_)) {
                    "Unsupported top level element type"@
                } else {
                    "Unsupported top level type"@
                }),
    {
        PartiqlBasicDdlEncoder::ddl(self, ty)
    }

    fn syntax(&self) -> (s: DdlSyntax)
        ensures
            s.spec_name() == self.spec_syntax().spec_name(),
            s.spec_major() == self.spec_syntax().spec_major(),
            s.spec_minor() == self.spec_syntax().spec_minor(),
    {
        PartiqlBasicDdlEncoder::syntax(self)
    }
}

/// A text with its line breaks taken out.
pub open spec fn strip_newlines(s: Seq<char>) -> Seq<char>
    decreases s.len(),
{
    if s.len() == 0 {
        s
    } else {
        strip_newlines(s.drop_last()) + (if s.last() == '\n' { Seq::<char>::empty() } else { seq![s.last()] })
    }
}

/// The number of line breaks in a text.
pub open spec fn newline_count(s: Seq<char>) -> nat
    decreases s.len(),
{
    if s.len() == 0 {
        0
    } else {
        newline_count(s.drop_last()) + (if s.last() == '\n' { 1nat } else { 0nat })
    }
}

/// The text of one column: `"name" TYPE`.
pub open spec fn ddl_column(f: StructField) -> Seq<char> {
    "\""@ + f.name@ + "\" "@ + ddl_type(f.ty)
}

proof fn lemma_strip_concat(a: Seq<char>, b: Seq<char>)
    ensures
        strip_newlines(a + b) == strip_newlines(a) + strip_newlines(b),
        newline_count(a + b) == newline_count(a) + newline_count(b),
    decreases b.len(),
{
    if b.len() == 0 {
        assert(a + b =~= a);
        assert(strip_newlines(a) + strip_newlines(b) =~= strip_newlines(a));
    } else {
        lemma_strip_concat(a, b.drop_last());
        assert((a + b).drop_last() =~= a + b.drop_last());
        assert((a + b).last() == b.last());
    }
}

proof fn lemma_strip_plain(a: Seq<char>)
    requires
        forall|i: int| 0 <= i < a.len() ==> a[i] != '\n',
    ensures
        strip_newlines(a) == a,
        newline_count(a) == 0,
    decreases a.len(),
{
    if a.len() > 0 {
        lemma_strip_plain(a.drop_last());
        assert(a.drop_last() + seq![a.last()] =~= a);
    }
}

/// Where no column's text holds a line break, the pretty column list is the
/// compact one with a line break after each comma: taking its line breaks
/// out gives the compact list, and it has one fewer than it has columns.
pub proof fn lemma_pretty_is_compact_with_breaks(fs: Seq<StructField>)
    requires
        forall|k: int, i: int| 0 <= k < fs.len() && 0 <= i < ddl_column(fs[k]).len()
            ==> #[trigger] ddl_column(fs[k])[i] != '\n',
    ensures
        strip_newlines(ddl_columns(fs, true)) == ddl_columns(fs, false),
        newline_count(ddl_columns(fs, true)) == if fs.len() == 0 { 0 } else { (fs.len() - 1) as nat },
    decreases fs.len(),
{
    if fs.len() == 0 {
        assert(strip_newlines(Seq::<char>::empty()) =~= Seq::<char>::empty());
    } else if fs.len() == 1 {
        let c = ddl_column(fs[0]);
        assert(forall|i: int| 0 <= i < c.len() ==> c[i] != '\n');
        lemma_strip_plain(c);
        assert(ddl_columns(fs, true) =~= c);
        assert(ddl_columns(fs, false) =~= c);
    } else {
        let w = fs.drop_last();
        assert forall|k: int, i: int| 0 <= k < w.len() && 0 <= i < ddl_column(w[k]).len()
            implies #[trigger] ddl_column(w[k])[i] != '\n' by {
            assert(w[k] == fs[k]);
            assert(ddl_column(fs[k])[i] != '\n');
        }
        lemma_pretty_is_compact_with_breaks(w);
        let c = ddl_column(fs.last());
        assert forall|i: int| 0 <= i < c.len() implies c[i] != '\n' by {
            assert(fs.last() == fs[fs.len() - 1]);
            assert(ddl_column(fs[fs.len() - 1])[i] != '\n');
        }
        lemma_break_piece(c);
        let p = ddl_columns(w, true);
        assert(ddl_columns(fs, true) =~= p + (","@ + ("\n"@ + c)));
        assert(ddl_columns(fs, false) =~= ddl_columns(w, false) + (","@ + c));
        lemma_strip_concat(p, ","@ + ("\n"@ + c));
    }
}

/// A comma, a line break and a column text without line breaks: one line
/// break, and the comma and the text once it is taken out.
proof fn lemma_break_piece(c: Seq<char>)
    requires
        forall|i: int| 0 <= i < c.len() ==> c[i] != '\n',
    ensures
        strip_newlines(","@ + ("\n"@ + c)) == ","@ + c,
        newline_count(","@ + ("\n"@ + c)) == 1,
{
    reveal_strlit(",");
    reveal_strlit("\n");
    let comma = seq![','];
    let nl = seq!['\n'];
    assert(","@ =~= comma);
    assert("\n"@ =~= nl);
    let e = Seq::<char>::empty();
    assert(comma.drop_last() =~= e);
    assert(nl.drop_last() =~= e);
    assert(strip_newlines(e) == e);
    assert(newline_count(e) == 0);
    assert(strip_newlines(comma) =~= comma);
    assert(newline_count(comma) == 0);
    assert(strip_newlines(nl) =~= e);
    assert(newline_count(nl) == 1);
    lemma_strip_plain(c);
    lemma_strip_concat(comma, nl + c);
    lemma_strip_concat(nl, c);
    assert(comma + (nl + c) == ","@ + ("\n"@ + c));
    assert(comma + (e + c) =~= ","@ + c);
}

/// Whether a text holds no line break.
pub open spec fn no_newline(s: Seq<char>) -> bool {
    forall|i: int| 0 <= i < s.len() ==> s[i] != '\n'
}

/// Whether no struct field name in a shape, at any depth, holds a line
/// break.
pub open spec fn names_free(s: PartiqlShape) -> bool
    decreases s,
{
    match s {
        PartiqlShape::AnyOf(v) => names_free_all(v@),
        PartiqlShape::Static(t) => match t {
            Static::Struct(fs) => names_free_fields(fs@),
            Static::Bag(b) => names_free(*b),
            Static::Array(a) => names_free(*a),
            _ => true,
        },
        _ => true,
    }
}

pub open spec fn names_free_all(v: Seq<PartiqlShape>) -> bool
    decreases v,
{
    if v.len() == 0 {
        true
    } else {
        names_free_all(v.drop_last()) && names_free(v.last())
    }
}

pub open spec fn names_free_fields(fs: Seq<StructField>) -> bool
    decreases fs,
{
    if fs.len() == 0 {
        true
    } else {
        names_free_fields(fs.drop_last()) && no_newline(fs.last().name@) && names_free(fs.last().ty)
    }
}

proof fn lemma_no_newline_concat(a: Seq<char>, b: Seq<char>)
    requires
        no_newline(a),
        no_newline(b),
    ensures
        no_newline(a + b),
{
    assert forall|i: int| 0 <= i < (a + b).len() implies (a + b)[i] != '\n' by {
        if i < a.len() { assert((a + b)[i] == a[i]); } else { assert((a + b)[i] == b[i - a.len()]); }
    }
}

proof fn lemma_decimal_no_newline(n: nat)
    ensures
        no_newline(decimal(n)),
    decreases n,
{
    if n >= 10 {
        lemma_decimal_no_newline(n / 10);
        assert(digit_char(n % 10) != '\n');
        lemma_no_newline_concat(decimal(n / 10), seq![digit_char(n % 10)]);
        assert(decimal(n / 10).push(digit_char(n % 10)) =~= decimal(n / 10) + seq![digit_char(n % 10)]);
    } else {
        assert(digit_char(n) != '\n');
    }
}

proof fn lemma_ddl_type_no_newline(s: PartiqlShape)
    requires
        names_free(s),
    ensures
        no_newline(ddl_type(s)),
    decreases s,
{
    match s {
        PartiqlShape::Dynamic => { reveal_strlit("ANY"); },
        PartiqlShape::AnyOf(v) => {
            reveal_strlit("UNION<");
            reveal_strlit(">");
            lemma_ddl_union_no_newline(v@);
            lemma_no_newline_concat("UNION<"@, ddl_union(v@));
            lemma_no_newline_concat("UNION<"@ + ddl_union(v@), ">"@);
        },
        PartiqlShape::Static(t) => match t {
            Static::Int => { reveal_strlit("INT"); },
            Static::Int8 => { reveal_strlit("TINYINT"); },
            Static::Int16 => { reveal_strlit("SMALLINT"); },
            Static::Int32 => { reveal_strlit("INTEGER"); },
            Static::Int64 => { reveal_strlit("INT8"); },
            Static::Bool => { reveal_strlit("BOOL"); },
            Static::Decimal => { reveal_strlit("DECIMAL"); },
            Static::DecimalP(p, sc) => {
                reveal_strlit("DECIMAL(");
                reveal_strlit(", ");
                reveal_strlit(")");
                lemma_decimal_no_newline(p as nat);
                lemma_decimal_no_newline(sc as nat);
                lemma_no_newline_concat("DECIMAL("@, decimal(p as nat));
                lemma_no_newline_concat("DECIMAL("@ + decimal(p as nat), ", "@);
                lemma_no_newline_concat("DECIMAL("@ + decimal(p as nat) + ", "@, decimal(sc as nat));
                lemma_no_newline_concat("DECIMAL("@ + decimal(p as nat) + ", "@ + decimal(sc as nat), ")"@);
            },
            Static::DateTime => { reveal_strlit("TIMESTAMP"); },
            Static::Float32 => { reveal_strlit("REAL"); },
            Static::Float64 => { reveal_strlit("DOUBLE"); },
            Static::String => { reveal_strlit("VARCHAR"); },
            Static::Struct(fs) => {
                reveal_strlit("STRUCT<");
                reveal_strlit(">");
                lemma_ddl_fields_no_newline(fs@);
                lemma_no_newline_concat("STRUCT<"@, ddl_struct_fields(fs@));
                lemma_no_newline_concat("STRUCT<"@ + ddl_struct_fields(fs@), ">"@);
            },
            Static::Bag(b) => {
                reveal_strlit("BAG<");
                reveal_strlit(">");
                lemma_ddl_type_no_newline(*b);
                lemma_no_newline_concat("BAG<"@, ddl_type(*b));
                lemma_no_newline_concat("BAG<"@ + ddl_type(*b), ">"@);
            },
            Static::Array(a) => {
                reveal_strlit("ARRAY<");
                reveal_strlit(">");
                lemma_ddl_type_no_newline(*a);
                lemma_no_newline_concat("ARRAY<"@, ddl_type(*a));
                lemma_no_newline_concat("ARRAY<"@ + ddl_type(*a), ">"@);
            },
            _ => {},
        },
        PartiqlShape::Undefined => {},
    }
}

proof fn lemma_ddl_union_no_newline(v: Seq<PartiqlShape>)
    requires
        names_free_all(v),
    ensures
        no_newline(ddl_union(v)),
    decreases v,
{
    if v.len() == 1 {
        assert(v.drop_last().len() == 0);
        assert(v.last() == v[0]);
        lemma_ddl_type_no_newline(v[0]);
    } else if v.len() > 1 {
        reveal_strlit(",");
        lemma_ddl_union_no_newline(v.drop_last());
        lemma_ddl_type_no_newline(v.last());
        lemma_no_newline_concat(ddl_union(v.drop_last()), ","@);
        lemma_no_newline_concat(ddl_union(v.drop_last()) + ","@, ddl_type(v.last()));
    }
}

proof fn lemma_ddl_fields_no_newline(fs: Seq<StructField>)
    requires
        names_free_fields(fs),
    ensures
        no_newline(ddl_struct_fields(fs)),
    decreases fs,
{
    reveal_strlit("\"");
    reveal_strlit("\": ");
    reveal_strlit(",");
    if fs.len() == 1 {
        assert(fs.drop_last().len() == 0);
        assert(fs.last() == fs[0]);
        lemma_ddl_type_no_newline(fs[0].ty);
        lemma_no_newline_concat("\""@, fs[0].name@);
        lemma_no_newline_concat("\""@ + fs[0].name@, "\": "@);
        lemma_no_newline_concat("\""@ + fs[0].name@ + "\": "@, ddl_type(fs[0].ty));
    } else if fs.len() > 1 {
        let f = fs.last();
        lemma_ddl_fields_no_newline(fs.drop_last());
        lemma_ddl_type_no_newline(f.ty);
        let a = ddl_struct_fields(fs.drop_last());
        lemma_no_newline_concat(a, ","@);
        lemma_no_newline_concat(a + ","@, "\""@);
        lemma_no_newline_concat(a + ","@ + "\""@, f.name@);
        lemma_no_newline_concat(a + ","@ + "\""@ + f.name@, "\": "@);
        lemma_no_newline_concat(a + ","@ + "\""@ + f.name@ + "\": "@, ddl_type(f.ty));
    }
}

/// Where no struct field name of a dataset shape (a bag of structs), at
/// any depth, holds a line break, its pretty DDL is its compact DDL with a
/// line break after each comma between columns: taking the line breaks out
/// gives the compact DDL, and there is one fewer than there are columns.
pub proof fn lemma_pretty_ddl_is_compact_with_breaks(ty: PartiqlShape)
    requires
        bag_struct_fields(ty) matches Some(fs) && names_free_fields(fs),
    ensures
        strip_newlines(ddl_columns(bag_struct_fields(ty)->0, true)) == ddl_columns(bag_struct_fields(ty)->0, false),
        newline_count(ddl_columns(bag_struct_fields(ty)->0, true)) == if bag_struct_fields(ty)->0.len() == 0 {
            0
        } else {
            (bag_struct_fields(ty)->0.len() - 1) as nat
        },
{
    let fs = bag_struct_fields(ty)->0;
    lemma_columns_plain(fs);
    lemma_pretty_is_compact_with_breaks(fs);
}

proof fn lemma_columns_plain(fs: Seq<StructField>)
    requires
        names_free_fields(fs),
    ensures
        forall|k: int, i: int| 0 <= k < fs.len() && 0 <= i < ddl_column(fs[k]).len()
            ==> #[trigger] ddl_column(fs[k])[i] != '\n',
    decreases fs.len(),
{
    if fs.len() > 0 {
        lemma_columns_plain(fs.drop_last());
        let f = fs.last();
        reveal_strlit("\"");
        reveal_strlit("\" ");
        lemma_ddl_type_no_newline(f.ty);
        lemma_no_newline_concat("\""@, f.name@);
        lemma_no_newline_concat("\""@ + f.name@, "\" "@);
        lemma_no_newline_concat("\""@ + f.name@ + "\" "@, ddl_type(f.ty));
        assert forall|k: int, i: int| 0 <= k < fs.len() && 0 <= i < ddl_column(fs[k]).len()
            implies #[trigger] ddl_column(fs[k])[i] != '\n' by {
            if k < fs.len() - 1 {
                assert(fs.drop_last()[k] == fs[k]);
            } else {
                assert(fs[k] == f);
            }
        }
    }
}

/// The DDL type of a bag is `BAG<` and its items' type, and of an array
/// `ARRAY<` and its items' type: a bag and an array of the same items never
/// get the same type, and a field of either type is written with it.
pub proof fn lemma_ddl_collections(items: PartiqlShape, name: String)
    ensures
        ddl_type(PartiqlShape::Static(Static::Bag(Box::new(items)))) == "BAG<"@ + ddl_type(items) + ">"@,
        ddl_type(PartiqlShape::Static(Static::Array(Box::new(items)))) == "ARRAY<"@ + ddl_type(items) + ">"@,
        ddl_type(PartiqlShape::Static(Static::Bag(Box::new(items))))
            != ddl_type(PartiqlShape::Static(Static::Array(Box::new(items)))),
        ddl_columns(seq![StructField { name, ty: PartiqlShape::Static(Static::Bag(Box::new(items))) }], false)
            == "\""@ + name@ + "\" BAG<"@ + ddl_type(items) + ">"@,
{
    reveal_strlit("BAG<");
    reveal_strlit("ARRAY<");
    reveal_strlit("\" ");
    reveal_strlit("\" BAG<");
    let b = ddl_type(PartiqlShape::Static(Static::Bag(Box::new(items))));
    let a = ddl_type(PartiqlShape::Static(Static::Array(Box::new(items))));
    assert(b[0] == 'B' && a[0] == 'A');
    let f = StructField { name, ty: PartiqlShape::Static(Static::Bag(Box::new(items))) };
    assert(seq![f].len() == 1 && seq![f][0] == f);
    assert(ddl_columns(seq![f], false) =~= "\""@ + name@ + "\" BAG<"@ + ddl_type(items) + ">"@);
}

/// Whether a static type is a scalar that the DDL writes by name.
pub open spec fn ddl_named_scalar(t: Static) -> bool {
    t is Int || t is Int8 || t is Int16 || t is Int32 || t is Int64 || t is Bool || t is Decimal || t is DateTime || t is Float32 || t is Float64 || t is String
}

/// Each scalar type has its own DDL type name: `INT`, `TINYINT`,
/// `SMALLINT`, `INTEGER`, `INT8`, `BOOL`, `DECIMAL`, `TIMESTAMP`, `REAL`,
/// `DOUBLE` and `VARCHAR`; no two of these types share a name.
pub proof fn lemma_ddl_scalar_names(t: Static, u: Static)
    requires
        ddl_named_scalar(t),
        ddl_named_scalar(u),
    ensures
        t is Int ==> ddl_type(PartiqlShape::Static(t)) == "INT"@,
        t is Int8 ==> ddl_type(PartiqlShape::Static(t)) == "TINYINT"@,
        t is Int16 ==> ddl_type(PartiqlShape::Static(t)) == "SMALLINT"@,
        t is Int32 ==> ddl_type(PartiqlShape::Static(t)) == "INTEGER"@,
        t is Int64 ==> ddl_type(PartiqlShape::Static(t)) == "INT8"@,
        t is Bool ==> ddl_type(PartiqlShape::Static(t)) == "BOOL"@,
        t is Decimal ==> ddl_type(PartiqlShape::Static(t)) == "DECIMAL"@,
        t is DateTime ==> ddl_type(PartiqlShape::Static(t)) == "TIMESTAMP"@,
        t is Float32 ==> ddl_type(PartiqlShape::Static(t)) == "REAL"@,
        t is Float64 ==> ddl_type(PartiqlShape::Static(t)) == "DOUBLE"@,
        t is String ==> ddl_type(PartiqlShape::Static(t)) == "VARCHAR"@,
        ddl_type(PartiqlShape::Static(t)) == ddl_type(PartiqlShape::Static(u)) ==> (t == u),
{
    reveal_strlit("INT");
    reveal_strlit("TINYINT");
    reveal_strlit("SMALLINT");
    reveal_strlit("INTEGER");
    reveal_strlit("INT8");
    reveal_strlit("BOOL");
    reveal_strlit("DECIMAL");
    reveal_strlit("TIMESTAMP");
    reveal_strlit("REAL");
    reveal_strlit("DOUBLE");
    reveal_strlit("VARCHAR");
    let a = ddl_type(PartiqlShape::Static(t));
    let b = ddl_type(PartiqlShape::Static(u));
    if a == b {
        assert(a.len() == b.len());
        assert(a[0] == b[0]);
        assert(a[1] == b[1]);
        assert(a[2] == b[2]);
        if a.len() > 3 { assert(a[3] == b[3]); }
        if a.len() > 4 { assert(a[4] == b[4]); }
        if a.len() > 5 { assert(a[5] == b[5]); }
    }
}

} // verus!
