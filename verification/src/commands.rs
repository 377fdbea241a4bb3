//! The commands of the Beamline tools and the reading of a whole command
//! line: `gen data`, `gen db kollider`, `infer-shape`, and `query basic`
//! with one of its strategies.
use vstd::prelude::*;
use crate::cmdline::{
    OptDef, OptV, Occ, OccV, CliError, CliErrorV, opts_view, occs_view, strings_view, all_values,
    scan_options, scan_options_exec, first_duplicate, check_duplicates, values_of, is_long_token,
    is_short_token, is_text,
};
use crate::cli::{
    pname, pname_text, sim_spec_error, sim_spec_matches, sim_spec_from, sample_count_spec,
    sample_count_from, data_format_spec, data_format_from, shape_format_spec, shape_format_from,
    db_args_spec, db_args_from, db_args_view, err_of, first_some, res_view, project_arg_spec,
    project_arg_from, exclude_arg_spec, exclude_arg_from, filter_arg_spec, filter_arg_from,
};
use crate::cliargs::{SimSpec, SampleCount, DataOutputFormat, ShapeOutputFormat, DbArgs};
use crate::querygen::{
    QueryGenStrategy, QueryGenStratBasicRandomSFW, QueryGenStratBasicRandomSEFW,
    QueryGenStratBasicRandomSelectAllFW, QueryGenStratBasicRandomSelectAllEFW,
};

verus! {

pub open spec fn ov(long: Seq<char>, short: Option<char>, takes_value: bool, multiple: bool) -> OptV {
    OptV { long, short, takes_value, multiple }
}

fn push_opt(t: &mut Vec<OptDef>, long: String, short: Option<char>, takes_value: bool, multiple: bool)
    ensures
        opts_view(final(t)@) == opts_view(old(t)@).push(ov(long@, short, takes_value, multiple)),
{
    let ghost before = opts_view(t@);
    t.push(OptDef { long, short, takes_value, multiple });
    proof { assert(opts_view(t@) =~= before.push(ov(long@, short, takes_value, multiple))); }
}

/// The options of a simulation.
pub open spec fn sim_spec_table() -> Seq<OptV> {
    seq![
        ov("seed-auto"@, None, false, false),
        ov("seed"@, None, true, false),
        ov("start-auto"@, None, false, false),
        ov("start-epoch-ms"@, None, true, false),
        ov("start-iso"@, None, true, false),
        ov("script-path"@, None, true, false),
        ov("script"@, None, true, false),
        ov("default-nullable"@, None, true, false),
        ov("pct-null"@, None, true, false),
        ov("default-optional"@, None, true, false),
        ov("pct-optional"@, None, true, false)
    ]
}

fn add_sim_spec_opts(t: &mut Vec<OptDef>)
    ensures
        opts_view(final(t)@) == opts_view(old(t)@) + sim_spec_table(),
{
    let ghost before = opts_view(t@);
    push_opt(t, String::from_str("seed-auto"), None, false, false);
    push_opt(t, String::from_str("seed"), None, true, false);
    push_opt(t, String::from_str("start-auto"), None, false, false);
    push_opt(t, String::from_str("start-epoch-ms"), None, true, false);
    push_opt(t, String::from_str("start-iso"), None, true, false);
    push_opt(t, String::from_str("script-path"), None, true, false);
    push_opt(t, String::from_str("script"), None, true, false);
    push_opt(t, String::from_str("default-nullable"), None, true, false);
    push_opt(t, String::from_str("pct-null"), None, true, false);
    push_opt(t, String::from_str("default-optional"), None, true, false);
    push_opt(t, String::from_str("pct-optional"), None, true, false);
    proof { assert(opts_view(t@) =~= before + sim_spec_table()); }
}

/// The options of a prefixed path group.
pub open spec fn path_table(p: Seq<char>) -> Seq<OptV> {
    seq![
        ov(pname(p, "-path-depth-min"@), None, true, false),
        ov(pname(p, "-path-depth-max"@), None, true, false),
        ov(pname(p, "-pathstep-internal-all"@), None, false, false),
        ov(pname(p, "-pathstep-internal-project"@), None, false, false),
        ov(pname(p, "-pathstep-internal-index"@), None, false, false),
        ov(pname(p, "-pathstep-internal-foreach"@), None, false, false),
        ov(pname(p, "-pathstep-internal-unpivot"@), None, false, false),
        ov(pname(p, "-pathstep-final-all"@), None, false, false),
        ov(pname(p, "-pathstep-final-project"@), None, false, false),
        ov(pname(p, "-pathstep-final-index"@), None, false, false),
        ov(pname(p, "-pathstep-final-foreach"@), None, false, false),
        ov(pname(p, "-pathstep-final-unpivot"@), None, false, false),
        ov(pname(p, "-type-final-all"@), None, false, false),
        ov(pname(p, "-type-final-scalar"@), None, false, false),
        ov(pname(p, "-type-final-sequence"@), None, false, false),
        ov(pname(p, "-type-final-struct"@), None, false, false)
    ]
}

fn add_path_opts(t: &mut Vec<OptDef>, p: &str)
    ensures
        opts_view(final(t)@) == opts_view(old(t)@) + path_table(p@),
{
    let ghost before = opts_view(t@);
    push_opt(t, pname_text(p, "-path-depth-min"), None, true, false);
    push_opt(t, pname_text(p, "-path-depth-max"), None, true, false);
    push_opt(t, pname_text(p, "-pathstep-internal-all"), None, false, false);
    push_opt(t, pname_text(p, "-pathstep-internal-project"), None, false, false);
    push_opt(t, pname_text(p, "-pathstep-internal-index"), None, false, false);
    push_opt(t, pname_text(p, "-pathstep-internal-foreach"), None, false, false);
    push_opt(t, pname_text(p, "-pathstep-internal-unpivot"), None, false, false);
    push_opt(t, pname_text(p, "-pathstep-final-all"), None, false, false);
    push_opt(t, pname_text(p, "-pathstep-final-project"), None, false, false);
    push_opt(t, pname_text(p, "-pathstep-final-index"), None, false, false);
    push_opt(t, pname_text(p, "-pathstep-final-foreach"), None, false, false);
    push_opt(t, pname_text(p, "-pathstep-final-unpivot"), None, false, false);
    push_opt(t, pname_text(p, "-type-final-all"), None, false, false);
    push_opt(t, pname_text(p, "-type-final-scalar"), None, false, false);
    push_opt(t, pname_text(p, "-type-final-sequence"), None, false, false);
    push_opt(t, pname_text(p, "-type-final-struct"), None, false, false);
    proof { assert(opts_view(t@) =~= before + path_table(p@)); }
}

/// The count options of a prefixed group.
pub open spec fn count_table(p: Seq<char>) -> Seq<OptV> {
    seq![ov(pname(p, "-rand-min"@), None, true, false), ov(pname(p, "-rand-max"@), None, true, false)]
}

fn add_count_opts(t: &mut Vec<OptDef>, p: &str)
    ensures
        opts_view(final(t)@) == opts_view(old(t)@) + count_table(p@),
{
    let ghost before = opts_view(t@);
    push_opt(t, pname_text(p, "-rand-min"), None, true, false);
    push_opt(t, pname_text(p, "-rand-max"), None, true, false);
    proof { assert(opts_view(t@) =~= before + count_table(p@)); }
}

/// The predicate switches.
pub open spec fn pred_table() -> Seq<OptV> {
    seq![
        ov("pred-all"@, None, false, false),
        ov("pred-none"@, None, false, false),
        ov("pred-absent"@, None, false, false),
        ov("pred-nullable"@, None, false, false),
        ov("pred-is-null"@, None, false, false),
        ov("pred-is-not-null"@, None, false, false),
        ov("pred-optional"@, None, false, false),
        ov("pred-is-missing"@, None, false, false),
        ov("pred-is-not-missing"@, None, false, false),
        ov("pred-equality"@, None, false, false),
        ov("pred-eq"@, None, false, false),
        ov("pred-neq"@, None, false, false),
        ov("pred-comparison"@, None, false, false),
        ov("pred-lt"@, None, false, false),
        ov("pred-lte"@, None, false, false),
        ov("pred-gt"@, None, false, false),
        ov("pred-gte"@, None, false, false),
        ov("pred-between"@, None, false, false),
        ov("pred-numeric"@, None, false, false),
        ov("pred-like-all"@, None, false, false),
        ov("pred-like"@, None, false, false),
        ov("pred-not-like"@, None, false, false),
        ov("pred-in-all"@, None, false, false),
        ov("pred-in"@, None, false, false),
        ov("pred-not-in"@, None, false, false),
        ov("pred-logical-all"@, None, false, false),
        ov("pred-logical-and"@, None, false, false),
        ov("pred-logical-or"@, None, false, false),
        ov("pred-logical-not"@, None, false, false)
    ]
}

fn add_pred_opts(t: &mut Vec<OptDef>)
    ensures
        opts_view(final(t)@) == opts_view(old(t)@) + pred_table(),
{
    let ghost before = opts_view(t@);
    push_opt(t, String::from_str("pred-all"), None, false, false);
    push_opt(t, String::from_str("pred-none"), None, false, false);
    push_opt(t, String::from_str("pred-absent"), None, false, false);
    push_opt(t, String::from_str("pred-nullable"), None, false, false);
    push_opt(t, String::from_str("pred-is-null"), None, false, false);
    push_opt(t, String::from_str("pred-is-not-null"), None, false, false);
    push_opt(t, String::from_str("pred-optional"), None, false, false);
    push_opt(t, String::from_str("pred-is-missing"), None, false, false);
    push_opt(t, String::from_str("pred-is-not-missing"), None, false, false);
    push_opt(t, String::from_str("pred-equality"), None, false, false);
    push_opt(t, String::from_str("pred-eq"), None, false, false);
    push_opt(t, String::from_str("pred-neq"), None, false, false);
    push_opt(t, String::from_str("pred-comparison"), None, false, false);
    push_opt(t, String::from_str("pred-lt"), None, false, false);
    push_opt(t, String::from_str("pred-lte"), None, false, false);
    push_opt(t, String::from_str("pred-gt"), None, false, false);
    push_opt(t, String::from_str("pred-gte"), None, false, false);
    push_opt(t, String::from_str("pred-between"), None, false, false);
    push_opt(t, String::from_str("pred-numeric"), None, false, false);
    push_opt(t, String::from_str("pred-like-all"), None, false, false);
    push_opt(t, String::from_str("pred-like"), None, false, false);
    push_opt(t, String::from_str("pred-not-like"), None, false, false);
    push_opt(t, String::from_str("pred-in-all"), None, false, false);
    push_opt(t, String::from_str("pred-in"), None, false, false);
    push_opt(t, String::from_str("pred-not-in"), None, false, false);
    push_opt(t, String::from_str("pred-logical-all"), None, false, false);
    push_opt(t, String::from_str("pred-logical-and"), None, false, false);
    push_opt(t, String::from_str("pred-logical-or"), None, false, false);
    push_opt(t, String::from_str("pred-logical-not"), None, false, false);
    proof { assert(opts_view(t@) =~= before + pred_table()); }
}

/// The options of `gen data`.
pub open spec fn gen_data_table() -> Seq<OptV> {
    sim_spec_table() + seq![
        ov("sample-count"@, None, true, false),
        ov("output-format"@, Some('f'), true, false),
        ov("dataset"@, Some('d'), true, true),
    ]
}

fn gen_data_opts() -> (t: Vec<OptDef>)
    ensures
        opts_view(t@) == gen_data_table(),
{
    let mut t: Vec<OptDef> = Vec::new();
    add_sim_spec_opts(&mut t);
    let ghost mid = opts_view(t@);
    push_opt(&mut t, String::from_str("sample-count"), None, true, false);
    push_opt(&mut t, String::from_str("output-format"), Some('f'), true, false);
    push_opt(&mut t, String::from_str("dataset"), Some('d'), true, true);
    proof { assert(opts_view(t@) =~= gen_data_table()); }
    t
}

/// The options of `gen db kollider`.
pub open spec fn kollider_table() -> Seq<OptV> {
    sim_spec_table() + seq![
        ov("sample-count"@, None, true, false),
        ov("catalog-name"@, Some('c'), true, false),
        ov("catalog-path"@, Some('p'), true, false),
        ov("force"@, None, false, false),
        ov("target"@, Some('t'), true, false),
    ]
}

fn kollider_opts() -> (t: Vec<OptDef>)
    ensures
        opts_view(t@) == kollider_table(),
{
    let mut t: Vec<OptDef> = Vec::new();
    add_sim_spec_opts(&mut t);
    push_opt(&mut t, String::from_str("sample-count"), None, true, false);
    push_opt(&mut t, String::from_str("catalog-name"), Some('c'), true, false);
    push_opt(&mut t, String::from_str("catalog-path"), Some('p'), true, false);
    push_opt(&mut t, String::from_str("force"), None, false, false);
    push_opt(&mut t, String::from_str("target"), Some('t'), true, false);
    proof { assert(opts_view(t@) =~= kollider_table()); }
    t
}

/// The options of `infer-shape`.
pub open spec fn infer_table() -> Seq<OptV> {
    sim_spec_table() + seq![ov("output-format"@, Some('f'), true, false)]
}

fn infer_opts() -> (t: Vec<OptDef>)
    ensures
        opts_view(t@) == infer_table(),
{
    let mut t: Vec<OptDef> = Vec::new();
    add_sim_spec_opts(&mut t);
    push_opt(&mut t, String::from_str("output-format"), Some('f'), true, false);
    proof { assert(opts_view(t@) =~= infer_table()); }
    t
}

/// The options of `query basic`, before its strategy.
pub open spec fn basic_table() -> Seq<OptV> {
    seq![ov("sample-count"@, None, true, false)] + sim_spec_table()
}

fn basic_opts() -> (t: Vec<OptDef>)
    ensures
        opts_view(t@) == basic_table(),
{
    let mut t: Vec<OptDef> = Vec::new();
    push_opt(&mut t, String::from_str("sample-count"), None, true, false);
    add_sim_spec_opts(&mut t);
    proof { assert(opts_view(t@) =~= basic_table()); }
    t
}

/// The options of a query strategy: projections, exclusions, then the
/// table filter, each where the strategy has them.
pub open spec fn strategy_table(projections: bool, exclusions: bool) -> Seq<OptV> {
    (if projections { count_table("project"@) + path_table("project"@) } else { Seq::<OptV>::empty() })
        + (if exclusions { count_table("exclude"@) + path_table("exclude"@) } else { Seq::<OptV>::empty() })
        + (count_table("tbl-flt"@) + pred_table() + path_table("tbl-flt"@))
}

fn strategy_opts(projections: bool, exclusions: bool) -> (t: Vec<OptDef>)
    ensures
        opts_view(t@) == strategy_table(projections, exclusions),
{
    let mut t: Vec<OptDef> = Vec::new();
    let ghost empty = opts_view(t@);
    if projections {
        add_count_opts(&mut t, "project");
        add_path_opts(&mut t, "project");
    }
    let ghost a = opts_view(t@);
    if exclusions {
        add_count_opts(&mut t, "exclude");
        add_path_opts(&mut t, "exclude");
    }
    let ghost b = opts_view(t@);
    add_count_opts(&mut t, "tbl-flt");
    add_pred_opts(&mut t);
    add_path_opts(&mut t, "tbl-flt");
    proof {
        assert(empty =~= Seq::<OptV>::empty());
        let pa = if projections { count_table("project"@) + path_table("project"@) } else { Seq::<OptV>::empty() };
        let ex = if exclusions { count_table("exclude"@) + path_table("exclude"@) } else { Seq::<OptV>::empty() };
        assert(a =~= pa);
        assert(b =~= pa + ex);
        assert(opts_view(t@) =~= strategy_table(projections, exclusions));
    }
    t
}

/// The options of a command that takes no subcommand, read from token `i`
/// on: every token must be an option, none given twice that may be given
/// once.
pub open spec fn leaf_spec(t: Seq<OptV>, a: Seq<Seq<char>>, i: int) -> Result<Seq<OccV>, CliErrorV> {
    match scan_options(t, a, i) {
        Err(e) => Err(e),
        Ok((o, j)) => if 0 <= j < a.len() {
            Err(CliErrorV::UnknownArgument(a[j]))
        } else {
            match first_duplicate(t, o, 0) {
                Some(n) => Err(CliErrorV::DuplicateArgument(n)),
                None => Ok(o),
            }
        },
    }
}

fn leaf_exec(t: &Vec<OptDef>, args: &Vec<String>, i: usize) -> (r: Result<Vec<Occ>, CliError>)
    requires
        i <= args@.len(),
    ensures
        match leaf_spec(opts_view(t@), strings_view(args@), i as int) {
            Ok(o) => r matches Ok(v) && occs_view(v@) == o,
            Err(e) => r matches Err(x) && x@ == e,
        },
{
    match scan_options_exec(t, args, i) {
        Err(e) => Err(e),
        Ok((occs, j)) => {
            if j < args.len() {
                proof { assert(strings_view(args@)[j as int] == args@[j as int]@); }
                return Err(CliError::UnknownArgument(args[j].clone()));
            }
            match check_duplicates(t, &occs) {
                Err(e) => Err(e),
                Ok(()) => Ok(occs),
            }
        },
    }
}

/// The options of a command that takes a subcommand, read from token `i`
/// on, and the position of the subcommand's name.
pub open spec fn branch_spec(t: Seq<OptV>, a: Seq<Seq<char>>, i: int) -> Result<(Seq<OccV>, int), CliErrorV> {
    match scan_options(t, a, i) {
        Err(e) => Err(e),
        Ok((o, j)) => match first_duplicate(t, o, 0) {
            Some(n) => Err(CliErrorV::DuplicateArgument(n)),
            None => Ok((o, j)),
        },
    }
}

/// The name of the subcommand at token `i`.
pub open spec fn sub_name(a: Seq<Seq<char>>, i: int) -> Result<Seq<char>, CliErrorV> {
    if i < 0 || i >= a.len() {
        Err(CliErrorV::MissingSubcommand)
    } else if a[i] == "--help"@ || a[i] == "-h"@ || a[i] == "help"@ {
        Err(CliErrorV::DisplayHelp)
    } else if is_long_token(a[i]) || is_short_token(a[i]) {
        Err(CliErrorV::UnknownArgument(a[i]))
    } else {
        Ok(a[i])
    }
}

fn sub_name_exec(args: &Vec<String>, i: usize) -> (r: Result<&String, CliError>)
    ensures
        match sub_name(strings_view(args@), i as int) {
            Ok(n) => r matches Ok(x) && x@ == n && i < args@.len() && args@.len() <= usize::MAX,
            Err(e) => r matches Err(x) && x@ == e,
        },
{
    if i >= args.len() {
        return Err(CliError::MissingSubcommand);
    }
    proof { assert(strings_view(args@)[i as int] == args@[i as int]@); }
    let a = args[i].as_str();
    if is_text(a, "--help") || is_text(a, "-h") || is_text(a, "help") {
        return Err(CliError::DisplayHelp);
    }
    let n = a.unicode_len();
    if n >= 2 && a.get_char(0) == '-' && !(n == 2 && a.get_char(1) == '-') {
        return Err(CliError::UnknownArgument(args[i].clone()));
    }
    Ok(&args[i])
}

fn is_name(s: &String, lit: &str) -> (r: bool)
    ensures
        r == (s@ == lit@),
{
    let l = String::from_str(lit);
    *s == l
}

/// A command line of the Beamline tools.
#[derive(Debug)]
pub struct Cli {
    pub commands: Commands,
}

#[derive(Debug)]
pub enum Commands {
    /// Run the generator.
    Gen(Gen),
    /// Run the script shape inference.
    InferShape { spec: SimSpec, output_format: ShapeOutputFormat },
    /// Run the query generator.
    Query(QueryGen),
}

#[derive(Debug)]
pub enum Gen {
    /// Run the data generator.
    Data { spec: SimSpec, sample_count: SampleCount, output_format: DataOutputFormat, datasets: Vec<String> },
    /// Run the database generator, with both data and schemas.
    Db(Db),
}

#[derive(Debug)]
pub enum Db {
    Kollider { spec: SimSpec, sample_count: SampleCount, db_args: DbArgs },
}

#[derive(Debug)]
pub enum QueryGen {
    Basic { samples: SampleCount, source: SimSpec, strat: QueryGenStrategy },
}

/// The first error of `gen data` from token `i` on, if any.
pub open spec fn gen_data_error(a: Seq<Seq<char>>, i: int) -> Option<CliErrorV> {
    match leaf_spec(gen_data_table(), a, i) {
        Err(e) => Some(e),
        Ok(o) => first_some(sim_spec_error(o), first_some(err_of(sample_count_spec(o)), err_of(data_format_spec(o)))),
    }
}

/// `g` is what `gen data` reads from token `i` on.
pub open spec fn gen_data_matches(a: Seq<Seq<char>>, i: int, g: Gen) -> bool {
    let o = leaf_spec(gen_data_table(), a, i)->Ok_0;
    &&& leaf_spec(gen_data_table(), a, i) is Ok
    &&& g matches Gen::Data { spec, sample_count, output_format, datasets }
        && sim_spec_matches(o, spec)
        && sample_count_spec(o) == Ok::<SampleCount, CliErrorV>(sample_count)
        && data_format_spec(o) == Ok::<DataOutputFormat, CliErrorV>(output_format)
        && strings_view(datasets@) == all_values(o, "dataset"@)
}

fn gen_data_exec(args: &Vec<String>, i: usize) -> (r: Result<Gen, CliError>)
    requires
        i <= args@.len(),
    ensures
        match gen_data_error(strings_view(args@), i as int) {
            None => r matches Ok(g) && gen_data_matches(strings_view(args@), i as int, g),
            Some(e) => r matches Err(x) && x@ == e,
        },
{
    let t = gen_data_opts();
    let occs = match leaf_exec(&t, args, i) {
        Ok(o) => o,
        Err(e) => return Err(e),
    };
    let spec = match sim_spec_from(&occs) {
        Ok(s) => s,
        Err(e) => return Err(e),
    };
    let sample_count = match sample_count_from(&occs) {
        Ok(s) => s,
        Err(e) => return Err(e),
    };
    let output_format = match data_format_from(&occs) {
        Ok(f) => f,
        Err(e) => return Err(e),
    };
    let datasets = values_of(&occs, "dataset");
    Ok(Gen::Data { spec, sample_count, output_format, datasets })
}

/// The first error of `gen db kollider` from token `i` on, if any.
pub open spec fn kollider_error(a: Seq<Seq<char>>, i: int) -> Option<CliErrorV> {
    match leaf_spec(kollider_table(), a, i) {
        Err(e) => Some(e),
        Ok(o) => first_some(sim_spec_error(o), first_some(err_of(sample_count_spec(o)), err_of(db_args_spec(o)))),
    }
}

/// `d` is what `gen db kollider` reads from token `i` on.
pub open spec fn kollider_matches(a: Seq<Seq<char>>, i: int, d: Db) -> bool {
    let o = leaf_spec(kollider_table(), a, i)->Ok_0;
    &&& leaf_spec(kollider_table(), a, i) is Ok
    &&& d matches Db::Kollider { spec, sample_count, db_args }
        && sim_spec_matches(o, spec)
        && sample_count_spec(o) == Ok::<SampleCount, CliErrorV>(sample_count)
        && db_args_spec(o) == Ok::<(Seq<char>, Seq<char>, bool, crate::cliargs::DbTarget), CliErrorV>(db_args_view(db_args))
}

fn kollider_exec(args: &Vec<String>, i: usize) -> (r: Result<Db, CliError>)
    requires
        i <= args@.len(),
    ensures
        match kollider_error(strings_view(args@), i as int) {
            None => r matches Ok(d) && kollider_matches(strings_view(args@), i as int, d),
            Some(e) => r matches Err(x) && x@ == e,
        },
{
    let t = kollider_opts();
    let occs = match leaf_exec(&t, args, i) {
        Ok(o) => o,
        Err(e) => return Err(e),
    };
    let spec = match sim_spec_from(&occs) {
        Ok(s) => s,
        Err(e) => return Err(e),
    };
    let sample_count = match sample_count_from(&occs) {
        Ok(s) => s,
        Err(e) => return Err(e),
    };
    let db_args = match db_args_from(&occs) {
        Ok(d) => d,
        Err(e) => return Err(e),
    };
    Ok(Db::Kollider { spec, sample_count, db_args })
}

/// The first error of `infer-shape` from token `i` on, if any.
pub open spec fn infer_error(a: Seq<Seq<char>>, i: int) -> Option<CliErrorV> {
    match leaf_spec(infer_table(), a, i) {
        Err(e) => Some(e),
        Ok(o) => first_some(sim_spec_error(o), err_of(shape_format_spec(o))),
    }
}

/// `c` is what `infer-shape` reads from token `i` on.
pub open spec fn infer_matches(a: Seq<Seq<char>>, i: int, c: Commands) -> bool {
    let o = leaf_spec(infer_table(), a, i)->Ok_0;
    &&& leaf_spec(infer_table(), a, i) is Ok
    &&& c matches Commands::InferShape { spec, output_format }
        && sim_spec_matches(o, spec)
        && shape_format_spec(o) == Ok::<ShapeOutputFormat, CliErrorV>(output_format)
}

fn infer_exec(args: &Vec<String>, i: usize) -> (r: Result<Commands, CliError>)
    requires
        i <= args@.len(),
    ensures
        match infer_error(strings_view(args@), i as int) {
            None => r matches Ok(c) && infer_matches(strings_view(args@), i as int, c),
            Some(e) => r matches Err(x) && x@ == e,
        },
{
    let t = infer_opts();
    let occs = match leaf_exec(&t, args, i) {
        Ok(o) => o,
        Err(e) => return Err(e),
    };
    let spec = match sim_spec_from(&occs) {
        Ok(s) => s,
        Err(e) => return Err(e),
    };
    let output_format = match shape_format_from(&occs) {
        Ok(f) => f,
        Err(e) => return Err(e),
    };
    Ok(Commands::InferShape { spec, output_format })
}

/// The query strategy named `name`, read from token `i` on.
pub open spec fn strategy_spec(a: Seq<Seq<char>>, i: int, name: Seq<char>) -> Result<QueryGenStrategy, CliErrorV> {
    if name == "rand-sfw"@ {
        match leaf_spec(strategy_table(true, false), a, i) {
            Err(e) => Err(e),
            Ok(o) => match project_arg_spec(o) {
                Err(e) => Err(e),
                Ok(p) => match filter_arg_spec(o) {
                    Err(e) => Err(e),
                    Ok(f) => Ok(QueryGenStrategy::RandSFW(QueryGenStratBasicRandomSFW { projections: p, table_filter: f })),
                },
            },
        }
    } else if name == "rand-sefw"@ {
        match leaf_spec(strategy_table(true, true), a, i) {
            Err(e) => Err(e),
            Ok(o) => match project_arg_spec(o) {
                Err(e) => Err(e),
                Ok(p) => match exclude_arg_spec(o) {
                    Err(e) => Err(e),
                    Ok(x) => match filter_arg_spec(o) {
                        Err(e) => Err(e),
                        Ok(f) => Ok(QueryGenStrategy::RandSEFW(QueryGenStratBasicRandomSEFW { projections: p, exclusions: x, table_filter: f })),
                    },
                },
            },
        }
    } else if name == "rand-select-all-fw"@ {
        match leaf_spec(strategy_table(false, false), a, i) {
            Err(e) => Err(e),
            Ok(o) => match filter_arg_spec(o) {
                Err(e) => Err(e),
                Ok(f) => Ok(QueryGenStrategy::RandSelectAllFW(QueryGenStratBasicRandomSelectAllFW { table_filter: f })),
            },
        }
    } else if name == "rand-select-all-efw"@ {
        match leaf_spec(strategy_table(false, true), a, i) {
            Err(e) => Err(e),
            Ok(o) => match exclude_arg_spec(o) {
                Err(e) => Err(e),
                Ok(x) => match filter_arg_spec(o) {
                    Err(e) => Err(e),
                    Ok(f) => Ok(QueryGenStrategy::RandSelectAllEFW(QueryGenStratBasicRandomSelectAllEFW { exclusions: x, table_filter: f })),
                },
            },
        }
    } else {
        Err(CliErrorV::UnknownSubcommand(name))
    }
}

fn strategy_exec(args: &Vec<String>, i: usize, name: &String) -> (r: Result<QueryGenStrategy, CliError>)
    requires
        i <= args@.len(),
    ensures
        res_view(r) == strategy_spec(strings_view(args@), i as int, name@),
{
    if is_name(name, "rand-sfw") {
        let t = strategy_opts(true, false);
        let occs = match leaf_exec(&t, args, i) {
            Ok(o) => o,
            Err(e) => return Err(e),
        };
        let p = match project_arg_from(&occs) {
            Ok(p) => p,
            Err(e) => return Err(e),
        };
        let f = match filter_arg_from(&occs) {
            Ok(f) => f,
            Err(e) => return Err(e),
        };
        Ok(QueryGenStrategy::RandSFW(QueryGenStratBasicRandomSFW { projections: p, table_filter: f }))
    } else if is_name(name, "rand-sefw") {
        let t = strategy_opts(true, true);
        let occs = match leaf_exec(&t, args, i) {
            Ok(o) => o,
            Err(e) => return Err(e),
        };
        let p = match project_arg_from(&occs) {
            Ok(p) => p,
            Err(e) => return Err(e),
        };
        let x = match exclude_arg_from(&occs) {
            Ok(x) => x,
            Err(e) => return Err(e),
        };
        let f = match filter_arg_from(&occs) {
            Ok(f) => f,
            Err(e) => return Err(e),
        };
        Ok(QueryGenStrategy::RandSEFW(QueryGenStratBasicRandomSEFW { projections: p, exclusions: x, table_filter: f }))
    } else if is_name(name, "rand-select-all-fw") {
        let t = strategy_opts(false, false);
        let occs = match leaf_exec(&t, args, i) {
            Ok(o) => o,
            Err(e) => return Err(e),
        };
        let f = match filter_arg_from(&occs) {
            Ok(f) => f,
            Err(e) => return Err(e),
        };
        Ok(QueryGenStrategy::RandSelectAllFW(QueryGenStratBasicRandomSelectAllFW { table_filter: f }))
    } else if is_name(name, "rand-select-all-efw") {
        let t = strategy_opts(false, true);
        let occs = match leaf_exec(&t, args, i) {
            Ok(o) => o,
            Err(e) => return Err(e),
        };
        let x = match exclude_arg_from(&occs) {
            Ok(x) => x,
            Err(e) => return Err(e),
        };
        let f = match filter_arg_from(&occs) {
            Ok(f) => f,
            Err(e) => return Err(e),
        };
        Ok(QueryGenStrategy::RandSelectAllEFW(QueryGenStratBasicRandomSelectAllEFW { exclusions: x, table_filter: f }))
    } else {
        Err(CliError::UnknownSubcommand(name.clone()))
    }
}

/// The first error of `query basic` from token `i` on, if any.
pub open spec fn query_basic_error(a: Seq<Seq<char>>, i: int) -> Option<CliErrorV> {
    match branch_spec(basic_table(), a, i) {
        Err(e) => Some(e),
        Ok((o, j)) => first_some(err_of(sample_count_spec(o)), first_some(sim_spec_error(o),
            match sub_name(a, j) {
                Err(e) => Some(e),
                Ok(n) => err_of(strategy_spec(a, j + 1, n)),
            })),
    }
}

/// `q` is what `query basic` reads from token `i` on.
pub open spec fn query_basic_matches(a: Seq<Seq<char>>, i: int, q: QueryGen) -> bool {
    let (o, j) = branch_spec(basic_table(), a, i)->Ok_0;
    &&& branch_spec(basic_table(), a, i) is Ok
    &&& sub_name(a, j) is Ok
    &&& q matches QueryGen::Basic { samples, source, strat }
        && sample_count_spec(o) == Ok::<SampleCount, CliErrorV>(samples)
        && sim_spec_matches(o, source)
        && strategy_spec(a, j + 1, sub_name(a, j)->Ok_0) == Ok::<QueryGenStrategy, CliErrorV>(strat)
}

fn query_basic_exec(args: &Vec<String>, i: usize) -> (r: Result<QueryGen, CliError>)
    requires
        i <= args@.len(),
    ensures
        match query_basic_error(strings_view(args@), i as int) {
            None => r matches Ok(q) && query_basic_matches(strings_view(args@), i as int, q),
            Some(e) => r matches Err(x) && x@ == e,
        },
{
    let t = basic_opts();
    let (occs, j) = match scan_options_exec(&t, args, i) {
        Ok(p) => p,
        Err(e) => return Err(e),
    };
    match check_duplicates(&t, &occs) {
        Ok(()) => {},
        Err(e) => return Err(e),
    }
    let samples = match sample_count_from(&occs) {
        Ok(s) => s,
        Err(e) => return Err(e),
    };
    let source = match sim_spec_from(&occs) {
        Ok(s) => s,
        Err(e) => return Err(e),
    };
    let name = match sub_name_exec(args, j) {
        Ok(n) => n,
        Err(e) => return Err(e),
    };
    let strat = match strategy_exec(args, j + 1, name) {
        Ok(s) => s,
        Err(e) => return Err(e),
    };
    Ok(QueryGen::Basic { samples, source, strat })
}

/// The first error of `gen` from token `i` on, if any.
pub open spec fn gen_error(a: Seq<Seq<char>>, i: int) -> Option<CliErrorV> {
    match sub_name(a, i) {
        Err(e) => Some(e),
        Ok(n) => if n == "data"@ {
            gen_data_error(a, i + 1)
        } else if n == "db"@ {
            match sub_name(a, i + 1) {
                Err(e) => Some(e),
                Ok(m) => if m == "kollider"@ { kollider_error(a, i + 2) } else { Some(CliErrorV::UnknownSubcommand(m)) },
            }
        } else {
            Some(CliErrorV::UnknownSubcommand(n))
        },
    }
}

/// `g` is what `gen` reads from token `i` on.
pub open spec fn gen_matches(a: Seq<Seq<char>>, i: int, g: Gen) -> bool {
    if sub_name(a, i) == Ok::<Seq<char>, CliErrorV>("data"@) {
        gen_data_matches(a, i + 1, g)
    } else {
        &&& sub_name(a, i) == Ok::<Seq<char>, CliErrorV>("db"@)
        &&& sub_name(a, i + 1) == Ok::<Seq<char>, CliErrorV>("kollider"@)
        &&& g matches Gen::Db(d) && kollider_matches(a, i + 2, d)
    }
}

fn gen_exec(args: &Vec<String>, i: usize) -> (r: Result<Gen, CliError>)
    ensures
        match gen_error(strings_view(args@), i as int) {
            None => r matches Ok(g) && gen_matches(strings_view(args@), i as int, g),
            Some(e) => r matches Err(x) && x@ == e,
        },
{
    let name = match sub_name_exec(args, i) {
        Ok(n) => n,
        Err(e) => return Err(e),
    };
    if is_name(name, "data") {
        gen_data_exec(args, i + 1)
    } else if is_name(name, "db") {
        let inner = match sub_name_exec(args, i + 1) {
            Ok(n) => n,
            Err(e) => return Err(e),
        };
        if is_name(inner, "kollider") {
            match kollider_exec(args, i + 2) {
                Ok(d) => Ok(Gen::Db(d)),
                Err(e) => Err(e),
            }
        } else {
            Err(CliError::UnknownSubcommand(inner.clone()))
        }
    } else {
        Err(CliError::UnknownSubcommand(name.clone()))
    }
}

/// The first error of `query` from token `i` on, if any.
pub open spec fn query_error(a: Seq<Seq<char>>, i: int) -> Option<CliErrorV> {
    match sub_name(a, i) {
        Err(e) => Some(e),
        Ok(n) => if n == "basic"@ { query_basic_error(a, i + 1) } else { Some(CliErrorV::UnknownSubcommand(n)) },
    }
}

fn query_exec(args: &Vec<String>, i: usize) -> (r: Result<QueryGen, CliError>)
    ensures
        match query_error(strings_view(args@), i as int) {
            None => r matches Ok(q) && sub_name(strings_view(args@), i as int) == Ok::<Seq<char>, CliErrorV>("basic"@)
                && query_basic_matches(strings_view(args@), i as int + 1, q),
            Some(e) => r matches Err(x) && x@ == e,
        },
{
    let name = match sub_name_exec(args, i) {
        Ok(n) => n,
        Err(e) => return Err(e),
    };
    if is_name(name, "basic") {
        query_basic_exec(args, i + 1)
    } else {
        Err(CliError::UnknownSubcommand(name.clone()))
    }
}

/// The position of the first argument after the program's name.
pub open spec fn first_arg(a: Seq<Seq<char>>) -> int {
    if a.len() > 0 { 1 } else { 0 }
}

/// The first error of a whole command line (the program's name first), if
/// any.
pub open spec fn cli_error(a: Seq<Seq<char>>) -> Option<CliErrorV> {
    let i = first_arg(a);
    if 0 <= i < a.len() && (a[i] == "--version"@ || a[i] == "-V"@) {
        Some(CliErrorV::DisplayVersion)
    } else {
        match sub_name(a, i) {
            Err(e) => Some(e),
            Ok(n) => if n == "gen"@ {
                gen_error(a, i + 1)
            } else if n == "infer-shape"@ {
                infer_error(a, i + 1)
            } else if n == "query"@ {
                query_error(a, i + 1)
            } else {
                Some(CliErrorV::UnknownSubcommand(n))
            },
        }
    }
}

/// `c` is what a whole command line reads as.
pub open spec fn cli_matches(a: Seq<Seq<char>>, c: Cli) -> bool {
    let i = first_arg(a);
    match c.commands {
        Commands::Gen(g) => sub_name(a, i) == Ok::<Seq<char>, CliErrorV>("gen"@) && gen_matches(a, i + 1, g),
        Commands::InferShape { .. } => sub_name(a, i) == Ok::<Seq<char>, CliErrorV>("infer-shape"@)
            && infer_matches(a, i + 1, c.commands),
        Commands::Query(q) => sub_name(a, i) == Ok::<Seq<char>, CliErrorV>("query"@)
            && sub_name(a, i + 1) == Ok::<Seq<char>, CliErrorV>("basic"@)
            && query_basic_matches(a, i + 2, q),
    }
}

/// Reads a command line, the program's name first. It is refused exactly
/// when `cli_error` names an error, with that error; otherwise the command
/// holds what the options say.
pub fn parse_command_line(args: &Vec<String>) -> (r: Result<Cli, CliError>)
    ensures
        match cli_error(strings_view(args@)) {
            None => r matches Ok(c) && cli_matches(strings_view(args@), c),
            Some(e) => r matches Err(x) && x@ == e,
        },
{
    let i: usize = if args.len() > 0 { 1 } else { 0 };
    if i < args.len() {
        proof { assert(strings_view(args@)[i as int] == args@[i as int]@); }
        if is_text(args[i].as_str(), "--version") || is_text(args[i].as_str(), "-V") {
            return Err(CliError::DisplayVersion);
        }
    }
    let name = match sub_name_exec(args, i) {
        Ok(n) => n,
        Err(e) => return Err(e),
    };
    if is_name(name, "gen") {
        match gen_exec(args, i + 1) {
            Ok(g) => Ok(Cli { commands: Commands::Gen(g) }),
            Err(e) => Err(e),
        }
    } else if is_name(name, "infer-shape") {
        match infer_exec(args, i + 1) {
            Ok(c) => Ok(Cli { commands: c }),
            Err(e) => Err(e),
        }
    } else if is_name(name, "query") {
        match query_exec(args, i + 1) {
            Ok(q) => Ok(Cli { commands: Commands::Query(q) }),
            Err(e) => Err(e),
        }
    } else {
        Err(CliError::UnknownSubcommand(name.clone()))
    }
}

} // verus!
