//! The commands of the Beamline tools and how a command line becomes one:
//! `gen data`, `gen db kollider`, `infer-shape` and `query basic` with its
//! query strategies.
use vstd::prelude::*;
use crate::cmdline::{Occ, OccV, CliError, CliErrorV, occs_view, first_value, present, value_of};
use crate::numparse::{parse_int_spec, parse_u64, parse_i64, int_error_message, int_error_text};
use crate::text::{signed_decimal, push_signed_decimal};
use crate::querygen::{ProjectListArg, ProjectListCountArg, ProjectListPathSpecArg, TableFilterArg, TableFilterCountArg, TableFilterPathSpecArg, ExcludeListArg, ExcludeListCountArg, ExcludeListPathSpecArg, PredicateFlagArgs};
use crate::cliargs::{Seed, StartTime, Timestamp, Script, Nullability, Optionality, SimSpec, SampleCount, DataOutputFormat, ShapeOutputFormat, DbArgs, DbTarget, epoch_ms_parser, iso_parser, epoch_instant, iso8601_parse};

verus! {

/// An error as plain values.
pub open spec fn res_view<T>(r: Result<T, CliError>) -> Result<T, CliErrorV> {
    match r {
        Ok(t) => Ok(t),
        Err(e) => Err(e@),
    }
}

/// The flag as written on the command line.
pub open spec fn flag(name: Seq<char>) -> Seq<char> {
    "--"@ + name
}

fn flag_text(name: &str) -> (s: String)
    ensures
        s@ == flag(name@),
{
    let mut s = String::from_str("--");
    s.append(name);
    s
}

fn invalid_value(name: &str, value: String, reason: String) -> (e: CliError)
    ensures
        e@ == (CliErrorV::InvalidValue { arg: flag(name@), value: value@, reason: reason@ }),
{
    CliError::InvalidValue { arg: flag_text(name), value, reason }
}

/// The text given with an option, if it was given.
pub open spec fn given(o: Seq<OccV>, name: Seq<char>) -> Option<Seq<char>> {
    first_value(o, name)
}

/// An optional `u64` option.
pub open spec fn opt_u64(o: Seq<OccV>, name: Seq<char>) -> Result<Option<u64>, CliErrorV> {
    match given(o, name) {
        None => Ok(None),
        Some(v) => match parse_int_spec(v, 0, u64::MAX as int, false) {
            Ok(x) => Ok(Some(x as u64)),
            Err(k) => Err(CliErrorV::InvalidValue { arg: flag(name), value: v, reason: int_error_message(k) }),
        },
    }
}

/// The reason a number is refused for a `u8` option.
pub open spec fn not_a_u8_message(x: int) -> Seq<char> {
    signed_decimal(x) + " is not in 0..=255"@
}

/// An optional `u8` option: read as an `i64`, then checked to be in range.
pub open spec fn opt_u8(o: Seq<OccV>, name: Seq<char>) -> Result<Option<u8>, CliErrorV> {
    match given(o, name) {
        None => Ok(None),
        Some(v) => match parse_int_spec(v, i64::MIN as int, i64::MAX as int, true) {
            Ok(x) => if 0 <= x <= 255 {
                Ok(Some(x as u8))
            } else {
                Err(CliErrorV::InvalidValue { arg: flag(name), value: v, reason: not_a_u8_message(x) })
            },
            Err(k) => Err(CliErrorV::InvalidValue { arg: flag(name), value: v, reason: int_error_message(k) }),
        },
    }
}

/// A required `u8` option.
pub open spec fn req_u8(o: Seq<OccV>, name: Seq<char>) -> Result<u8, CliErrorV> {
    match opt_u8(o, name) {
        Ok(Some(x)) => Ok(x),
        Ok(None) => Err(CliErrorV::MissingRequired(flag(name))),
        Err(e) => Err(e),
    }
}

/// The reason a text is refused for a `bool` option.
pub open spec fn bool_values_message() -> Seq<char> {
    "possible values: true, false"@
}

/// An optional `bool` option, written `true` or `false`.
pub open spec fn opt_bool(o: Seq<OccV>, name: Seq<char>) -> Result<Option<bool>, CliErrorV> {
    match given(o, name) {
        None => Ok(None),
        Some(v) => if v == "true"@ {
            Ok(Some(true))
        } else if v == "false"@ {
            Ok(Some(false))
        } else {
            Err(CliErrorV::InvalidValue { arg: flag(name), value: v, reason: bool_values_message() })
        },
    }
}

fn opt_u64_exec(occs: &Vec<Occ>, name: &str) -> (r: Result<Option<u64>, CliError>)
    ensures
        res_view(r) == opt_u64(occs_view(occs@), name@),
{
    match value_of(occs, name) {
        None => Ok(None),
        Some(v) => match parse_u64(v.as_str()) {
            Ok(x) => Ok(Some(x)),
            Err(k) => Err(invalid_value(name, v, int_error_text(k))),
        },
    }
}

fn not_a_u8_text(x: i64) -> (s: String)
    ensures
        s@ == not_a_u8_message(x as int),
{
    let mut s = String::new();
    push_signed_decimal(&mut s, x);
    s.append(" is not in 0..=255");
    proof { assert(s@ =~= not_a_u8_message(x as int)); }
    s
}

fn opt_u8_exec(occs: &Vec<Occ>, name: &str) -> (r: Result<Option<u8>, CliError>)
    ensures
        res_view(r) == opt_u8(occs_view(occs@), name@),
{
    match value_of(occs, name) {
        None => Ok(None),
        Some(v) => match parse_i64(v.as_str()) {
            Ok(x) => if 0 <= x && x <= 255 {
                Ok(Some(x as u8))
            } else {
                Err(invalid_value(name, v, not_a_u8_text(x)))
            },
            Err(k) => Err(invalid_value(name, v, int_error_text(k))),
        },
    }
}

fn req_u8_exec(occs: &Vec<Occ>, name: &str) -> (r: Result<u8, CliError>)
    ensures
        res_view(r) == req_u8(occs_view(occs@), name@),
{
    match opt_u8_exec(occs, name) {
        Ok(Some(x)) => Ok(x),
        Ok(None) => Err(CliError::MissingRequired(flag_text(name))),
        Err(e) => Err(e),
    }
}

fn opt_bool_exec(occs: &Vec<Occ>, name: &str) -> (r: Result<Option<bool>, CliError>)
    ensures
        res_view(r) == opt_bool(occs_view(occs@), name@),
{
    match value_of(occs, name) {
        None => Ok(None),
        Some(v) => if v == String::from_str("true") {
            Ok(Some(true))
        } else if v == String::from_str("false") {
            Ok(Some(false))
        } else {
            Err(invalid_value(name, v, String::from_str("possible values: true, false")))
        },
    }
}

fn present_exec(occs: &Vec<Occ>, name: &str) -> (r: bool)
    ensures
        r == present(occs_view(occs@), name@),
{
    value_of(occs, name).is_some()
}

/// The first error of a step, if it failed.
pub open spec fn err_of<T>(r: Result<T, CliErrorV>) -> Option<CliErrorV> {
    match r {
        Ok(_) => None,
        Err(e) => Some(e),
    }
}

pub open spec fn opt_view(o: Option<String>) -> Option<Seq<char>> {
    match o {
        Some(s) => Some(s@),
        None => None,
    }
}

/// The seed: exactly one of `--seed-auto` and `--seed`.
pub open spec fn seed_spec(o: Seq<OccV>) -> Result<Seed, CliErrorV> {
    let auto = present(o, "seed-auto"@);
    let fixed = present(o, "seed"@);
    if auto && fixed {
        Err(CliErrorV::Conflict(flag("seed-auto"@), flag("seed"@)))
    } else if !auto && !fixed {
        Err(CliErrorV::MissingRequired("--seed-auto|--seed"@))
    } else {
        match opt_u64(o, "seed"@) {
            Ok(s) => Ok(Seed { seed_auto: auto, seed: s }),
            Err(e) => Err(e),
        }
    }
}

pub fn seed_from(occs: &Vec<Occ>) -> (r: Result<Seed, CliError>)
    ensures
        res_view(r) == seed_spec(occs_view(occs@)),
{
    let auto = present_exec(occs, "seed-auto");
    let fixed = present_exec(occs, "seed");
    if auto && fixed {
        Err(CliError::Conflict(flag_text("seed-auto"), flag_text("seed")))
    } else if !auto && !fixed {
        Err(CliError::MissingRequired(String::from_str("--seed-auto|--seed")))
    } else {
        match opt_u64_exec(occs, "seed") {
            Ok(s) => Ok(Seed { seed_auto: auto, seed: s }),
            Err(e) => Err(e),
        }
    }
}

/// An optional start-time option, read by `read` (`epoch_instant` or
/// `iso8601_parse`).
pub open spec fn opt_instant(o: Seq<OccV>, name: Seq<char>, iso: bool) -> Result<Option<Timestamp>, CliErrorV> {
    match given(o, name) {
        None => Ok(None),
        Some(v) => match (if iso { iso8601_parse(v) } else { epoch_instant(v) }) {
            Ok((n, off)) => Ok(Some(Timestamp { unix_nanos: n as i128, offset_seconds: off as i32 })),
            Err(m) => Err(CliErrorV::InvalidValue { arg: flag(name), value: v, reason: m }),
        },
    }
}

fn opt_instant_exec(occs: &Vec<Occ>, name: &str, iso: bool) -> (r: Result<Option<Timestamp>, CliError>)
    ensures
        res_view(r) == opt_instant(occs_view(occs@), name@, iso),
{
    match value_of(occs, name) {
        None => Ok(None),
        Some(v) => {
            let parsed = if iso { iso_parser(v.as_str()) } else { epoch_ms_parser(v.as_str()) };
            match parsed {
                Ok(ts) => Ok(Some(ts)),
                Err(m) => Err(invalid_value(name, v, m)),
            }
        },
    }
}

/// The start time: exactly one of `--start-auto`, `--start-epoch-ms` and
/// `--start-iso`.
pub open spec fn start_time_spec(o: Seq<OccV>) -> Result<StartTime, CliErrorV> {
    let auto = present(o, "start-auto"@);
    let ep = present(o, "start-epoch-ms"@);
    let iso = present(o, "start-iso"@);
    if ep && iso {
        Err(CliErrorV::Conflict(flag("start-epoch-ms"@), flag("start-iso"@)))
    } else if auto && ep {
        Err(CliErrorV::Conflict(flag("start-auto"@), flag("start-epoch-ms"@)))
    } else if auto && iso {
        Err(CliErrorV::Conflict(flag("start-auto"@), flag("start-iso"@)))
    } else if !auto && !ep && !iso {
        Err(CliErrorV::MissingRequired("--start-auto|--start-epoch-ms|--start-iso"@))
    } else {
        match (opt_instant(o, "start-epoch-ms"@, false), opt_instant(o, "start-iso"@, true)) {
            (Err(e), _) => Err(e),
            (Ok(_), Err(e)) => Err(e),
            (Ok(a), Ok(b)) => Ok(StartTime { start_auto: auto, start_epoch_ms: a, start_iso: b }),
        }
    }
}

pub fn start_time_from(occs: &Vec<Occ>) -> (r: Result<StartTime, CliError>)
    ensures
        res_view(r) == start_time_spec(occs_view(occs@)),
{
    let auto = present_exec(occs, "start-auto");
    let ep = present_exec(occs, "start-epoch-ms");
    let iso = present_exec(occs, "start-iso");
    if ep && iso {
        Err(CliError::Conflict(flag_text("start-epoch-ms"), flag_text("start-iso")))
    } else if auto && ep {
        Err(CliError::Conflict(flag_text("start-auto"), flag_text("start-epoch-ms")))
    } else if auto && iso {
        Err(CliError::Conflict(flag_text("start-auto"), flag_text("start-iso")))
    } else if !auto && !ep && !iso {
        Err(CliError::MissingRequired(String::from_str("--start-auto|--start-epoch-ms|--start-iso")))
    } else {
        let a = match opt_instant_exec(occs, "start-epoch-ms", false) {
            Ok(a) => a,
            Err(e) => return Err(e),
        };
        let b = match opt_instant_exec(occs, "start-iso", true) {
            Ok(b) => b,
            Err(e) => return Err(e),
        };
        Ok(StartTime { start_auto: auto, start_epoch_ms: a, start_iso: b })
    }
}

pub open spec fn script_view(s: Script) -> (Option<Seq<char>>, Option<Seq<char>>) {
    (opt_view(s.script_path), opt_view(s.script))
}

/// The script: exactly one of `--script-path` and `--script`.
pub open spec fn script_spec(o: Seq<OccV>) -> Result<(Option<Seq<char>>, Option<Seq<char>>), CliErrorV> {
    let p = present(o, "script-path"@);
    let s = present(o, "script"@);
    if p && s {
        Err(CliErrorV::Conflict(flag("script-path"@), flag("script"@)))
    } else if !p && !s {
        Err(CliErrorV::MissingRequired("--script-path|--script"@))
    } else {
        Ok((given(o, "script-path"@), given(o, "script"@)))
    }
}

pub fn script_from(occs: &Vec<Occ>) -> (r: Result<Script, CliError>)
    ensures
        match script_spec(occs_view(occs@)) {
            Ok(v) => r matches Ok(s) && script_view(s) == v,
            Err(e) => r matches Err(x) && x@ == e,
        },
{
    let p = present_exec(occs, "script-path");
    let s = present_exec(occs, "script");
    if p && s {
        Err(CliError::Conflict(flag_text("script-path"), flag_text("script")))
    } else if !p && !s {
        Err(CliError::MissingRequired(String::from_str("--script-path|--script")))
    } else {
        Ok(Script { script_path: value_of(occs, "script-path"), script: value_of(occs, "script") })
    }
}

/// A default and a percentage that exclude each other: nullability
/// (`default-nullable`, `pct-null`) or optionality.
pub open spec fn chance_spec(o: Seq<OccV>, default_name: Seq<char>, pct_name: Seq<char>) -> Result<(Option<bool>, Option<Seq<char>>), CliErrorV> {
    if present(o, default_name) && present(o, pct_name) {
        Err(CliErrorV::Conflict(flag(default_name), flag(pct_name)))
    } else {
        match opt_bool(o, default_name) {
            Ok(b) => Ok((b, given(o, pct_name))),
            Err(e) => Err(e),
        }
    }
}

fn chance_from(occs: &Vec<Occ>, default_name: &str, pct_name: &str) -> (r: Result<(Option<bool>, Option<String>), CliError>)
    ensures
        match chance_spec(occs_view(occs@), default_name@, pct_name@) {
            Ok((b, p)) => r matches Ok((x, y)) && x == b && opt_view(y) == p,
            Err(e) => r matches Err(x) && x@ == e,
        },
{
    if present_exec(occs, default_name) && present_exec(occs, pct_name) {
        Err(CliError::Conflict(flag_text(default_name), flag_text(pct_name)))
    } else {
        match opt_bool_exec(occs, default_name) {
            Ok(b) => Ok((b, value_of(occs, pct_name))),
            Err(e) => Err(e),
        }
    }
}

pub open spec fn nullability_view(n: Nullability) -> (Option<bool>, Option<Seq<char>>) {
    (n.default_nullable, opt_view(n.pct_null))
}

pub open spec fn optionality_view(n: Optionality) -> (Option<bool>, Option<Seq<char>>) {
    (n.default_optional, opt_view(n.pct_optional))
}

/// The first error in the options of a simulation, if any: seed, start
/// time, script, nullability, optionality.
pub open spec fn sim_spec_error(o: Seq<OccV>) -> Option<CliErrorV> {
    if seed_spec(o) is Err {
        err_of(seed_spec(o))
    } else if start_time_spec(o) is Err {
        err_of(start_time_spec(o))
    } else if script_spec(o) is Err {
        err_of(script_spec(o))
    } else if chance_spec(o, "default-nullable"@, "pct-null"@) is Err {
        err_of(chance_spec(o, "default-nullable"@, "pct-null"@))
    } else {
        err_of(chance_spec(o, "default-optional"@, "pct-optional"@))
    }
}

/// The simulation options read into `s`.
pub open spec fn sim_spec_matches(o: Seq<OccV>, s: SimSpec) -> bool {
    &&& seed_spec(o) == Ok::<Seed, CliErrorV>(s.seed)
    &&& start_time_spec(o) == Ok::<StartTime, CliErrorV>(s.start_time)
    &&& script_spec(o) == Ok::<(Option<Seq<char>>, Option<Seq<char>>), CliErrorV>(script_view(s.script))
    &&& chance_spec(o, "default-nullable"@, "pct-null"@) == Ok::<(Option<bool>, Option<Seq<char>>), CliErrorV>(nullability_view(s.nullability))
    &&& chance_spec(o, "default-optional"@, "pct-optional"@) == Ok::<(Option<bool>, Option<Seq<char>>), CliErrorV>(optionality_view(s.optionality))
}

pub fn sim_spec_from(occs: &Vec<Occ>) -> (r: Result<SimSpec, CliError>)
    ensures
        match sim_spec_error(occs_view(occs@)) {
            None => r matches Ok(s) && sim_spec_matches(occs_view(occs@), s),
            Some(e) => r matches Err(x) && x@ == e,
        },
{
    let seed = match seed_from(occs) {
        Ok(s) => s,
        Err(e) => return Err(e),
    };
    let start_time = match start_time_from(occs) {
        Ok(s) => s,
        Err(e) => return Err(e),
    };
    let script = match script_from(occs) {
        Ok(s) => s,
        Err(e) => return Err(e),
    };
    let (default_nullable, pct_null) = match chance_from(occs, "default-nullable", "pct-null") {
        Ok(p) => p,
        Err(e) => return Err(e),
    };
    let (default_optional, pct_optional) = match chance_from(occs, "default-optional", "pct-optional") {
        Ok(p) => p,
        Err(e) => return Err(e),
    };
    Ok(SimSpec {
        seed,
        start_time,
        script,
        nullability: Nullability { default_nullable, pct_null },
        optionality: Optionality { default_optional, pct_optional },
    })
}

/// The sample count: `--sample-count`, 10 when not given.
pub open spec fn sample_count_spec(o: Seq<OccV>) -> Result<SampleCount, CliErrorV> {
    match opt_u64(o, "sample-count"@) {
        Ok(Some(n)) => Ok(SampleCount { sample_count: n }),
        Ok(None) => Ok(SampleCount { sample_count: 10 }),
        Err(e) => Err(e),
    }
}

pub fn sample_count_from(occs: &Vec<Occ>) -> (r: Result<SampleCount, CliError>)
    ensures
        res_view(r) == sample_count_spec(occs_view(occs@)),
{
    match opt_u64_exec(occs, "sample-count") {
        Ok(Some(n)) => Ok(SampleCount { sample_count: n }),
        Ok(None) => Ok(SampleCount { sample_count: 10 }),
        Err(e) => Err(e),
    }
}

/// The data output format: `--output-format`, `text` when not given.
pub open spec fn data_format_spec(o: Seq<OccV>) -> Result<DataOutputFormat, CliErrorV> {
    match given(o, "output-format"@) {
        None => Ok(DataOutputFormat::Text),
        Some(v) => if v == "ion"@ {
            Ok(DataOutputFormat::Ion)
        } else if v == "ion-pretty"@ {
            Ok(DataOutputFormat::IonPretty)
        } else if v == "ion-binary"@ {
            Ok(DataOutputFormat::IonBinary)
        } else if v == "text"@ {
            Ok(DataOutputFormat::Text)
        } else {
            Err(CliErrorV::InvalidValue { arg: flag("output-format"@), value: v, reason: "possible values: ion, ion-pretty, ion-binary, text"@ })
        },
    }
}

pub fn data_format_from(occs: &Vec<Occ>) -> (r: Result<DataOutputFormat, CliError>)
    ensures
        res_view(r) == data_format_spec(occs_view(occs@)),
{
    match value_of(occs, "output-format") {
        None => Ok(DataOutputFormat::Text),
        Some(v) => if v == String::from_str("ion") {
            Ok(DataOutputFormat::Ion)
        } else if v == String::from_str("ion-pretty") {
            Ok(DataOutputFormat::IonPretty)
        } else if v == String::from_str("ion-binary") {
            Ok(DataOutputFormat::IonBinary)
        } else if v == String::from_str("text") {
            Ok(DataOutputFormat::Text)
        } else {
            Err(invalid_value("output-format", v, String::from_str("possible values: ion, ion-pretty, ion-binary, text")))
        },
    }
}

/// The shape output format: `--output-format`, `text` when not given.
pub open spec fn shape_format_spec(o: Seq<OccV>) -> Result<ShapeOutputFormat, CliErrorV> {
    match given(o, "output-format"@) {
        None => Ok(ShapeOutputFormat::Text),
        Some(v) => if v == "partiql-kollider"@ {
            Ok(ShapeOutputFormat::PartiqlKollider)
        } else if v == "text"@ {
            Ok(ShapeOutputFormat::Text)
        } else if v == "basic-ddl"@ {
            Ok(ShapeOutputFormat::BasicDdl)
        } else {
            Err(CliErrorV::InvalidValue { arg: flag("output-format"@), value: v, reason: "possible values: partiql-kollider, text, basic-ddl"@ })
        },
    }
}

pub fn shape_format_from(occs: &Vec<Occ>) -> (r: Result<ShapeOutputFormat, CliError>)
    ensures
        res_view(r) == shape_format_spec(occs_view(occs@)),
{
    match value_of(occs, "output-format") {
        None => Ok(ShapeOutputFormat::Text),
        Some(v) => if v == String::from_str("partiql-kollider") {
            Ok(ShapeOutputFormat::PartiqlKollider)
        } else if v == String::from_str("text") {
            Ok(ShapeOutputFormat::Text)
        } else if v == String::from_str("basic-ddl") {
            Ok(ShapeOutputFormat::BasicDdl)
        } else {
            Err(invalid_value("output-format", v, String::from_str("possible values: partiql-kollider, text, basic-ddl")))
        },
    }
}

pub open spec fn db_args_view(d: DbArgs) -> (Seq<char>, Seq<char>, bool, DbTarget) {
    (d.catalog_name@, d.catalog_path@, d.force, d.target)
}

/// The catalog arguments: name (`beamline-catalog` when not given), path
/// (`.`), `--force`, and target (`filesystem`).
pub open spec fn db_args_spec(o: Seq<OccV>) -> Result<(Seq<char>, Seq<char>, bool, DbTarget), CliErrorV> {
    let target = match given(o, "target"@) {
        None => Ok(DbTarget::Filesystem),
        Some(v) => if v == "filesystem"@ {
            Ok(DbTarget::Filesystem)
        } else {
            Err(CliErrorV::InvalidValue { arg: flag("target"@), value: v, reason: "possible values: filesystem"@ })
        },
    };
    match target {
        Err(e) => Err(e),
        Ok(t) => Ok((
            match given(o, "catalog-name"@) { Some(v) => v, None => "beamline-catalog"@ },
            match given(o, "catalog-path"@) { Some(v) => v, None => "."@ },
            present(o, "force"@),
            t,
        )),
    }
}

pub fn db_args_from(occs: &Vec<Occ>) -> (r: Result<DbArgs, CliError>)
    ensures
        match db_args_spec(occs_view(occs@)) {
            Ok(v) => r matches Ok(d) && db_args_view(d) == v,
            Err(e) => r matches Err(x) && x@ == e,
        },
{
    let target = match value_of(occs, "target") {
        None => DbTarget::Filesystem,
        Some(v) => if v == String::from_str("filesystem") {
            DbTarget::Filesystem
        } else {
            return Err(invalid_value("target", v, String::from_str("possible values: filesystem")));
        },
    };
    let catalog_name = match value_of(occs, "catalog-name") {
        Some(v) => v,
        None => String::from_str("beamline-catalog"),
    };
    let catalog_path = match value_of(occs, "catalog-path") {
        Some(v) => v,
        None => String::from_str("."),
    };
    Ok(DbArgs { catalog_name, catalog_path, force: present_exec(occs, "force"), target })
}


/// The name of an option of a prefixed group, such as `tbl-flt-rand-min`.
pub open spec fn pname(prefix: Seq<char>, suffix: Seq<char>) -> Seq<char> {
    prefix + suffix
}

pub fn pname_text(prefix: &str, suffix: &str) -> (s: String)
    ensures
        s@ == pname(prefix@, suffix@),
{
    let mut s = String::from_str(prefix);
    s.append(suffix);
    s
}

/// The count range of a prefixed group: `<prefix>-rand-min` and
/// `<prefix>-rand-max`, both required.
pub open spec fn count_spec(o: Seq<OccV>, prefix: Seq<char>) -> Result<(u8, u8), CliErrorV> {
    match req_u8(o, pname(prefix, "-rand-min"@)) {
        Err(e) => Err(e),
        Ok(min) => match req_u8(o, pname(prefix, "-rand-max"@)) {
            Err(e) => Err(e),
            Ok(max) => Ok((min, max)),
        },
    }
}

fn count_from(occs: &Vec<Occ>, prefix: &str) -> (r: Result<(u8, u8), CliError>)
    ensures
        res_view(r) == count_spec(occs_view(occs@), prefix@),
{
    let min_name = pname_text(prefix, "-rand-min");
    let max_name = pname_text(prefix, "-rand-max");
    let min = match req_u8_exec(occs, min_name.as_str()) {
        Ok(m) => m,
        Err(e) => return Err(e),
    };
    let max = match req_u8_exec(occs, max_name.as_str()) {
        Ok(m) => m,
        Err(e) => return Err(e),
    };
    Ok((min, max))
}

/// The switches of a path specification group, whatever its prefix.
pub struct PathSwitches {

    pub path_depth_min: Option<u8>,
    pub path_depth_max: Option<u8>,
    pub pathstep_internal_all: bool,
    pub pathstep_internal_project: bool,
    pub pathstep_internal_index: bool,
    pub pathstep_internal_foreach: bool,
    pub pathstep_internal_unpivot: bool,
    pub pathstep_final_all: bool,
    pub pathstep_final_project: bool,
    pub pathstep_final_index: bool,
    pub pathstep_final_foreach: bool,
    pub pathstep_final_unpivot: bool,
    pub type_final_all: bool,
    pub type_final_scalar: bool,
    pub type_final_sequence: bool,
    pub type_final_struct: bool,
}

pub open spec fn first_some(a: Option<CliErrorV>, b: Option<CliErrorV>) -> Option<CliErrorV> {
    if a is Some { a } else { b }
}

/// Two options of a group given together that exclude each other.
pub open spec fn pair_conflict(o: Seq<OccV>, a: Seq<char>, b: Seq<char>) -> Option<CliErrorV> {
    if present(o, a) && present(o, b) {
        Some(CliErrorV::Conflict(flag(a), flag(b)))
    } else {
        None
    }
}

fn pair_conflict_exec(occs: &Vec<Occ>, a: &str, b: &str) -> (r: Option<CliError>)
    ensures
        match pair_conflict(occs_view(occs@), a@, b@) {
            None => r is None,
            Some(e) => r matches Some(x) && x@ == e,
        },
{
    if present_exec(occs, a) && present_exec(occs, b) {
        Some(CliError::Conflict(flag_text(a), flag_text(b)))
    } else {
        None
    }
}

/// The switches of a path group that may not be given with its `all`.
pub open spec fn path_conflict(o: Seq<OccV>, p: Seq<char>) -> Option<CliErrorV> {

    first_some(pair_conflict(o, pname(p, "-pathstep-internal-project"@), pname(p, "-pathstep-internal-all"@)), first_some(pair_conflict(o, pname(p, "-pathstep-internal-index"@), pname(p, "-pathstep-internal-all"@)), first_some(pair_conflict(o, pname(p, "-pathstep-internal-foreach"@), pname(p, "-pathstep-internal-all"@)), first_some(pair_conflict(o, pname(p, "-pathstep-internal-unpivot"@), pname(p, "-pathstep-internal-all"@)), first_some(pair_conflict(o, pname(p, "-pathstep-final-project"@), pname(p, "-pathstep-final-all"@)), first_some(pair_conflict(o, pname(p, "-pathstep-final-index"@), pname(p, "-pathstep-final-all"@)), first_some(pair_conflict(o, pname(p, "-pathstep-final-foreach"@), pname(p, "-pathstep-final-all"@)), first_some(pair_conflict(o, pname(p, "-pathstep-final-unpivot"@), pname(p, "-pathstep-final-all"@)), first_some(pair_conflict(o, pname(p, "-type-final-scalar"@), pname(p, "-type-final-all"@)), first_some(pair_conflict(o, pname(p, "-type-final-sequence"@), pname(p, "-type-final-all"@)), pair_conflict(o, pname(p, "-type-final-struct"@), pname(p, "-type-final-all"@))))))))))))
}

fn path_conflict_exec(occs: &Vec<Occ>, p: &str) -> (r: Option<CliError>)
    ensures
        match path_conflict(occs_view(occs@), p@) {
            None => r is None,
            Some(e) => r matches Some(x) && x@ == e,
        },
{

    if let Some(e) = pair_conflict_exec(occs, pname_text(p, "-pathstep-internal-project").as_str(), pname_text(p, "-pathstep-internal-all").as_str()) {
        return Some(e);
    }
    if let Some(e) = pair_conflict_exec(occs, pname_text(p, "-pathstep-internal-index").as_str(), pname_text(p, "-pathstep-internal-all").as_str()) {
        return Some(e);
    }
    if let Some(e) = pair_conflict_exec(occs, pname_text(p, "-pathstep-internal-foreach").as_str(), pname_text(p, "-pathstep-internal-all").as_str()) {
        return Some(e);
    }
    if let Some(e) = pair_conflict_exec(occs, pname_text(p, "-pathstep-internal-unpivot").as_str(), pname_text(p, "-pathstep-internal-all").as_str()) {
        return Some(e);
    }
    if let Some(e) = pair_conflict_exec(occs, pname_text(p, "-pathstep-final-project").as_str(), pname_text(p, "-pathstep-final-all").as_str()) {
        return Some(e);
    }
    if let Some(e) = pair_conflict_exec(occs, pname_text(p, "-pathstep-final-index").as_str(), pname_text(p, "-pathstep-final-all").as_str()) {
        return Some(e);
    }
    if let Some(e) = pair_conflict_exec(occs, pname_text(p, "-pathstep-final-foreach").as_str(), pname_text(p, "-pathstep-final-all").as_str()) {
        return Some(e);
    }
    if let Some(e) = pair_conflict_exec(occs, pname_text(p, "-pathstep-final-unpivot").as_str(), pname_text(p, "-pathstep-final-all").as_str()) {
        return Some(e);
    }
    if let Some(e) = pair_conflict_exec(occs, pname_text(p, "-type-final-scalar").as_str(), pname_text(p, "-type-final-all").as_str()) {
        return Some(e);
    }
    if let Some(e) = pair_conflict_exec(occs, pname_text(p, "-type-final-sequence").as_str(), pname_text(p, "-type-final-all").as_str()) {
        return Some(e);
    }
    if let Some(e) = pair_conflict_exec(occs, pname_text(p, "-type-final-struct").as_str(), pname_text(p, "-type-final-all").as_str()) {
        return Some(e);
    }
    None
}

/// Whether some option of a path group was given.
pub open spec fn path_group_given(o: Seq<OccV>, p: Seq<char>) -> bool {

    present(o, pname(p, "-path-depth-min"@))
        || present(o, pname(p, "-path-depth-max"@))
        || present(o, pname(p, "-pathstep-internal-all"@))
        || present(o, pname(p, "-pathstep-internal-project"@))
        || present(o, pname(p, "-pathstep-internal-index"@))
        || present(o, pname(p, "-pathstep-internal-foreach"@))
        || present(o, pname(p, "-pathstep-internal-unpivot"@))
        || present(o, pname(p, "-pathstep-final-all"@))
        || present(o, pname(p, "-pathstep-final-project"@))
        || present(o, pname(p, "-pathstep-final-index"@))
        || present(o, pname(p, "-pathstep-final-foreach"@))
        || present(o, pname(p, "-pathstep-final-unpivot"@))
        || present(o, pname(p, "-type-final-all"@))
        || present(o, pname(p, "-type-final-scalar"@))
        || present(o, pname(p, "-type-final-sequence"@))
        || present(o, pname(p, "-type-final-struct"@))
}

fn path_group_given_exec(occs: &Vec<Occ>, p: &str) -> (r: bool)
    ensures
        r == path_group_given(occs_view(occs@), p@),
{

    present_exec(occs, pname_text(p, "-path-depth-min").as_str())
        || present_exec(occs, pname_text(p, "-path-depth-max").as_str())
        || present_exec(occs, pname_text(p, "-pathstep-internal-all").as_str())
        || present_exec(occs, pname_text(p, "-pathstep-internal-project").as_str())
        || present_exec(occs, pname_text(p, "-pathstep-internal-index").as_str())
        || present_exec(occs, pname_text(p, "-pathstep-internal-foreach").as_str())
        || present_exec(occs, pname_text(p, "-pathstep-internal-unpivot").as_str())
        || present_exec(occs, pname_text(p, "-pathstep-final-all").as_str())
        || present_exec(occs, pname_text(p, "-pathstep-final-project").as_str())
        || present_exec(occs, pname_text(p, "-pathstep-final-index").as_str())
        || present_exec(occs, pname_text(p, "-pathstep-final-foreach").as_str())
        || present_exec(occs, pname_text(p, "-pathstep-final-unpivot").as_str())
        || present_exec(occs, pname_text(p, "-type-final-all").as_str())
        || present_exec(occs, pname_text(p, "-type-final-scalar").as_str())
        || present_exec(occs, pname_text(p, "-type-final-sequence").as_str())
        || present_exec(occs, pname_text(p, "-type-final-struct").as_str())
}

/// The switches of a path group: at least one given, none with its `all`,
/// and valid depths.
pub open spec fn path_switches_spec(o: Seq<OccV>, p: Seq<char>, group: Seq<char>) -> Result<PathSwitches, CliErrorV> {
    if !path_group_given(o, p) {
        Err(CliErrorV::MissingRequired(group))
    } else if path_conflict(o, p) is Some {
        Err(path_conflict(o, p)->0)
    } else {
        match opt_u8(o, pname(p, "-path-depth-min"@)) {
            Err(e) => Err(e),
            Ok(dmin) => match opt_u8(o, pname(p, "-path-depth-max"@)) {
                Err(e) => Err(e),
                Ok(dmax) => Ok(PathSwitches {
                    path_depth_min: dmin,
                    path_depth_max: dmax,

                    pathstep_internal_all: present(o, pname(p, "-pathstep-internal-all"@)),
                    pathstep_internal_project: present(o, pname(p, "-pathstep-internal-project"@)),
                    pathstep_internal_index: present(o, pname(p, "-pathstep-internal-index"@)),
                    pathstep_internal_foreach: present(o, pname(p, "-pathstep-internal-foreach"@)),
                    pathstep_internal_unpivot: present(o, pname(p, "-pathstep-internal-unpivot"@)),
                    pathstep_final_all: present(o, pname(p, "-pathstep-final-all"@)),
                    pathstep_final_project: present(o, pname(p, "-pathstep-final-project"@)),
                    pathstep_final_index: present(o, pname(p, "-pathstep-final-index"@)),
                    pathstep_final_foreach: present(o, pname(p, "-pathstep-final-foreach"@)),
                    pathstep_final_unpivot: present(o, pname(p, "-pathstep-final-unpivot"@)),
                    type_final_all: present(o, pname(p, "-type-final-all"@)),
                    type_final_scalar: present(o, pname(p, "-type-final-scalar"@)),
                    type_final_sequence: present(o, pname(p, "-type-final-sequence"@)),
                    type_final_struct: present(o, pname(p, "-type-final-struct"@)),
                }),
            },
        }
    }
}

fn path_switches_from(occs: &Vec<Occ>, p: &str, group: &str) -> (r: Result<PathSwitches, CliError>)
    ensures
        res_view(r) == path_switches_spec(occs_view(occs@), p@, group@),
{
    if !path_group_given_exec(occs, p) {
        return Err(CliError::MissingRequired(String::from_str(group)));
    }
    if let Some(e) = path_conflict_exec(occs, p) {
        return Err(e);
    }
    let dmin = match opt_u8_exec(occs, pname_text(p, "-path-depth-min").as_str()) {
        Ok(d) => d,
        Err(e) => return Err(e),
    };
    let dmax = match opt_u8_exec(occs, pname_text(p, "-path-depth-max").as_str()) {
        Ok(d) => d,
        Err(e) => return Err(e),
    };
    Ok(PathSwitches {
        path_depth_min: dmin,
        path_depth_max: dmax,

        pathstep_internal_all: present_exec(occs, pname_text(p, "-pathstep-internal-all").as_str()),
        pathstep_internal_project: present_exec(occs, pname_text(p, "-pathstep-internal-project").as_str()),
        pathstep_internal_index: present_exec(occs, pname_text(p, "-pathstep-internal-index").as_str()),
        pathstep_internal_foreach: present_exec(occs, pname_text(p, "-pathstep-internal-foreach").as_str()),
        pathstep_internal_unpivot: present_exec(occs, pname_text(p, "-pathstep-internal-unpivot").as_str()),
        pathstep_final_all: present_exec(occs, pname_text(p, "-pathstep-final-all").as_str()),
        pathstep_final_project: present_exec(occs, pname_text(p, "-pathstep-final-project").as_str()),
        pathstep_final_index: present_exec(occs, pname_text(p, "-pathstep-final-index").as_str()),
        pathstep_final_foreach: present_exec(occs, pname_text(p, "-pathstep-final-foreach").as_str()),
        pathstep_final_unpivot: present_exec(occs, pname_text(p, "-pathstep-final-unpivot").as_str()),
        type_final_all: present_exec(occs, pname_text(p, "-type-final-all").as_str()),
        type_final_scalar: present_exec(occs, pname_text(p, "-type-final-scalar").as_str()),
        type_final_sequence: present_exec(occs, pname_text(p, "-type-final-sequence").as_str()),
        type_final_struct: present_exec(occs, pname_text(p, "-type-final-struct").as_str()),
    })
}

pub open spec fn project_path_args(w: PathSwitches) -> ProjectListPathSpecArg {
    ProjectListPathSpecArg {
        project_path_depth_min: w.path_depth_min,
        project_path_depth_max: w.path_depth_max,
        project_pathstep_internal_all: w.pathstep_internal_all,
        project_pathstep_internal_project: w.pathstep_internal_project,
        project_pathstep_internal_index: w.pathstep_internal_index,
        project_pathstep_internal_foreach: w.pathstep_internal_foreach,
        project_pathstep_internal_unpivot: w.pathstep_internal_unpivot,
        project_pathstep_final_all: w.pathstep_final_all,
        project_pathstep_final_project: w.pathstep_final_project,
        project_pathstep_final_index: w.pathstep_final_index,
        project_pathstep_final_foreach: w.pathstep_final_foreach,
        project_pathstep_final_unpivot: w.pathstep_final_unpivot,
        project_type_final_all: w.type_final_all,
        project_type_final_scalar: w.type_final_scalar,
        project_type_final_sequence: w.type_final_sequence,
        project_type_final_struct: w.type_final_struct,
    }
}

fn project_path_args_exec(w: PathSwitches) -> (r: ProjectListPathSpecArg)
    ensures
        r == project_path_args(w),
{
    ProjectListPathSpecArg {
        project_path_depth_min: w.path_depth_min,
        project_path_depth_max: w.path_depth_max,
        project_pathstep_internal_all: w.pathstep_internal_all,
        project_pathstep_internal_project: w.pathstep_internal_project,
        project_pathstep_internal_index: w.pathstep_internal_index,
        project_pathstep_internal_foreach: w.pathstep_internal_foreach,
        project_pathstep_internal_unpivot: w.pathstep_internal_unpivot,
        project_pathstep_final_all: w.pathstep_final_all,
        project_pathstep_final_project: w.pathstep_final_project,
        project_pathstep_final_index: w.pathstep_final_index,
        project_pathstep_final_foreach: w.pathstep_final_foreach,
        project_pathstep_final_unpivot: w.pathstep_final_unpivot,
        project_type_final_all: w.type_final_all,
        project_type_final_scalar: w.type_final_scalar,
        project_type_final_sequence: w.type_final_sequence,
        project_type_final_struct: w.type_final_struct,
    }
}

pub open spec fn tbl_flt_path_args(w: PathSwitches) -> TableFilterPathSpecArg {
    TableFilterPathSpecArg {
        tbl_flt_path_depth_min: w.path_depth_min,
        tbl_flt_path_depth_max: w.path_depth_max,
        tbl_flt_pathstep_internal_all: w.pathstep_internal_all,
        tbl_flt_pathstep_internal_project: w.pathstep_internal_project,
        tbl_flt_pathstep_internal_index: w.pathstep_internal_index,
        tbl_flt_pathstep_internal_foreach: w.pathstep_internal_foreach,
        tbl_flt_pathstep_internal_unpivot: w.pathstep_internal_unpivot,
        tbl_flt_pathstep_final_all: w.pathstep_final_all,
        tbl_flt_pathstep_final_project: w.pathstep_final_project,
        tbl_flt_pathstep_final_index: w.pathstep_final_index,
        tbl_flt_pathstep_final_foreach: w.pathstep_final_foreach,
        tbl_flt_pathstep_final_unpivot: w.pathstep_final_unpivot,
        tbl_flt_type_final_all: w.type_final_all,
        tbl_flt_type_final_scalar: w.type_final_scalar,
        tbl_flt_type_final_sequence: w.type_final_sequence,
        tbl_flt_type_final_struct: w.type_final_struct,
    }
}

fn tbl_flt_path_args_exec(w: PathSwitches) -> (r: TableFilterPathSpecArg)
    ensures
        r == tbl_flt_path_args(w),
{
    TableFilterPathSpecArg {
        tbl_flt_path_depth_min: w.path_depth_min,
        tbl_flt_path_depth_max: w.path_depth_max,
        tbl_flt_pathstep_internal_all: w.pathstep_internal_all,
        tbl_flt_pathstep_internal_project: w.pathstep_internal_project,
        tbl_flt_pathstep_internal_index: w.pathstep_internal_index,
        tbl_flt_pathstep_internal_foreach: w.pathstep_internal_foreach,
        tbl_flt_pathstep_internal_unpivot: w.pathstep_internal_unpivot,
        tbl_flt_pathstep_final_all: w.pathstep_final_all,
        tbl_flt_pathstep_final_project: w.pathstep_final_project,
        tbl_flt_pathstep_final_index: w.pathstep_final_index,
        tbl_flt_pathstep_final_foreach: w.pathstep_final_foreach,
        tbl_flt_pathstep_final_unpivot: w.pathstep_final_unpivot,
        tbl_flt_type_final_all: w.type_final_all,
        tbl_flt_type_final_scalar: w.type_final_scalar,
        tbl_flt_type_final_sequence: w.type_final_sequence,
        tbl_flt_type_final_struct: w.type_final_struct,
    }
}

pub open spec fn exclude_path_args(w: PathSwitches) -> ExcludeListPathSpecArg {
    ExcludeListPathSpecArg {
        exclude_path_depth_min: w.path_depth_min,
        exclude_path_depth_max: w.path_depth_max,
        exclude_pathstep_internal_all: w.pathstep_internal_all,
        exclude_pathstep_internal_project: w.pathstep_internal_project,
        exclude_pathstep_internal_index: w.pathstep_internal_index,
        exclude_pathstep_internal_foreach: w.pathstep_internal_foreach,
        exclude_pathstep_internal_unpivot: w.pathstep_internal_unpivot,
        exclude_pathstep_final_all: w.pathstep_final_all,
        exclude_pathstep_final_project: w.pathstep_final_project,
        exclude_pathstep_final_index: w.pathstep_final_index,
        exclude_pathstep_final_foreach: w.pathstep_final_foreach,
        exclude_pathstep_final_unpivot: w.pathstep_final_unpivot,
        exclude_type_final_all: w.type_final_all,
        exclude_type_final_scalar: w.type_final_scalar,
        exclude_type_final_sequence: w.type_final_sequence,
        exclude_type_final_struct: w.type_final_struct,
    }
}

fn exclude_path_args_exec(w: PathSwitches) -> (r: ExcludeListPathSpecArg)
    ensures
        r == exclude_path_args(w),
{
    ExcludeListPathSpecArg {
        exclude_path_depth_min: w.path_depth_min,
        exclude_path_depth_max: w.path_depth_max,
        exclude_pathstep_internal_all: w.pathstep_internal_all,
        exclude_pathstep_internal_project: w.pathstep_internal_project,
        exclude_pathstep_internal_index: w.pathstep_internal_index,
        exclude_pathstep_internal_foreach: w.pathstep_internal_foreach,
        exclude_pathstep_internal_unpivot: w.pathstep_internal_unpivot,
        exclude_pathstep_final_all: w.pathstep_final_all,
        exclude_pathstep_final_project: w.pathstep_final_project,
        exclude_pathstep_final_index: w.pathstep_final_index,
        exclude_pathstep_final_foreach: w.pathstep_final_foreach,
        exclude_pathstep_final_unpivot: w.pathstep_final_unpivot,
        exclude_type_final_all: w.type_final_all,
        exclude_type_final_scalar: w.type_final_scalar,
        exclude_type_final_sequence: w.type_final_sequence,
        exclude_type_final_struct: w.type_final_struct,
    }
}

/// The predicate switches given.
pub open spec fn pred_switches(o: Seq<OccV>) -> PredicateFlagArgs {
    PredicateFlagArgs {
        pred_all: present(o, "pred-all"@),
        pred_none: present(o, "pred-none"@),
        pred_absent: present(o, "pred-absent"@),
        pred_nullable: present(o, "pred-nullable"@),
        pred_is_null: present(o, "pred-is-null"@),
        pred_is_not_null: present(o, "pred-is-not-null"@),
        pred_optional: present(o, "pred-optional"@),
        pred_is_missing: present(o, "pred-is-missing"@),
        pred_is_not_missing: present(o, "pred-is-not-missing"@),
        pred_equality: present(o, "pred-equality"@),
        pred_eq: present(o, "pred-eq"@),
        pred_neq: present(o, "pred-neq"@),
        pred_comparison: present(o, "pred-comparison"@),
        pred_lt: present(o, "pred-lt"@),
        pred_lte: present(o, "pred-lte"@),
        pred_gt: present(o, "pred-gt"@),
        pred_gte: present(o, "pred-gte"@),
        pred_between: present(o, "pred-between"@),
        pred_numeric: present(o, "pred-numeric"@),
        pred_like_all: present(o, "pred-like-all"@),
        pred_like: present(o, "pred-like"@),
        pred_not_like: present(o, "pred-not-like"@),
        pred_in_all: present(o, "pred-in-all"@),
        pred_in: present(o, "pred-in"@),
        pred_not_in: present(o, "pred-not-in"@),
        pred_logical_all: present(o, "pred-logical-all"@),
        pred_logical_and: present(o, "pred-logical-and"@),
        pred_logical_or: present(o, "pred-logical-or"@),
        pred_logical_not: present(o, "pred-logical-not"@),
    }
}

/// Whether some predicate switch was given.
pub open spec fn pred_any(a: PredicateFlagArgs) -> bool {
    a.pred_all
        || a.pred_none
        || a.pred_absent
        || a.pred_nullable
        || a.pred_is_null
        || a.pred_is_not_null
        || a.pred_optional
        || a.pred_is_missing
        || a.pred_is_not_missing
        || a.pred_equality
        || a.pred_eq
        || a.pred_neq
        || a.pred_comparison
        || a.pred_lt
        || a.pred_lte
        || a.pred_gt
        || a.pred_gte
        || a.pred_between
        || a.pred_numeric
        || a.pred_like_all
        || a.pred_like
        || a.pred_not_like
        || a.pred_in_all
        || a.pred_in
        || a.pred_not_in
        || a.pred_logical_all
        || a.pred_logical_and
        || a.pred_logical_or
        || a.pred_logical_not
}

/// The predicate switches: at least one given, and not both `--pred-all`
/// and `--pred-none`.
pub open spec fn pred_args_spec(o: Seq<OccV>) -> Result<PredicateFlagArgs, CliErrorV> {
    let a = pred_switches(o);
    if !pred_any(a) {
        Err(CliErrorV::MissingRequired("PredicateFlagArgs"@))
    } else if a.pred_all && a.pred_none {
        Err(CliErrorV::Conflict(flag("pred-all"@), flag("pred-none"@)))
    } else {
        Ok(a)
    }
}

fn pred_switches_from(occs: &Vec<Occ>) -> (r: PredicateFlagArgs)
    ensures
        r == pred_switches(occs_view(occs@)),
{
    PredicateFlagArgs {
        pred_all: present_exec(occs, "pred-all"),
        pred_none: present_exec(occs, "pred-none"),
        pred_absent: present_exec(occs, "pred-absent"),
        pred_nullable: present_exec(occs, "pred-nullable"),
        pred_is_null: present_exec(occs, "pred-is-null"),
        pred_is_not_null: present_exec(occs, "pred-is-not-null"),
        pred_optional: present_exec(occs, "pred-optional"),
        pred_is_missing: present_exec(occs, "pred-is-missing"),
        pred_is_not_missing: present_exec(occs, "pred-is-not-missing"),
        pred_equality: present_exec(occs, "pred-equality"),
        pred_eq: present_exec(occs, "pred-eq"),
        pred_neq: present_exec(occs, "pred-neq"),
        pred_comparison: present_exec(occs, "pred-comparison"),
        pred_lt: present_exec(occs, "pred-lt"),
        pred_lte: present_exec(occs, "pred-lte"),
        pred_gt: present_exec(occs, "pred-gt"),
        pred_gte: present_exec(occs, "pred-gte"),
        pred_between: present_exec(occs, "pred-between"),
        pred_numeric: present_exec(occs, "pred-numeric"),
        pred_like_all: present_exec(occs, "pred-like-all"),
        pred_like: present_exec(occs, "pred-like"),
        pred_not_like: present_exec(occs, "pred-not-like"),
        pred_in_all: present_exec(occs, "pred-in-all"),
        pred_in: present_exec(occs, "pred-in"),
        pred_not_in: present_exec(occs, "pred-not-in"),
        pred_logical_all: present_exec(occs, "pred-logical-all"),
        pred_logical_and: present_exec(occs, "pred-logical-and"),
        pred_logical_or: present_exec(occs, "pred-logical-or"),
        pred_logical_not: present_exec(occs, "pred-logical-not"),
    }
}

fn pred_args_from(occs: &Vec<Occ>) -> (r: Result<PredicateFlagArgs, CliError>)
    ensures
        res_view(r) == pred_args_spec(occs_view(occs@)),
{
    let a = pred_switches_from(occs);
    let given_any = a.pred_all
        || a.pred_none
        || a.pred_absent
        || a.pred_nullable
        || a.pred_is_null
        || a.pred_is_not_null
        || a.pred_optional
        || a.pred_is_missing
        || a.pred_is_not_missing
        || a.pred_equality
        || a.pred_eq
        || a.pred_neq
        || a.pred_comparison
        || a.pred_lt
        || a.pred_lte
        || a.pred_gt
        || a.pred_gte
        || a.pred_between
        || a.pred_numeric
        || a.pred_like_all
        || a.pred_like
        || a.pred_not_like
        || a.pred_in_all
        || a.pred_in
        || a.pred_not_in
        || a.pred_logical_all
        || a.pred_logical_and
        || a.pred_logical_or
        || a.pred_logical_not;
    if !given_any {
        return Err(CliError::MissingRequired(String::from_str("PredicateFlagArgs")));
    }
    if a.pred_all && a.pred_none {
        return Err(CliError::Conflict(flag_text("pred-all"), flag_text("pred-none")));
    }
    Ok(a)
}

/// The projection arguments: count, then paths.
pub open spec fn project_arg_spec(o: Seq<OccV>) -> Result<ProjectListArg, CliErrorV> {
    match count_spec(o, "project"@) {
        Err(e) => Err(e),
        Ok((min, max)) => match path_switches_spec(o, "project"@, "ProjectListPathSpecArg"@) {
            Err(e) => Err(e),
            Ok(w) => Ok(ProjectListArg {
                project_count: ProjectListCountArg { project_rand_min: min, project_rand_max: max },
                path_spec: project_path_args(w),
            }),
        },
    }
}

pub fn project_arg_from(occs: &Vec<Occ>) -> (r: Result<ProjectListArg, CliError>)
    ensures
        res_view(r) == project_arg_spec(occs_view(occs@)),
{
    let (min, max) = match count_from(occs, "project") {
        Ok(p) => p,
        Err(e) => return Err(e),
    };
    let w = match path_switches_from(occs, "project", "ProjectListPathSpecArg") {
        Ok(w) => w,
        Err(e) => return Err(e),
    };
    Ok(ProjectListArg {
        project_count: ProjectListCountArg { project_rand_min: min, project_rand_max: max },
        path_spec: project_path_args_exec(w),
    })
}

/// The exclusion arguments: count, then paths.
pub open spec fn exclude_arg_spec(o: Seq<OccV>) -> Result<ExcludeListArg, CliErrorV> {
    match count_spec(o, "exclude"@) {
        Err(e) => Err(e),
        Ok((min, max)) => match path_switches_spec(o, "exclude"@, "ExcludeListPathSpecArg"@) {
            Err(e) => Err(e),
            Ok(w) => Ok(ExcludeListArg {
                exclude_count: ExcludeListCountArg { exclude_rand_min: min, exclude_rand_max: max },
                path_spec: exclude_path_args(w),
            }),
        },
    }
}

pub fn exclude_arg_from(occs: &Vec<Occ>) -> (r: Result<ExcludeListArg, CliError>)
    ensures
        res_view(r) == exclude_arg_spec(occs_view(occs@)),
{
    let (min, max) = match count_from(occs, "exclude") {
        Ok(p) => p,
        Err(e) => return Err(e),
    };
    let w = match path_switches_from(occs, "exclude", "ExcludeListPathSpecArg") {
        Ok(w) => w,
        Err(e) => return Err(e),
    };
    Ok(ExcludeListArg {
        exclude_count: ExcludeListCountArg { exclude_rand_min: min, exclude_rand_max: max },
        path_spec: exclude_path_args_exec(w),
    })
}

/// The table filter arguments: count, predicates, then paths.
pub open spec fn filter_arg_spec(o: Seq<OccV>) -> Result<TableFilterArg, CliErrorV> {
    match count_spec(o, "tbl-flt"@) {
        Err(e) => Err(e),
        Ok((min, max)) => match pred_args_spec(o) {
            Err(e) => Err(e),
            Ok(preds) => match path_switches_spec(o, "tbl-flt"@, "TableFilterPathSpecArg"@) {
                Err(e) => Err(e),
                Ok(w) => Ok(TableFilterArg {
                    filter_count: TableFilterCountArg { tbl_flt_rand_min: min, tbl_flt_rand_max: max },
                    pred_flags: preds,
                    path_spec: tbl_flt_path_args(w),
                }),
            },
        },
    }
}

pub fn filter_arg_from(occs: &Vec<Occ>) -> (r: Result<TableFilterArg, CliError>)
    ensures
        res_view(r) == filter_arg_spec(occs_view(occs@)),
{
    let (min, max) = match count_from(occs, "tbl-flt") {
        Ok(p) => p,
        Err(e) => return Err(e),
    };
    let preds = match pred_args_from(occs) {
        Ok(p) => p,
        Err(e) => return Err(e),
    };
    let w = match path_switches_from(occs, "tbl-flt", "TableFilterPathSpecArg") {
        Ok(w) => w,
        Err(e) => return Err(e),
    };
    Ok(TableFilterArg {
        filter_count: TableFilterCountArg { tbl_flt_rand_min: min, tbl_flt_rand_max: max },
        pred_flags: preds,
        path_spec: tbl_flt_path_args_exec(w),
    })
}

} // verus!
