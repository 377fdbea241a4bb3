//! The arguments of the generators: output formats, sample counts, the
//! seed, start time and script of a simulation, and the database target.
use vstd::prelude::*;
use crate::numparse::{parse_i64, parse_int_spec, int_error_message, int_error_text};

verus! {

/// Output format for the generated data.
#[derive(PartialEq, Eq, Structural, Clone, Copy, Debug)]
pub enum DataOutputFormat {
    Ion,
    IonPretty,
    IonBinary,
    Text,
}

/// Output format for the generated shape of data.
#[derive(PartialEq, Eq, Structural, Clone, Copy, Debug)]
pub enum ShapeOutputFormat {
    PartiqlKollider,
    Text,
    BasicDdl,
}

/// Number of samples to create (10 unless given).
#[derive(PartialEq, Eq, Structural, Clone, Copy, Debug)]
pub struct SampleCount {
    pub sample_count: u64,
}

/// Output target for the generated database.
#[derive(PartialEq, Eq, Structural, Clone, Copy, Debug)]
pub enum DbTarget {
    Filesystem,
}

/// Where and how a database catalog is written.
#[derive(Debug)]
pub struct DbArgs {
    pub catalog_name: String,
    pub catalog_path: String,
    pub force: bool,
    pub target: DbTarget,
}

/// Seed configuration: exactly one of a fixed seed or `seed_auto`.
#[derive(PartialEq, Eq, Structural, Clone, Copy, Debug)]
pub struct Seed {
    /// Use the local machine's entropy to generate a 'random' seed.
    pub seed_auto: bool,
    /// (Re)play from a specified seed.
    pub seed: Option<u64>,
}

/// Exactly one of the two ways of giving a seed is used.
pub open spec fn seed_well_formed(s: Seed) -> bool {
    (s.seed is Some && !s.seed_auto) || (s.seed is None && s.seed_auto)
}

impl Seed {
    /// The fixed seed, or `None` when the seed is to be drawn.
    pub fn extract(&self) -> (r: Option<u64>)
        requires
            seed_well_formed(*self),
        ensures
            r == self.seed,
    {
        match self.seed {
            Some(seed) => Some(seed),
            None => None,
        }
    }
}

/// An instant with its UTC offset: nanoseconds since the Unix epoch and the
/// offset in seconds.
#[derive(PartialEq, Eq, Structural, Clone, Copy, Debug)]
pub struct Timestamp {
    pub unix_nanos: i128,
    pub offset_seconds: i32,
}

/// The earliest Unix timestamp, in seconds, that the `time` crate
/// represents (the first second of year -9999).
pub const MIN_UNIX_TIMESTAMP: i64 = -377705116800;

/// The latest Unix timestamp, in seconds, that the `time` crate represents
/// (the last second of year 9999).
pub const MAX_UNIX_TIMESTAMP: i64 = 253402300799;

/// `time::OffsetDateTime::from_unix_timestamp_nanos`: the instant `t`
/// nanoseconds after the Unix epoch, in UTC, when the whole seconds of `t`
/// (rounded down) are within the representable range, and otherwise the
/// error `timestamp was not in range`.
#[verifier::external_body]
fn offset_date_time_from_unix_timestamp_nanos(t: i128) -> (r: Result<Timestamp, String>)
    ensures
        r is Ok <==> MIN_UNIX_TIMESTAMP * 1_000_000_000 <= t < (MAX_UNIX_TIMESTAMP + 1) * 1_000_000_000,
        r matches Ok(ts) ==> ts.unix_nanos == t && ts.offset_seconds == 0,
        r matches Err(e) ==> e@ == "timestamp was not in range"@,
{
    match time::OffsetDateTime::from_unix_timestamp_nanos(t) {
        Ok(odt) => Ok(Timestamp { unix_nanos: odt.unix_timestamp_nanos(), offset_seconds: odt.offset().whole_seconds() }),
        Err(e) => Err(e.to_string()),
    }
}

/// What `time::OffsetDateTime::parse` with the ISO 8601 parsing format gives
/// for a text: the instant (nanoseconds since the Unix epoch, offset in
/// seconds) or the text of the error.
pub uninterp spec fn iso8601_parse(s: Seq<char>) -> Result<(int, int), Seq<char>>;

/// A parsed instant, or the message of the error, as plain values.
pub open spec fn parsed_view(r: Result<Timestamp, String>) -> Result<(int, int), Seq<char>> {
    match r {
        Ok(ts) => Ok((ts.unix_nanos as int, ts.offset_seconds as int)),
        Err(e) => Err(e@),
    }
}

/// `time::OffsetDateTime::parse(s, &Iso8601::PARSING)`, with the result taken
/// apart into its instant and offset, and the error into its message.
#[verifier::external_body]
fn offset_date_time_parse_iso8601(s: &str) -> (r: Result<Timestamp, String>)
    ensures
        parsed_view(r) == iso8601_parse(s@),
{
    let format = time::format_description::well_known::Iso8601::PARSING;
    match time::OffsetDateTime::parse(s, &format) {
        Ok(odt) => Ok(Timestamp { unix_nanos: odt.unix_timestamp_nanos(), offset_seconds: odt.offset().whole_seconds() }),
        Err(e) => Err(e.to_string()),
    }
}

/// The instant a text names as a number of milliseconds since the Unix
/// epoch: nanoseconds since the epoch and a UTC offset of zero, or the
/// message of the error.
pub open spec fn epoch_instant(s: Seq<char>) -> Result<(int, int), Seq<char>> {
    match parse_int_spec(s, i64::MIN as int, i64::MAX as int, true) {
        Err(k) => Err(int_error_message(k)),
        Ok(ms) => if MIN_UNIX_TIMESTAMP * 1000 <= ms < (MAX_UNIX_TIMESTAMP + 1) * 1000 {
            Ok((ms * 1_000_000, 0))
        } else {
            Err("timestamp was not in range"@)
        },
    }
}

/// Reads a start time given as a number of milliseconds since the Unix
/// epoch.
pub fn epoch_ms_parser(arg: &str) -> (r: Result<Timestamp, String>)
    ensures
        parsed_view(r) == epoch_instant(arg@),
{
    match parse_i64(arg) {
        Ok(ms) => offset_date_time_from_unix_timestamp_nanos(ms as i128 * 1_000_000),
        Err(k) => Err(int_error_text(k)),
    }
}

/// Reads a start time given in ISO 8601.
pub fn iso_parser(arg: &str) -> (r: Result<Timestamp, String>)
    ensures
        parsed_view(r) == iso8601_parse(arg@),
{
    offset_date_time_parse_iso8601(arg)
}

/// Start date and time: exactly one of an epoch value, an ISO 8601 text or
/// `start_auto`.
#[derive(PartialEq, Eq, Structural, Clone, Copy, Debug)]
pub struct StartTime {
    /// Use the local machine's entropy to generate a 'random' start time.
    pub start_auto: bool,
    /// (Re)play from a start time given since the Unix epoch.
    pub start_epoch_ms: Option<Timestamp>,
    /// (Re)play from a start time given in ISO 8601.
    pub start_iso: Option<Timestamp>,
}

/// Exactly one of the three ways of giving a start time is used.
pub open spec fn start_time_well_formed(t: StartTime) -> bool {
    ||| (t.start_epoch_ms is Some && t.start_iso is None && !t.start_auto)
    ||| (t.start_epoch_ms is None && t.start_iso is Some && !t.start_auto)
    ||| (t.start_epoch_ms is None && t.start_iso is None && t.start_auto)
}

impl StartTime {
    /// The fixed start time, or `None` when it is to be drawn.
    pub fn extract(&self) -> (r: Option<Timestamp>)
        requires
            start_time_well_formed(*self),
        ensures
            r == (if self.start_epoch_ms is Some { self.start_epoch_ms } else { self.start_iso }),
    {
        match (&self.start_epoch_ms, &self.start_iso) {
            (Some(t0), _) => Some(*t0),
            (None, Some(t0)) => Some(*t0),
            (None, None) => None,
        }
    }
}

/// Where the simulation script comes from.
#[derive(Debug)]
pub enum ScriptSource {
    /// The script text itself.
    Inline(String),
    /// The path of a file that holds the script.
    File(String),
}

/// Script configuration: exactly one of a path or the script inline.
#[derive(Debug)]
pub struct Script {
    /// The path to the script file.
    pub script_path: Option<String>,
    /// The script inline.
    pub script: Option<String>,
}

/// Exactly one of the two ways of giving a script is used.
pub open spec fn script_well_formed(s: Script) -> bool {
    (s.script_path is Some && s.script is None) || (s.script_path is None && s.script is Some)
}

impl Script {
    /// Where the script is to be read from: the inline text, or the file at
    /// the given path.
    pub fn extract(self) -> (r: ScriptSource)
        requires
            script_well_formed(self),
        ensures
            self.script matches Some(d) ==> r matches ScriptSource::Inline(x) && x@ == d@,
            self.script_path matches Some(p) ==> r matches ScriptSource::File(x) && x@ == p@,
    {
        match (self.script_path, self.script) {
            (None, Some(data)) => ScriptSource::Inline(data),
            (Some(path), _) => ScriptSource::File(path),
            (None, None) => ScriptSource::Inline(String::new()),
        }
    }
}

/// Default nullability of the simulation. The percentage is kept as the
/// text that was given: a floating-point number from 0 to 1, which the
/// command checks once the command line is read.
#[derive(Debug)]
pub struct Nullability {
    /// Whether value types are nullable by default.
    pub default_nullable: Option<bool>,
    /// The chance of `NULL`, as given.
    pub pct_null: Option<String>,
}

/// Default optionality of the simulation. The percentage is kept as the
/// text that was given: a floating-point number from 0 to 1, which the
/// command checks once the command line is read.
#[derive(Debug)]
pub struct Optionality {
    /// Whether value types are optional by default.
    pub default_optional: Option<bool>,
    /// The chance of `MISSING`, as given.
    pub pct_optional: Option<String>,
}

/// The initial state of a simulation.
#[derive(Debug)]
pub struct SimSpec {
    pub seed: Seed,
    pub start_time: StartTime,
    pub script: Script,
    pub nullability: Nullability,
    pub optionality: Optionality,
}

/// The initial state of a Kollider database generation.
#[derive(Debug)]
pub struct KolliderDb {
    pub seed: Seed,
    pub start_time: StartTime,
    pub script: Script,
}

} // verus!
