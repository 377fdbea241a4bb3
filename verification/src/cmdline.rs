//! The command line of the Beamline tools: options are read from the
//! argument list against a table of the options each (sub)command takes,
//! then checked and turned into the typed arguments.
//!
//! Options are written `--name value`, `--name=value`, `-x value`,
//! `-xvalue` or `-x=value`; switches take no value. A value that begins with
//! `-` (other than `-` itself) is read as the next option, not as a value.
//! The first token that is not an option names a subcommand.
use vstd::prelude::*;

verus! {

/// An option a command takes: its long name, its short letter if any,
/// whether it takes a value, and whether it may be given more than once.
pub struct OptDef {
    pub long: String,
    pub short: Option<char>,
    pub takes_value: bool,
    pub multiple: bool,
}

/// An option as plain values.
pub struct OptV {
    pub long: Seq<char>,
    pub short: Option<char>,
    pub takes_value: bool,
    pub multiple: bool,
}

impl View for OptDef {
    type V = OptV;

    open spec fn view(&self) -> OptV {
        OptV { long: self.long@, short: self.short, takes_value: self.takes_value, multiple: self.multiple }
    }
}

pub open spec fn opts_view(t: Seq<OptDef>) -> Seq<OptV> {
    t.map_values(|o: OptDef| o@)
}

/// One option given on the command line: its long name and its value
/// (none for a switch).
pub struct Occ {
    pub name: String,
    pub value: Option<String>,
}

pub struct OccV {
    pub name: Seq<char>,
    pub value: Option<Seq<char>>,
}

impl View for Occ {
    type V = OccV;

    open spec fn view(&self) -> OccV {
        OccV {
            name: self.name@,
            value: match self.value {
                Some(v) => Some(v@),
                None => None,
            },
        }
    }
}

pub open spec fn occs_view(v: Seq<Occ>) -> Seq<OccV> {
    v.map_values(|o: Occ| o@)
}

/// Why a command line is refused.
#[derive(Debug)]
pub enum CliError {
    /// A token that is no option of the command.
    UnknownArgument(String),
    /// A value given to a switch.
    UnexpectedValue(String),
    /// An option given without its value.
    MissingValue(String),
    /// An option given twice that may be given once.
    DuplicateArgument(String),
    /// A value that the option does not accept, and why.
    InvalidValue { arg: String, value: String, reason: String },
    /// A required option, or a required group of options, not given.
    MissingRequired(String),
    /// Two options that exclude each other, both given.
    Conflict(String, String),
    /// A command that needs a subcommand, given none.
    MissingSubcommand,
    /// A subcommand name the command does not know.
    UnknownSubcommand(String),
    /// `-h`, `--help` or the `help` subcommand: the help is to be shown in
    /// place of running a command.
    DisplayHelp,
    /// `-V` or `--version` on the program: its version is to be shown in
    /// place of running a command.
    DisplayVersion,
}

pub enum CliErrorV {
    UnknownArgument(Seq<char>),
    UnexpectedValue(Seq<char>),
    MissingValue(Seq<char>),
    DuplicateArgument(Seq<char>),
    InvalidValue { arg: Seq<char>, value: Seq<char>, reason: Seq<char> },
    MissingRequired(Seq<char>),
    Conflict(Seq<char>, Seq<char>),
    MissingSubcommand,
    UnknownSubcommand(Seq<char>),
    DisplayHelp,
    DisplayVersion,
}

impl View for CliError {
    type V = CliErrorV;

    open spec fn view(&self) -> CliErrorV {
        match self {
            CliError::UnknownArgument(s) => CliErrorV::UnknownArgument(s@),
            CliError::UnexpectedValue(s) => CliErrorV::UnexpectedValue(s@),
            CliError::MissingValue(s) => CliErrorV::MissingValue(s@),
            CliError::DuplicateArgument(s) => CliErrorV::DuplicateArgument(s@),
            CliError::InvalidValue { arg, value, reason } => CliErrorV::InvalidValue { arg: arg@, value: value@, reason: reason@ },
            CliError::MissingRequired(s) => CliErrorV::MissingRequired(s@),
            CliError::Conflict(a, b) => CliErrorV::Conflict(a@, b@),
            CliError::MissingSubcommand => CliErrorV::MissingSubcommand,
            CliError::DisplayHelp => CliErrorV::DisplayHelp,
            CliError::DisplayVersion => CliErrorV::DisplayVersion,
            CliError::UnknownSubcommand(s) => CliErrorV::UnknownSubcommand(s@),
        }
    }
}

pub open spec fn strings_view(v: Seq<String>) -> Seq<Seq<char>> {
    v.map_values(|s: String| s@)
}

/// The option of the table with the given long name.
pub open spec fn find_long(t: Seq<OptV>, name: Seq<char>, k: int) -> Option<OptV>
    decreases t.len() - k,
{
    if k < 0 || k >= t.len() {
        None
    } else if t[k].long == name {
        Some(t[k])
    } else {
        find_long(t, name, k + 1)
    }
}

/// The option of the table with the given short letter.
pub open spec fn find_short(t: Seq<OptV>, c: char, k: int) -> Option<OptV>
    decreases t.len() - k,
{
    if k < 0 || k >= t.len() {
        None
    } else if t[k].short == Some(c) {
        Some(t[k])
    } else {
        find_short(t, c, k + 1)
    }
}

/// The position of the first `=` in `s` at or after `k`.
pub open spec fn find_eq(s: Seq<char>, k: int) -> Option<int>
    decreases s.len() - k,
{
    if k < 0 || k >= s.len() {
        None
    } else if s[k] == '=' {
        Some(k)
    } else {
        find_eq(s, k + 1)
    }
}

/// A long option token: `--` followed by at least one character.
pub open spec fn is_long_token(a: Seq<char>) -> bool {
    a.len() > 2 && a[0] == '-' && a[1] == '-'
}

/// A short option token: `-` followed by a character other than `-`.
pub open spec fn is_short_token(a: Seq<char>) -> bool {
    a.len() >= 2 && a[0] == '-' && a[1] != '-'
}

/// A token that can be the value of the option before it.
pub open spec fn is_value_token(a: Seq<char>) -> bool {
    a.len() <= 1 || a[0] != '-'
}

/// The value of an option that was not given inline: the next token, if
/// there is one and it can be a value.
pub open spec fn next_value(args: Seq<Seq<char>>, i: int, name: Seq<char>) -> Result<(OccV, int), CliErrorV> {
    if i + 1 < args.len() && is_value_token(args[i + 1]) {
        Ok((OccV { name, value: Some(args[i + 1]) }, 2))
    } else {
        Err(CliErrorV::MissingValue(name))
    }
}

/// Reads the option at token `i`: the option given and the number of
/// tokens it takes, or `None` when the token is no option.
pub open spec fn read_option(t: Seq<OptV>, args: Seq<Seq<char>>, i: int) -> Result<Option<(OccV, int)>, CliErrorV> {
    let a = args[i];
    if is_long_token(a) {
        let body = a.subrange(2, a.len() as int);
        let eq = find_eq(body, 0);
        let name = match eq { Some(e) => body.subrange(0, e), None => body };
        match find_long(t, name, 0) {
            None => if name == "help"@ { Err(CliErrorV::DisplayHelp) } else { Err(CliErrorV::UnknownArgument(a)) },
            Some(o) => if o.takes_value {
                match eq {
                    Some(e) => Ok(Some((OccV { name: o.long, value: Some(body.subrange(e + 1, body.len() as int)) }, 1))),
                    None => match next_value(args, i, o.long) {
                        Ok(p) => Ok(Some(p)),
                        Err(err) => Err(err),
                    },
                }
            } else {
                match eq {
                    Some(_) => Err(CliErrorV::UnexpectedValue(o.long)),
                    None => Ok(Some((OccV { name: o.long, value: None }, 1))),
                }
            },
        }
    } else if is_short_token(a) {
        match find_short(t, a[1], 0) {
            None => if a == "-h"@ { Err(CliErrorV::DisplayHelp) } else { Err(CliErrorV::UnknownArgument(a)) },
            Some(o) => if o.takes_value {
                if a.len() > 2 {
                    let rest = a.subrange(2, a.len() as int);
                    let v = if rest[0] == '=' { rest.subrange(1, rest.len() as int) } else { rest };
                    Ok(Some((OccV { name: o.long, value: Some(v) }, 1)))
                } else {
                    match next_value(args, i, o.long) {
                        Ok(p) => Ok(Some(p)),
                        Err(err) => Err(err),
                    }
                }
            } else if a.len() > 2 {
                Err(CliErrorV::UnknownArgument(a))
            } else {
                Ok(Some((OccV { name: o.long, value: None }, 1)))
            },
        }
    } else {
        Ok(None)
    }
}

/// The options from token `i` on, up to the first token that is no option,
/// and the position of that token (the length when there is none).
pub open spec fn scan_options(t: Seq<OptV>, args: Seq<Seq<char>>, i: int) -> Result<(Seq<OccV>, int), CliErrorV>
    decreases args.len() - i,
{
    if i < 0 || i >= args.len() {
        Ok((seq![], i))
    } else {
        match read_option(t, args, i) {
            Err(e) => Err(e),
            Ok(None) => Ok((seq![], i)),
            Ok(Some((occ, n))) => if n >= 1 {
                match scan_options(t, args, i + n) {
                    Ok((rest, j)) => Ok((seq![occ] + rest, j)),
                    Err(e) => Err(e),
                }
            } else {
                Ok((seq![], i))
            },
        }
    }
}

fn copy_string(s: &String) -> (r: String)
    ensures
        r@ == s@,
{
    s.clone()
}

fn lookup_long(t: &Vec<OptDef>, name: &str) -> (r: Option<usize>)
    ensures
        match find_long(opts_view(t@), name@, 0) {
            None => r is None,
            Some(o) => r matches Some(k) && k < t@.len() && t@[k as int]@ == o,
        },
{
    let name_s = name.to_owned();
    let mut k: usize = 0;
    while k < t.len()
        invariant
            k <= t@.len(),
            name_s@ == name@,
            find_long(opts_view(t@), name@, 0) == find_long(opts_view(t@), name@, k as int),
        decreases t@.len() - k,
    {
        if t[k].long == name_s {
            return Some(k);
        }
        k += 1;
    }
    None
}

fn lookup_short(t: &Vec<OptDef>, c: char) -> (r: Option<usize>)
    ensures
        match find_short(opts_view(t@), c, 0) {
            None => r is None,
            Some(o) => r matches Some(k) && k < t@.len() && t@[k as int]@ == o,
        },
{
    let mut k: usize = 0;
    while k < t.len()
        invariant
            k <= t@.len(),
            find_short(opts_view(t@), c, 0) == find_short(opts_view(t@), c, k as int),
        decreases t@.len() - k,
    {
        if t[k].short == Some(c) {
            return Some(k);
        }
        k += 1;
    }
    None
}

fn position_of_eq(s: &str) -> (r: Option<usize>)
    ensures
        match find_eq(s@, 0) {
            None => r is None,
            Some(e) => r matches Some(k) && k as int == e,
        },
        r matches Some(e) ==> e < s@.len(),
{
    let n = s.unicode_len();
    let mut k: usize = 0;
    while k < n
        invariant
            n == s@.len(),
            k <= n,
            find_eq(s@, 0) == find_eq(s@, k as int),
        decreases n - k,
    {
        if s.get_char(k) == '=' {
            return Some(k);
        }
        k += 1;
    }
    None
}

/// Whether a text is the given one.
pub fn is_text(s: &str, lit: &str) -> (r: bool)
    ensures
        r == (s@ == lit@),
{
    let a = s.to_string();
    let b = lit.to_string();
    a == b
}

fn next_value_exec(args: &Vec<String>, i: usize, name: &String) -> (r: Result<(Occ, usize), CliError>)
    requires
        i < args@.len(),
    ensures
        match next_value(strings_view(args@), i as int, name@) {
            Ok((occ, n)) => r matches Ok((o, m)) && o@ == occ && m == n,
            Err(e) => r matches Err(err) && err@ == e,
        },
{
    if i < args.len() - 1 {
        let next = args[i + 1].as_str();
        let n = next.unicode_len();
        if n <= 1 || next.get_char(0) != '-' {
            return Ok((Occ { name: copy_string(name), value: Some(copy_string(&args[i + 1])) }, 2));
        }
    }
    Err(CliError::MissingValue(copy_string(name)))
}

fn read_option_exec(t: &Vec<OptDef>, args: &Vec<String>, i: usize) -> (r: Result<Option<(Occ, usize)>, CliError>)
    requires
        i < args@.len(),
    ensures
        match read_option(opts_view(t@), strings_view(args@), i as int) {
            Ok(None) => r matches Ok(None),
            Ok(Some((occ, n))) => r matches Ok(Some((o, m))) && o@ == occ && m == n,
            Err(e) => r matches Err(err) && err@ == e,
        },
{
    let ghost av = strings_view(args@);
    let a = args[i].as_str();
    let n = a.unicode_len();
    proof {
        assert(av[i as int] == a@);
    }
    if n > 2 && a.get_char(0) == '-' && a.get_char(1) == '-' {
        let body = a.substring_char(2, n);
        let blen = n - 2;
        let eq = position_of_eq(body);
        let name = match eq {
            Some(e) => body.substring_char(0, e),
            None => body,
        };
        proof {
            assert(body@.subrange(0, body@.len() as int) =~= body@);
        }
        match lookup_long(t, name) {
            None => if is_text(name, "help") {
                Err(CliError::DisplayHelp)
            } else {
                Err(CliError::UnknownArgument(copy_string(&args[i])))
            },
            Some(k) => {
                let o = &t[k];
                if o.takes_value {
                    match eq {
                        Some(e) => {
                            let v = body.substring_char(e + 1, blen).to_owned();
                            Ok(Some((Occ { name: copy_string(&o.long), value: Some(v) }, 1)))
                        },
                        None => match next_value_exec(args, i, &o.long) {
                            Ok(p) => Ok(Some(p)),
                            Err(err) => Err(err),
                        },
                    }
                } else {
                    match eq {
                        Some(_) => Err(CliError::UnexpectedValue(copy_string(&o.long))),
                        None => Ok(Some((Occ { name: copy_string(&o.long), value: None }, 1))),
                    }
                }
            },
        }
    } else if n >= 2 && a.get_char(0) == '-' && a.get_char(1) != '-' {
        match lookup_short(t, a.get_char(1)) {
            None => if is_text(a, "-h") {
                Err(CliError::DisplayHelp)
            } else {
                Err(CliError::UnknownArgument(copy_string(&args[i])))
            },
            Some(k) => {
                let o = &t[k];
                if o.takes_value {
                    if n > 2 {
                        let rest = a.substring_char(2, n);
                        let v = if rest.get_char(0) == '=' {
                            rest.substring_char(1, n - 2).to_owned()
                        } else {
                            rest.to_owned()
                        };
                        Ok(Some((Occ { name: copy_string(&o.long), value: Some(v) }, 1)))
                    } else {
                        match next_value_exec(args, i, &o.long) {
                            Ok(p) => Ok(Some(p)),
                            Err(err) => Err(err),
                        }
                    }
                } else if n > 2 {
                    Err(CliError::UnknownArgument(copy_string(&args[i])))
                } else {
                    Ok(Some((Occ { name: copy_string(&o.long), value: None }, 1)))
                }
            },
        }
    } else {
        Ok(None)
    }
}

/// Prepends the options read so far to the rest of a scan.
pub open spec fn prepend_occs(p: Seq<OccV>, r: Result<(Seq<OccV>, int), CliErrorV>) -> Result<(Seq<OccV>, int), CliErrorV> {
    match r {
        Ok((rest, j)) => Ok((p + rest, j)),
        Err(e) => Err(e),
    }
}

/// Reads the options of a command from token `start` on; returns them and
/// the position of the first token that is no option.
pub fn scan_options_exec(t: &Vec<OptDef>, args: &Vec<String>, start: usize) -> (r: Result<(Vec<Occ>, usize), CliError>)
    requires
        start <= args@.len(),
    ensures
        match scan_options(opts_view(t@), strings_view(args@), start as int) {
            Ok((occs, j)) => r matches Ok((v, k)) && occs_view(v@) == occs && k == j,
            Err(e) => r matches Err(err) && err@ == e,
        },
{
    let ghost tv = opts_view(t@);
    let ghost av = strings_view(args@);
    let mut occs: Vec<Occ> = Vec::new();
    let mut i: usize = start;
    while i < args.len()
        invariant
            start <= i <= args@.len(),
            tv == opts_view(t@),
            av == strings_view(args@),
            scan_options(tv, av, start as int) == prepend_occs(occs_view(occs@), scan_options(tv, av, i as int)),
        decreases args@.len() - i,
    {
        match read_option_exec(t, args, i) {
            Err(e) => return Err(e),
            Ok(None) => {
                proof {
                    assert(occs_view(occs@) + seq![] =~= occs_view(occs@));
                }
                return Ok((occs, i));
            },
            Ok(Some((occ, n))) => {
                let ghost before = occs_view(occs@);
                let ghost ov = occ@;
                occs.push(occ);
                proof {
                    assert(occs_view(occs@) =~= before.push(ov));
                    match scan_options(tv, av, (i + n) as int) {
                        Ok((rest, j)) => {
                            assert(before + (seq![ov] + rest) =~= before.push(ov) + rest);
                        },
                        Err(_) => {},
                    }
                }
                i = i + n;
            },
        }
    }
    proof {
        assert(occs_view(occs@) + seq![] =~= occs_view(occs@));
    }
    Ok((occs, i))
}

/// How many times the option was given.
pub open spec fn occ_count(occs: Seq<OccV>, name: Seq<char>) -> nat
    decreases occs.len(),
{
    if occs.len() == 0 {
        0
    } else {
        occ_count(occs.drop_last(), name) + if occs.last().name == name { 1nat } else { 0nat }
    }
}

/// Whether the option was given.
pub open spec fn present(occs: Seq<OccV>, name: Seq<char>) -> bool {
    first_value(occs, name) is Some
}

/// The value given with the first occurrence of the option (the empty
/// text for a switch), if it was given.
pub open spec fn first_value(occs: Seq<OccV>, name: Seq<char>) -> Option<Seq<char>>
    decreases occs.len(),
{
    if occs.len() == 0 {
        None
    } else if occs[0].name == name {
        Some(match occs[0].value { Some(v) => v, None => Seq::<char>::empty() })
    } else {
        first_value(occs.drop_first(), name)
    }
}

/// The values of all occurrences of the option, in order.
pub open spec fn all_values(occs: Seq<OccV>, name: Seq<char>) -> Seq<Seq<char>>
    decreases occs.len(),
{
    if occs.len() == 0 {
        seq![]
    } else {
        all_values(occs.drop_last(), name) + if occs.last().name == name {
            seq![match occs.last().value { Some(v) => v, None => Seq::<char>::empty() }]
        } else {
            Seq::<Seq<char>>::empty()
        }
    }
}

/// The first option of the table, from `k` on, that may be given once and
/// was given more than once.
pub open spec fn first_duplicate(t: Seq<OptV>, occs: Seq<OccV>, k: int) -> Option<Seq<char>>
    decreases t.len() - k,
{
    if k < 0 || k >= t.len() {
        None
    } else if !t[k].multiple && occ_count(occs, t[k].long) > 1 {
        Some(t[k].long)
    } else {
        first_duplicate(t, occs, k + 1)
    }
}

fn occ_value_text(o: &Occ) -> (r: String)
    ensures
        r@ == (match o@.value { Some(v) => v, None => Seq::<char>::empty() }),
{
    match &o.value {
        Some(v) => copy_string(v),
        None => String::new(),
    }
}

/// How many times the option was given.
pub fn count_of(occs: &Vec<Occ>, name: &str) -> (r: usize)
    ensures
        r == occ_count(occs_view(occs@), name@),
{
    let name_s = name.to_owned();
    let mut n: usize = 0;
    let mut i: usize = 0;
    while i < occs.len()
        invariant
            i <= occs@.len(),
            name_s@ == name@,
            n == occ_count(occs_view(occs@.subrange(0, i as int)), name@),
            n <= i,
        decreases occs@.len() - i,
    {
        proof {
            let s = occs@.subrange(0, i as int + 1);
            assert(occs_view(s).drop_last() =~= occs_view(occs@.subrange(0, i as int)));
            assert(occs_view(s).last() == occs@[i as int]@);
        }
        if occs[i].name == name_s {
            n = n + 1;
        }
        i = i + 1;
    }
    proof { assert(occs@.subrange(0, occs@.len() as int) =~= occs@); }
    n
}

/// The value given with the first occurrence of the option, if any.
pub fn value_of(occs: &Vec<Occ>, name: &str) -> (r: Option<String>)
    ensures
        match first_value(occs_view(occs@), name@) {
            Some(v) => r matches Some(x) && x@ == v,
            None => r is None,
        },
{
    let name_s = name.to_owned();
    let mut i: usize = 0;
    proof { assert(occs_view(occs@).subrange(0, occs@.len() as int) =~= occs_view(occs@)); }
    while i < occs.len()
        invariant
            i <= occs@.len(),
            name_s@ == name@,
            first_value(occs_view(occs@), name@) == first_value(occs_view(occs@).subrange(i as int, occs@.len() as int), name@),
        decreases occs@.len() - i,
    {
        let ghost rest = occs_view(occs@).subrange(i as int, occs@.len() as int);
        proof {
            assert(rest[0] == occs@[i as int]@);
            assert(rest.drop_first() =~= occs_view(occs@).subrange(i as int + 1, occs@.len() as int));
        }
        if occs[i].name == name_s {
            return Some(occ_value_text(&occs[i]));
        }
        i = i + 1;
    }
    None
}

/// The values of all occurrences of the option, in order.
pub fn values_of(occs: &Vec<Occ>, name: &str) -> (r: Vec<String>)
    ensures
        strings_view(r@) == all_values(occs_view(occs@), name@),
{
    let name_s = name.to_owned();
    let mut r: Vec<String> = Vec::new();
    let mut i: usize = 0;
    while i < occs.len()
        invariant
            i <= occs@.len(),
            name_s@ == name@,
            strings_view(r@) == all_values(occs_view(occs@.subrange(0, i as int)), name@),
        decreases occs@.len() - i,
    {
        let ghost before = strings_view(r@);
        proof {
            let s = occs@.subrange(0, i as int + 1);
            assert(occs_view(s).drop_last() =~= occs_view(occs@.subrange(0, i as int)));
            assert(occs_view(s).last() == occs@[i as int]@);
        }
        if occs[i].name == name_s {
            r.push(occ_value_text(&occs[i]));
            proof {
                assert(strings_view(r@) =~= before + seq![r@.last()@]);
            }
        } else {
            proof {
                assert(before + Seq::<Seq<char>>::empty() =~= before);
            }
        }
        i = i + 1;
    }
    proof { assert(occs@.subrange(0, occs@.len() as int) =~= occs@); }
    r
}

/// Refuses an option given more than once that may be given once.
pub fn check_duplicates(t: &Vec<OptDef>, occs: &Vec<Occ>) -> (r: Result<(), CliError>)
    ensures
        match first_duplicate(opts_view(t@), occs_view(occs@), 0) {
            None => r is Ok,
            Some(n) => r matches Err(e) && e@ == CliErrorV::DuplicateArgument(n),
        },
{
    let mut k: usize = 0;
    while k < t.len()
        invariant
            k <= t@.len(),
            first_duplicate(opts_view(t@), occs_view(occs@), 0) == first_duplicate(opts_view(t@), occs_view(occs@), k as int),
        decreases t@.len() - k,
    {
        if !t[k].multiple && count_of(occs, t[k].long.as_str()) > 1 {
            return Err(CliError::DuplicateArgument(copy_string(&t[k].long)));
        }
        k = k + 1;
    }
    Ok(())
}

} // verus!
