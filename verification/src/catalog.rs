//! The layout of a generated database catalog and the choices made while
//! writing generated data: which datasets, how many samples, file names
//! and the manifest.
use vstd::prelude::*;
use crate::text::{decimal, push_decimal, push_char};

verus! {

/// How many samples to take of each dataset.
#[derive(PartialEq, Eq, Structural, Clone, Copy, Debug)]
pub struct SimSamples {
    pub count: u64,
}

impl SimSamples {
    /// The number of samples.
    pub fn to_samples(self) -> (n: u64)
        ensures
            n == self.count,
    {
        self.count
    }
}

/// The datasets to write, by name; none means all of them.
#[derive(Debug)]
pub struct DataSetFilters {
    pub filters: Vec<String>,
}

/// The id of the first known dataset with the name.
pub open spec fn dataset_id(known: Seq<(usize, Seq<char>)>, name: Seq<char>) -> Option<usize>
    decreases known.len(),
{
    if known.len() == 0 {
        None
    } else if known[0].1 == name {
        Some(known[0].0)
    } else {
        dataset_id(known.drop_first(), name)
    }
}

/// The datasets the names select, in the order of the names; names of no
/// known dataset are passed over.
pub open spec fn named_datasets(names: Seq<Seq<char>>, known: Seq<(usize, Seq<char>)>) -> Seq<(usize, Seq<char>)>
    decreases names.len(),
{
    if names.len() == 0 {
        Seq::empty()
    } else {
        named_datasets(names.drop_last(), known) + match dataset_id(known, names.last()) {
            Some(id) => seq![(id, names.last())],
            None => Seq::<(usize, Seq<char>)>::empty(),
        }
    }
}

/// All known datasets when no names are given, else the named ones.
pub open spec fn selected_datasets(names: Seq<Seq<char>>, known: Seq<(usize, Seq<char>)>) -> Seq<(usize, Seq<char>)> {
    if names.len() == 0 { known } else { named_datasets(names, known) }
}

pub open spec fn named_view(v: Seq<(usize, String)>) -> Seq<(usize, Seq<char>)> {
    v.map_values(|p: (usize, String)| (p.0, p.1@))
}

pub open spec fn names_view(v: Seq<String>) -> Seq<Seq<char>> {
    v.map_values(|s: String| s@)
}

fn lookup_dataset(known: &Vec<(usize, String)>, name: &String) -> (r: Option<usize>)
    ensures
        r == dataset_id(named_view(known@), name@),
{
    let ghost kv = named_view(known@);
    let mut i: usize = 0;
    proof { assert(kv.subrange(0, kv.len() as int) =~= kv); }
    while i < known.len()
        invariant
            i <= known@.len(),
            kv == named_view(known@),
            kv.len() == known@.len(),
            dataset_id(kv, name@) == dataset_id(kv.subrange(i as int, kv.len() as int), name@),
        decreases known@.len() - i,
    {
        let ghost rest = kv.subrange(i as int, kv.len() as int);
        proof {
            assert(rest[0] == (known@[i as int].0, known@[i as int].1@));
            assert(rest.drop_first() =~= kv.subrange(i as int + 1, kv.len() as int));
        }
        if known[i].1 == *name {
            return Some(known[i].0);
        }
        i += 1;
    }
    None
}

fn copy_known(known: &Vec<(usize, String)>) -> (r: Vec<(usize, String)>)
    ensures
        named_view(r@) == named_view(known@),
{
    let mut r: Vec<(usize, String)> = Vec::new();
    let mut i: usize = 0;
    while i < known.len()
        invariant
            i <= known@.len(),
            named_view(r@) == named_view(known@.take(i as int)),
        decreases known@.len() - i,
    {
        let ghost before = named_view(r@);
        r.push((known[i].0, known[i].1.clone()));
        proof {
            assert(named_view(r@) =~= before.push((known@[i as int].0, known@[i as int].1@)));
            assert(named_view(known@.take(i + 1)) =~= named_view(known@.take(i as int)).push((known@[i as int].0, known@[i as int].1@)));
        }
        i += 1;
    }
    proof { assert(known@.take(known@.len() as int) =~= known@); }
    r
}

/// The datasets to write, with their ids, among the known datasets.
pub fn select_datasets(names: &Vec<String>, known: &Vec<(usize, String)>) -> (r: Vec<(usize, String)>)
    ensures
        named_view(r@) == selected_datasets(names_view(names@), named_view(known@)),
{
    if names.len() == 0 {
        return copy_known(known);
    }
    let ghost nv = names_view(names@);
    let mut r: Vec<(usize, String)> = Vec::new();
    let mut i: usize = 0;
    proof { assert(nv.take(0) =~= Seq::<Seq<char>>::empty()); }
    while i < names.len()
        invariant
            i <= names@.len(),
            nv == names_view(names@),
            nv.len() == names@.len(),
            named_view(r@) == named_datasets(nv.take(i as int), named_view(known@)),
        decreases names@.len() - i,
    {
        let ghost pre = nv.take(i + 1);
        proof {
            assert(pre.drop_last() =~= nv.take(i as int));
            assert(pre.last() == names@[i as int]@);
        }
        let ghost before = named_view(r@);
        match lookup_dataset(known, &names[i]) {
            Some(id) => {
                r.push((id, names[i].clone()));
                proof { assert(named_view(r@) =~= before + seq![(id, names@[i as int]@)]); }
            },
            None => {
                proof { assert(before + Seq::<(usize, Seq<char>)>::empty() =~= before); }
            },
        }
        i += 1;
    }
    proof { assert(nv.take(nv.len() as int) =~= nv); }
    r
}

impl DataSetFilters {
    /// The datasets to write among the known ones: all of them when there
    /// are no filters, else the named ones, in the order of the filters.
    pub fn to_datasets(self, known: &Vec<(usize, String)>) -> (r: Vec<(usize, String)>)
        ensures
            named_view(r@) == selected_datasets(names_view(self.filters@), named_view(known@)),
    {
        select_datasets(&self.filters, known)
    }
}

/// The directory of a catalog: `<path>/<name>/`.
pub open spec fn catalog_dir(name: Seq<char>, path: Seq<char>) -> Seq<char> {
    path + "/"@ + name + "/"@
}

/// The directory of a catalog.
pub fn catalog_full_path(catalog_name: &str, catalog_path: &str) -> (r: String)
    ensures
        r@ == catalog_dir(catalog_name@, catalog_path@),
{
    let mut s = String::from_str(catalog_path);
    s.append("/");
    s.append(catalog_name);
    s.append("/");
    proof { assert(s@ =~= catalog_dir(catalog_name@, catalog_path@)); }
    s
}

/// `base` followed by `suffix`.
fn suffixed(base: &str, suffix: &str) -> (r: String)
    ensures
        r@ == base@ + suffix@,
{
    let mut s = String::from_str(base);
    s.append(suffix);
    s
}

/// The manifest file of a catalog: its directory followed by
/// `.beamline-manifest`.
pub fn manifest_file_path(catalog_full_path: &str) -> (r: String)
    ensures
        r@ == catalog_full_path@ + ".beamline-manifest"@,
{
    suffixed(catalog_full_path, ".beamline-manifest")
}

/// The script file of a catalog: its directory followed by
/// `.beamline-script`.
pub fn script_file_path(catalog_full_path: &str) -> (r: String)
    ensures
        r@ == catalog_full_path@ + ".beamline-script"@,
{
    suffixed(catalog_full_path, ".beamline-script")
}

/// The shape file of a dataset: `<dir>/<dataset>.shape.ion`.
pub fn shape_file_path(catalog_full_path: &str, dataset: &str) -> (r: String)
    ensures
        r@ == catalog_full_path@ + "/"@ + dataset@ + ".shape.ion"@,
{
    let mut s = String::from_str(catalog_full_path);
    s.append("/");
    s.append(dataset);
    s.append(".shape.ion");
    proof { assert(s@ =~= catalog_full_path@ + "/"@ + dataset@ + ".shape.ion"@); }
    s
}

/// The data file of a dataset: `<dir>/<dataset>.ion`.
pub fn data_file_path(catalog_full_path: &str, dataset: &str) -> (r: String)
    ensures
        r@ == catalog_full_path@ + "/"@ + dataset@ + ".ion"@,
{
    let mut s = String::from_str(catalog_full_path);
    s.append("/");
    s.append(dataset);
    s.append(".ion");
    proof { assert(s@ =~= catalog_full_path@ + "/"@ + dataset@ + ".ion"@); }
    s
}

/// The manifest of a catalog: `{"seed": "<seed>", "start": "<start>",
/// "ddl_syntax.version": "partiql_datatype_syntax.0.1" }`.
pub open spec fn manifest(seed: u64, start: Seq<char>) -> Seq<char> {
    "{\"seed\": \""@ + decimal(seed as nat) + "\", \"start\": \""@ + start
        + "\", \"ddl_syntax.version\": \"partiql_datatype_syntax.0.1\" }"@
}

pub fn manifest_text(seed: u64, start: &str) -> (r: String)
    ensures
        r@ == manifest(seed, start@),
{
    let mut s = String::from_str("{\"seed\": \"");
    push_decimal(&mut s, seed);
    s.append("\", \"start\": \"");
    s.append(start);
    s.append("\", \"ddl_syntax.version\": \"partiql_datatype_syntax.0.1\" }");
    proof { assert(s@ =~= manifest(seed, start@)); }
    s
}

/// What to do about the catalog directory.
#[derive(PartialEq, Eq, Structural, Clone, Copy, Debug)]
pub enum CatalogDirAction {
    /// Move the existing catalog aside to its backup, then create the
    /// directory (with its parents).
    BackUpAndRecreate,
    /// Create the directory; it does not exist.
    Create,
    /// Create the directory, and stop the program if that fails.
    CreateOrExit,
}

/// With `--force`, an existing catalog is backed up and recreated, a
/// missing one created; without it the directory must be creatable.
pub fn catalog_dir_action(force: bool, exists: bool) -> (a: CatalogDirAction)
    ensures
        a == (if force {
            if exists { CatalogDirAction::BackUpAndRecreate } else { CatalogDirAction::Create }
        } else {
            CatalogDirAction::CreateOrExit
        }),
{
    if force {
        if exists { CatalogDirAction::BackUpAndRecreate } else { CatalogDirAction::Create }
    } else {
        CatalogDirAction::CreateOrExit
    }
}

/// The name of a catalog's backup: `<name>.<time>.bkp`.
pub fn backup_name(catalog_name: &str, now: &str) -> (r: String)
    ensures
        r@ == catalog_name@ + "."@ + now@ + ".bkp"@,
{
    let mut s = String::from_str(catalog_name);
    s.append(".");
    s.append(now);
    s.append(".bkp");
    proof { assert(s@ =~= catalog_name@ + "."@ + now@ + ".bkp"@); }
    s
}

/// Where the backup goes: `<path>/<backup name>`.
pub fn backup_path(catalog_path: &str, backup: &str) -> (r: String)
    ensures
        r@ == catalog_path@ + "/"@ + backup@,
{
    let mut s = String::from_str(catalog_path);
    s.append("/");
    s.append(backup);
    proof { assert(s@ =~= catalog_path@ + "/"@ + backup@); }
    s
}

/// A character that may not stand in a file name is replaced by `_`.
pub open spec fn safe_char(c: char) -> char {
    if c == '/' || c == '\\' || c == '\0' { '_' } else { c }
}

/// A dataset name made into a file name: `/`, `\` and NUL become `_`.
pub fn sanitize_filename(name: &str) -> (r: String)
    ensures
        r@ == name@.map_values(|c: char| safe_char(c)),
{
    let n = name.unicode_len();
    let mut s = String::new();
    let mut i: usize = 0;
    while i < n
        invariant
            n == name@.len(),
            i <= n,
            s@ == name@.take(i as int).map_values(|c: char| safe_char(c)),
        decreases n - i,
    {
        let c = name.get_char(i);
        let d = if c == '/' || c == '\\' || c == '\0' { '_' } else { c };
        push_char(&mut s, d);
        proof {
            assert(name@.take(i + 1).map_values(|c: char| safe_char(c))
                =~= name@.take(i as int).map_values(|c: char| safe_char(c)).push(d));
        }
        i += 1;
    }
    proof { assert(name@.take(n as int) =~= name@); }
    s
}


/// The file name a dataset name is made into.
pub open spec fn sanitized(name: Seq<char>) -> Seq<char> {
    name.map_values(|c: char| safe_char(c))
}

/// A sanitized file name has the name's length and holds no path
/// separator and no NUL.
pub proof fn lemma_sanitized_is_safe(name: Seq<char>)
    ensures
        sanitized(name).len() == name.len(),
        forall|i: int| 0 <= i < name.len() ==> #[trigger] sanitized(name)[i] != '/' && sanitized(name)[i] != '\\'
            && sanitized(name)[i] != '\0',
{
}

} // verus!
