# beamline

The verified core of the PartiQL Beamline tools, written in Verus.

`src/` holds the library. Its own logic is verified against its contracts;
the calls into outside crates (random draws, date and decimal formatting,
base64, the insertion-ordered map, Ion's digit count, and the like) stand in
small trusted wrappers whose contracts say what those crates document, and
which Verus takes on trust:

- `shape`, `value`: the PartiQL shape (type) and value models.
- `ddl`, `kollider`, `linac`, `ion`: the shape encoders; the Ion ones record
  the writer calls they make as events, proved well nested.
- `json`, `columns`: values as JSON documents and as Parquet columns (Arrow
  schema, cells per row).
- `path`, `predicate`, `groups`, `strategy`, `generator`, `select`, `ast`,
  `exprgen`:
  path discovery in shapes, the predicates that suit a type, and random
  `SELECT .. FROM .. WHERE ..` query generation, and expression generators
  built from parts.
- `cmdline`, `cli`, `cliargs`, `commands`, `querygen`, `numparse`, `text`,
  `catalog`: the command line and the file layout of generated databases.

`app/main.rs` is the command around the library: it reads the command line
and reports what needs the data simulator, which this crate does not
include. `tests/` exercises the library on concrete inputs.
