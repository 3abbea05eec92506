//! The resolution session: the deduplication state threaded through a parse
//! session. It records the files, catalogs and schemas already visited, and
//! the locations of the external tables seen so far. A `USE` statement is
//! resolved against this state: the same file is never parsed twice, and the
//! `CREATE DATABASE` / `CREATE SCHEMA` preamble for a catalog or schema is
//! emitted at most once.
use vstd::prelude::*;
use crate::errors::ParseError;
use crate::paths::spec_extension;
use crate::strutil::eq_str;

verus! {

/// The deduplication and location state of one parse session.
pub struct ResolutionSession {
    /// Files already parsed.
    pub visited_files: Vec<String>,
    /// Catalogs whose `CREATE DATABASE` preamble was already emitted.
    pub visited_catalogs: Vec<String>,
    /// `catalog.schema` pairs whose `CREATE SCHEMA` preamble was already
    /// emitted.
    pub visited_schemas: Vec<String>,
    /// External table locations: qualified table name, resolved location.
    pub locations: Vec<(String, String)>,
}

/// A sequence extended by `x` only when `x` is not yet in it.
pub open spec fn spec_insert(v: Seq<Seq<char>>, x: Seq<char>) -> Seq<Seq<char>> {
    if v.contains(x) {
        v
    } else {
        v.push(x)
    }
}

/// The id under which a schema is recorded: `catalog.schema`.
pub open spec fn spec_schema_id(catalog: Seq<char>, schema: Seq<char>) -> Seq<char> {
    catalog + seq!['.'] + schema
}

/// The schema-scoped candidate file for a `USE`: `catalog/schema.sql`.
pub open spec fn spec_schema_file(catalog: Seq<char>, schema: Seq<char>) -> Seq<char> {
    catalog + seq!['/'] + schema + ".sql"@
}

/// The table-scoped candidate file for a `USE`: `catalog/schema/table.sql`.
pub open spec fn spec_table_file(catalog: Seq<char>, schema: Seq<char>, table: Seq<char>) -> Seq<
    char,
> {
    catalog + seq!['/'] + schema + seq!['/'] + table + ".sql"@
}

/// The message reported when neither candidate file exists.
pub open spec fn spec_missing_use_message(
    catalog: Seq<char>,
    schema: Seq<char>,
    table: Seq<char>,
) -> Seq<char> {
    "Missing schema file "@ + spec_schema_file(catalog, schema) + " or table file "@
        + spec_table_file(catalog, schema, table) + " "@
}

/// The preamble emitted ahead of a newly resolved file: `CREATE DATABASE`
/// when the catalog is fresh, then `CREATE SCHEMA` when the schema is fresh.
pub open spec fn spec_use_preamble(
    catalogs: Seq<Seq<char>>,
    schemas: Seq<Seq<char>>,
    catalog: Seq<char>,
    schema: Seq<char>,
) -> Seq<char> {
    (if !catalogs.contains(catalog) {
        "CREATE DATABASE "@ + catalog + ";\n"@
    } else {
        Seq::<char>::empty()
    }) + (if !schemas.contains(spec_schema_id(catalog, schema)) {
        "CREATE SCHEMA "@ + catalog + seq!['.'] + schema + ";\n"@
    } else {
        Seq::<char>::empty()
    })
}

/// What a `USE` resolves to, at the level of the session's mathematical
/// state.
pub enum SpecUseOutcome {
    /// Neither candidate file exists: the `USE` fails.
    Missing,
    /// The resolved file was already visited: the `USE` yields nothing.
    Skip,
    /// The resolved file is fresh: parse it under the new scope, with the
    /// preamble prepended, in the updated session.
    Parse {
        filename: Seq<char>,
        table: Seq<char>,
        preamble: Seq<char>,
        files: Seq<Seq<char>>,
        catalogs: Seq<Seq<char>>,
        schemas: Seq<Seq<char>>,
    },
}

/// Resolution of a `USE catalog.schema.table` against the session state:
/// prefer the table-scoped file, fall back to the schema-scoped file, fail
/// when neither exists; skip a file already visited; otherwise mark the
/// file, catalog and schema visited and build the preamble.
pub open spec fn spec_resolve_use(
    files: Seq<Seq<char>>,
    catalogs: Seq<Seq<char>>,
    schemas: Seq<Seq<char>>,
    catalog: Seq<char>,
    schema: Seq<char>,
    table: Seq<char>,
    table_file_exists: bool,
    schema_file_exists: bool,
) -> SpecUseOutcome {
    if !table_file_exists && !schema_file_exists {
        SpecUseOutcome::Missing
    } else {
        let filename = if table_file_exists {
            spec_table_file(catalog, schema, table)
        } else {
            spec_schema_file(catalog, schema)
        };
        let new_table = if table_file_exists {
            table
        } else {
            Seq::<char>::empty()
        };
        if files.contains(filename) {
            SpecUseOutcome::Skip
        } else {
            SpecUseOutcome::Parse {
                filename,
                table: new_table,
                preamble: spec_use_preamble(catalogs, schemas, catalog, schema),
                files: files.push(filename),
                catalogs: spec_insert(catalogs, catalog),
                schemas: spec_insert(schemas, spec_schema_id(catalog, schema)),
            }
        }
    }
}

/// What the caller of `resolve_use` is told to do.
#[derive(Debug)]
pub enum UseAction {
    /// The file was already visited: the `USE` yields no statements.
    Skip,
    /// Parse `filename` under the scope `(catalog, schema, table)`, with
    /// `preamble` prepended to its text.
    Parse {
        filename: String,
        catalog: String,
        schema: String,
        table: String,
        preamble: String,
    },
}

fn vec_contains_str(v: &Vec<String>, x: &str) -> (r: bool)
    ensures
        r == v.deep_view().contains(x@),
{
    let n = v.len();
    let mut i: usize = 0;
    while i < n
        invariant
            n == v@.len(),
            i <= n,
            forall|j: int| 0 <= j < i ==> v.deep_view()[j] != x@,
        decreases n - i,
    {
        if eq_str(v[i].as_str(), x) {
            proof {
                assert(v.deep_view()[i as int] == x@);
            }
            return true;
        }
        i = i + 1;
    }
    proof {
        assert(forall|j: int| 0 <= j < v.deep_view().len() ==> v.deep_view()[j] != x@);
    }
    false
}

fn insert_if_absent(v: &mut Vec<String>, x: &str)
    ensures
        final(v).deep_view() == spec_insert(old(v).deep_view(), x@),
{
    if !vec_contains_str(v, x) {
        let ghost pre = v.deep_view();
        v.push(x.to_owned());
        proof {
            assert(v.deep_view() =~= pre.push(x@));
        }
    }
}

/// Record a visited file, catalog and schema, as one operation.
pub fn visit(session: &mut ResolutionSession, filename: &str, catalog: &str, schema: &str)
    ensures
        final(session).visited_files.deep_view() == spec_insert(
            old(session).visited_files.deep_view(),
            filename@,
        ),
        final(session).visited_catalogs.deep_view() == spec_insert(
            old(session).visited_catalogs.deep_view(),
            catalog@,
        ),
        final(session).visited_schemas.deep_view() == spec_insert(
            old(session).visited_schemas.deep_view(),
            spec_schema_id(catalog@, schema@),
        ),
        final(session).locations.deep_view() == old(session).locations.deep_view(),
{
    insert_if_absent(&mut session.visited_files, filename);
    insert_if_absent(&mut session.visited_catalogs, catalog);
    let mut id = catalog.to_owned();
    crate::strutil::push_char(&mut id, '.');
    id.append(schema);
    proof {
        assert(id@ =~= spec_schema_id(catalog@, schema@));
    }
    insert_if_absent(&mut session.visited_schemas, id.as_str());
}

impl ResolutionSession {
    /// A fresh session: nothing visited, no locations recorded.
    pub fn new() -> (r: ResolutionSession)
        ensures
            r.visited_files.deep_view() == Seq::<Seq<char>>::empty(),
            r.visited_catalogs.deep_view() == Seq::<Seq<char>>::empty(),
            r.visited_schemas.deep_view() == Seq::<Seq<char>>::empty(),
            r.locations.deep_view() == Seq::<(Seq<char>, Seq<char>)>::empty(),
    {
        let r = ResolutionSession {
            visited_files: Vec::new(),
            visited_catalogs: Vec::new(),
            visited_schemas: Vec::new(),
            locations: Vec::new(),
        };
        proof {
            assert(r.visited_files.deep_view() =~= Seq::<Seq<char>>::empty());
            assert(r.visited_catalogs.deep_view() =~= Seq::<Seq<char>>::empty());
            assert(r.visited_schemas.deep_view() =~= Seq::<Seq<char>>::empty());
            assert(r.locations.deep_view() =~= Seq::<(Seq<char>, Seq<char>)>::empty());
        }
        r
    }
}

/// Build `catalog/schema.sql`.
pub fn schema_file_name(catalog: &str, schema: &str) -> (r: String)
    ensures
        r@ == spec_schema_file(catalog@, schema@),
{
    let mut s = catalog.to_owned();
    crate::strutil::push_char(&mut s, '/');
    s.append(schema);
    s.append(".sql");
    proof {
        assert(s@ =~= spec_schema_file(catalog@, schema@));
    }
    s
}

/// Build `catalog/schema/table.sql`.
pub fn table_file_name(catalog: &str, schema: &str, table: &str) -> (r: String)
    ensures
        r@ == spec_table_file(catalog@, schema@, table@),
{
    let mut s = catalog.to_owned();
    crate::strutil::push_char(&mut s, '/');
    s.append(schema);
    crate::strutil::push_char(&mut s, '/');
    s.append(table);
    s.append(".sql");
    proof {
        assert(s@ =~= spec_table_file(catalog@, schema@, table@));
    }
    s
}

/// Resolve a `USE catalog.schema.table` statement. The caller reports
/// whether each candidate file exists; the session records the decision.
pub fn resolve_use(
    session: &mut ResolutionSession,
    catalog: &str,
    schema: &str,
    table: &str,
    table_file_exists: bool,
    schema_file_exists: bool,
) -> (r: Result<UseAction, ParseError>)
    ensures
        ({
            let outcome = spec_resolve_use(
                old(session).visited_files.deep_view(),
                old(session).visited_catalogs.deep_view(),
                old(session).visited_schemas.deep_view(),
                catalog@,
                schema@,
                table@,
                table_file_exists,
                schema_file_exists,
            );
            match outcome {
                SpecUseOutcome::Missing => {
                    &&& r matches Err(e) && (e matches ParseError::ParseError(m) && m@
                        == spec_missing_use_message(catalog@, schema@, table@))
                    &&& *final(session) == *old(session)
                },
                SpecUseOutcome::Skip => {
                    &&& r matches Ok(a) && a is Skip
                    &&& *final(session) == *old(session)
                },
                SpecUseOutcome::Parse { filename, table, preamble, files, catalogs, schemas } => {
                    &&& r matches Ok(a) && (a matches UseAction::Parse {
                        filename: f,
                        catalog: c,
                        schema: s,
                        table: t,
                        preamble: p,
                    } && f@ == filename && c@ == catalog@ && s@ == schema@ && t@ == table && p@
                        == preamble)
                    &&& final(session).visited_files.deep_view() == files
                    &&& final(session).visited_catalogs.deep_view() == catalogs
                    &&& final(session).visited_schemas.deep_view() == schemas
                    &&& final(session).locations.deep_view() == old(
                        session,
                    ).locations.deep_view()
                },
            }
        }),
{
    let schema_filename = schema_file_name(catalog, schema);
    let table_filename = table_file_name(catalog, schema, table);
    if !table_file_exists && !schema_file_exists {
        let mut msg = String::from_str("Missing schema file ");
        msg.append(schema_filename.as_str());
        msg.append(" or table file ");
        msg.append(table_filename.as_str());
        msg.append(" ");
        proof {
            assert(msg@ =~= spec_missing_use_message(catalog@, schema@, table@));
        }
        return Err(ParseError::ParseError(msg));
    }
    let filename = if table_file_exists {
        table_filename
    } else {
        schema_filename
    };
    if vec_contains_str(&session.visited_files, filename.as_str()) {
        return Ok(UseAction::Skip);
    }
    let ghost files_pre = session.visited_files.deep_view();
    session.visited_files.push(filename.clone());
    proof {
        assert(session.visited_files.deep_view() =~= files_pre.push(filename@));
    }
    let mut preamble = String::new();
    if !vec_contains_str(&session.visited_catalogs, catalog) {
        preamble.append("CREATE DATABASE ");
        preamble.append(catalog);
        preamble.append(";\n");
    }
    insert_if_absent(&mut session.visited_catalogs, catalog);
    let mut schema_id = catalog.to_owned();
    crate::strutil::push_char(&mut schema_id, '.');
    schema_id.append(schema);
    proof {
        assert(schema_id@ =~= spec_schema_id(catalog@, schema@));
    }
    if !vec_contains_str(&session.visited_schemas, schema_id.as_str()) {
        preamble.append("CREATE SCHEMA ");
        preamble.append(catalog);
        crate::strutil::push_char(&mut preamble, '.');
        preamble.append(schema);
        preamble.append(";\n");
    }
    insert_if_absent(&mut session.visited_schemas, schema_id.as_str());
    proof {
        assert(preamble@ =~= spec_use_preamble(
            old(session).visited_catalogs.deep_view(),
            old(session).visited_schemas.deep_view(),
            catalog@,
            schema@,
        ));
    }
    Ok(
        UseAction::Parse {
            filename,
            catalog: catalog.to_owned(),
            schema: schema.to_owned(),
            table: if table_file_exists {
                table.to_owned()
            } else {
                String::new()
            },
            preamble,
        },
    )
}

/// The location registry read as a map: a later entry for a key overrides an
/// earlier one.
pub open spec fn spec_location_map(entries: Seq<(Seq<char>, Seq<char>)>) -> Map<
    Seq<char>,
    Seq<char>,
>
    decreases entries.len(),
{
    if entries.len() == 0 {
        Map::empty()
    } else {
        spec_location_map(entries.drop_last()).insert(entries.last().0, entries.last().1)
    }
}

/// A location normalized for the registry: a location without a recognized
/// file extension is a directory-like prefix and is recorded with a
/// recursive glob suffix.
pub open spec fn spec_normalized_location(location: Seq<char>) -> Seq<char> {
    if spec_extension(location).len() == 0 {
        location + "/**"@
    } else {
        location
    }
}

/// Record an external table's location under its fully qualified name. A
/// later record for the same name overrides the earlier one.
pub fn register_location(session: &mut ResolutionSession, key: &str, location: &str)
    ensures
        final(session).locations.deep_view() == old(session).locations.deep_view().push(
            (key@, spec_normalized_location(location@)),
        ),
        spec_location_map(final(session).locations.deep_view()) == spec_location_map(
            old(session).locations.deep_view(),
        ).insert(key@, spec_normalized_location(location@)),
        final(session).visited_files.deep_view() == old(session).visited_files.deep_view(),
        final(session).visited_catalogs.deep_view() == old(session).visited_catalogs.deep_view(),
        final(session).visited_schemas.deep_view() == old(session).visited_schemas.deep_view(),
{
    let ext = crate::paths::extension(location);
    let mut value = location.to_owned();
    if ext.unicode_len() == 0 {
        value.append("/**");
    }
    proof {
        assert(value@ =~= spec_normalized_location(location@));
    }
    let ghost pre = session.locations.deep_view();
    session.locations.push((key.to_owned(), value));
    proof {
        assert(session.locations.deep_view() =~= pre.push(
            (key@, spec_normalized_location(location@)),
        ));
        assert(session.locations.deep_view().drop_last() =~= pre);
    }
}

/// Look up the recorded location of a fully qualified table name.
pub fn get_location(session: &ResolutionSession, key: &str) -> (r: Option<String>)
    ensures
        match r {
            Some(v) => spec_location_map(session.locations.deep_view()).contains_key(key@) && v@
                == spec_location_map(session.locations.deep_view())[key@],
            None => !spec_location_map(session.locations.deep_view()).contains_key(key@),
        },
{
    let n = session.locations.len();
    let mut i: usize = n;
    proof {
        assert(session.locations.deep_view().take(n as int) =~= session.locations.deep_view());
    }
    while i > 0
        invariant
            n == session.locations@.len(),
            i <= n,
            spec_location_map(session.locations.deep_view()).contains_key(key@)
                == spec_location_map(session.locations.deep_view().take(i as int)).contains_key(
                key@,
            ),
            spec_location_map(session.locations.deep_view()).contains_key(key@)
                ==> spec_location_map(session.locations.deep_view())[key@] == spec_location_map(
                session.locations.deep_view().take(i as int),
            )[key@],
        decreases i,
    {
        i = i - 1;
        proof {
            assert(session.locations.deep_view().take(i + 1 as int).drop_last()
                =~= session.locations.deep_view().take(i as int));
            assert(session.locations.deep_view().take(i + 1 as int).last()
                == session.locations.deep_view()[i as int]);
        }
        if eq_str(session.locations[i].0.as_str(), key) {
            proof {
                assert(session.locations.deep_view()[i as int].0 == key@);
            }
            return Some(session.locations[i].1.clone());
        }
        proof {
            assert(session.locations.deep_view()[i as int].0 != key@);
        }
    }
    proof {
        assert(session.locations.deep_view().take(0) =~= Seq::<(Seq<char>, Seq<char>)>::empty());
    }
    None
}

/// A sequence without repeated entries.
pub open spec fn spec_distinct(v: Seq<Seq<char>>) -> bool {
    forall|i: int, j: int| 0 <= i < j < v.len() ==> v[i] != v[j]
}

/// A filename enters the visited-files set at most once: resolving a `USE`
/// keeps the set free of repeats, so no file is ever parsed a second time.
pub proof fn lemma_visited_files_distinct(
    files: Seq<Seq<char>>,
    catalogs: Seq<Seq<char>>,
    schemas: Seq<Seq<char>>,
    catalog: Seq<char>,
    schema: Seq<char>,
    table: Seq<char>,
    table_file_exists: bool,
    schema_file_exists: bool,
)
    requires
        spec_distinct(files),
    ensures
        (spec_resolve_use(
            files,
            catalogs,
            schemas,
            catalog,
            schema,
            table,
            table_file_exists,
            schema_file_exists,
        ) matches SpecUseOutcome::Parse { files: files2, .. } ==> spec_distinct(files2)),
{
    let outcome = spec_resolve_use(
        files,
        catalogs,
        schemas,
        catalog,
        schema,
        table,
        table_file_exists,
        schema_file_exists,
    );
    match outcome {
        SpecUseOutcome::Parse { filename, files: files2, .. } => {
            assert forall|i: int, j: int| 0 <= i < j < files2.len() implies files2[i]
                != files2[j] by {
                if j == files.len() {
                    assert(!files.contains(filename));
                    assert(files2[i] == files[i]);
                }
            }
        },
        _ => {
        },
    }
}

/// Re-issuing a `USE` that resolved to a fresh file: in the session the
/// first resolution produced, the same `USE` is skipped — it yields no
/// statements, whichever way it resolves.
pub proof fn lemma_use_idempotent(
    files: Seq<Seq<char>>,
    catalogs: Seq<Seq<char>>,
    schemas: Seq<Seq<char>>,
    catalog: Seq<char>,
    schema: Seq<char>,
    table: Seq<char>,
    table_file_exists: bool,
    schema_file_exists: bool,
)
    requires
        spec_resolve_use(
            files,
            catalogs,
            schemas,
            catalog,
            schema,
            table,
            table_file_exists,
            schema_file_exists,
        ) is Parse,
    ensures
        (spec_resolve_use(
            files,
            catalogs,
            schemas,
            catalog,
            schema,
            table,
            table_file_exists,
            schema_file_exists,
        ) matches SpecUseOutcome::Parse { files: files2, .. } ==> spec_resolve_use(
            files2,
            catalogs,
            schemas,
            catalog,
            schema,
            table,
            table_file_exists,
            schema_file_exists,
        ) is Skip),
{
    let outcome = spec_resolve_use(
        files,
        catalogs,
        schemas,
        catalog,
        schema,
        table,
        table_file_exists,
        schema_file_exists,
    );
    match outcome {
        SpecUseOutcome::Parse { filename, files: files2, .. } => {
            assert(files2[files.len() as int] == filename);
            assert(files2.contains(filename));
        },
        _ => {
        },
    }
}

/// A `USE` whose resolved file is already in the visited set is skipped, and
/// a fresh resolution emits at most one `CREATE DATABASE` and at most one
/// `CREATE SCHEMA` preamble statement: the preamble is one of the four
/// concatenations of those two statements, each present only when its
/// catalog or schema is fresh.
pub proof fn lemma_use_preamble_shape(
    files: Seq<Seq<char>>,
    catalogs: Seq<Seq<char>>,
    schemas: Seq<Seq<char>>,
    catalog: Seq<char>,
    schema: Seq<char>,
    table: Seq<char>,
    table_file_exists: bool,
    schema_file_exists: bool,
)
    ensures
        (spec_resolve_use(
            files,
            catalogs,
            schemas,
            catalog,
            schema,
            table,
            table_file_exists,
            schema_file_exists,
        ) matches SpecUseOutcome::Parse { preamble, .. } ==> {
            let db = "CREATE DATABASE "@ + catalog + ";\n"@;
            let sch = "CREATE SCHEMA "@ + catalog + seq!['.'] + schema + ";\n"@;
            &&& (catalogs.contains(catalog) && schemas.contains(spec_schema_id(catalog, schema))
                ==> preamble =~= Seq::<char>::empty())
            &&& (!catalogs.contains(catalog) && schemas.contains(spec_schema_id(catalog, schema))
                ==> preamble =~= db)
            &&& (catalogs.contains(catalog) && !schemas.contains(spec_schema_id(catalog, schema))
                ==> preamble =~= sch)
            &&& (!catalogs.contains(catalog) && !schemas.contains(spec_schema_id(catalog, schema))
                ==> preamble =~= db + sch)
        }),
        (table_file_exists || schema_file_exists) && files.contains(
            if table_file_exists {
                spec_table_file(catalog, schema, table)
            } else {
                spec_schema_file(catalog, schema)
            },
        ) ==> spec_resolve_use(
            files,
            catalogs,
            schemas,
            catalog,
            schema,
            table,
            table_file_exists,
            schema_file_exists,
        ) is Skip,
{
}

} // verus!
