use sdf_sql::DFParser;
use sdf_sql::ParsedItem;
use sdf_sql::ResolutionSession;
use sdf_sql::UseAction;

#[test]
fn use_statement_yields_a_resolution_request() {
    let mut session = ResolutionSession::new();
    let items = DFParser::parse_sql_with_scope(
        "USE cat.sch.tbl",
        "root.sql",
        "c0",
        "s0",
        "",
        &mut session,
    )
    .unwrap();
    assert_eq!(items.len(), 1);
    match &items[0] {
        ParsedItem::Use {
            catalog,
            schema,
            table,
        } => {
            assert_eq!(catalog, "cat");
            assert_eq!(schema, "sch");
            assert_eq!(table, "tbl");
        }
        other => panic!("expected a Use request, got a statement: {:?}", matches!(other, ParsedItem::Statement(..))),
    }
}

#[test]
fn use_resolution_is_idempotent() {
    let mut session = ResolutionSession::new();
    // First issuance: the table file exists, nothing visited yet.
    let action = sdf_sql::resolve_use(&mut session, "cat", "sch", "tbl", true, false).unwrap();
    match action {
        UseAction::Parse {
            filename,
            catalog,
            schema,
            table,
            preamble,
        } => {
            assert_eq!(filename, "cat/sch/tbl.sql");
            assert_eq!(catalog, "cat");
            assert_eq!(schema, "sch");
            assert_eq!(table, "tbl");
            // At most one CREATE DATABASE and one CREATE SCHEMA, both fresh here.
            assert_eq!(preamble, "CREATE DATABASE cat;\nCREATE SCHEMA cat.sch;\n");
        }
        UseAction::Skip => panic!("first issuance must resolve to a parse"),
    }
    // Re-issuing the same USE in the same session yields nothing.
    let again = sdf_sql::resolve_use(&mut session, "cat", "sch", "tbl", true, false).unwrap();
    assert!(matches!(again, UseAction::Skip));
    // A second schema in the same catalog repeats no CREATE DATABASE.
    let other = sdf_sql::resolve_use(&mut session, "cat", "sch2", "", false, true).unwrap();
    match other {
        UseAction::Parse {
            filename,
            table,
            preamble,
            ..
        } => {
            assert_eq!(filename, "cat/sch2.sql");
            assert_eq!(table, "");
            assert_eq!(preamble, "CREATE SCHEMA cat.sch2;\n");
        }
        UseAction::Skip => panic!("fresh schema file must resolve to a parse"),
    }
}

#[test]
fn use_resolution_missing_files() {
    let mut session = ResolutionSession::new();
    let err = sdf_sql::resolve_use(&mut session, "cat", "sch", "tbl", false, false).unwrap_err();
    assert_eq!(
        err.to_error_string(),
        "sql parser error: Missing schema file cat/sch.sql or table file cat/sch/tbl.sql "
    );
}

#[test]
fn visit_records_file_catalog_and_schema() {
    let mut session = ResolutionSession::new();
    sdf_sql::visit(&mut session, "a/b.sql", "a", "b");
    sdf_sql::visit(&mut session, "a/b.sql", "a", "b");
    assert_eq!(session.visited_files.len(), 1);
    assert_eq!(session.visited_catalogs.len(), 1);
    assert_eq!(session.visited_schemas.len(), 1);
    assert_eq!(session.visited_schemas[0], "a.b");
}

#[test]
fn location_registry_records_and_normalizes() {
    let mut session = ResolutionSession::new();
    let items = DFParser::parse_sql_with_scope(
        "CREATE EXTERNAL TABLE t STORED AS x OPTIONS ('k1' 'v1') LOCATION 'blahblah'",
        "",
        "",
        "",
        "",
        &mut session,
    )
    .unwrap();
    assert_eq!(items.len(), 1);
    // A location without a file extension is recorded as a directory glob.
    assert_eq!(
        sdf_sql::get_location(&session, "sdf.public.t"),
        Some("blahblah/**".to_string())
    );
    // A location with an extension is recorded as it is.
    sdf_sql::register_location(&mut session, "sdf.public.u", "foo.csv");
    assert_eq!(
        sdf_sql::get_location(&session, "sdf.public.u"),
        Some("foo.csv".to_string())
    );
    // A later record for the same name overrides the earlier one.
    sdf_sql::register_location(&mut session, "sdf.public.u", "bar.csv");
    assert_eq!(
        sdf_sql::get_location(&session, "sdf.public.u"),
        Some("bar.csv".to_string())
    );
    assert_eq!(sdf_sql::get_location(&session, "sdf.public.nope"), None);
}

#[test]
fn scoped_parse_wraps_errors_with_the_filename() {
    let mut session = ResolutionSession::new();
    let err = DFParser::parse_sql_with_scope(
        "CREATE EXTERNAL TABLE",
        "models/a.sql",
        "c",
        "s",
        "",
        &mut session,
    )
    .unwrap_err();
    assert!(err
        .to_error_string()
        .starts_with("sql parser error: 'models/a.sql': "));
}

#[test]
fn scoped_query_becomes_a_named_table() {
    let mut session = ResolutionSession::new();
    let items =
        DFParser::parse_sql_with_scope("SELECT 1", "models/orders.sql", "c", "s", "", &mut session)
            .unwrap();
    assert_eq!(items.len(), 1);
    match &items[0] {
        ParsedItem::Statement(stmt, meta) => {
            let shown = stmt.to_display_string();
            assert!(shown.contains("CREATE TABLE c.s.orders"), "got: {shown}");
            assert!(shown.contains("SELECT 1"), "got: {shown}");
            assert_eq!(meta.filename, "models/orders.sql");
        }
        ParsedItem::Use { .. } => panic!("expected a statement"),
    }
}
