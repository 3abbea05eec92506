use sdf_sql::CompressionTypeVariant;
use sdf_sql::CreateExternalTable;
use sdf_sql::DFParser;
use sdf_sql::DfStatement;
use sqlparser::ast::DataType;

fn parse_one(sql: &str) -> DfStatement {
    let mut stmts = DFParser::parse_sql(sql).expect("expected the statement to parse");
    assert_eq!(stmts.len(), 1, "Expected to parse exactly one statement");
    stmts.remove(0)
}

fn expect_cet(sql: &str) -> CreateExternalTable {
    match parse_one(sql) {
        DfStatement::CreateExternalTable(c) => c,
        other => panic!("expected CreateExternalTable, got {:?}", other),
    }
}

fn expect_parse_error(sql: &str, expected_error: &str) {
    match DFParser::parse_sql(sql) {
        Ok(statements) => {
            panic!("Expected parse error for '{sql}', but was successful: {statements:?}");
        }
        Err(e) => {
            let error_message = e.to_error_string();
            assert!(
                error_message.contains(expected_error),
                "Expected error '{expected_error}' not found in actual error '{error_message}'"
            );
        }
    }
}

fn assert_no_extras(c: &CreateExternalTable) {
    assert!(c.table_partition_cols.is_empty());
    assert!(!c.if_not_exists);
    assert_eq!(c.file_compression_type, CompressionTypeVariant::UNCOMPRESSED);
    assert!(c.options.is_empty());
}

#[test]
fn create_external_table() {
    // positive case
    let sql = "CREATE EXTERNAL TABLE t(c1 int) STORED AS CSV LOCATION 'foo.csv'";
    let c = expect_cet(sql);
    assert_eq!(c.name, "t");
    assert_eq!(c.columns.len(), 1);
    assert_eq!(c.columns[0].name.value, "c1");
    assert_eq!(c.columns[0].name.quote, None);
    assert_eq!(c.columns[0].data_type, DataType::Int(None));
    assert!(c.columns[0].collation.is_none());
    assert!(c.columns[0].options.is_empty());
    assert_eq!(c.file_type, "CSV");
    assert!(!c.has_header);
    assert_eq!(c.delimiter, ',');
    assert_eq!(c.location, "foo.csv");
    assert_no_extras(&c);

    // positive case with delimiter
    let sql = "CREATE EXTERNAL TABLE t(c1 int) STORED AS CSV DELIMITER '|' LOCATION 'foo.csv'";
    let c = expect_cet(sql);
    assert_eq!(c.name, "t");
    assert_eq!(c.file_type, "CSV");
    assert!(!c.has_header);
    assert_eq!(c.delimiter, '|');
    assert_eq!(c.location, "foo.csv");
    assert_no_extras(&c);

    // positive case: partitioned by
    let sql = "CREATE EXTERNAL TABLE t(c1 int) STORED AS CSV PARTITIONED BY (p1, p2) LOCATION 'foo.csv'";
    let c = expect_cet(sql);
    assert_eq!(c.table_partition_cols, vec!["p1".to_string(), "p2".to_string()]);
    assert_eq!(c.delimiter, ',');
    assert!(!c.has_header);

    // positive case: `WITH HEADER ROW` in any letter case
    let sqls = vec![
        "CREATE EXTERNAL TABLE t(c1 int) STORED AS CSV WITH HEADER ROW LOCATION 'foo.csv'",
        "CREATE EXTERNAL TABLE t(c1 int) STORED AS CSV with header row LOCATION 'foo.csv'",
    ];
    for sql in sqls {
        let c = expect_cet(sql);
        assert!(c.has_header);
        assert_eq!(c.file_type, "CSV");
        assert_eq!(c.delimiter, ',');
        assert_no_extras(&c);
    }

    // positive case: `COMPRESSION TYPE` tags
    let sqls = vec![
        (
            "CREATE EXTERNAL TABLE t(c1 int) STORED AS CSV COMPRESSION TYPE GZIP LOCATION 'foo.csv'",
            CompressionTypeVariant::GZIP,
        ),
        (
            "CREATE EXTERNAL TABLE t(c1 int) STORED AS CSV COMPRESSION TYPE BZIP2 LOCATION 'foo.csv'",
            CompressionTypeVariant::BZIP2,
        ),
        (
            "CREATE EXTERNAL TABLE t(c1 int) STORED AS CSV COMPRESSION TYPE XZ LOCATION 'foo.csv'",
            CompressionTypeVariant::XZ,
        ),
    ];
    for (sql, file_compression_type) in sqls {
        let c = expect_cet(sql);
        assert_eq!(c.file_compression_type, file_compression_type);
        assert!(!c.has_header);
        assert_eq!(c.delimiter, ',');
        assert!(c.table_partition_cols.is_empty());
        assert!(c.options.is_empty());
    }

    // positive case: parquet files need no columns
    let sql = "CREATE EXTERNAL TABLE t STORED AS PARQUET LOCATION 'foo.parquet'";
    let c = expect_cet(sql);
    assert_eq!(c.name, "t");
    assert!(c.columns.is_empty());
    assert_eq!(c.file_type, "PARQUET");
    assert!(!c.has_header);
    assert_eq!(c.delimiter, ',');
    assert_eq!(c.location, "foo.parquet");
    assert_no_extras(&c);

    // positive case: the format word may be written in any case
    let sql = "CREATE EXTERNAL TABLE t STORED AS parqueT LOCATION 'foo.parquet'";
    let c = expect_cet(sql);
    assert_eq!(c.file_type, "PARQUET");
    assert_eq!(c.location, "foo.parquet");

    // positive case: avro files need no columns
    let sql = "CREATE EXTERNAL TABLE t STORED AS AVRO LOCATION 'foo.avro'";
    let c = expect_cet(sql);
    assert!(c.columns.is_empty());
    assert_eq!(c.file_type, "AVRO");
    assert_eq!(c.location, "foo.avro");

    // positive case: IF NOT EXISTS
    let sql = "CREATE EXTERNAL TABLE IF NOT EXISTS t STORED AS PARQUET LOCATION 'foo.parquet'";
    let c = expect_cet(sql);
    assert!(c.if_not_exists);
    assert_eq!(c.name, "t");
    assert_eq!(c.file_type, "PARQUET");

    // Error case: partition columns do not take a type
    let sql =
        "CREATE EXTERNAL TABLE t(c1 int) STORED AS CSV PARTITIONED BY (p1 int) LOCATION 'foo.csv'";
    expect_parse_error(
        sql,
        "sql parser error: Expected ',' or ')' after partition definition, found: int",
    );

    // positive case: one option entry
    let sql = "CREATE EXTERNAL TABLE t STORED AS x OPTIONS ('k1' 'v1') LOCATION 'blahblah'";
    let c = expect_cet(sql);
    assert_eq!(c.file_type, "X");
    assert_eq!(c.location, "blahblah");
    assert_eq!(c.options, vec![("k1".to_string(), "v1".to_string())]);

    // positive case: several option entries, quoted or bare
    let sql = "CREATE EXTERNAL TABLE t STORED AS x OPTIONS ('k1' 'v1', k2 v2) LOCATION 'blahblah'";
    let c = expect_cet(sql);
    assert_eq!(
        c.options,
        vec![
            ("k1".to_string(), "v1".to_string()),
            ("k2".to_string(), "v2".to_string())
        ]
    );

    // Error case: a key without a value
    let sql =
        "CREATE EXTERNAL TABLE t STORED AS x OPTIONS ('k1' 'v1', k2 v2, k3) LOCATION 'blahblah'";
    expect_parse_error(sql, "sql parser error: Expected literal string, found: )");

    // Error case: `WITH HEADER` without `ROW`
    let sql = "CREATE EXTERNAL TABLE t STORED AS CSV WITH HEADER LOCATION 'abc'";
    expect_parse_error(sql, "sql parser error: Expected LOCATION, found: WITH");

    // Error case: a single word `PARTITIONED`
    let sql = "CREATE EXTERNAL TABLE t STORED AS CSV PARTITIONED LOCATION 'abc'";
    expect_parse_error(sql, "sql parser error: Expected LOCATION, found: PARTITIONED");

    // Error case: a single word `COMPRESSION`
    let sql = "CREATE EXTERNAL TABLE t STORED AS CSV COMPRESSION LOCATION 'abc'";
    expect_parse_error(sql, "sql parser error: Expected LOCATION, found: COMPRESSION");
}

#[test]
fn invalid_compression_type() {
    let sql = "CREATE EXTERNAL TABLE t STORED AS CSV COMPRESSION TYPE ZZZ LOCATION 'blahblah'";
    expect_parse_error(sql, "sql parser error: Unsupported file compression type ZZZ");
}

#[test]
fn multi_character_delimiter_fails() {
    let sql = "CREATE EXTERNAL TABLE t(c1 int) STORED AS CSV DELIMITER 'ab' LOCATION 'foo.csv'";
    expect_parse_error(sql, "sql parser error: Delimiter must be a single char");
}

#[test]
fn serialization_preserves_fields() {
    let sql = "CREATE EXTERNAL TABLE t(c1 int) STORED AS csv LOCATION 'foo.csv'";
    let c = expect_cet(sql);
    let shown = c.to_display_string();
    assert_eq!(
        shown,
        "CREATE EXTERNAL TABLE t STORED AS CSV LOCATION foo.csv "
    );
    let sql = "CREATE EXTERNAL TABLE IF NOT EXISTS t STORED AS PARQUET LOCATION 'foo.parquet'";
    let c = expect_cet(sql);
    assert_eq!(
        c.to_display_string(),
        "CREATE EXTERNAL TABLE IF NOT EXISTS t STORED AS PARQUET LOCATION foo.parquet "
    );
}

#[test]
fn describe_statement() {
    match parse_one("DESCRIBE a.b") {
        DfStatement::DescribeTable(d) => {
            assert_eq!(d.to_display_string(), "a.b");
        }
        other => panic!("expected DescribeTable, got {:?}", other),
    }
}

#[test]
fn describe_arity_limit() {
    expect_parse_error("DESCRIBE a.b.c.d", "Unsupported identifier arity: a.b.c.d");
}

#[test]
fn standard_statements_are_delegated() {
    let stmt = parse_one("SELECT 1");
    match &stmt {
        DfStatement::Statement(_) => {}
        other => panic!("expected a standard statement, got {:?}", other),
    }
    assert_eq!(stmt.to_display_string(), "SELECT 1");

    let stmt = parse_one("CREATE TABLE t (a int)");
    assert!(stmt.to_display_string().contains("CREATE TABLE"));
}

#[test]
fn statement_separators() {
    let stmts = DFParser::parse_sql(";;SELECT 1; SELECT 2;").unwrap();
    assert_eq!(stmts.len(), 2);
    expect_parse_error("SELECT 1 SELECT 2", "Expected End of statement, found: SELECT");
}

#[test]
fn column_options_and_constraints() {
    let sql = "CREATE EXTERNAL TABLE t(c1 int NOT NULL) STORED AS CSV LOCATION 'foo.csv'";
    let c = expect_cet(sql);
    assert_eq!(c.columns.len(), 1);
    assert_eq!(c.columns[0].options.len(), 1);

    let sql = "CREATE EXTERNAL TABLE t(c1 int, PRIMARY KEY (c1)) STORED AS CSV LOCATION 'foo.csv'";
    let c = expect_cet(sql);
    assert_eq!(c.columns.len(), 1);
    assert_eq!(c.columns[0].name.value, "c1");
}

#[test]
fn use_without_catalog_context_is_skipped() {
    let stmts = DFParser::parse_sql("USE a.b.c").unwrap();
    assert_eq!(stmts.len(), 0);
}

#[test]
fn location_validation() {
    assert!(sdf_sql::validate_location("s3://bucket/x", false).is_ok());
    assert!(sdf_sql::validate_location("foo.csv", true).is_ok());
    let err = sdf_sql::validate_location("blahblah", false).unwrap_err();
    assert_eq!(
        err.to_error_string(),
        "sql parser error: Missing external file 'blahblah'"
    );
    assert!(sdf_sql::location_needs_local_file("foo.csv"));
    assert!(!sdf_sql::location_needs_local_file("s3://bucket/x"));
}

#[test]
fn error_wrapping_carries_filename() {
    let err = sdf_sql::wrap_file_error(
        "dir/file.sql",
        sdf_sql::ParseError::ParseError("boom".to_string()),
    );
    assert_eq!(err.to_error_string(), "sql parser error: 'dir/file.sql': boom");
}

#[test]
fn empty_input_yields_no_statements() {
    assert_eq!(DFParser::parse_sql("").unwrap().len(), 0);
    assert_eq!(DFParser::parse_sql(" ;; ; ").unwrap().len(), 0);
}

#[test]
fn repeated_option_keys_keep_written_order() {
    let sql = "CREATE EXTERNAL TABLE t STORED AS x OPTIONS ('k' 'a', 'k' 'b') LOCATION 'blahblah'";
    let c = expect_cet(sql);
    assert_eq!(
        c.options,
        vec![
            ("k".to_string(), "a".to_string()),
            ("k".to_string(), "b".to_string())
        ]
    );
    // Read as a mapping, the later pair overrides the earlier one.
    assert_eq!(c.option_value("k"), Some("b".to_string()));
    assert_eq!(c.option_value("nope"), None);
}
