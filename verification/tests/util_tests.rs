use sdf_sql::CompressionTypeVariant;
use sdf_sql::LowerFunction;
use sdf_sql::LpadFunction;
use sdf_sql::StatementMeta;

#[test]
fn path_helpers() {
    assert_eq!(sdf_sql::basename("a/b/c.sql"), "c.sql");
    assert_eq!(sdf_sql::basename("c.sql"), "c.sql");
    assert_eq!(sdf_sql::parent("a/b/c.sql"), "a/b");
    assert_eq!(sdf_sql::parent("c.sql"), "");
    assert_eq!(sdf_sql::extension("a/b/c.sql"), "sql");
    assert_eq!(sdf_sql::extension("a/bc"), "");
    assert_eq!(sdf_sql::strip_extension("c.sql", ".sql"), "c");
    assert_eq!(sdf_sql::strip_extension("c.csv", ".sql"), "c.csv");
    assert_eq!(sdf_sql::swap_extension("c.sql", ".sql", ".csv"), "c.csv");
    assert_eq!(sdf_sql::swap_extension("c", ".sql", ".csv"), "c.csv");
    assert_eq!(sdf_sql::qualify_name("c", "s", "t"), "t");
}

#[test]
fn split_on_dots() {
    let parts = sdf_sql::split_str("a.b.c", '.');
    assert_eq!(parts, vec!["a", "b", "c"]);
    assert_eq!(sdf_sql::split_str("abc", '.'), vec!["abc"]);
    assert_eq!(sdf_sql::split_str("", '.'), vec![""]);
    assert_eq!(sdf_sql::split_str("a..b", '.'), vec!["a", "", "b"]);
}

#[test]
fn statement_meta_constructors() {
    let m = StatementMeta::empty();
    assert_eq!(m.catalog, "");
    assert_eq!(m.schema, "");
    assert_eq!(m.table, "");
    assert_eq!(m.line_number, 0);
    assert_eq!(m.filename, "");

    let m = StatementMeta::new("c".to_string(), "s".to_string());
    assert_eq!(m.catalog, "c");
    assert_eq!(m.schema, "s");
    assert_eq!(m.table, "");

    let m = StatementMeta::new_with_table(
        "c".to_string(),
        "s".to_string(),
        "t".to_string(),
        "f.sql".to_string(),
    );
    assert_eq!(m.schema_filename(), "c/s.sql");
    assert_eq!(m.to_display_string(), "f.sql:0:c.s.t");

    let m = StatementMeta::new("c".to_string(), "s".to_string());
    assert_eq!(m.to_display_string(), ":0:c.s");

    let m = StatementMeta {
        catalog: "c".to_string(),
        schema: "s".to_string(),
        table: "".to_string(),
        line_number: -7,
        filename: "f".to_string(),
    };
    assert_eq!(m.to_display_string(), "f:-7:c.s");
}

#[test]
fn meta_resolution_arity() {
    let m = sdf_sql::meta_for_table_string("t", "f.sql").unwrap();
    assert_eq!((m.catalog.as_str(), m.schema.as_str(), m.table.as_str()), ("sdf", "public", "t"));
    let m = sdf_sql::meta_for_table_string("s.t", "f.sql").unwrap();
    assert_eq!((m.catalog.as_str(), m.schema.as_str(), m.table.as_str()), ("sdf", "s", "t"));
    let m = sdf_sql::meta_for_table_string("c.s.t", "f.sql").unwrap();
    assert_eq!((m.catalog.as_str(), m.schema.as_str(), m.table.as_str()), ("c", "s", "t"));
    let e = sdf_sql::meta_for_table_string("a.b.c.d", "f.sql").unwrap_err();
    assert!(e.to_error_string().contains("Unsupported identifier arity: a.b.c.d"));
}

#[test]
fn compression_tags() {
    assert_eq!(
        sdf_sql::parse_compression_tag("gzip").unwrap(),
        CompressionTypeVariant::GZIP
    );
    assert_eq!(
        sdf_sql::parse_compression_tag("BZIP2").unwrap(),
        CompressionTypeVariant::BZIP2
    );
    assert_eq!(
        sdf_sql::parse_compression_tag("xz").unwrap(),
        CompressionTypeVariant::XZ
    );
    assert_eq!(
        sdf_sql::parse_compression_tag("Uncompressed").unwrap(),
        CompressionTypeVariant::UNCOMPRESSED
    );
    let e = sdf_sql::parse_compression_tag("ZZZ").unwrap_err();
    assert_eq!(
        e.to_error_string(),
        "sql parser error: Unsupported file compression type ZZZ"
    );
    let e = sdf_sql::parse_compression_tag("zzz").unwrap_err();
    assert_eq!(
        e.to_error_string(),
        "sql parser error: Unsupported file compression type ZZZ"
    );
    assert_eq!(CompressionTypeVariant::GZIP.as_tag(), "GZIP");
    assert_eq!(CompressionTypeVariant::UNCOMPRESSED.as_tag(), "UNCOMPRESSED");
}

#[test]
fn test_lower() {
    assert_eq!(LowerFunction::lower("ABc"), "abc");
    assert_eq!(LowerFunction::lower("QWE"), "qwe");
    assert_eq!(LowerFunction::lower(""), "");
}

#[test]
fn test_lpad() {
    assert_eq!(LpadFunction::lpad("hello", 4, "rust").unwrap(), "hell");
    assert_eq!(LpadFunction::lpad("bc", 5, "a").unwrap(), "aaabc");
    assert_eq!(LpadFunction::lpad("bc", 5, "xy").unwrap(), "xyxbc");
    assert!(LpadFunction::lpad("bc", 5, "").is_none());
    assert_eq!(LpadFunction::lpad("bc", 0, "a").unwrap(), "");
}

#[test]
fn error_rendering() {
    let e = sdf_sql::ParseError::TokenizerError("bad literal".to_string());
    assert_eq!(e.to_error_string(), "sql parser error: bad literal");
    let e = sdf_sql::ParseError::RecursionLimitExceeded;
    assert_eq!(e.to_error_string(), "sql parser error: recursion limit exceeded");
    let wrapped = sdf_sql::wrap_file_error("f.sql", sdf_sql::ParseError::RecursionLimitExceeded);
    assert_eq!(
        wrapped.to_error_string(),
        "sql parser error: 'f.sql': Recursion Limit Exceeded!"
    );
}
