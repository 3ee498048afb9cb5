use helix_dadbod::meta_commands::MetaCommand;

#[test]
fn test_parse_describe_no_param() {
    let cmd = MetaCommand::parse("\\d");
    assert_eq!(cmd, Some(MetaCommand::Describe(None)));
}

#[test]
fn test_parse_describe_with_table() {
    let cmd = MetaCommand::parse("\\d users");
    assert_eq!(cmd, Some(MetaCommand::Describe(Some("users".to_string()))));
}

#[test]
fn test_parse_dt() {
    let cmd = MetaCommand::parse("\\dt");
    assert_eq!(cmd, Some(MetaCommand::DescribeTables(None)));
}

#[test]
fn test_parse_dt_with_pattern() {
    let cmd = MetaCommand::parse("\\dt user");
    assert_eq!(cmd, Some(MetaCommand::DescribeTables(Some("user".to_string()))));
}

#[test]
fn test_parse_list_databases() {
    let cmd = MetaCommand::parse("\\l");
    assert_eq!(cmd, Some(MetaCommand::ListDatabases));
}

#[test]
fn test_parse_not_meta_command() {
    let cmd = MetaCommand::parse("SELECT * FROM users");
    assert_eq!(cmd, None);
}

#[test]
fn test_describe_generates_sql() {
    let cmd = MetaCommand::Describe(Some("users".to_string()));
    let sql = cmd.to_sql().unwrap();
    assert!(sql.contains("pg_catalog.pg_attribute"));
    assert!(sql.contains("'users'::regclass"));
}

#[test]
fn test_parse_with_leading_whitespace() {
    let cmd = MetaCommand::parse("   \\d   ");
    assert_eq!(cmd, Some(MetaCommand::Describe(None)));
}

#[test]
fn test_parse_dt_after_comment_stripped() {
    // The scenario after SQL comments have been stripped.
    let cmd = MetaCommand::parse("\\dt");
    assert_eq!(cmd, Some(MetaCommand::DescribeTables(None)));
}

#[test]
fn test_parse_other_commands() {
    assert_eq!(MetaCommand::parse("\\dv"), Some(MetaCommand::DescribeViews(None)));
    assert_eq!(MetaCommand::parse("\\di x"), Some(MetaCommand::DescribeIndexes(Some("x".to_string()))));
    assert_eq!(MetaCommand::parse("\\ds"), Some(MetaCommand::DescribeSequences(None)));
    assert_eq!(MetaCommand::parse("\\df"), Some(MetaCommand::DescribeFunctions(None)));
    assert_eq!(MetaCommand::parse("\\dn"), Some(MetaCommand::DescribeSchemas(None)));
    assert_eq!(MetaCommand::parse("\\du"), Some(MetaCommand::DescribeUsers));
    assert_eq!(MetaCommand::parse("\\unknown"), None);
    assert_eq!(MetaCommand::parse("\\"), None);
    assert_eq!(MetaCommand::parse(""), None);
}

#[test]
fn test_pattern_is_escaped_into_like_clause() {
    let sql = MetaCommand::list_tables_sql(Some("it's"));
    assert!(sql.contains("AND c.relname LIKE '%it''s%'"));
    let plain = MetaCommand::list_tables_sql(None);
    assert!(!plain.contains("LIKE"));
    assert!(plain.ends_with("ORDER BY 1, 2;"));
}

#[test]
fn test_describe_without_param_lists_tables() {
    let d = MetaCommand::Describe(None).to_sql().unwrap();
    let dt = MetaCommand::DescribeTables(None).to_sql().unwrap();
    assert_eq!(d, dt);
}

#[test]
fn test_list_databases_sql_exact() {
    let sql = MetaCommand::ListDatabases.to_sql().unwrap();
    assert_eq!(
        sql,
        "SELECT d.datname AS \"Name\",\n  pg_catalog.pg_get_userbyid(d.datdba) AS \"Owner\",\n  pg_catalog.pg_encoding_to_char(d.encoding) AS \"Encoding\",\n  d.datcollate AS \"Collate\",\n  d.datctype AS \"Ctype\"\nFROM pg_catalog.pg_database d\nORDER BY 1;"
    );
}
