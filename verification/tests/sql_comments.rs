use helix_dadbod::connection::ConnectionManager;

#[test]
fn test_strip_sql_comments_simple() {
    let sql = "-- This is a comment\n\\d";
    let result = ConnectionManager::strip_sql_comments(sql);
    assert_eq!(result, "\\d");
}

#[test]
fn test_strip_sql_comments_multiple_lines() {
    let sql = "-- First comment\n-- Second comment\n\\dt users";
    let result = ConnectionManager::strip_sql_comments(sql);
    assert_eq!(result, "\\dt users");
}

#[test]
fn test_strip_sql_comments_inline() {
    let sql = "\\d users -- inline comment";
    let result = ConnectionManager::strip_sql_comments(sql);
    assert_eq!(result, "\\d users");
}

#[test]
fn test_strip_sql_comments_mixed() {
    let sql = "-- Header comment\n\\dt\n-- Footer comment";
    let result = ConnectionManager::strip_sql_comments(sql);
    assert_eq!(result, "\\dt");
}

#[test]
fn test_strip_sql_comments_no_comments() {
    let sql = "\\d users";
    let result = ConnectionManager::strip_sql_comments(sql);
    assert_eq!(result, "\\d users");
}

#[test]
fn test_strip_sql_comments_regular_query() {
    let sql = "-- Get all users\nSELECT * FROM users;";
    let result = ConnectionManager::strip_sql_comments(sql);
    assert_eq!(result, "SELECT * FROM users;");
}

#[test]
fn test_strip_sql_comments_multiline() {
    let sql = "/* This is a multiline comment */\n\\d";
    let result = ConnectionManager::strip_sql_comments(sql);
    assert_eq!(result, "\\d");
}

#[test]
fn test_strip_sql_comments_multiline_spanning() {
    let sql = "/* This is a\nmultiline comment\nspanning multiple lines */\n\\dt users";
    let result = ConnectionManager::strip_sql_comments(sql);
    assert_eq!(result, "\\dt users");
}

#[test]
fn test_strip_sql_comments_both_types() {
    let sql = "/* Block comment */\n-- Line comment\n\\d users";
    let result = ConnectionManager::strip_sql_comments(sql);
    assert_eq!(result, "\\d users");
}

#[test]
fn test_strip_sql_comments_inline_multiline() {
    let sql = "\\d /* inline comment */ users";
    let result = ConnectionManager::strip_sql_comments(sql);
    assert_eq!(result, "\\d users");
}

#[test]
fn test_strip_sql_comments_mixed_complex() {
    let sql = "/* Header\ncomment */\n-- Another comment\n\\dt\n-- Footer";
    let result = ConnectionManager::strip_sql_comments(sql);
    assert_eq!(result, "\\dt");
}

#[test]
fn test_strip_sql_comments_multiline_with_query() {
    let sql = "/* Get all users */\nSELECT * FROM users;";
    let result = ConnectionManager::strip_sql_comments(sql);
    assert_eq!(result, "SELECT * FROM users;");
}

#[test]
fn test_strip_is_idempotent_on_ordinary_inputs() {
    let fixtures = [
        "-- This is a comment\n\\d",
        "-- First comment\n-- Second comment\n\\dt users",
        "\\d users -- inline comment",
        "-- Header comment\n\\dt\n-- Footer comment",
        "\\d users",
        "-- Get all users\nSELECT * FROM users;",
        "/* This is a multiline comment */\n\\d",
        "/* This is a\nmultiline comment\nspanning multiple lines */\n\\dt users",
        "/* Block comment */\n-- Line comment\n\\d users",
        "\\d /* inline comment */ users",
        "/* Header\ncomment */\n-- Another comment\n\\dt\n-- Footer",
        "/* Get all users */\nSELECT * FROM users;",
        "  a   b \t c  \n\n   \n d  ",
        "",
    ];
    for sql in fixtures {
        let once = ConnectionManager::strip_sql_comments(sql);
        let twice = ConnectionManager::strip_sql_comments(&once);
        assert_eq!(once, twice);
    }
}

#[test]
fn test_strip_can_splice_a_new_comment_opener() {
    // Removing a block comment can splice the characters around it into a
    // fresh `--`, which only a second pass removes; such inputs are the
    // one family on which stripping is not idempotent.
    let spliced = ConnectionManager::strip_sql_comments("-/* c */-");
    assert_eq!(spliced, "--");
    assert_eq!(ConnectionManager::strip_sql_comments(&spliced), "");
}

#[test]
fn test_strip_collapses_runs_of_spaces() {
    assert_eq!(ConnectionManager::strip_sql_comments("a    b"), "a b");
    assert_eq!(ConnectionManager::strip_sql_comments("  lead and trail  "), "lead and trail");
    assert_eq!(ConnectionManager::strip_sql_comments("keep\nlines\nintact"), "keep\nlines\nintact");
}
