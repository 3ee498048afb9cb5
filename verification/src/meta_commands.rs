//! Meta-command parsing and SQL generation.
//!
//! Translates psql-style meta-commands (`\d`, `\dt`, and so on) into
//! equivalent SQL queries against the system catalogs.

use vstd::prelude::*;
use vstd::string::*;

use crate::errors::DadbodError;
use crate::text::{
    chars_eq_str, chars_of, escape_quotes, push_str_chars, split_ws, split_ws_spec, string_of,
    subvec, string_opt_view, trim_chars, trim_spec, views_of,
};

verus! {

/// A parsed meta-command.
#[derive(Debug, Clone, PartialEq, Eq)]
pub enum MetaCommand {
    /// `\d [table]` - list all tables, or describe one table.
    Describe(Option<String>),
    /// `\dt [pattern]` - list tables.
    DescribeTables(Option<String>),
    /// `\dv [pattern]` - list views.
    DescribeViews(Option<String>),
    /// `\di [pattern]` - list indexes.
    DescribeIndexes(Option<String>),
    /// `\ds [pattern]` - list sequences.
    DescribeSequences(Option<String>),
    /// `\df [pattern]` - list functions.
    DescribeFunctions(Option<String>),
    /// `\dn [pattern]` - list schemas.
    DescribeSchemas(Option<String>),
    /// `\l` - list databases.
    ListDatabases,
    /// `\du` - list users and roles.
    DescribeUsers,
}

/// The mathematical shape of a parsed meta-command.
pub enum MetaCommandView {
    Describe(Option<Seq<char>>),
    DescribeTables(Option<Seq<char>>),
    DescribeViews(Option<Seq<char>>),
    DescribeIndexes(Option<Seq<char>>),
    DescribeSequences(Option<Seq<char>>),
    DescribeFunctions(Option<Seq<char>>),
    DescribeSchemas(Option<Seq<char>>),
    ListDatabases,
    DescribeUsers,
}

impl View for MetaCommand {
    type V = MetaCommandView;

    open spec fn view(&self) -> MetaCommandView {
        match self {
            MetaCommand::Describe(p) => MetaCommandView::Describe(string_opt_view(p)),
            MetaCommand::DescribeTables(p) => MetaCommandView::DescribeTables(string_opt_view(p)),
            MetaCommand::DescribeViews(p) => MetaCommandView::DescribeViews(string_opt_view(p)),
            MetaCommand::DescribeIndexes(p) => MetaCommandView::DescribeIndexes(
                string_opt_view(p),
            ),
            MetaCommand::DescribeSequences(p) => MetaCommandView::DescribeSequences(
                string_opt_view(p),
            ),
            MetaCommand::DescribeFunctions(p) => MetaCommandView::DescribeFunctions(
                string_opt_view(p),
            ),
            MetaCommand::DescribeSchemas(p) => MetaCommandView::DescribeSchemas(
                string_opt_view(p),
            ),
            MetaCommand::ListDatabases => MetaCommandView::ListDatabases,
            MetaCommand::DescribeUsers => MetaCommandView::DescribeUsers,
        }
    }
}

/// What `parse` recognises: the trimmed input must begin with a backslash;
/// the first whitespace-separated word after it names the command, the
/// second, when present, is its parameter; every other word is ignored.
pub open spec fn parse_spec(sql: Seq<char>) -> Option<MetaCommandView> {
    let t = trim_spec(sql);
    if t.len() == 0 || t[0] != '\\' {
        None
    } else {
        let parts = split_ws_spec(t.drop_first());
        if parts.len() == 0 {
            None
        } else {
            let param = if parts.len() > 1 {
                Some(parts[1])
            } else {
                None
            };
            if parts[0] == "d"@ {
                Some(MetaCommandView::Describe(param))
            } else if parts[0] == "dt"@ {
                Some(MetaCommandView::DescribeTables(param))
            } else if parts[0] == "dv"@ {
                Some(MetaCommandView::DescribeViews(param))
            } else if parts[0] == "di"@ {
                Some(MetaCommandView::DescribeIndexes(param))
            } else if parts[0] == "ds"@ {
                Some(MetaCommandView::DescribeSequences(param))
            } else if parts[0] == "df"@ {
                Some(MetaCommandView::DescribeFunctions(param))
            } else if parts[0] == "dn"@ {
                Some(MetaCommandView::DescribeSchemas(param))
            } else if parts[0] == "l"@ {
                Some(MetaCommandView::ListDatabases)
            } else if parts[0] == "du"@ {
                Some(MetaCommandView::DescribeUsers)
            } else {
                None
            }
        }
    }
}

impl MetaCommand {
    /// Parses a SQL string as a meta-command, or reports that it is none.
    pub fn parse(sql: &str) -> (r: Option<MetaCommand>)
        ensures
            r is Some <==> parse_spec(sql@) is Some,
            r matches Some(c) ==> Some(c@) == parse_spec(sql@),
    {
        let cs = chars_of(sql);
        let t = trim_chars(&cs);
        if t.len() == 0 {
            return None;
        }
        if t[0] != '\\' {
            return None;
        }
        let rest = subvec(&t, 1, t.len());
        proof {
            assert(rest@ =~= t@.drop_first());
        }
        let parts = split_ws(&rest);
        let ghost part_views = split_ws_spec(t@.drop_first());
        if parts.len() == 0 {
            proof {
                assert(views_of(parts@).len() == parts@.len());
            }
            return None;
        }
        proof {
            assert(part_views[0] == parts@[0]@);
            if parts@.len() > 1 {
                assert(part_views[1] == parts@[1]@);
            }
        }
        let param: Option<String> = if parts.len() > 1 {
            Some(string_of(&parts[1]))
        } else {
            None
        };
        let cmd = &parts[0];
        if chars_eq_str(cmd, "d") {
            Some(MetaCommand::Describe(param))
        } else if chars_eq_str(cmd, "dt") {
            Some(MetaCommand::DescribeTables(param))
        } else if chars_eq_str(cmd, "dv") {
            Some(MetaCommand::DescribeViews(param))
        } else if chars_eq_str(cmd, "di") {
            Some(MetaCommand::DescribeIndexes(param))
        } else if chars_eq_str(cmd, "ds") {
            Some(MetaCommand::DescribeSequences(param))
        } else if chars_eq_str(cmd, "df") {
            Some(MetaCommand::DescribeFunctions(param))
        } else if chars_eq_str(cmd, "dn") {
            Some(MetaCommand::DescribeSchemas(param))
        } else if chars_eq_str(cmd, "l") {
            Some(MetaCommand::ListDatabases)
        } else if chars_eq_str(cmd, "du") {
            Some(MetaCommand::DescribeUsers)
        } else {
            None
        }
    }
}

/// The `LIKE` restriction appended to a listing when a pattern is given.
pub open spec fn like_clause_spec(column: Seq<char>, p: Seq<char>) -> Seq<char> {
    "  AND "@ + column + " LIKE '%"@ + escape_quotes(p) + "%'\n"@
}

fn push_like_clause(v: &mut Vec<char>, column: &str, p: &str)
    ensures
        final(v)@ == old(v)@ + like_clause_spec(column@, p@),
{
    push_str_chars(v, "  AND ");
    push_str_chars(v, column);
    push_str_chars(v, " LIKE '%");
    push_escaped(v, p);
    push_str_chars(v, "%'\n");
}

/// A listing head, an optional `LIKE` restriction, and a closing clause.
pub open spec fn listing_sql_spec(
    head: Seq<char>,
    column: Seq<char>,
    pattern: Option<Seq<char>>,
    close: Seq<char>,
) -> Seq<char> {
    match pattern {
        Some(p) => head + like_clause_spec(column, p) + close,
        None => head + close,
    }
}

fn listing_sql(head: &str, column: &str, pattern: Option<&str>, close: &str) -> (r: String)
    ensures
        r@ == listing_sql_spec(
            head@,
            column@,
            match pattern {
                Some(p) => Some(p@),
                None => None,
            },
            close@,
        ),
{
    let mut v: Vec<char> = Vec::new();
    push_str_chars(&mut v, head);
    match pattern {
        Some(p) => push_like_clause(&mut v, column, p),
        None => (),
    }
    push_str_chars(&mut v, close);
    string_of(&v)
}

impl MetaCommand {
    /// The SQL that lists tables, restricted by `pattern` when one is given.
    pub fn list_tables_sql(pattern: Option<&str>) -> (r: String)
        ensures
            r@ == list_tables_sql_spec(
                match pattern {
                    Some(p) => Some(p@),
                    None => None,
                },
            ),
    {
        listing_sql(
            "SELECT n.nspname AS \"Schema\",\n  c.relname AS \"Name\",\n  CASE c.relkind\n    WHEN 'r' THEN 'table'\n    WHEN 'p' THEN 'partitioned table'\n  END AS \"Type\",\n  pg_catalog.pg_get_userbyid(c.relowner) AS \"Owner\"\nFROM pg_catalog.pg_class c\nLEFT JOIN pg_catalog.pg_namespace n ON n.oid = c.relnamespace\nWHERE c.relkind IN ('r', 'p')\n  AND n.nspname <> 'pg_catalog'\n  AND n.nspname <> 'information_schema'\n  AND n.nspname !~ '^pg_toast'\n",
            "c.relname",
            pattern,
            "ORDER BY 1, 2;",
        )
    }

    /// The SQL that describes the columns of one table.
    pub fn describe_table_sql(table: &str) -> (r: String)
        ensures
            r@ == describe_table_sql_spec(table@),
    {
        let mut v: Vec<char> = Vec::new();
        push_str_chars(
            &mut v,
            "SELECT\n  a.attname AS \"Column\",\n  pg_catalog.format_type(a.atttypid, a.atttypmod) AS \"Type\",\n  CASE\n    WHEN a.attnotnull THEN 'NOT NULL'\n    ELSE ''\n  END AS \"Nullable\",\n  CASE\n    WHEN a.atthasdef THEN pg_catalog.pg_get_expr(d.adbin, d.adrelid)\n    ELSE ''\n  END AS \"Default\"\nFROM pg_catalog.pg_attribute a\nLEFT JOIN pg_catalog.pg_attrdef d ON (a.attrelid, a.attnum) = (d.adrelid, d.adnum)\nWHERE a.attrelid = '",
        );
        push_escaped(&mut v, table);
        push_str_chars(
            &mut v,
            "'::regclass\n  AND a.attnum > 0\n  AND NOT a.attisdropped\nORDER BY a.attnum;",
        );
        string_of(&v)
    }

    /// The SQL that lists views.
    pub fn list_views_sql(pattern: Option<&str>) -> (r: String)
        ensures
            r@ == list_views_sql_spec(
                match pattern {
                    Some(p) => Some(p@),
                    None => None,
                },
            ),
    {
        listing_sql(
            "SELECT n.nspname AS \"Schema\",\n  c.relname AS \"Name\",\n  CASE c.relkind\n    WHEN 'v' THEN 'view'\n    WHEN 'm' THEN 'materialized view'\n  END AS \"Type\",\n  pg_catalog.pg_get_userbyid(c.relowner) AS \"Owner\"\nFROM pg_catalog.pg_class c\nLEFT JOIN pg_catalog.pg_namespace n ON n.oid = c.relnamespace\nWHERE c.relkind IN ('v', 'm')\n  AND n.nspname <> 'pg_catalog'\n  AND n.nspname <> 'information_schema'\n",
            "c.relname",
            pattern,
            "ORDER BY 1, 2;",
        )
    }

    /// The SQL that lists indexes.
    pub fn list_indexes_sql(pattern: Option<&str>) -> (r: String)
        ensures
            r@ == list_indexes_sql_spec(
                match pattern {
                    Some(p) => Some(p@),
                    None => None,
                },
            ),
    {
        listing_sql(
            "SELECT n.nspname AS \"Schema\",\n  c.relname AS \"Name\",\n  pg_catalog.pg_get_userbyid(c.relowner) AS \"Owner\",\n  t.relname AS \"Table\"\nFROM pg_catalog.pg_class c\nLEFT JOIN pg_catalog.pg_namespace n ON n.oid = c.relnamespace\nLEFT JOIN pg_catalog.pg_index i ON i.indexrelid = c.oid\nLEFT JOIN pg_catalog.pg_class t ON i.indrelid = t.oid\nWHERE c.relkind = 'i'\n  AND n.nspname <> 'pg_catalog'\n  AND n.nspname <> 'information_schema'\n",
            "c.relname",
            pattern,
            "ORDER BY 1, 2;",
        )
    }

    /// The SQL that lists sequences.
    pub fn list_sequences_sql(pattern: Option<&str>) -> (r: String)
        ensures
            r@ == list_sequences_sql_spec(
                match pattern {
                    Some(p) => Some(p@),
                    None => None,
                },
            ),
    {
        listing_sql(
            "SELECT n.nspname AS \"Schema\",\n  c.relname AS \"Name\",\n  pg_catalog.pg_get_userbyid(c.relowner) AS \"Owner\"\nFROM pg_catalog.pg_class c\nLEFT JOIN pg_catalog.pg_namespace n ON n.oid = c.relnamespace\nWHERE c.relkind = 'S'\n  AND n.nspname <> 'pg_catalog'\n  AND n.nspname <> 'information_schema'\n",
            "c.relname",
            pattern,
            "ORDER BY 1, 2;",
        )
    }

    /// The SQL that lists functions.
    pub fn list_functions_sql(pattern: Option<&str>) -> (r: String)
        ensures
            r@ == list_functions_sql_spec(
                match pattern {
                    Some(p) => Some(p@),
                    None => None,
                },
            ),
    {
        listing_sql(
            "SELECT n.nspname AS \"Schema\",\n  p.proname AS \"Name\",\n  pg_catalog.pg_get_function_result(p.oid) AS \"Result data type\",\n  pg_catalog.pg_get_function_arguments(p.oid) AS \"Argument data types\"\nFROM pg_catalog.pg_proc p\nLEFT JOIN pg_catalog.pg_namespace n ON n.oid = p.pronamespace\nWHERE n.nspname <> 'pg_catalog'\n  AND n.nspname <> 'information_schema'\n",
            "p.proname",
            pattern,
            "ORDER BY 1, 2;",
        )
    }

    /// The SQL that lists schemas.
    pub fn list_schemas_sql(pattern: Option<&str>) -> (r: String)
        ensures
            r@ == list_schemas_sql_spec(
                match pattern {
                    Some(p) => Some(p@),
                    None => None,
                },
            ),
    {
        listing_sql(
            "SELECT n.nspname AS \"Name\",\n  pg_catalog.pg_get_userbyid(n.nspowner) AS \"Owner\"\nFROM pg_catalog.pg_namespace n\nWHERE n.nspname !~ '^pg_'\n  AND n.nspname <> 'information_schema'\n",
            "n.nspname",
            pattern,
            "ORDER BY 1;",
        )
    }

    /// The SQL that lists databases.
    pub fn list_databases_sql() -> (r: String)
        ensures
            r@ == list_databases_sql_spec(),
    {
        let mut v: Vec<char> = Vec::new();
        push_str_chars(
            &mut v,
            "SELECT d.datname AS \"Name\",\n  pg_catalog.pg_get_userbyid(d.datdba) AS \"Owner\",\n  pg_catalog.pg_encoding_to_char(d.encoding) AS \"Encoding\",\n  d.datcollate AS \"Collate\",\n  d.datctype AS \"Ctype\"\nFROM pg_catalog.pg_database d\nORDER BY 1;",
        );
        string_of(&v)
    }

    /// The SQL that lists users and roles.
    pub fn list_users_sql() -> (r: String)
        ensures
            r@ == list_users_sql_spec(),
    {
        let mut v: Vec<char> = Vec::new();
        push_str_chars(
            &mut v,
            "SELECT r.rolname AS \"Role name\",\n  CASE\n    WHEN r.rolsuper THEN 'Superuser'\n    ELSE ''\n  END AS \"Attributes\",\n  ARRAY(\n    SELECT b.rolname\n    FROM pg_catalog.pg_auth_members m\n    JOIN pg_catalog.pg_roles b ON (m.roleid = b.oid)\n    WHERE m.member = r.oid\n  ) AS \"Member of\"\nFROM pg_catalog.pg_roles r\nWHERE r.rolname !~ '^pg_'\nORDER BY 1;",
        );
        string_of(&v)
    }

    /// The SQL a parsed meta-command stands for.  Generation never fails;
    /// the `Result` shape is kept for the caller's sake.
    pub fn to_sql(&self) -> (r: Result<String, DadbodError>)
        ensures
            r is Ok,
            r matches Ok(s) ==> s@ == to_sql_spec(self@),
    {
        match self {
            MetaCommand::Describe(None) => Ok(Self::list_tables_sql(None)),
            MetaCommand::Describe(Some(table)) => Ok(Self::describe_table_sql(table.as_str())),
            MetaCommand::DescribeTables(p) => Ok(
                Self::list_tables_sql(
                    match p {
                        Some(s) => Some(s.as_str()),
                        None => None,
                    },
                ),
            ),
            MetaCommand::DescribeViews(p) => Ok(
                Self::list_views_sql(
                    match p {
                        Some(s) => Some(s.as_str()),
                        None => None,
                    },
                ),
            ),
            MetaCommand::DescribeIndexes(p) => Ok(
                Self::list_indexes_sql(
                    match p {
                        Some(s) => Some(s.as_str()),
                        None => None,
                    },
                ),
            ),
            MetaCommand::DescribeSequences(p) => Ok(
                Self::list_sequences_sql(
                    match p {
                        Some(s) => Some(s.as_str()),
                        None => None,
                    },
                ),
            ),
            MetaCommand::DescribeFunctions(p) => Ok(
                Self::list_functions_sql(
                    match p {
                        Some(s) => Some(s.as_str()),
                        None => None,
                    },
                ),
            ),
            MetaCommand::DescribeSchemas(p) => Ok(
                Self::list_schemas_sql(
                    match p {
                        Some(s) => Some(s.as_str()),
                        None => None,
                    },
                ),
            ),
            MetaCommand::ListDatabases => Ok(Self::list_databases_sql()),
            MetaCommand::DescribeUsers => Ok(Self::list_users_sql()),
        }
    }
}

/// The SQL that lists tables, as a function of the optional pattern.
pub open spec fn list_tables_sql_spec(pattern: Option<Seq<char>>) -> Seq<char> {
    listing_sql_spec(
        "SELECT n.nspname AS \"Schema\",\n  c.relname AS \"Name\",\n  CASE c.relkind\n    WHEN 'r' THEN 'table'\n    WHEN 'p' THEN 'partitioned table'\n  END AS \"Type\",\n  pg_catalog.pg_get_userbyid(c.relowner) AS \"Owner\"\nFROM pg_catalog.pg_class c\nLEFT JOIN pg_catalog.pg_namespace n ON n.oid = c.relnamespace\nWHERE c.relkind IN ('r', 'p')\n  AND n.nspname <> 'pg_catalog'\n  AND n.nspname <> 'information_schema'\n  AND n.nspname !~ '^pg_toast'\n"@,
        "c.relname"@,
        pattern,
        "ORDER BY 1, 2;"@,
    )
}

/// The SQL that describes one table, as a function of its name.
pub open spec fn describe_table_sql_spec(table: Seq<char>) -> Seq<char> {
    "SELECT\n  a.attname AS \"Column\",\n  pg_catalog.format_type(a.atttypid, a.atttypmod) AS \"Type\",\n  CASE\n    WHEN a.attnotnull THEN 'NOT NULL'\n    ELSE ''\n  END AS \"Nullable\",\n  CASE\n    WHEN a.atthasdef THEN pg_catalog.pg_get_expr(d.adbin, d.adrelid)\n    ELSE ''\n  END AS \"Default\"\nFROM pg_catalog.pg_attribute a\nLEFT JOIN pg_catalog.pg_attrdef d ON (a.attrelid, a.attnum) = (d.adrelid, d.adnum)\nWHERE a.attrelid = '"@
        + escape_quotes(table)
        + "'::regclass\n  AND a.attnum > 0\n  AND NOT a.attisdropped\nORDER BY a.attnum;"@
}

pub open spec fn list_views_sql_spec(pattern: Option<Seq<char>>) -> Seq<char> {
    listing_sql_spec(
        "SELECT n.nspname AS \"Schema\",\n  c.relname AS \"Name\",\n  CASE c.relkind\n    WHEN 'v' THEN 'view'\n    WHEN 'm' THEN 'materialized view'\n  END AS \"Type\",\n  pg_catalog.pg_get_userbyid(c.relowner) AS \"Owner\"\nFROM pg_catalog.pg_class c\nLEFT JOIN pg_catalog.pg_namespace n ON n.oid = c.relnamespace\nWHERE c.relkind IN ('v', 'm')\n  AND n.nspname <> 'pg_catalog'\n  AND n.nspname <> 'information_schema'\n"@,
        "c.relname"@,
        pattern,
        "ORDER BY 1, 2;"@,
    )
}

pub open spec fn list_indexes_sql_spec(pattern: Option<Seq<char>>) -> Seq<char> {
    listing_sql_spec(
        "SELECT n.nspname AS \"Schema\",\n  c.relname AS \"Name\",\n  pg_catalog.pg_get_userbyid(c.relowner) AS \"Owner\",\n  t.relname AS \"Table\"\nFROM pg_catalog.pg_class c\nLEFT JOIN pg_catalog.pg_namespace n ON n.oid = c.relnamespace\nLEFT JOIN pg_catalog.pg_index i ON i.indexrelid = c.oid\nLEFT JOIN pg_catalog.pg_class t ON i.indrelid = t.oid\nWHERE c.relkind = 'i'\n  AND n.nspname <> 'pg_catalog'\n  AND n.nspname <> 'information_schema'\n"@,
        "c.relname"@,
        pattern,
        "ORDER BY 1, 2;"@,
    )
}

pub open spec fn list_sequences_sql_spec(pattern: Option<Seq<char>>) -> Seq<char> {
    listing_sql_spec(
        "SELECT n.nspname AS \"Schema\",\n  c.relname AS \"Name\",\n  pg_catalog.pg_get_userbyid(c.relowner) AS \"Owner\"\nFROM pg_catalog.pg_class c\nLEFT JOIN pg_catalog.pg_namespace n ON n.oid = c.relnamespace\nWHERE c.relkind = 'S'\n  AND n.nspname <> 'pg_catalog'\n  AND n.nspname <> 'information_schema'\n"@,
        "c.relname"@,
        pattern,
        "ORDER BY 1, 2;"@,
    )
}

pub open spec fn list_functions_sql_spec(pattern: Option<Seq<char>>) -> Seq<char> {
    listing_sql_spec(
        "SELECT n.nspname AS \"Schema\",\n  p.proname AS \"Name\",\n  pg_catalog.pg_get_function_result(p.oid) AS \"Result data type\",\n  pg_catalog.pg_get_function_arguments(p.oid) AS \"Argument data types\"\nFROM pg_catalog.pg_proc p\nLEFT JOIN pg_catalog.pg_namespace n ON n.oid = p.pronamespace\nWHERE n.nspname <> 'pg_catalog'\n  AND n.nspname <> 'information_schema'\n"@,
        "p.proname"@,
        pattern,
        "ORDER BY 1, 2;"@,
    )
}

pub open spec fn list_schemas_sql_spec(pattern: Option<Seq<char>>) -> Seq<char> {
    listing_sql_spec(
        "SELECT n.nspname AS \"Name\",\n  pg_catalog.pg_get_userbyid(n.nspowner) AS \"Owner\"\nFROM pg_catalog.pg_namespace n\nWHERE n.nspname !~ '^pg_'\n  AND n.nspname <> 'information_schema'\n"@,
        "n.nspname"@,
        pattern,
        "ORDER BY 1;"@,
    )
}

pub open spec fn list_databases_sql_spec() -> Seq<char> {
    "SELECT d.datname AS \"Name\",\n  pg_catalog.pg_get_userbyid(d.datdba) AS \"Owner\",\n  pg_catalog.pg_encoding_to_char(d.encoding) AS \"Encoding\",\n  d.datcollate AS \"Collate\",\n  d.datctype AS \"Ctype\"\nFROM pg_catalog.pg_database d\nORDER BY 1;"@
}

pub open spec fn list_users_sql_spec() -> Seq<char> {
    "SELECT r.rolname AS \"Role name\",\n  CASE\n    WHEN r.rolsuper THEN 'Superuser'\n    ELSE ''\n  END AS \"Attributes\",\n  ARRAY(\n    SELECT b.rolname\n    FROM pg_catalog.pg_auth_members m\n    JOIN pg_catalog.pg_roles b ON (m.roleid = b.oid)\n    WHERE m.member = r.oid\n  ) AS \"Member of\"\nFROM pg_catalog.pg_roles r\nWHERE r.rolname !~ '^pg_'\nORDER BY 1;"@
}

/// The SQL each meta-command stands for.  `\d` without a parameter lists
/// tables; with one it describes that table.
pub open spec fn to_sql_spec(v: MetaCommandView) -> Seq<char> {
    match v {
        MetaCommandView::Describe(None) => list_tables_sql_spec(None),
        MetaCommandView::Describe(Some(table)) => describe_table_sql_spec(table),
        MetaCommandView::DescribeTables(p) => list_tables_sql_spec(p),
        MetaCommandView::DescribeViews(p) => list_views_sql_spec(p),
        MetaCommandView::DescribeIndexes(p) => list_indexes_sql_spec(p),
        MetaCommandView::DescribeSequences(p) => list_sequences_sql_spec(p),
        MetaCommandView::DescribeFunctions(p) => list_functions_sql_spec(p),
        MetaCommandView::DescribeSchemas(p) => list_schemas_sql_spec(p),
        MetaCommandView::ListDatabases => list_databases_sql_spec(),
        MetaCommandView::DescribeUsers => list_users_sql_spec(),
    }
}

/// Appends `p` with every single quote doubled, as SQL string syntax asks.
fn push_escaped(v: &mut Vec<char>, p: &str)
    ensures
        final(v)@ == old(v)@ + escape_quotes(p@),
{
    let cs = chars_of(p);
    let mut i: usize = 0;
    proof {
        assert(p@.subrange(0, 0) =~= Seq::<char>::empty());
        assert(old(v)@ + escape_quotes(Seq::<char>::empty()) =~= old(v)@);
    }
    while i < cs.len()
        invariant
            i <= cs@.len(),
            cs@ == p@,
            v@ == old(v)@ + escape_quotes(p@.subrange(0, i as int)),
        decreases cs.len() - i,
    {
        let c = cs[i];
        proof {
            assert(p@.subrange(0, i as int + 1).drop_last() =~= p@.subrange(0, i as int));
            assert(p@.subrange(0, i as int + 1).last() == c);
        }
        if c == '\'' {
            v.push('\'');
            v.push('\'');
        } else {
            v.push(c);
        }
        i = i + 1;
    }
    proof {
        assert(p@.subrange(0, p@.len() as int) =~= p@);
    }
}

} // verus!
