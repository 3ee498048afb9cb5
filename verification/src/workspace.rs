//! Per-connection scratch workspaces.
//!
//! A workspace is a fixed directory with one SQL file per connection name
//! and one shared results file.  The paths are decided here; creating,
//! reading, writing and removing the files is the caller's I/O.

use vstd::prelude::*;
use vstd::string::*;

use crate::text::{chars_of, push_str_chars, string_of};

verus! {

/// The scratch paths of one connection.
#[derive(Debug, Clone)]
pub struct Workspace {
    /// The workspace root directory.
    pub path: String,
    /// The connection's own SQL input file under the root.
    pub sql_file: String,
    /// The shared results file under the root.
    pub dbout_file: String,
}

/// The workspace root every connection shares.
pub open spec fn workspace_root_spec() -> Seq<char> {
    "/tmp/helix-dadbod"@
}

/// The SQL input file of `name`.
pub open spec fn sql_file_spec(name: Seq<char>) -> Seq<char> {
    "/tmp/helix-dadbod/"@ + name + ".sql"@
}

/// The shared results file.
pub open spec fn dbout_file_spec() -> Seq<char> {
    "/tmp/helix-dadbod/results.dbout"@
}

impl Workspace {
    /// The workspace paths of `connection_name`.
    pub fn for_connection(connection_name: &str) -> (r: Workspace)
        ensures
            r@ == (WorkspaceView {
                path: workspace_root_spec(),
                sql_file: sql_file_spec(connection_name@),
                dbout_file: dbout_file_spec(),
            }),
    {
        let mut sql: Vec<char> = Vec::new();
        push_str_chars(&mut sql, "/tmp/helix-dadbod/");
        push_str_chars(&mut sql, connection_name);
        push_str_chars(&mut sql, ".sql");
        Workspace {
            path: string_of(&chars_of("/tmp/helix-dadbod")),
            sql_file: string_of(&sql),
            dbout_file: string_of(&chars_of("/tmp/helix-dadbod/results.dbout")),
        }
    }
}

/// The mathematical shape of a workspace.
pub struct WorkspaceView {
    pub path: Seq<char>,
    pub sql_file: Seq<char>,
    pub dbout_file: Seq<char>,
}

impl View for Workspace {
    type V = WorkspaceView;

    open spec fn view(&self) -> WorkspaceView {
        WorkspaceView { path: self.path@, sql_file: self.sql_file@, dbout_file: self.dbout_file@ }
    }
}

} // verus!
