//! Plain-string carriers for callers that cannot hold the library's own
//! types, such as an embedding scripting runtime.

use vstd::prelude::*;
use vstd::string::*;

use crate::workspace::Workspace;

verus! {

/// Workspace paths as plain strings.
#[derive(Debug, Clone)]
pub struct WorkspacePaths {
    pub path: String,
    pub sql_file: String,
    pub dbout_file: String,
}

impl WorkspacePaths {
    /// The plain-string form of a workspace.
    pub fn of_workspace(ws: &Workspace) -> (r: WorkspacePaths)
        ensures
            r.path@ == ws@.path,
            r.sql_file@ == ws@.sql_file,
            r.dbout_file@ == ws@.dbout_file,
    {
        WorkspacePaths {
            path: ws.path.clone(),
            sql_file: ws.sql_file.clone(),
            dbout_file: ws.dbout_file.clone(),
        }
    }
}

/// Workspace paths as an embedding runtime sees them: one getter per
/// field, each handing out a copy.
#[derive(Debug, Clone)]
pub struct SteelWorkspaceInfo {
    pub path: String,
    pub sql_file: String,
    pub dbout_file: String,
}

impl SteelWorkspaceInfo {
    /// Carries the plain-string paths over.
    pub fn of_paths(wp: WorkspacePaths) -> (r: SteelWorkspaceInfo)
        ensures
            r.path@ == wp.path@,
            r.sql_file@ == wp.sql_file@,
            r.dbout_file@ == wp.dbout_file@,
    {
        SteelWorkspaceInfo { path: wp.path, sql_file: wp.sql_file, dbout_file: wp.dbout_file }
    }

    /// The workspace root directory.
    pub fn path(&self) -> (r: String)
        ensures
            r@ == self.path@,
    {
        self.path.clone()
    }

    /// The connection's SQL input file.
    pub fn sql_file(&self) -> (r: String)
        ensures
            r@ == self.sql_file@,
    {
        self.sql_file.clone()
    }

    /// The shared results file.
    pub fn dbout_file(&self) -> (r: String)
        ensures
            r@ == self.dbout_file@,
    {
        self.dbout_file.clone()
    }
}

} // verus!
