//! Where the ledger database lives.

use vstd::prelude::*;
use crate::completions::{join_path, path_join};

verus! {

/// File name of the ledger database inside the data directory.
pub const DB_FILE_NAME: &'static str = "synap.db";

/// The default database path: `synap.db` in the application's data
/// directory.
pub fn default_db_path(data_dir: &str) -> (p: String)
    ensures
        p@ == path_join(data_dir@, DB_FILE_NAME@),
{
    join_path(data_dir, DB_FILE_NAME)
}

/// The database path to use: the one given on the command line when there
/// is one, else the default location.
pub fn resolve_db_path(override_path: Option<String>, default_path: String) -> (path: String)
    ensures
        path == match override_path {
            Some(p) => p,
            None => default_path,
        },
{
    match override_path {
        Some(path) => path,
        None => default_path,
    }
}

} // verus!
