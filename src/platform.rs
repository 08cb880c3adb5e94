//! Handles on the platform services that the index calls out to: the script
//! host that queries the package registry and extracts icons, and the store
//! file with its schema version.

use vstd::prelude::*;

verus! {

/// The store file.
pub const DB_NAME: &'static str = "kasuri.db";

/// The schema version this program writes.
pub const DB_VERSION: u32 = 1;

/// The script host.
#[derive(Debug)]
pub struct PowerShell {}

/// What a script printed.
#[derive(Debug)]
pub struct PowerShellResult {
    pub stdout: String,
    pub stderr: String,
}

impl PowerShell {
    pub fn new() -> (r: PowerShell) {
        PowerShell {}
    }
}

/// Opens the store and brings its schema up to date.
#[derive(Debug)]
pub struct RepositoryInitializer {}

impl RepositoryInitializer {
    pub fn new() -> (r: RepositoryInitializer) {
        RepositoryInitializer {}
    }

    /// Whether a store at schema version `db_version` still needs the tables
    /// of the first version created.
    pub fn needs_schema(&self, db_version: u32) -> (r: bool)
        ensures
            r == (db_version < 1),
    {
        db_version < 1
    }

    /// Whether the store's recorded schema version must be raised.
    pub fn needs_version_update(&self, db_version: u32) -> (r: bool)
        ensures
            r == (db_version < DB_VERSION),
    {
        db_version < DB_VERSION
    }
}

} // verus!
