//! Places of the shared world.

use vstd::prelude::*;

use crate::world::WorldMigration;

verus! {

broadcast use vstd::string::group_string_axioms;

/// A place.
#[derive(Debug, Clone, PartialEq, Eq)]
pub struct Place {
    pub id: i64,
    pub key: String,
    pub display_name: String,
    pub kind: String,
    pub metadata_json: Option<String>,
    pub created_at: String,
}

/// Why a place could not be stored.
#[derive(Debug, Clone, PartialEq, Eq)]
pub enum PlaceError {
    /// The database refused it; `source` is what it said.
    Sqlite { key: String, source: String },
}

impl PlaceError {
    /// The message for the author of the place.
    pub fn message(&self) -> (r: String)
        ensures
            match *self {
                PlaceError::Sqlite { key, source } => r@ == "failed to insert place `"@ + key@
                    + "`: "@ + source@,
            },
    {
        match self {
            PlaceError::Sqlite { key, source } => {
                let mut out: String = "failed to insert place `".to_string();
                out.append(key.as_str());
                out.append("`: ");
                out.append(source.as_str());
                out
            },
        }
    }
}

/// Version of the migration that makes the table.
pub const PLACES_VERSION: i64 = 10;

/// Name of the migration that makes the table.
pub const PLACES_NAME: &'static str = "create_places";

/// The table of places.
pub const PLACES_SQL: &'static str = "CREATE TABLE IF NOT EXISTS places (\n    id              INTEGER PRIMARY KEY,\n    key             TEXT NOT NULL UNIQUE,\n    display_name    TEXT NOT NULL,\n    kind            TEXT NOT NULL,\n    metadata_json   TEXT,\n    created_at      TEXT NOT NULL DEFAULT CURRENT_TIMESTAMP\n);\n";

/// The migration that makes the table.
pub fn places_migration() -> (r: WorldMigration)
    ensures
        r.version == PLACES_VERSION,
        r.name@ == PLACES_NAME@,
        r.sql@ == PLACES_SQL@,
{
    WorldMigration { version: PLACES_VERSION, name: PLACES_NAME, sql: PLACES_SQL }
}

} // verus!
