//! Rows and migrations of the shared world database.

use vstd::prelude::*;

use crate::text::clone_opt;

verus! {

/// One step of the database schema.
#[derive(Debug, Clone, Copy, PartialEq, Eq)]
pub struct WorldMigration {
    pub version: i64,
    pub name: &'static str,
    pub sql: &'static str,
}

/// Where a player is.
#[derive(Debug, Clone, PartialEq, Eq)]
pub struct PresenceRecord {
    pub player_id: i64,
    pub place_id: i64,
    pub entered_at: String,
    pub metadata_json: Option<String>,
}

/// A way from one place to another.
#[derive(Debug, Clone, PartialEq, Eq)]
pub struct Route {
    pub id: i64,
    pub from_place_id: i64,
    pub to_place_id: i64,
    pub kind: String,
    pub requirements_json: Option<String>,
    pub metadata_json: Option<String>,
    pub created_at: String,
}

/// One entry of the event log.
#[derive(Debug, PartialEq, Eq)]
pub struct EventRecord {
    pub id: i64,
    pub created_at: String,
    pub kind: String,
    pub player_id: Option<i64>,
    pub message: String,
    pub metadata: Option<String>,
}

impl Clone for EventRecord {
    fn clone(&self) -> (r: EventRecord)
        ensures
            r == *self,
    {
        EventRecord {
            id: self.id,
            created_at: self.created_at.clone(),
            kind: self.kind.clone(),
            player_id: self.player_id,
            message: self.message.clone(),
            metadata: clone_opt(&self.metadata),
        }
    }
}

} // verus!
