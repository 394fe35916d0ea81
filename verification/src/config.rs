//! The configuration of a game.

use vstd::prelude::*;

verus! {

/// What the game is called and where it starts.
#[derive(Debug, Clone, PartialEq, Eq)]
pub struct GameSection {
    pub title: String,
    pub slug: String,
    pub description: String,
    pub min_width: u16,
    pub min_height: u16,
    pub start_map: String,
    pub start_x: u16,
    pub start_y: u16,
}

/// Whether, and for whom, progress is saved.
#[derive(Debug, Clone, Copy, PartialEq, Eq, Structural)]
pub enum SaveStrategy {
    /// One save for each user of the host.
    PerFogletUser,
    /// Progress is not saved.
    Disabled,
}

/// How progress is saved.
#[derive(Debug, Clone, PartialEq, Eq)]
pub struct SaveSection {
    pub strategy: SaveStrategy,
}

/// What the host is told about the game.
#[derive(Debug, Clone, PartialEq, Eq)]
pub struct ManifestSection {
    pub timeout_ms: u64,
    pub idle_timeout_ms: u64,
    pub visibility: String,
    pub auth_scope: String,
}

/// The shared world database.
#[derive(Debug, Clone, PartialEq, Eq)]
pub struct WorldSection {
    pub enabled: bool,
    pub path: String,
}

/// How many turns a player has each day.
#[derive(Debug, Clone, PartialEq, Eq)]
pub struct TurnsSection {
    pub daily_allowance: i64,
    pub carryover_max: i64,
}

/// The screen of the event log.
#[derive(Debug, Clone, Copy, PartialEq, Eq)]
pub struct EventLogScreenSection {
    pub enabled: bool,
    pub default_page_size: u32,
}

/// All of it.
#[derive(Debug, Clone, PartialEq, Eq)]
pub struct GameConfig {
    pub game: GameSection,
    pub save: SaveSection,
    pub manifest: ManifestSection,
    pub world: WorldSection,
    pub turns: Option<TurnsSection>,
}

} // verus!
