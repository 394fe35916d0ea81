//! Who is playing, and where the game was started from.

use vstd::prelude::*;

verus! {

/// Where the launch context came from.
#[derive(Debug, Clone, Copy, PartialEq, Eq, Structural)]
pub enum ContextSource {
    /// A file that the host wrote.
    ContextFile,
    /// Variables of the environment.
    Env,
    /// A developer's own machine, without a host.
    LocalDev,
}

/// What the host told the game when it was launched.
#[derive(Debug, Clone, PartialEq, Eq)]
pub struct FogletContext {
    pub door_id: String,
    pub user_id: Option<String>,
    pub username: Option<String>,
    pub role: Option<String>,
    pub session_id: Option<String>,
    pub terminal_width: u16,
    pub terminal_height: u16,
    pub source: ContextSource,
}

} // verus!
