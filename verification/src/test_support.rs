//! Support for tests of games.

pub mod multi_user;
