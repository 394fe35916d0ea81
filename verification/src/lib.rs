//! A kit for turn-based terminal games: prompts, screens, saves, travel and the
//! rules that hold them together.
//!
//! The library decides; the program around it draws to the terminal, reads keys,
//! and talks to the file system and the database.

pub mod canvas;
pub mod config;
pub mod foglet;
pub mod input;
pub mod prompt;
pub mod prompt_screen;
pub mod roles;
pub mod runtime;
pub mod save;
pub mod screen;
pub mod screens;
pub mod services;
pub mod spatial;
pub mod terminal;
pub mod test_support;
pub mod text;
pub mod travel;
pub mod triggered_outcomes;
pub mod turns;
pub mod weighted;
pub mod world;
pub mod wrap;

pub use input::Input;
pub use prompt::{
    AnyKeyOutcome, AnyKeyPrompt, ChoicePrompt, ConfirmAction, ConfirmOutcome, ConfirmPrompt,
    FeedbackKind, FeedbackLine, PromptAction, PromptChoice, PromptError, PromptKey, StyleRole,
    TextBlock, Theme,
};
pub use prompt_screen::{PromptLayout, PromptScreen};
pub use runtime::{BuiltGame, Game, GameError, GameLoop, GameResult, SavePolicy};
pub use screen::{ExitReason, GameContext, Screen, ScreenCommand, SideEffect};
