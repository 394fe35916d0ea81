//! Prompts: choices, confirmations and pauses, with their layout and drawing.
//!
//! A prompt is data. Sending an input through it gives a typed outcome, and
//! drawing it writes rows of text into a buffer; neither changes the game.

pub mod any_key;
pub mod block;
pub mod choice;
pub mod confirm;
pub mod feedback;
pub mod key;
pub mod layout;
pub mod theme;

pub use any_key::{AnyKeyOutcome, AnyKeyPrompt, DEFAULT_ANY_KEY_FOOTER};
pub use block::TextBlock;
pub use choice::{
    validate_choices, ChoicePrompt, PromptAction, PromptChoice, PromptError,
};
pub use confirm::{ConfirmAction, ConfirmOutcome, ConfirmPrompt};
pub use feedback::{FeedbackKind, FeedbackLine};
pub use key::{Hotkey, PromptKey};
pub use theme::{StyleRole, Theme};
