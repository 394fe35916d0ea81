//! Keys that prompts react to.

use vstd::prelude::*;

use crate::input::Input;
use crate::text::{lower, to_lower};

verus! {

/// A key that means something to a prompt: a hotkey, a confirmation or a
/// cancellation.
///
/// Hotkeys are kept in lower case, so that comparing two keys is independent of
/// the case of ASCII letters. Characters outside ASCII stay as they are.
#[derive(Debug, Clone, Copy, PartialEq, Eq, Hash, Structural)]
pub enum PromptKey {
    Char(char),
    Enter,
    Esc,
}

/// The key that a character stands for.
pub open spec fn char_key(c: char) -> PromptKey {
    PromptKey::Char(lower(c))
}

/// The key that an input stands for, if it concerns prompts at all.
pub open spec fn input_key(input: Input) -> Option<PromptKey> {
    match input {
        Input::Char(c) => Some(char_key(c)),
        Input::Enter => Some(PromptKey::Enter),
        Input::Esc => Some(PromptKey::Esc),
        _ => None,
    }
}

impl PromptKey {
    /// The hotkey for a character.
    pub fn char(c: char) -> (r: PromptKey)
        ensures
            r == char_key(c),
    {
        PromptKey::Char(to_lower(c))
    }

    /// The key for an input. Arrows, backspace, control combinations, resizes
    /// and unknown inputs are no prompt keys.
    pub fn from_input(input: Input) -> (r: Option<PromptKey>)
        ensures
            r == input_key(input),
    {
        match input {
            Input::Char(c) => Some(PromptKey::char(c)),
            Input::Enter => Some(PromptKey::Enter),
            Input::Esc => Some(PromptKey::Esc),
            Input::Up
            | Input::Down
            | Input::Left
            | Input::Right
            | Input::Backspace
            | Input::Ctrl(_)
            | Input::Resize { .. }
            | Input::Unknown => None,
        }
    }
}

impl From<char> for PromptKey {
    fn from(c: char) -> (r: PromptKey) {
        PromptKey::char(c)
    }
}

impl vstd::std_specs::convert::FromSpecImpl<char> for PromptKey {
    open spec fn obeys_from_spec() -> bool {
        true
    }

    open spec fn from_spec(c: char) -> PromptKey {
        char_key(c)
    }
}

/// A value that names a prompt key.
pub trait Hotkey: Sized {
    /// The key it names.
    spec fn hotkey(&self) -> PromptKey;

    /// Turn the value into its key.
    fn into_hotkey(self) -> (r: PromptKey)
        ensures
            r == self.hotkey(),
    ;
}

impl Hotkey for PromptKey {
    open spec fn hotkey(&self) -> PromptKey {
        *self
    }

    fn into_hotkey(self) -> (r: PromptKey) {
        self
    }
}

impl Hotkey for char {
    open spec fn hotkey(&self) -> PromptKey {
        char_key(*self)
    }

    fn into_hotkey(self) -> (r: PromptKey) {
        PromptKey::from(self)
    }
}

/// Two characters that differ only in ASCII case are the same hotkey.
pub proof fn hotkeys_ignore_case(c: char)
    ensures
        input_key(Input::Char(crate::text::upper(c))) == input_key(Input::Char(lower(c))),
        input_key(Input::Char(c)) == input_key(Input::Char(lower(c))),
{
    crate::text::lower_folds_case(c);
    crate::text::lower_folds_case(crate::text::upper(c));
}

/// Characters, Enter and Esc are keys to a prompt, each of its own kind, and nothing
/// else is. Two characters are the same key exactly if they are the same but for the
/// case of an ASCII letter, and a key holds no upper-case letter.
pub proof fn keys_are_characters_enter_and_esc(input: Input, c: char, d: char)
    ensures
        input_key(input) is Some <==> input is Char || input == Input::Enter || input == Input::Esc,
        input_key(input) == Some(PromptKey::Enter) <==> input == Input::Enter,
        input_key(input) == Some(PromptKey::Esc) <==> input == Input::Esc,
        input_key(Input::Char(c)) == input_key(Input::Char(d)) <==> crate::text::upper(c)
            == crate::text::upper(d),
        input_key(Input::Char(c)) matches Some(PromptKey::Char(k)) && !('A' <= k <= 'Z') && (k == c
            || 'A' <= c <= 'Z'),
{
    crate::text::lower_folds_case(c);
    crate::text::lower_folds_case(d);
}

} // verus!
