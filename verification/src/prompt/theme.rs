//! Semantic style roles and the theme that maps them to styles.

use vstd::prelude::*;

use crate::canvas::{plain, Modifier, Style, TermColor};

verus! {

/// What a piece of prompt text means. A [`Theme`] decides how it looks.
#[derive(Debug, Clone, Copy, PartialEq, Eq, Hash, Structural)]
pub enum StyleRole {
    Normal,
    Title,
    Emphasis,
    Muted,
    Hint,
    Error,
    Success,
    Currency,
    Disabled,
    Hotkey,
}

/// One style for each role.
#[derive(Debug, Clone, PartialEq, Eq)]
pub struct Theme {
    normal: Style,
    title: Style,
    emphasis: Style,
    muted: Style,
    hint: Style,
    error: Style,
    success: Style,
    currency: Style,
    disabled: Style,
    hotkey: Style,
}

/// The style of a role in the default theme.
///
/// Titles, emphasis, errors and hotkeys are bold; muted text, hints and
/// disabled rows are dim. Red marks errors, green success, yellow amounts of
/// money and cyan hotkeys.
pub open spec fn default_style(role: StyleRole) -> Style {
    let bold = Modifier { bits: 1 };
    let dim = Modifier { bits: 2 };
    match role {
        StyleRole::Normal => plain(),
        StyleRole::Title => Style { add_modifier: bold, ..plain() },
        StyleRole::Emphasis => Style { add_modifier: bold, ..plain() },
        StyleRole::Muted => Style { add_modifier: dim, ..plain() },
        StyleRole::Hint => Style { add_modifier: dim, ..plain() },
        StyleRole::Error => Style { fg: Some(TermColor::Red), add_modifier: bold, ..plain() },
        StyleRole::Success => Style { fg: Some(TermColor::Green), ..plain() },
        StyleRole::Currency => Style { fg: Some(TermColor::Yellow), ..plain() },
        StyleRole::Disabled => Style { add_modifier: dim, ..plain() },
        StyleRole::Hotkey => Style { fg: Some(TermColor::Cyan), add_modifier: bold, ..plain() },
    }
}

impl Theme {
    /// The style that this theme gives to a role.
    pub closed spec fn role_style(self, role: StyleRole) -> Style {
        match role {
            StyleRole::Normal => self.normal,
            StyleRole::Title => self.title,
            StyleRole::Emphasis => self.emphasis,
            StyleRole::Muted => self.muted,
            StyleRole::Hint => self.hint,
            StyleRole::Error => self.error,
            StyleRole::Success => self.success,
            StyleRole::Currency => self.currency,
            StyleRole::Disabled => self.disabled,
            StyleRole::Hotkey => self.hotkey,
        }
    }

    /// Look up the style of a role.
    pub fn style(&self, role: StyleRole) -> (r: Style)
        ensures
            r == self.role_style(role),
    {
        match role {
            StyleRole::Normal => self.normal,
            StyleRole::Title => self.title,
            StyleRole::Emphasis => self.emphasis,
            StyleRole::Muted => self.muted,
            StyleRole::Hint => self.hint,
            StyleRole::Error => self.error,
            StyleRole::Success => self.success,
            StyleRole::Currency => self.currency,
            StyleRole::Disabled => self.disabled,
            StyleRole::Hotkey => self.hotkey,
        }
    }

    /// Replace the style of one role and keep all others.
    pub fn with_role(self, role: StyleRole, style: Style) -> (r: Theme)
        ensures
            r.role_style(role) == style,
            forall|other: StyleRole|
                other != role ==> #[trigger] r.role_style(other) == self.role_style(other),
    {
        match role {
            StyleRole::Normal => Theme { normal: style, ..self },
            StyleRole::Title => Theme { title: style, ..self },
            StyleRole::Emphasis => Theme { emphasis: style, ..self },
            StyleRole::Muted => Theme { muted: style, ..self },
            StyleRole::Hint => Theme { hint: style, ..self },
            StyleRole::Error => Theme { error: style, ..self },
            StyleRole::Success => Theme { success: style, ..self },
            StyleRole::Currency => Theme { currency: style, ..self },
            StyleRole::Disabled => Theme { disabled: style, ..self },
            StyleRole::Hotkey => Theme { hotkey: style, ..self },
        }
    }
}

impl Default for Theme {
    fn default() -> (r: Theme)
        ensures
            forall|role: StyleRole| #[trigger] r.role_style(role) == default_style(role),
    {
        assert(0u16 | 1u16 == 1u16 && 0u16 | 2u16 == 2u16 && 0u16 & !1u16 == 0u16 && 0u16 & !2u16
            == 0u16) by (bit_vector);
        let bold = Style::default().add_modifier(Modifier::bold());
        let dim = Style::default().add_modifier(Modifier::dim());
        Theme {
            normal: Style::default(),
            title: bold,
            emphasis: bold,
            muted: dim,
            hint: dim,
            error: Style::default().fg(TermColor::Red).add_modifier(Modifier::bold()),
            success: Style::default().fg(TermColor::Green),
            currency: Style::default().fg(TermColor::Yellow),
            disabled: dim,
            hotkey: Style::default().fg(TermColor::Cyan).add_modifier(Modifier::bold()),
        }
    }
}

/// In the default theme no loud role relies on colour alone: titles, emphasis,
/// errors and hotkeys all carry an attribute.
pub proof fn loud_roles_survive_monochrome(role: StyleRole)
    requires
        role == StyleRole::Title || role == StyleRole::Emphasis || role == StyleRole::Error || role
            == StyleRole::Hotkey,
    ensures
        default_style(role).add_modifier.bits != 0,
{
}

/// In the default theme only errors, success, amounts of money and hotkeys have a
/// colour, each its own; titles, emphasis, errors and hotkeys are bold; muted text,
/// hints and disabled rows are faint. No role has any other colour or attribute.
pub proof fn default_roles_look_as_named(role: StyleRole)
    ensures
        ({
            let style = default_style(role);
            &&& style.fg == Some(TermColor::Red) <==> role == StyleRole::Error
            &&& style.fg == Some(TermColor::Green) <==> role == StyleRole::Success
            &&& style.fg == Some(TermColor::Yellow) <==> role == StyleRole::Currency
            &&& style.fg == Some(TermColor::Cyan) <==> role == StyleRole::Hotkey
            &&& style.fg is Some <==> role == StyleRole::Error || role == StyleRole::Success || role
                == StyleRole::Currency || role == StyleRole::Hotkey
            &&& style.add_modifier.bits == 1 <==> role == StyleRole::Title || role
                == StyleRole::Emphasis || role == StyleRole::Error || role == StyleRole::Hotkey
            &&& style.add_modifier.bits == 2 <==> role == StyleRole::Muted || role
                == StyleRole::Hint || role == StyleRole::Disabled
            &&& style.add_modifier.bits <= 2
            &&& style.bg is None
            &&& style.underline_color is None
            &&& style.sub_modifier.bits == 0
        }),
{
}

} // verus!
