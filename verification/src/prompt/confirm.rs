//! Yes-or-no confirmations.

use ratatui::buffer::Buffer;
use vstd::prelude::*;

use crate::canvas::{
    border_shown, buffer_area, buffer_cells, frame_drawn, heading, inside, lies_in, rows_drawn,
    rows_fit, title_fits, visible, whole, Rect,
};
use crate::input::Input;
use crate::prompt::choice::{first_bound, ChoicePrompt, PromptAction, PromptChoice};
use crate::prompt::key::{char_key, PromptKey};
use crate::prompt::layout::{cursor_styles, prompt_rows};
use crate::text::{
    case_is_for_ascii_letters, clone_all, clone_opt, lower, opt_text, texts, Text,
};

verus! {

broadcast use vstd::string::group_string_axioms;

/// The two answers to a confirmation.
#[derive(Debug, Clone, Copy, PartialEq, Eq, Hash, Structural)]
pub enum ConfirmAction {
    Yes,
    No,
}

/// What sending an input through a confirmation gives back.
#[derive(Debug, Clone, Copy, PartialEq, Eq, Hash, Structural)]
pub enum ConfirmOutcome {
    /// The input does not concern the confirmation.
    Ignored,
    Yes,
    No,
    /// The confirmation was cancelled, which is not an answer.
    Cancelled,
}

/// The outcome that an answer stands for.
pub open spec fn outcome_of(action: ConfirmAction) -> ConfirmOutcome {
    match action {
        ConfirmAction::Yes => ConfirmOutcome::Yes,
        ConfirmAction::No => ConfirmOutcome::No,
    }
}

/// What an input comes to. `Y` and `N` answer in either case, Enter gives the
/// default answer where there is one, and Esc cancels where that is allowed.
pub open spec fn confirm_outcome(
    default: Option<ConfirmAction>,
    cancellable: bool,
    input: Input,
) -> ConfirmOutcome {
    match input {
        Input::Enter => match default {
            Some(action) => outcome_of(action),
            None => ConfirmOutcome::Ignored,
        },
        Input::Esc => if cancellable {
            ConfirmOutcome::Cancelled
        } else {
            ConfirmOutcome::Ignored
        },
        Input::Char(c) => if lower(c) == 'y' {
            ConfirmOutcome::Yes
        } else if lower(c) == 'n' {
            ConfirmOutcome::No
        } else {
            ConfirmOutcome::Ignored
        },
        _ => ConfirmOutcome::Ignored,
    }
}

/// Whether a prompt offers `Y` for yes and `N` for no, and nothing else.
pub open spec fn asks_yes_no(prompt: ChoicePrompt<ConfirmAction>) -> bool {
    &&& prompt.selected is None
    &&& prompt.choices@.len() == 2
    &&& prompt.choices@[0].key == PromptKey::Char('y')
    &&& prompt.choices@[0].value == ConfirmAction::Yes
    &&& prompt.choices@[0].enabled
    &&& prompt.choices@[1].key == PromptKey::Char('n')
    &&& prompt.choices@[1].value == ConfirmAction::No
    &&& prompt.choices@[1].enabled
}

/// A question to be answered with yes or no.
#[derive(Debug, PartialEq, Eq)]
pub struct ConfirmPrompt {
    inner: ChoicePrompt<ConfirmAction>,
    default: Option<ConfirmAction>,
}

impl Clone for ConfirmPrompt {
    fn clone(&self) -> (r: ConfirmPrompt)
        ensures
            r.shown().body@ == self.shown().body@,
            r.shown().choices@ == self.shown().choices@,
            r.shown() == (ChoicePrompt {
                body: r.shown().body,
                choices: r.shown().choices,
                ..self.shown()
            }),
            r.on_enter() == self.on_enter(),
    {
        proof {
            use_type_invariant(self);
        }
        let mut choices: Vec<PromptChoice<ConfirmAction>> = Vec::new();
        let mut i: usize = 0;
        while i < self.inner.choices.len()
            invariant
                i <= self.inner.choices@.len(),
                choices@ == self.inner.choices@.take(i as int),
            decreases self.inner.choices@.len() - i,
        {
            let choice: &PromptChoice<ConfirmAction> = &self.inner.choices[i];
            choices.push(
                PromptChoice {
                    key: choice.key,
                    label: choice.label.clone(),
                    value: choice.value,
                    enabled: choice.enabled,
                    disabled_reason: clone_opt(&choice.disabled_reason),
                    hint: clone_opt(&choice.hint),
                    style: choice.style,
                },
            );
            i = i + 1;
            assert(choices@ =~= self.inner.choices@.take(i as int));
        }
        assert(choices@ =~= self.inner.choices@);
        let inner = ChoicePrompt {
            body: clone_all(&self.inner.body),
            choices,
            footer: clone_opt(&self.inner.footer),
            cancellable: self.inner.cancellable,
            selected: self.inner.selected,
            vim_navigation: self.inner.vim_navigation,
            title: clone_opt(&self.inner.title),
        };
        ConfirmPrompt { inner, default: self.default }
    }
}

impl ConfirmPrompt {
    #[verifier::type_invariant]
    spec fn well_formed(self) -> bool {
        asks_yes_no(self.inner)
    }

    /// The prompt that is shown.
    pub closed spec fn shown(self) -> ChoicePrompt<ConfirmAction> {
        self.inner
    }

    /// The answer that Enter gives.
    pub closed spec fn on_enter(self) -> Option<ConfirmAction> {
        self.default
    }

    /// Ask a question. Esc cancels, and Enter gives no answer.
    pub fn new(question: impl Text) -> (r: ConfirmPrompt)
        ensures
            asks_yes_no(r.shown()),
            texts(r.shown().body@) == seq![question.text()],
            r.shown().choices@[0].label@ == "Yes"@,
            r.shown().choices@[1].label@ == "No"@,
            forall|i: int|
                0 <= i < 2 ==> (#[trigger] r.shown().choices@[i]).hint is None
                    && r.shown().choices@[i].style is None
                    && r.shown().choices@[i].disabled_reason is None,
            r.shown().cancellable,
            r.shown().footer is None,
            r.shown().title is None,
            !r.shown().vim_navigation,
            r.on_enter() is None,
    {
        let empty: ChoicePrompt<ConfirmAction> = ChoicePrompt::new();
        assert(texts(empty.body@) =~= seq![]);
        let asked = empty.body(question);
        assert(texts(asked.body@) =~= seq![question.text()]);
        let yes = asked.choice('y', ConfirmAction::Yes, "Yes");
        let both = yes.choice('n', ConfirmAction::No, "No");
        assert(both.choices@[0] == both.choices@.drop_last()[0]);
        ConfirmPrompt { inner: both.cancellable(true), default: None }
    }

    /// Add a paragraph to the question.
    pub fn body(self, line: impl Text) -> (r: ConfirmPrompt)
        ensures
            texts(r.shown().body@) == texts(self.shown().body@).push(line.text()),
            r.shown() == (ChoicePrompt { body: r.shown().body, ..self.shown() }),
            r.on_enter() == self.on_enter(),
    {
        proof {
            use_type_invariant(&self);
        }
        ConfirmPrompt { inner: self.inner.body(line), default: self.default }
    }

    /// Replace the label of one of the two answers.
    fn label(self, at: usize, label: String) -> (r: ConfirmPrompt)
        requires
            at < 2,
        ensures
            r.shown() == (ChoicePrompt { choices: r.shown().choices, ..self.shown() }),
            r.shown().choices@ == self.shown().choices@.update(
                at as int,
                PromptChoice { label, ..self.shown().choices@[at as int] },
            ),
            r.on_enter() == self.on_enter(),
    {
        proof {
            use_type_invariant(&self);
        }
        let mut choices: Vec<PromptChoice<ConfirmAction>> = self.inner.choices;
        choices[at].label = label;
        let inner = ChoicePrompt { choices, ..self.inner };
        ConfirmPrompt { inner, default: self.default }
    }

    /// Replace the label of the yes answer. Its hotkey stays.
    pub fn yes_label(self, label: impl Text) -> (r: ConfirmPrompt)
        ensures
            r.shown() == (ChoicePrompt { choices: r.shown().choices, ..self.shown() }),
            r.shown().choices@ == self.shown().choices@.update(
                0,
                PromptChoice { label: r.shown().choices@[0].label, ..self.shown().choices@[0] },
            ),
            r.shown().choices@[0].label@ == label.text(),
            r.on_enter() == self.on_enter(),
    {
        proof {
            use_type_invariant(&self);
        }
        self.label(0, label.into_text())
    }

    /// Replace the label of the no answer. Its hotkey stays.
    pub fn no_label(self, label: impl Text) -> (r: ConfirmPrompt)
        ensures
            r.shown() == (ChoicePrompt { choices: r.shown().choices, ..self.shown() }),
            r.shown().choices@ == self.shown().choices@.update(
                1,
                PromptChoice { label: r.shown().choices@[1].label, ..self.shown().choices@[1] },
            ),
            r.shown().choices@[1].label@ == label.text(),
            r.on_enter() == self.on_enter(),
    {
        proof {
            use_type_invariant(&self);
        }
        self.label(1, label.into_text())
    }

    /// Set the answer that Enter gives, or none.
    pub fn default(self, action: Option<ConfirmAction>) -> (r: ConfirmPrompt)
        ensures
            r.shown() == self.shown(),
            r.on_enter() == action,
    {
        proof {
            use_type_invariant(&self);
        }
        ConfirmPrompt { inner: self.inner, default: action }
    }

    /// Make Enter answer yes.
    pub fn default_yes(self) -> (r: ConfirmPrompt)
        ensures
            r.shown() == self.shown(),
            r.on_enter() == Some(ConfirmAction::Yes),
    {
        self.default(Some(ConfirmAction::Yes))
    }

    /// Make Enter answer no.
    pub fn default_no(self) -> (r: ConfirmPrompt)
        ensures
            r.shown() == self.shown(),
            r.on_enter() == Some(ConfirmAction::No),
    {
        self.default(Some(ConfirmAction::No))
    }

    /// Say whether Esc cancels.
    pub fn cancellable(self, cancellable: bool) -> (r: ConfirmPrompt)
        ensures
            r.shown() == (ChoicePrompt { cancellable, ..self.shown() }),
            r.on_enter() == self.on_enter(),
    {
        proof {
            use_type_invariant(&self);
        }
        ConfirmPrompt { inner: self.inner.cancellable(cancellable), default: self.default }
    }

    /// Set the footer.
    pub fn footer(self, footer: impl Text) -> (r: ConfirmPrompt)
        ensures
            r.shown() == (ChoicePrompt { footer: r.shown().footer, ..self.shown() }),
            opt_text(r.shown().footer) == Some(footer.text()),
            r.on_enter() == self.on_enter(),
    {
        proof {
            use_type_invariant(&self);
        }
        ConfirmPrompt { inner: self.inner.footer(footer), default: self.default }
    }

    /// Set the title of the modal.
    pub fn title(self, title: impl Text) -> (r: ConfirmPrompt)
        ensures
            r.shown() == (ChoicePrompt { title: r.shown().title, ..self.shown() }),
            opt_text(r.shown().title) == Some(title.text()),
            r.on_enter() == self.on_enter(),
    {
        proof {
            use_type_invariant(&self);
        }
        ConfirmPrompt { inner: self.inner.title(title), default: self.default }
    }

    /// Borrow the prompt that is shown.
    pub fn inner(&self) -> (r: &ChoicePrompt<ConfirmAction>)
        ensures
            *r == self.shown(),
            asks_yes_no(*r),
    {
        proof {
            use_type_invariant(self);
        }
        &self.inner
    }

    /// Send an input through the confirmation.
    pub fn handle(&self, input: Input) -> (r: ConfirmOutcome)
        ensures
            r == confirm_outcome(self.on_enter(), self.shown().cancellable, input),
    {
        proof {
            use_type_invariant(self);
            let choices = self.inner.choices@;
            if input is Char {
                let key = char_key(input->Char_0);
                let one = choices.drop_last();
                assert(one.drop_last() =~= seq![]);
                assert(first_bound(one.drop_last(), key) is None);
                assert(first_bound(one, key) == if key == PromptKey::Char('y') {
                    Some(0int)
                } else {
                    None
                });
            }
        }
        match input {
            Input::Enter => {
                match self.default {
                    Some(ConfirmAction::Yes) => {
                        return ConfirmOutcome::Yes;
                    },
                    Some(ConfirmAction::No) => {
                        return ConfirmOutcome::No;
                    },
                    None => {},
                }
            },
            _ => {},
        }
        match self.inner.handle(input) {
            PromptAction::Selected(ConfirmAction::Yes) => ConfirmOutcome::Yes,
            PromptAction::Selected(ConfirmAction::No) => ConfirmOutcome::No,
            PromptAction::Cancelled => ConfirmOutcome::Cancelled,
            PromptAction::Ignored | PromptAction::Disabled { .. } | PromptAction::ConfirmRequested(
                _,
            ) => ConfirmOutcome::Ignored,
        }
    }

    /// Draw the confirmation into an area; see [`ChoicePrompt::render`].
    pub fn render(&self, area: Rect, buf: &mut Buffer) -> (drawn: u16)
        requires
            rows_fit(
                buffer_cells(*old(buf)),
                buffer_area(*old(buf)),
                area,
                visible(cursor_styles(prompt_rows(self.shown(), area.width)), area),
            ),
        ensures
            drawn == visible(cursor_styles(prompt_rows(self.shown(), area.width)), area).len(),
            buffer_area(*final(buf)) == buffer_area(*old(buf)),
            rows_drawn(
                buffer_cells(*old(buf)),
                buffer_cells(*final(buf)),
                buffer_area(*old(buf)),
                area,
                visible(cursor_styles(prompt_rows(self.shown(), area.width)), area),
            ),
    {
        self.inner.render(area, buf)
    }

    /// Draw the confirmation with a border; see [`ChoicePrompt::render_modal`].
    pub fn render_modal(&self, area: Rect, buf: &mut Buffer) -> (drawn: u16)
        requires
            area.width >= 2 && area.height >= 2 ==> {
                &&& whole(buffer_cells(*old(buf)), buffer_area(*old(buf)))
                &&& self.shown().title is Some ==> title_fits(self.shown().title->0@)
                &&& rows_fit(
                    buffer_cells(*old(buf)),
                    buffer_area(*old(buf)),
                    inside(area),
                    visible(
                        cursor_styles(prompt_rows(self.shown(), inside(area).width)),
                        inside(area),
                    ),
                )
            },
        ensures
            buffer_area(*final(buf)) == buffer_area(*old(buf)),
            area.width < 2 || area.height < 2 ==> drawn == 0 && *final(buf) == *old(buf),
            area.width >= 2 && area.height >= 2 ==> {
                let rows = visible(
                    cursor_styles(prompt_rows(self.shown(), inside(area).width)),
                    inside(area),
                );
                &&& drawn == rows.len()
                &&& rows_drawn(
                    frame_drawn(
                        buffer_cells(*old(buf)),
                        buffer_area(*old(buf)),
                        area,
                        opt_text(self.shown().title),
                    ),
                    buffer_cells(*final(buf)),
                    buffer_area(*old(buf)),
                    inside(area),
                    rows,
                )
            },
            area.width >= 2 && area.height >= 2 && lies_in(area, buffer_area(*old(buf)))
                ==> border_shown(
                buffer_cells(*old(buf)),
                buffer_cells(*final(buf)),
                area,
                heading(opt_text(self.shown().title)),
            ),
            buffer_cells(*final(buf)).dom() == buffer_cells(*old(buf)).dom(),
            forall|x: u16, y: u16|
                #![trigger buffer_cells(*final(buf))[(x, y)]]
                buffer_cells(*old(buf)).contains_key((x, y)) && !area.spans(x, y)
                    ==> buffer_cells(*final(buf))[(x, y)] == buffer_cells(*old(buf))[(x, y)],
    {
        self.inner.render_modal(area, buf)
    }
}

/// An answer is given only by its own letter, in either case, or by Enter where it is
/// the default. Only Esc cancels, and only where that is allowed. Everything else is
/// ignored.
pub proof fn answers_are_given_on_purpose(
    default: Option<ConfirmAction>,
    cancellable: bool,
    input: Input,
)
    ensures
        ({
            let outcome = confirm_outcome(default, cancellable, input);
            &&& outcome == ConfirmOutcome::Yes <==> input == Input::Char('y') || input
                == Input::Char('Y') || (input == Input::Enter && default == Some(
                ConfirmAction::Yes,
            ))
            &&& outcome == ConfirmOutcome::No <==> input == Input::Char('n') || input
                == Input::Char('N') || (input == Input::Enter && default == Some(ConfirmAction::No))
            &&& outcome == ConfirmOutcome::Cancelled <==> input == Input::Esc && cancellable
        }),
{
    if input is Char {
        case_is_for_ascii_letters(input->Char_0);
    }
}

/// A confirmation offers exactly two choices that can be picked: yes under `Y`, and no
/// under `N`. It has no cursor.
pub proof fn confirmations_offer_yes_and_no(prompt: ChoicePrompt<ConfirmAction>, i: int)
    requires
        asks_yes_no(prompt),
        0 <= i < prompt.choices@.len(),
    ensures
        prompt.choices@.len() == 2,
        prompt.selected is None,
        prompt.choices@[i].enabled,
        prompt.choices@[i].value == ConfirmAction::Yes <==> prompt.choices@[i].key
            == PromptKey::Char('y'),
        prompt.choices@[i].value == ConfirmAction::No <==> prompt.choices@[i].key
            == PromptKey::Char('n'),
        prompt.choices@[0].value != prompt.choices@[1].value,
        prompt.choices@[0].value == ConfirmAction::Yes,
{
}

} // verus!
