//! A screen that shows a prompt.

use ratatui::buffer::Buffer;
use vstd::prelude::*;

use crate::canvas::{
    border_shown, buffer_area, buffer_cells, frame_drawn, heading, inside, lies_in, rows_drawn,
    rows_fit, title_fits, visible, whole, Rect,
};
use crate::input::Input;
use crate::prompt::choice::{
    answers, arrows_move_to_the_nearest_choice, cursor_bounded, moved, movement, next_above,
    next_below, ChoicePrompt, PromptAction,
};
use crate::prompt::layout::{cursor_styles, prompt_rows};
use crate::screen::{GameContext, ScreenCommand};
use crate::text::opt_text;

verus! {

/// How the prompt is drawn.
#[derive(Debug, Clone, Copy, PartialEq, Eq, Structural)]
pub enum PromptLayout {
    /// Without a border.
    Compact,
    /// With a border and a title.
    Modal,
}

/// A prompt, and what the game makes of its outcomes.
pub struct PromptScreen<T, F> {
    prompt: ChoicePrompt<T>,
    on_action: F,
    layout: PromptLayout,
}

impl<T, F> PromptScreen<T, F> {
    /// The prompt.
    pub closed spec fn shown(self) -> ChoicePrompt<T> {
        self.prompt
    }

    /// What the game makes of an outcome.
    pub closed spec fn reaction(self) -> F {
        self.on_action
    }

    /// How the prompt is drawn.
    pub closed spec fn look(self) -> PromptLayout {
        self.layout
    }
}

/// Whether a screen and a command are what comes of an input.
pub open spec fn reacts<T: Clone, S, F: FnMut(PromptAction<T>) -> ScreenCommand<S>>(
    before: PromptScreen<T, F>,
    input: Input,
    after: PromptScreen<T, F>,
    command: ScreenCommand<S>,
) -> bool {
    match movement(before.shown(), input) {
        Some(direction) => {
            &&& command is Stay
            &&& after.shown() == (ChoicePrompt {
                selected: moved(before.shown(), direction),
                ..before.shown()
            })
            &&& after.reaction() == before.reaction()
        },
        None => {
            &&& after.shown() == before.shown()
            &&& exists|action: PromptAction<T>|
                #![trigger call_ensures(before.reaction(), (action,), command)]
                answers(action, before.shown(), input) && call_ensures(
                    before.reaction(),
                    (action,),
                    command,
                )
        },
    }
}

impl<T: Clone, F> PromptScreen<T, F> {
    /// Show a prompt without a border.
    pub fn new<S>(prompt: ChoicePrompt<T>, on_action: F) -> (r: PromptScreen<T, F>) where
        F: FnMut(PromptAction<T>) -> ScreenCommand<S>,

        ensures
            r.shown() == prompt,
            r.reaction() == on_action,
            r.look() == PromptLayout::Compact,
    {
        PromptScreen { prompt, on_action, layout: PromptLayout::Compact }
    }

    /// Draw the prompt with a border.
    pub fn modal(self) -> (r: PromptScreen<T, F>)
        ensures
            r.shown() == self.shown(),
            r.reaction() == self.reaction(),
            r.look() == PromptLayout::Modal,
    {
        PromptScreen { prompt: self.prompt, on_action: self.on_action, layout: PromptLayout::Modal }
    }

    /// Draw the prompt without a border.
    pub fn compact(self) -> (r: PromptScreen<T, F>)
        ensures
            r.shown() == self.shown(),
            r.reaction() == self.reaction(),
            r.look() == PromptLayout::Compact,
    {
        PromptScreen {
            prompt: self.prompt,
            on_action: self.on_action,
            layout: PromptLayout::Compact,
        }
    }

    /// The prompt.
    pub fn prompt(&self) -> (r: &ChoicePrompt<T>)
        ensures
            *r == self.shown(),
    {
        &self.prompt
    }

    /// The prompt, to change it.
    pub fn prompt_mut(&mut self) -> (r: &mut ChoicePrompt<T>)
        ensures
            *r == old(self).shown(),
            final(self).shown() == *final(r),
            final(self).reaction() == old(self).reaction(),
            final(self).look() == old(self).look(),
    {
        &mut self.prompt
    }

    /// How the prompt is drawn.
    pub fn layout(&self) -> (r: PromptLayout)
        ensures
            r == self.look(),
    {
        self.layout
    }

    /// Draw the prompt into an area. Gives the number of rows of the prompt that
    /// were drawn.
    pub fn render(&self, area: Rect, buf: &mut Buffer) -> (drawn: u16)
        requires
            self.look() == PromptLayout::Compact ==> rows_fit(
                buffer_cells(*old(buf)),
                buffer_area(*old(buf)),
                area,
                visible(cursor_styles(prompt_rows(self.shown(), area.width)), area),
            ),
            self.look() == PromptLayout::Modal && area.width >= 2 && area.height >= 2 ==> {
                &&& whole(buffer_cells(*old(buf)), buffer_area(*old(buf)))
                &&& self.shown().title is Some ==> title_fits(self.shown().title->0@)
                &&& rows_fit(
                    buffer_cells(*old(buf)),
                    buffer_area(*old(buf)),
                    inside(area),
                    visible(
                        cursor_styles(prompt_rows(self.shown(), inside(area).width)),
                        inside(area),
                    ),
                )
            },
        ensures
            buffer_area(*final(buf)) == buffer_area(*old(buf)),
            self.look() == PromptLayout::Compact ==> {
                let rows = visible(cursor_styles(prompt_rows(self.shown(), area.width)), area);
                &&& drawn == rows.len()
                &&& rows_drawn(
                    buffer_cells(*old(buf)),
                    buffer_cells(*final(buf)),
                    buffer_area(*old(buf)),
                    area,
                    rows,
                )
            },
            self.look() == PromptLayout::Modal && (area.width < 2 || area.height < 2) ==> drawn == 0
                && *final(buf) == *old(buf),
            self.look() == PromptLayout::Modal && area.width >= 2 && area.height >= 2 ==> {
                let rows = visible(
                    cursor_styles(prompt_rows(self.shown(), inside(area).width)),
                    inside(area),
                );
                &&& drawn == rows.len()
                &&& rows_drawn(
                    frame_drawn(
                        buffer_cells(*old(buf)),
                        buffer_area(*old(buf)),
                        area,
                        opt_text(self.shown().title),
                    ),
                    buffer_cells(*final(buf)),
                    buffer_area(*old(buf)),
                    inside(area),
                    rows,
                )
            },
            self.look() == PromptLayout::Modal && area.width >= 2 && area.height >= 2 && lies_in(
                area,
                buffer_area(*old(buf)),
            ) ==> border_shown(
                buffer_cells(*old(buf)),
                buffer_cells(*final(buf)),
                area,
                heading(opt_text(self.shown().title)),
            ),
    {
        match self.layout {
            PromptLayout::Compact => self.prompt.render(area, buf),
            PromptLayout::Modal => self.prompt.render_modal(area, buf),
        }
    }

    /// React to an input. An input that moves the cursor is used up by that;
    /// of any other the game is told what the prompt makes of it.
    pub fn handle_input<S, W>(&mut self, ctx: &mut GameContext<'_, W>, input: Input) -> (r:
        ScreenCommand<S>) where F: FnMut(PromptAction<T>) -> ScreenCommand<S>
        requires
            cursor_bounded(old(self).shown()),
            forall|action: PromptAction<T>| #[trigger]
                call_requires(old(self).reaction(), (action,)),
        ensures
            *final(ctx) == *old(ctx),
            final(self).look() == old(self).look(),
            reacts(*old(self), input, *final(self), r),
    {
        if self.prompt.step_from_input(input) {
            return ScreenCommand::Stay;
        }
        let action: PromptAction<T> = self.prompt.handle(input);
        assert(call_requires(old(self).reaction(), (action,)));
        (self.on_action)(action)
    }
}

/// An arrow key moves the cursor, where there is one, and does not reach the game. The
/// game is told what the prompt makes of every other input, and the prompt stays as it
/// is. No input changes anything but the cursor.
pub proof fn arrows_do_not_reach_the_game<T: Clone, S, F: FnMut(PromptAction<T>) -> ScreenCommand<S>>(
    before: PromptScreen<T, F>,
    input: Input,
    after: PromptScreen<T, F>,
    command: ScreenCommand<S>,
)
    requires
        reacts(before, input, after, command),
        before.shown().selected is Some ==> before.shown().selected->0
            < before.shown().choices@.len(),
    ensures
        after.shown() == (ChoicePrompt { selected: after.shown().selected, ..before.shown() }),
        before.shown().selected is Some && input == Input::Down ==> command is Stay && after.shown()
            .selected is Some && next_below(
            before.shown().choices@,
            before.shown().selected->0 as int,
            after.shown().selected->0 as int,
        ),
        before.shown().selected is Some && input == Input::Up ==> command is Stay && after.shown()
            .selected is Some && next_above(
            before.shown().choices@,
            before.shown().selected->0 as int,
            after.shown().selected->0 as int,
        ),
        before.shown().selected is None || !(input == Input::Up || input == Input::Down || input
            is Char) ==> after.shown() == before.shown() && exists|action: PromptAction<T>|
            #![trigger call_ensures(before.reaction(), (action,), command)]
            answers(action, before.shown(), input) && call_ensures(
                before.reaction(),
                (action,),
                command,
            ),
{
    arrows_move_to_the_nearest_choice(before.shown(), input);
}

} // verus!
