//! Screens, and the stack they stand on.

use vstd::prelude::*;

use crate::config::GameConfig;
use crate::foglet::FogletContext;
use crate::input::Input;

verus! {

/// What a screen is told when it is called. `W` is the type of the shared world.
#[derive(Debug)]
pub struct GameContext<'a, W> {
    pub config: &'a GameConfig,
    pub foglet: &'a FogletContext,
    /// Columns and rows of the terminal.
    pub terminal_size: (u16, u16),
    /// The shared world, where the game has one.
    pub world_db: Option<&'a W>,
}

impl<'a, W> GameContext<'a, W> {
    /// A context without a world.
    pub fn new(config: &'a GameConfig, foglet: &'a FogletContext, terminal_size: (u16, u16)) -> (r:
        GameContext<'a, W>)
        ensures
            r == (GameContext::<W> { config, foglet, terminal_size, world_db: None }),
    {
        GameContext { config, foglet, terminal_size, world_db: None }
    }

    /// Add the shared world.
    pub fn with_world_db(self, world_db: &'a W) -> (r: GameContext<'a, W>)
        ensures
            r == (GameContext { world_db: Some(world_db), ..self }),
    {
        GameContext { world_db: Some(world_db), ..self }
    }
}

/// What a screen wants to happen next. `S` is the type of the screens.
#[derive(Debug, PartialEq, Eq)]
pub enum ScreenCommand<S> {
    /// Nothing.
    Stay,
    /// Put a screen on top.
    Push(S),
    /// Take the screen on top away.
    Pop,
    /// Put a screen in the place of the one on top.
    Replace(S),
    /// End the game.
    Quit,
    /// Save the player's progress.
    Save,
    /// Show a message.
    Message(String),
    /// Show an error.
    Error(String),
}

/// A part of the game that reacts to the player. A screen that does not say
/// otherwise stays as it is.
pub trait Screen<S, W> {
    /// React to an input other than a resize.
    fn handle_input(&mut self, ctx: &mut GameContext<'_, W>, input: Input) -> (r: ScreenCommand<S>)
        default_ensures
            r is Stay,
            *final(ctx) == *old(ctx),
    {
        ScreenCommand::Stay
    }

    /// React to time passing.
    fn tick(&mut self, ctx: &mut GameContext<'_, W>) -> (r: ScreenCommand<S>)
        default_ensures
            r is Stay,
            *final(ctx) == *old(ctx),
    {
        ScreenCommand::Stay
    }

    /// React to a new size of the terminal.
    fn on_resize(&mut self, ctx: &mut GameContext<'_, W>, width: u16, height: u16) -> (r:
        ScreenCommand<S>)
        default_ensures
            r is Stay,
            *final(ctx) == *old(ctx),
    {
        ScreenCommand::Stay
    }
}

/// The screens, the top one last.
pub type ScreenStack<S> = Vec<S>;

/// Why the game ended.
#[derive(Debug, Clone, Copy, PartialEq, Eq, Structural)]
pub enum ExitReason {
    /// A screen asked for it.
    Quit,
    /// No screen was left.
    EmptyStack,
}

/// What is left to do after a command.
#[derive(Debug, PartialEq, Eq)]
pub enum SideEffect {
    Nothing,
    Save,
    Message(String),
    Error(String),
    Exit(ExitReason),
}

/// A stack without its top screen; an empty stack stays empty.
pub open spec fn popped<S>(stack: Seq<S>) -> Seq<S> {
    if stack.len() > 0 {
        stack.drop_last()
    } else {
        stack
    }
}

/// The stack after a command.
pub open spec fn stack_after<S>(stack: Seq<S>, command: ScreenCommand<S>) -> Seq<S> {
    match command {
        ScreenCommand::Push(screen) => stack.push(screen),
        ScreenCommand::Pop => popped(stack),
        ScreenCommand::Replace(screen) => popped(stack).push(screen),
        ScreenCommand::Quit => seq![],
        _ => stack,
    }
}

/// What is left to do after a command.
pub open spec fn effect_of<S>(stack: Seq<S>, command: ScreenCommand<S>) -> SideEffect {
    match command {
        ScreenCommand::Stay | ScreenCommand::Push(_) | ScreenCommand::Replace(_) => {
            SideEffect::Nothing
        },
        ScreenCommand::Pop => if popped(stack).len() == 0 {
            SideEffect::Exit(ExitReason::EmptyStack)
        } else {
            SideEffect::Nothing
        },
        ScreenCommand::Quit => SideEffect::Exit(ExitReason::Quit),
        ScreenCommand::Save => SideEffect::Save,
        ScreenCommand::Message(s) => SideEffect::Message(s),
        ScreenCommand::Error(s) => SideEffect::Error(s),
    }
}

/// Carry out a command on the stack. Popping the last screen ends the game.
pub fn apply_command<S>(stack: &mut Vec<S>, command: ScreenCommand<S>) -> (r: SideEffect)
    ensures
        final(stack)@ == stack_after(old(stack)@, command),
        r == effect_of(old(stack)@, command),
{
    match command {
        ScreenCommand::Stay => SideEffect::Nothing,
        ScreenCommand::Push(screen) => {
            stack.push(screen);
            SideEffect::Nothing
        },
        ScreenCommand::Pop => {
            let _ = stack.pop();
            assert(stack@ =~= popped(old(stack)@));
            if stack.len() == 0 {
                SideEffect::Exit(ExitReason::EmptyStack)
            } else {
                SideEffect::Nothing
            }
        },
        ScreenCommand::Replace(screen) => {
            let _ = stack.pop();
            assert(stack@ =~= popped(old(stack)@));
            stack.push(screen);
            SideEffect::Nothing
        },
        ScreenCommand::Quit => {
            stack.clear();
            assert(stack@ =~= seq![]);
            SideEffect::Exit(ExitReason::Quit)
        },
        ScreenCommand::Save => SideEffect::Save,
        ScreenCommand::Message(s) => SideEffect::Message(s),
        ScreenCommand::Error(s) => SideEffect::Error(s),
    }
}

/// Popping a screen that was pushed leaves the stack as it was.
pub proof fn pop_undoes_push<S>(stack: Seq<S>, screen: S)
    ensures
        stack_after(stack_after(stack, ScreenCommand::Push(screen)), ScreenCommand::Pop) == stack,
{
    assert(stack.push(screen).drop_last() =~= stack);
}

/// A game that goes on has a screen: a command leaves the stack empty only
/// where it ends the game.
pub proof fn going_on_keeps_a_screen<S>(stack: Seq<S>, command: ScreenCommand<S>)
    requires
        stack.len() > 0,
    ensures
        stack_after(stack, command).len() == 0 <==> effect_of(stack, command) is Exit,
{
}

/// The stack after taking the top screen away `n` times.
pub open spec fn popped_times<S>(stack: Seq<S>, n: nat) -> Seq<S>
    decreases n,
{
    if n == 0 {
        stack
    } else {
        popped_times(popped(stack), (n - 1) as nat)
    }
}

/// Quitting is the same as popping every screen.
pub proof fn quit_pops_every_screen<S>(stack: Seq<S>)
    ensures
        stack_after(stack, ScreenCommand::Quit) == popped_times(stack, stack.len()),
    decreases stack.len(),
{
    if stack.len() > 0 {
        quit_pops_every_screen(stack.drop_last());
    } else {
        assert(stack =~= seq![]);
    }
}

/// A command touches nothing below the top of the stack, unless it ends the game.
/// What is pushed, or put in the place of the top, is on top afterwards.
pub proof fn commands_act_on_the_top<S>(stack: Seq<S>, command: ScreenCommand<S>)
    requires
        stack.len() > 0,
    ensures
        ({
            let after = stack_after(stack, command);
            let below = stack.drop_last();
            &&& command is Stay || command is Save || command is Message || command is Error
                ==> after == stack
            &&& command matches ScreenCommand::Push(screen) ==> after.len() == stack.len() + 1
                && after.last() == screen && after.drop_last() == stack
            &&& command is Pop ==> after == below
            &&& command matches ScreenCommand::Replace(screen) ==> after.len() == stack.len()
                && after.last() == screen && after.drop_last() == below
            &&& command is Quit ==> after.len() == 0
        }),
{
    let after = stack_after(stack, command);
    if command is Push {
        assert(after.drop_last() =~= stack);
    } else if command is Replace {
        assert(after.drop_last() =~= stack.drop_last());
    }
}

/// What a command leaves to do is what it says: it saves only where that was asked
/// for, shows the text it was given, and ends the game only by quitting or where no
/// screen is left.
pub proof fn effects_say_what_was_asked<S>(stack: Seq<S>, command: ScreenCommand<S>)
    ensures
        effect_of(stack, command) is Save <==> command is Save,
        effect_of(stack, command) matches SideEffect::Message(s) ==> command
            == ScreenCommand::<S>::Message(s),
        command is Message ==> effect_of(stack, command) is Message,
        effect_of(stack, command) matches SideEffect::Error(s) ==> command
            == ScreenCommand::<S>::Error(s),
        command is Error ==> effect_of(stack, command) is Error,
        effect_of(stack, command) == SideEffect::Exit(ExitReason::Quit) <==> command is Quit,
        effect_of(stack, command) == SideEffect::Exit(ExitReason::EmptyStack) <==> command is Pop
            && stack.len() <= 1,
{
}

} // verus!
