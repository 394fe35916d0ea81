//! Building a game, starting it, and running its loop.
//!
//! A [`Game`] collects what a game is made of and checks it. A [`Launch`]
//! decides the order in which a game is started and ended, and a [`GameLoop`]
//! decides what happens in each turn. Both name the next action, which the
//! caller performs, and take the reply.

use vstd::prelude::*;

use crate::config::{GameConfig, WorldSection};
use crate::foglet::FogletContext;
use crate::input::Input;
use crate::save::{io_error_text, SaveIoError};
use crate::screen::{
    apply_command, effect_of, going_on_keeps_a_screen, stack_after, ExitReason, GameContext, Screen, ScreenCommand,
    SideEffect,
};
use crate::terminal::{terminal_error_text, TerminalError};
use crate::text::{
    chars_of, decimal, is_space, push_decimal, trim, trim_bounds, trimming_takes_only_the_ends, Text,
};

verus! {

broadcast use vstd::string::group_string_axioms;

/// How long to wait for an input before time passes for the screens, in
/// milliseconds.
pub const TICK_INTERVAL_MS: u64 = 50;

/// Whether, and for whom, progress is saved.
#[derive(Debug, Clone, Copy, PartialEq, Eq, Structural)]
pub enum SavePolicy {
    /// One save for each user of the host.
    PerFogletUser,
    /// Progress is not saved.
    Disabled,
}

impl Default for SavePolicy {
    fn default() -> (r: SavePolicy)
        ensures
            r == SavePolicy::PerFogletUser,
    {
        SavePolicy::PerFogletUser
    }
}

/// Why a game could not be built, started or run. The texts are what the system
/// said.
#[derive(Debug, Clone, PartialEq, Eq)]
pub enum GameError {
    /// The title is empty or blank.
    EmptyTitle,
    /// A minimum size of nothing.
    InvalidMinSize { width: u16, height: u16 },
    /// There is no screen to start with.
    NoStartingScreen,
    /// The game has no configuration.
    MissingConfig,
    /// The game was not told who plays.
    MissingContext,
    /// The terminal is smaller than the game needs.
    TerminalTooSmall {
        actual_width: u16,
        actual_height: u16,
        required_width: u16,
        required_height: u16,
    },
    /// Inputs could not be read.
    EventIo(String),
    /// A screen could not be drawn.
    Render(String),
    /// Progress could not be saved.
    Save(String),
    /// The terminal could not be taken over or given back.
    Terminal(TerminalError),
    /// The world database could not be opened.
    WorldOpen(String),
}

/// A result, or why there is none.
pub type GameResult<T> = Result<T, GameError>;

/// A width and a height.
pub open spec fn size_text(width: u16, height: u16) -> Seq<char> {
    decimal(width as int) + "x"@ + decimal(height as int)
}

/// How an error reads.
pub open spec fn game_error_text(error: GameError) -> Seq<char> {
    match error {
        GameError::EmptyTitle => "game title must not be empty or whitespace"@,
        GameError::InvalidMinSize { width, height } => "min_size must be at least 1x1, got "@
            + size_text(width, height),
        GameError::NoStartingScreen => "at least one screen must be pushed before run()"@,
        GameError::MissingConfig =>
            "Game::run() requires a GameConfig — call .with_config() before .run()"@,
        GameError::MissingContext =>
            "Game::run() requires a FogletContext — call .with_foglet_context() before .run()"@,
        GameError::TerminalTooSmall {
            actual_width,
            actual_height,
            required_width,
            required_height,
        } => "terminal too small: have "@ + size_text(actual_width, actual_height)
            + ", need at least "@ + size_text(required_width, required_height),
        GameError::EventIo(s) => "event source I/O error: "@ + s@,
        GameError::Render(s) => "render error: "@ + s@,
        GameError::Save(s) => "save error: "@ + s@,
        GameError::Terminal(e) => terminal_error_text(e),
        GameError::WorldOpen(s) => s@,
    }
}

fn push_size(out: &mut String, width: u16, height: u16)
    ensures
        final(out)@ == old(out)@ + size_text(width, height),
{
    let ghost before = out@;
    push_decimal(out, width as i64);
    out.append("x");
    push_decimal(out, height as i64);
    assert(out@ =~= before + size_text(width, height));
}

impl GameError {
    /// The message for the operator.
    pub fn message(&self) -> (r: String)
        ensures
            r@ == game_error_text(*self),
    {
        let mut out: String = String::new();
        match self {
            GameError::EmptyTitle => out.append("game title must not be empty or whitespace"),
            GameError::InvalidMinSize { width, height } => {
                out.append("min_size must be at least 1x1, got ");
                push_size(&mut out, *width, *height);
            },
            GameError::NoStartingScreen => {
                out.append("at least one screen must be pushed before run()")
            },
            GameError::MissingConfig => {
                out.append("Game::run() requires a GameConfig — call .with_config() before .run()")
            },
            GameError::MissingContext => out.append(
                "Game::run() requires a FogletContext — call .with_foglet_context() before .run()",
            ),
            GameError::TerminalTooSmall {
                actual_width,
                actual_height,
                required_width,
                required_height,
            } => {
                out.append("terminal too small: have ");
                push_size(&mut out, *actual_width, *actual_height);
                out.append(", need at least ");
                push_size(&mut out, *required_width, *required_height);
            },
            GameError::EventIo(s) => {
                out.append("event source I/O error: ");
                out.append(s.as_str());
            },
            GameError::Render(s) => {
                out.append("render error: ");
                out.append(s.as_str());
            },
            GameError::Save(s) => {
                out.append("save error: ");
                out.append(s.as_str());
            },
            GameError::Terminal(e) => out.append(e.message().as_str()),
            GameError::WorldOpen(s) => out.append(s.as_str()),
        }
        assert(out@ =~= game_error_text(*self));
        out
    }
}

/// What a save handler that failed said. Whatever its error is, the game ends
/// with [`GameError::Save`].
pub open spec fn save_failure_text(error: GameError) -> Seq<char> {
    match error {
        GameError::Save(said) => said@,
        other => game_error_text(other),
    }
}

/// Whether a reply to a save is the one for what the save handler gave back.
pub open spec fn answers_save(handled: GameResult<()>, reply: LoopReply) -> bool {
    match handled {
        Ok(()) => reply is Saved,
        Err(error) => reply matches LoopReply::SaveFailed(said) && said@ == save_failure_text(
            error,
        ),
    }
}

/// The reply to a save, from what the save handler gave back.
pub fn save_reply(handled: GameResult<()>) -> (r: LoopReply)
    ensures
        answers_save(handled, r),
{
    match handled {
        Ok(()) => LoopReply::Saved,
        Err(GameError::Save(said)) => LoopReply::SaveFailed(said),
        Err(other) => LoopReply::SaveFailed(other.message()),
    }
}

/// The outcome of saving, as a save handler gives it back: an error becomes its
/// message.
pub fn save_outcome(saved: Result<(), SaveIoError>) -> (r: GameResult<()>)
    ensures
        match saved {
            Ok(()) => r is Ok,
            Err(error) => r matches Err(GameError::Save(text)) && text@ == io_error_text(error),
        },
{
    match saved {
        Ok(()) => Ok(()),
        Err(error) => Err(GameError::Save(error.message())),
    }
}

/// The save handler of a game that has none.
#[derive(Debug, Clone, Copy, PartialEq, Eq)]
pub struct NoSaveHandler;

/// What a game is made of. `S` is the type of the screens, `H` that of the save
/// handler.
#[derive(Debug)]
pub struct Game<S, H> {
    title: String,
    min_size: (u16, u16),
    save_policy: SavePolicy,
    screens: Vec<S>,
    config: Option<GameConfig>,
    foglet: Option<FogletContext>,
    save_handler: Option<H>,
}

/// What a game or a built game is made of.
pub ghost struct GameParts<S, H> {
    pub title: Seq<char>,
    pub min_size: (u16, u16),
    pub save_policy: SavePolicy,
    pub screens: Seq<S>,
    pub config: Option<GameConfig>,
    pub foglet: Option<FogletContext>,
    pub save_handler: Option<H>,
}

/// The first thing that is wrong with a game, if anything is.
pub open spec fn flaw<S, H>(parts: GameParts<S, H>) -> Option<GameError> {
    if trim(parts.title).len() == 0 {
        Some(GameError::EmptyTitle)
    } else if parts.min_size.0 == 0 || parts.min_size.1 == 0 {
        Some(GameError::InvalidMinSize { width: parts.min_size.0, height: parts.min_size.1 })
    } else if parts.screens.len() == 0 {
        Some(GameError::NoStartingScreen)
    } else {
        None
    }
}

impl<S, H> View for Game<S, H> {
    type V = GameParts<S, H>;

    closed spec fn view(&self) -> GameParts<S, H> {
        GameParts {
            title: self.title@,
            min_size: self.min_size,
            save_policy: self.save_policy,
            screens: self.screens@,
            config: self.config,
            foglet: self.foglet,
            save_handler: self.save_handler,
        }
    }
}

impl<S> Game<S, NoSaveHandler> {
    /// A game of that title, for terminals of at least 80 by 24 cells, that
    /// saves for each user.
    pub fn new(title: impl Text) -> (r: Game<S, NoSaveHandler>)
        ensures
            r@ == (GameParts::<S, NoSaveHandler> {
                title: title.text(),
                min_size: (80, 24),
                save_policy: SavePolicy::PerFogletUser,
                screens: seq![],
                config: None,
                foglet: None,
                save_handler: None,
            }),
    {
        let r = Game {
            title: title.into_text(),
            min_size: (80, 24),
            save_policy: SavePolicy::default(),
            screens: Vec::new(),
            config: None,
            foglet: None,
            save_handler: None,
        };
        assert(r@.screens =~= seq![]);
        r
    }
}

impl<S, H> Game<S, H> {
    /// Set what saves the player's progress. A game has one save handler; an
    /// earlier one is replaced.
    pub fn with_save_handler<G>(self, handler: G) -> (r: Game<S, G>) where
        G: FnMut() -> Result<(), GameError>,

        ensures
            r@ == (GameParts::<S, G> {
                title: self@.title,
                min_size: self@.min_size,
                save_policy: self@.save_policy,
                screens: self@.screens,
                config: self@.config,
                foglet: self@.foglet,
                save_handler: Some(handler),
            }),
    {
        Game {
            title: self.title,
            min_size: self.min_size,
            save_policy: self.save_policy,
            screens: self.screens,
            config: self.config,
            foglet: self.foglet,
            save_handler: Some(handler),
        }
    }

    /// Set the smallest terminal that the game supports.
    pub fn min_size(self, width: u16, height: u16) -> (r: Game<S, H>)
        ensures
            r@ == (GameParts { min_size: (width, height), ..self@ }),
    {
        Game { min_size: (width, height), ..self }
    }

    /// Set whether, and for whom, progress is saved.
    pub fn save_policy(self, policy: SavePolicy) -> (r: Game<S, H>)
        ensures
            r@ == (GameParts { save_policy: policy, ..self@ }),
    {
        Game { save_policy: policy, ..self }
    }

    /// Put a screen on top of those that the game starts with.
    pub fn push_screen(self, screen: S) -> (r: Game<S, H>)
        ensures
            r@ == (GameParts { screens: self@.screens.push(screen), ..self@ }),
    {
        let mut screens: Vec<S> = self.screens;
        screens.push(screen);
        Game { screens, ..self }
    }

    /// Set the configuration.
    pub fn with_config(self, config: GameConfig) -> (r: Game<S, H>)
        ensures
            r@ == (GameParts { config: Some(config), ..self@ }),
    {
        Game { config: Some(config), ..self }
    }

    /// Set who plays.
    pub fn with_foglet_context(self, foglet: FogletContext) -> (r: Game<S, H>)
        ensures
            r@ == (GameParts { foglet: Some(foglet), ..self@ }),
    {
        Game { foglet: Some(foglet), ..self }
    }

    /// Check the game.
    pub fn build(self) -> (r: GameResult<BuiltGame<S, H>>)
        ensures
            match flaw(self@) {
                Some(error) => r == Err::<BuiltGame<S, H>, GameError>(error),
                None => r matches Ok(built) && built@ == self@,
            },
    {
        let cs: Vec<char> = chars_of(self.title.as_str());
        let (from, to): (usize, usize) = trim_bounds(&cs);
        if from == to {
            return Err(GameError::EmptyTitle);
        }
        let (width, height): (u16, u16) = self.min_size;
        if width == 0 || height == 0 {
            return Err(GameError::InvalidMinSize { width, height });
        }
        if self.screens.len() == 0 {
            return Err(GameError::NoStartingScreen);
        }
        Ok(
            BuiltGame {
                title: self.title,
                min_size: self.min_size,
                save_policy: self.save_policy,
                screens: self.screens,
                config: self.config,
                foglet: self.foglet,
                save_handler: self.save_handler,
            },
        )
    }
}

/// A game that was checked.
#[derive(Debug)]
pub struct BuiltGame<S, H> {
    title: String,
    min_size: (u16, u16),
    save_policy: SavePolicy,
    screens: Vec<S>,
    config: Option<GameConfig>,
    foglet: Option<FogletContext>,
    save_handler: Option<H>,
}

impl<S, H> View for BuiltGame<S, H> {
    type V = GameParts<S, H>;

    closed spec fn view(&self) -> GameParts<S, H> {
        GameParts {
            title: self.title@,
            min_size: self.min_size,
            save_policy: self.save_policy,
            screens: self.screens@,
            config: self.config,
            foglet: self.foglet,
            save_handler: self.save_handler,
        }
    }
}

impl<S, H> BuiltGame<S, H> {
    #[verifier::type_invariant]
    spec fn well_formed(self) -> bool {
        flaw(self@) is None
    }

    /// The title, which is not blank.
    pub fn title(&self) -> (r: &str)
        ensures
            r@ == self@.title,
            trim(r@).len() > 0,
    {
        proof {
            use_type_invariant(self);
        }
        self.title.as_str()
    }

    /// The smallest terminal that the game supports.
    pub fn min_size(&self) -> (r: (u16, u16))
        ensures
            r == self@.min_size,
            r.0 > 0 && r.1 > 0,
    {
        proof {
            use_type_invariant(self);
        }
        self.min_size
    }

    /// Whether, and for whom, progress is saved.
    pub fn save_policy(&self) -> (r: SavePolicy)
        ensures
            r == self@.save_policy,
    {
        self.save_policy
    }

    /// The number of screens that the game starts with.
    pub fn screen_count(&self) -> (r: usize)
        ensures
            r == self@.screens.len(),
            r > 0,
    {
        proof {
            use_type_invariant(self);
        }
        self.screens.len()
    }

    /// The configuration, if there is one.
    pub fn config(&self) -> (r: &Option<GameConfig>)
        ensures
            *r == self@.config,
    {
        &self.config
    }

    /// Who plays, if it was said.
    pub fn foglet(&self) -> (r: &Option<FogletContext>)
        ensures
            *r == self@.foglet,
    {
        &self.foglet
    }

    /// The screens, the top one last, and the save handler, if there is one.
    pub fn into_parts(self) -> (r: (Vec<S>, Option<H>))
        ensures
            r.0@ == self@.screens,
            r.0@.len() > 0,
            r.1 == self@.save_handler,
    {
        proof {
            use_type_invariant(&self);
        }
        (self.screens, self.save_handler)
    }
}

/// Open the world database of a game that has one. `open` opens the database that
/// a section of the configuration describes, or says why it cannot.
pub fn open_world_db_if_enabled<D, F>(config: &GameConfig, open: F) -> (r: GameResult<
    Option<D>,
>) where F: Fn(&WorldSection) -> Result<D, String>
    requires
        config.world.enabled ==> call_requires(open, (&config.world,)),
    ensures
        !config.world.enabled ==> (r matches Ok(None)),
        config.world.enabled ==> exists|opened: Result<D, String>|
            #![trigger call_ensures(open, (&config.world,), opened)]
            call_ensures(open, (&config.world,), opened) && match opened {
                Ok(db) => r == Ok::<Option<D>, GameError>(Some(db)),
                Err(said) => r == Err::<Option<D>, GameError>(GameError::WorldOpen(said)),
            },
{
    if !config.world.enabled {
        return Ok(None);
    }
    match open(&config.world) {
        Ok(db) => Ok(Some(db)),
        Err(said) => Err(GameError::WorldOpen(said)),
    }
}

/// When time passes next for the screens, if it last did at `now_ms`.
pub open spec fn tick_after(now_ms: u64) -> u64 {
    if now_ms + TICK_INTERVAL_MS > u64::MAX {
        u64::MAX
    } else {
        (now_ms + TICK_INTERVAL_MS) as u64
    }
}

/// When time passes next for the screens.
fn next_tick(now_ms: u64) -> (r: u64)
    ensures
        r == tick_after(now_ms),
{
    if now_ms > u64::MAX - TICK_INTERVAL_MS {
        u64::MAX
    } else {
        now_ms + TICK_INTERVAL_MS
    }
}

/// How long it is until a time.
pub open spec fn wait_until(tick_ms: u64, now_ms: u64) -> int {
    if tick_ms > now_ms {
        tick_ms - now_ms
    } else {
        0
    }
}

/// Where a running game stands.
#[derive(Debug, PartialEq, Eq)]
pub enum LoopPhase {
    /// The top screen has to be drawn.
    Rendering,
    /// An input has to be waited for.
    Polling,
    /// Progress has to be saved, after which the game may end.
    Saving { exit: Option<ExitReason> },
    /// The game is over.
    Finished { outcome: Result<ExitReason, GameError> },
}

/// What a running game needs next.
#[derive(Debug, Clone, Copy, PartialEq, Eq, Structural)]
pub enum LoopAction {
    /// Draw the top screen.
    Render,
    /// Wait for an input until time passes for the screens.
    Poll,
    /// Save the player's progress.
    Save,
    /// Nothing: the game is over.
    Finish,
}

/// The reply to an action.
#[derive(Debug, PartialEq, Eq)]
pub enum LoopReply {
    /// The screen was drawn.
    Rendered,
    /// The screen could not be drawn; this is what the system said.
    RenderFailed(String),
    /// The input, or none in time.
    Polled(Option<Input>),
    /// Inputs could not be read; this is what the system said.
    PollFailed(String),
    /// Progress was saved, or need not be.
    Saved,
    /// Progress could not be saved; this is what the handler said.
    SaveFailed(String),
}

/// The action that a phase asks for.
pub open spec fn loop_asks(phase: LoopPhase) -> LoopAction {
    match phase {
        LoopPhase::Rendering => LoopAction::Render,
        LoopPhase::Polling => LoopAction::Poll,
        LoopPhase::Saving { .. } => LoopAction::Save,
        LoopPhase::Finished { .. } => LoopAction::Finish,
    }
}

/// Whether a reply can be the reply to an action.
pub open spec fn loop_fits(action: LoopAction, reply: LoopReply) -> bool {
    match action {
        LoopAction::Render => reply is Rendered || reply is RenderFailed,
        LoopAction::Poll => reply is Polled || reply is PollFailed,
        LoopAction::Save => reply is Saved || reply is SaveFailed,
        LoopAction::Finish => false,
    }
}

/// The phase after a command was carried out. The game saves before it ends;
/// messages and errors do not stop it.
pub open spec fn phase_for(effect: SideEffect) -> LoopPhase {
    match effect {
        SideEffect::Save => LoopPhase::Saving { exit: None },
        SideEffect::Exit(reason) => LoopPhase::Saving { exit: Some(reason) },
        _ => LoopPhase::Rendering,
    }
}

/// The phase after a reply, except to the wait for an input.
pub open spec fn loop_after(phase: LoopPhase, reply: LoopReply) -> LoopPhase {
    match reply {
        LoopReply::Rendered => LoopPhase::Polling,
        LoopReply::RenderFailed(said) => LoopPhase::Finished {
            outcome: Err(GameError::Render(said)),
        },
        LoopReply::PollFailed(said) => LoopPhase::Finished {
            outcome: Err(GameError::EventIo(said)),
        },
        LoopReply::Saved => match phase {
            LoopPhase::Saving { exit: Some(reason) } => LoopPhase::Finished { outcome: Ok(reason) },
            _ => LoopPhase::Rendering,
        },
        LoopReply::SaveFailed(said) => LoopPhase::Finished { outcome: Err(GameError::Save(said)) },
        LoopReply::Polled(_) => phase,
    }
}

/// The size of the terminal after an event.
pub open spec fn size_after(size: (u16, u16), event: Option<Input>) -> (u16, u16) {
    match event {
        Some(Input::Resize { width, height }) => (width, height),
        _ => size,
    }
}

/// Whether a stack and a phase are what comes of a command of the top screen,
/// which has become `top`.
pub open spec fn turn_taken<S>(
    before: Seq<S>,
    top: S,
    command: ScreenCommand<S>,
    after: Seq<S>,
    phase: LoopPhase,
) -> bool {
    let changed = before.update(before.len() - 1, top);
    after == stack_after(changed, command) && phase == phase_for(effect_of(changed, command))
}

/// A running game.
#[derive(Debug)]
pub struct GameLoop<S> {
    screens: Vec<S>,
    size: (u16, u16),
    tick_ms: u64,
    phase: LoopPhase,
}

impl<S> GameLoop<S> {
    /// The screens, the top one last.
    pub closed spec fn stack(self) -> Seq<S> {
        self.screens@
    }

    /// The size of the terminal.
    pub closed spec fn terminal(self) -> (u16, u16) {
        self.size
    }

    /// When time passes next for the screens.
    pub closed spec fn tick_at(self) -> u64 {
        self.tick_ms
    }

    /// Where the game stands.
    pub closed spec fn now(self) -> LoopPhase {
        self.phase
    }

    /// A game that goes on has a screen to draw.
    #[verifier::type_invariant]
    spec fn well_formed(self) -> bool {
        self.screens@.len() > 0 || self.phase is Finished || (self.phase matches LoopPhase::Saving {
            exit,
        } && exit is Some)
    }

    /// A game with these screens that starts at `now_ms`. Without a screen it is
    /// over at once.
    pub fn new(screens: Vec<S>, size: (u16, u16), now_ms: u64) -> (r: GameLoop<S>)
        ensures
            r.stack() == screens@,
            r.terminal() == size,
            r.tick_at() == tick_after(now_ms),
            r.now() == if screens@.len() == 0 {
                LoopPhase::Finished { outcome: Err(GameError::NoStartingScreen) }
            } else {
                LoopPhase::Rendering
            },
    {
        let tick_ms: u64 = next_tick(now_ms);
        if screens.len() == 0 {
            GameLoop {
                screens,
                size,
                tick_ms,
                phase: LoopPhase::Finished { outcome: Err(GameError::NoStartingScreen) },
            }
        } else {
            GameLoop { screens, size, tick_ms, phase: LoopPhase::Rendering }
        }
    }

    /// What the game needs next.
    pub fn action(&self) -> (r: LoopAction)
        ensures
            r == loop_asks(self.now()),
    {
        match &self.phase {
            LoopPhase::Rendering => LoopAction::Render,
            LoopPhase::Polling => LoopAction::Poll,
            LoopPhase::Saving { .. } => LoopAction::Save,
            LoopPhase::Finished { .. } => LoopAction::Finish,
        }
    }

    /// The size of the terminal.
    pub fn terminal_size(&self) -> (r: (u16, u16))
        ensures
            r == self.terminal(),
    {
        self.size
    }

    /// How long to wait for an input before time passes for the screens.
    pub fn timeout_ms(&self, now_ms: u64) -> (r: u64)
        ensures
            r == wait_until(self.tick_at(), now_ms),
    {
        if self.tick_ms > now_ms {
            self.tick_ms - now_ms
        } else {
            0
        }
    }

    /// The number of screens.
    pub fn depth(&self) -> (r: usize)
        ensures
            r == self.stack().len(),
    {
        self.screens.len()
    }

    /// The top screen, to draw it.
    pub fn top(&mut self) -> (r: &mut S)
        requires
            old(self).now() is Rendering,
        ensures
            *r == old(self).stack().last(),
            final(self).stack() == old(self).stack().update(
                old(self).stack().len() - 1,
                *final(r),
            ),
            final(self).terminal() == old(self).terminal(),
            final(self).tick_at() == old(self).tick_at(),
            final(self).now() == old(self).now(),
    {
        proof {
            use_type_invariant(&*self);
        }
        let last: usize = self.screens.len() - 1;
        &mut self.screens[last]
    }

    /// What the screens are told, to draw the top one.
    pub fn context<'a, W>(
        &self,
        config: &'a GameConfig,
        foglet: &'a FogletContext,
        world_db: Option<&'a W>,
    ) -> (r: GameContext<'a, W>)
        ensures
            r == (GameContext { config, foglet, terminal_size: self.terminal(), world_db }),
    {
        context(config, foglet, self.size, world_db)
    }

    /// Go on with the reply to the action asked for. The reply to a wait for an
    /// input is taken by [`GameLoop::turn`].
    pub fn step(self, reply: LoopReply) -> (r: GameLoop<S>)
        requires
            loop_fits(loop_asks(self.now()), reply),
            !(reply is Polled),
        ensures
            r.stack() == self.stack(),
            r.terminal() == self.terminal(),
            r.tick_at() == self.tick_at(),
            r.now() == loop_after(self.now(), reply),
    {
        proof {
            use_type_invariant(&self);
        }
        let phase: LoopPhase = match reply {
            LoopReply::Rendered => LoopPhase::Polling,
            LoopReply::RenderFailed(said) => LoopPhase::Finished {
                outcome: Err(GameError::Render(said)),
            },
            LoopReply::PollFailed(said) => LoopPhase::Finished {
                outcome: Err(GameError::EventIo(said)),
            },
            LoopReply::Saved => match self.phase {
                LoopPhase::Saving { exit: Some(reason) } => LoopPhase::Finished {
                    outcome: Ok(reason),
                },
                _ => LoopPhase::Rendering,
            },
            LoopReply::SaveFailed(said) => LoopPhase::Finished {
                outcome: Err(GameError::Save(said)),
            },
            LoopReply::Polled(_) => LoopPhase::Polling,
        };
        GameLoop { screens: self.screens, size: self.size, tick_ms: self.tick_ms, phase }
    }

    /// Why the game ended, once it has.
    pub fn outcome(self) -> (r: Option<Result<ExitReason, GameError>>)
        ensures
            match self.now() {
                LoopPhase::Finished { outcome } => r == Some(outcome),
                _ => r is None,
            },
    {
        match self.phase {
            LoopPhase::Finished { outcome } => Some(outcome),
            _ => None,
        }
    }
}

/// What the screens are told.
fn context<'a, W>(
    config: &'a GameConfig,
    foglet: &'a FogletContext,
    terminal_size: (u16, u16),
    world_db: Option<&'a W>,
) -> (r: GameContext<'a, W>)
    ensures
        r == (GameContext { config, foglet, terminal_size, world_db }),
{
    let ctx: GameContext<'a, W> = GameContext::new(config, foglet, terminal_size);
    match world_db {
        Some(db) => ctx.with_world_db(db),
        None => ctx,
    }
}

impl<S> GameLoop<S> {
    /// Let the top screen react to an event, and carry out its command. A resize
    /// changes the size of the terminal before the screen is told of it; any
    /// other input is handed on; no input means that time passes, and only then
    /// is the next time set, from `now_ms` on.
    pub fn turn<W>(
        self,
        config: &GameConfig,
        foglet: &FogletContext,
        world_db: Option<&W>,
        event: Option<Input>,
        now_ms: u64,
    ) -> (r: GameLoop<S>) where S: Screen<S, W>
        requires
            self.now() is Polling,
        ensures
            r.terminal() == size_after(self.terminal(), event),
            r.tick_at() == if event is None {
                tick_after(now_ms)
            } else {
                self.tick_at()
            },
            match event {
                Some(Input::Resize { width, height }) => exists|
                    top: &mut S,
                    ctx: &mut GameContext<'_, W>,
                    command: ScreenCommand<S>,
                |
                    #![trigger call_ensures(S::on_resize, (top, ctx, width, height), command)]
                    call_ensures(S::on_resize, (top, ctx, width, height), command) && *top
                        == self.stack().last() && *ctx == (GameContext {
                        config,
                        foglet,
                        terminal_size: (width, height),
                        world_db,
                    }) && turn_taken(self.stack(), *final(top), command, r.stack(), r.now()),
                Some(input) => exists|
                    top: &mut S,
                    ctx: &mut GameContext<'_, W>,
                    command: ScreenCommand<S>,
                |
                    #![trigger call_ensures(S::handle_input, (top, ctx, input), command)]
                    call_ensures(S::handle_input, (top, ctx, input), command) && *top
                        == self.stack().last() && *ctx == (GameContext {
                        config,
                        foglet,
                        terminal_size: self.terminal(),
                        world_db,
                    }) && turn_taken(self.stack(), *final(top), command, r.stack(), r.now()),
                None => exists|top: &mut S, ctx: &mut GameContext<'_, W>, command: ScreenCommand<S>|
                    #![trigger call_ensures(S::tick, (top, ctx), command)]
                    call_ensures(S::tick, (top, ctx), command) && *top == self.stack().last()
                        && *ctx == (GameContext {
                        config,
                        foglet,
                        terminal_size: self.terminal(),
                        world_db,
                    }) && turn_taken(self.stack(), *final(top), command, r.stack(), r.now()),
            },
    {
        proof {
            use_type_invariant(&self);
        }
        let mut screens: Vec<S> = self.screens;
        let mut size: (u16, u16) = self.size;
        let mut tick_ms: u64 = self.tick_ms;
        let last: usize = screens.len() - 1;
        let command: ScreenCommand<S> = match event {
            Some(Input::Resize { width, height }) => {
                size = (width, height);
                let mut ctx: GameContext<'_, W> = context(config, foglet, size, world_db);
                screens[last].on_resize(&mut ctx, width, height)
            },
            Some(input) => {
                let mut ctx: GameContext<'_, W> = context(config, foglet, size, world_db);
                screens[last].handle_input(&mut ctx, input)
            },
            None => {
                tick_ms = next_tick(now_ms);
                let mut ctx: GameContext<'_, W> = context(config, foglet, size, world_db);
                screens[last].tick(&mut ctx)
            },
        };
        proof {
            going_on_keeps_a_screen(screens@, command);
        }
        let phase: LoopPhase = match apply_command(&mut screens, command) {
            SideEffect::Nothing => LoopPhase::Rendering,
            SideEffect::Save => LoopPhase::Saving { exit: None },
            SideEffect::Message(_) | SideEffect::Error(_) => LoopPhase::Rendering,
            SideEffect::Exit(reason) => LoopPhase::Saving { exit: Some(reason) },
        };
        GameLoop { screens, size, tick_ms, phase }
    }
}

/// A game ends well only after its progress was saved, and fails without saving
/// where a screen could not be drawn or an input could not be read.
pub proof fn a_good_end_is_saved(phase: LoopPhase, reply: LoopReply, reason: ExitReason)
    requires
        loop_fits(loop_asks(phase), reply),
        loop_after(phase, reply) == (LoopPhase::Finished { outcome: Ok(reason) }),
    ensures
        phase == (LoopPhase::Saving { exit: Some(reason) }),
        reply is Saved,
{
}

/// A game that cannot draw or read ends at once, without a word to the save
/// handler.
pub proof fn a_broken_terminal_ends_the_game(phase: LoopPhase, reply: LoopReply)
    requires
        loop_fits(loop_asks(phase), reply),
        reply is RenderFailed || reply is PollFailed,
    ensures
        loop_asks(phase) != LoopAction::Save,
        loop_asks(loop_after(phase, reply)) == LoopAction::Finish,
{
}

/// Every command that ends the game makes it save first.
pub proof fn every_exit_saves_first(effect: SideEffect)
    requires
        effect is Exit,
    ensures
        loop_asks(phase_for(effect)) == LoopAction::Save,
{
}

/// A step of a running game: the reply to an action, or a turn of the top screen
/// with what it leaves to do.
pub ghost enum LoopStep {
    Reply(LoopReply),
    Turn(SideEffect),
}

/// Whether a phase follows another on a step.
pub open spec fn loop_steps(phase: LoopPhase, step: LoopStep, next: LoopPhase) -> bool {
    match step {
        LoopStep::Reply(reply) => loop_fits(loop_asks(phase), reply) && !(reply is Polled) && next
            == loop_after(phase, reply),
        LoopStep::Turn(effect) => phase is Polling && next == phase_for(effect),
    }
}

/// Whether phases and steps alternate as in a game from its start.
pub open spec fn is_game(phases: Seq<LoopPhase>, steps: Seq<LoopStep>) -> bool {
    &&& phases.len() == steps.len() + 1
    &&& phases[0] == LoopPhase::Rendering
    &&& forall|i: int|
        #![trigger steps[i]]
        0 <= i < steps.len() ==> loop_steps(phases[i], steps[i], phases[i + 1])
}

/// How often the save handler was called.
pub open spec fn save_calls(steps: Seq<LoopStep>) -> nat
    decreases steps.len(),
{
    if steps.len() == 0 {
        0
    } else {
        save_calls(steps.drop_last()) + match steps.last() {
            LoopStep::Reply(LoopReply::Saved) => 1nat,
            LoopStep::Reply(LoopReply::SaveFailed(_)) => 1nat,
            _ => 0nat,
        }
    }
}

/// How often a screen asked for a save.
pub open spec fn save_commands(steps: Seq<LoopStep>) -> nat
    decreases steps.len(),
{
    if steps.len() == 0 {
        0
    } else {
        save_commands(steps.drop_last()) + if steps.last() == LoopStep::Turn(SideEffect::Save) {
            1nat
        } else {
            0nat
        }
    }
}

/// How often a command ended the game.
pub open spec fn exits(steps: Seq<LoopStep>) -> nat
    decreases steps.len(),
{
    if steps.len() == 0 {
        0
    } else {
        exits(steps.drop_last()) + match steps.last() {
            LoopStep::Turn(SideEffect::Exit(_)) => 1nat,
            _ => 0nat,
        }
    }
}

/// Over a whole game the save handler is called once for each save that a screen
/// asks for and once for the command that ends the game, each time at once. A game
/// that ends well was ended by exactly one command, and its last step was a save
/// that worked.
pub proof fn saves_match_the_commands(phases: Seq<LoopPhase>, steps: Seq<LoopStep>)
    requires
        is_game(phases, steps),
    ensures
        save_calls(steps) + (if phases.last() is Saving {
            1nat
        } else {
            0nat
        }) == save_commands(steps) + exits(steps),
        phases.last() is Rendering || phases.last() is Polling ==> exits(steps) == 0,
        phases.last() matches LoopPhase::Saving { exit } ==> exits(steps) == if exit is Some {
            1nat
        } else {
            0nat
        },
        exits(steps) <= 1,
        (phases.last() matches LoopPhase::Finished { outcome: Ok(_) }) ==> exits(steps) == 1
            && save_calls(steps) == save_commands(steps) + 1 && steps.last() == LoopStep::Reply(
            LoopReply::Saved,
        ),
    decreases steps.len(),
{
    if steps.len() > 0 {
        let n = steps.len() - 1;
        let front = steps.drop_last();
        let before = phases.drop_last();
        assert forall|i: int|
            #![trigger front[i]]
            0 <= i < front.len() implies loop_steps(before[i], front[i], before[i + 1]) by {
            assert(front[i] == steps[i]);
        }
        saves_match_the_commands(before, front);
        assert(before.last() == phases[n]);
        assert(steps.last() == steps[n]);
        assert(loop_steps(phases[n], steps[n], phases[n + 1]));
        assert(phases.last() == phases[n + 1]);
    }
}

/// Nothing follows a save that failed: the game ends with what the handler said.
pub proof fn a_failed_save_is_the_end(
    phases: Seq<LoopPhase>,
    steps: Seq<LoopStep>,
    i: int,
    said: String,
)
    requires
        is_game(phases, steps),
        0 <= i < steps.len(),
        steps[i] == LoopStep::Reply(LoopReply::SaveFailed(said)),
    ensures
        i == steps.len() - 1,
        phases.last() == (LoopPhase::Finished { outcome: Err(GameError::Save(said)) }),
{
    assert(loop_steps(phases[i], steps[i], phases[i + 1]));
    if i + 1 < steps.len() {
        assert(loop_steps(phases[i + 1], steps[i + 1], phases[i + 2]));
    }
    assert(phases.last() == phases[i + 1]);
}

/// Where the start of a game stands.
#[derive(Debug, PartialEq, Eq)]
pub enum LaunchPhase {
    /// The world database has to be opened.
    Opening,
    /// The terminal has to be measured.
    Measuring,
    /// The terminal has to be taken over.
    Entering { size: (u16, u16) },
    /// The game has to be run.
    Running { size: (u16, u16) },
    /// The terminal has to be given back.
    Leaving { outcome: Result<ExitReason, GameError> },
    /// It is over.
    Finished { outcome: Result<ExitReason, GameError> },
}

/// What the start of a game needs next.
#[derive(Debug, Clone, Copy, PartialEq, Eq)]
pub enum LaunchAction {
    /// Open the world database, where the game has one.
    OpenWorld,
    /// Measure the terminal.
    MeasureTerminal,
    /// Take the terminal over.
    EnterTerminal,
    /// Run the game in a terminal of that size.
    RunLoop { size: (u16, u16) },
    /// Give the terminal back.
    LeaveTerminal,
    /// Nothing: it is over.
    Finish,
}

/// The reply to an action.
#[derive(Debug, PartialEq, Eq)]
pub enum LaunchReply {
    /// It was done.
    Done,
    /// It could not be done.
    Failed(GameError),
    /// The size of the terminal.
    Measured((u16, u16)),
    /// The game ended.
    Ended(Result<ExitReason, GameError>),
}

/// The action that a phase asks for.
pub open spec fn launch_asks(phase: LaunchPhase) -> LaunchAction {
    match phase {
        LaunchPhase::Opening => LaunchAction::OpenWorld,
        LaunchPhase::Measuring => LaunchAction::MeasureTerminal,
        LaunchPhase::Entering { .. } => LaunchAction::EnterTerminal,
        LaunchPhase::Running { size } => LaunchAction::RunLoop { size },
        LaunchPhase::Leaving { .. } => LaunchAction::LeaveTerminal,
        LaunchPhase::Finished { .. } => LaunchAction::Finish,
    }
}

/// Whether a reply can be the reply to an action.
pub open spec fn launch_fits(action: LaunchAction, reply: LaunchReply) -> bool {
    match action {
        LaunchAction::OpenWorld => reply is Done || reply is Failed,
        LaunchAction::MeasureTerminal => reply is Measured || reply is Failed,
        LaunchAction::EnterTerminal => reply is Done || reply is Failed,
        LaunchAction::RunLoop { .. } => reply is Ended,
        LaunchAction::LeaveTerminal => reply is Done || reply is Failed,
        LaunchAction::Finish => false,
    }
}

/// The first phase. The configuration is missed before the player.
pub open spec fn first_phase(has_config: bool, has_foglet: bool) -> LaunchPhase {
    if !has_config {
        LaunchPhase::Finished { outcome: Err(GameError::MissingConfig) }
    } else if !has_foglet {
        LaunchPhase::Finished { outcome: Err(GameError::MissingContext) }
    } else {
        LaunchPhase::Opening
    }
}

/// The phase after a reply. The terminal is taken over only once the world is
/// open and the terminal is large enough; it is given back however the game
/// ends, and a failure to do so does not change how it ended.
pub open spec fn launch_after(
    min_size: (u16, u16),
    phase: LaunchPhase,
    reply: LaunchReply,
) -> LaunchPhase {
    match (phase, reply) {
        (LaunchPhase::Leaving { outcome }, _) => LaunchPhase::Finished { outcome },
        (_, LaunchReply::Failed(error)) => LaunchPhase::Finished { outcome: Err(error) },
        (LaunchPhase::Opening, _) => LaunchPhase::Measuring,
        (LaunchPhase::Measuring, LaunchReply::Measured(size)) => if size.0 < min_size.0 || size.1
            < min_size.1 {
            LaunchPhase::Finished {
                outcome: Err(
                    GameError::TerminalTooSmall {
                        actual_width: size.0,
                        actual_height: size.1,
                        required_width: min_size.0,
                        required_height: min_size.1,
                    },
                ),
            }
        } else {
            LaunchPhase::Entering { size }
        },
        (LaunchPhase::Entering { size }, _) => LaunchPhase::Running { size },
        (LaunchPhase::Running { size }, LaunchReply::Ended(outcome)) => LaunchPhase::Leaving {
            outcome,
        },
        (other, _) => other,
    }
}

/// The start and the end of a game.
#[derive(Debug)]
pub struct Launch {
    min_size: (u16, u16),
    phase: LaunchPhase,
}

impl Launch {
    /// The smallest terminal that the game supports.
    pub closed spec fn needs(self) -> (u16, u16) {
        self.min_size
    }

    /// Where the start stands.
    pub closed spec fn now(self) -> LaunchPhase {
        self.phase
    }

    /// Start a game.
    pub fn new<S, H>(game: &BuiltGame<S, H>) -> (r: Launch)
        ensures
            r.needs() == game@.min_size,
            r.now() == first_phase(game@.config is Some, game@.foglet is Some),
    {
        let phase: LaunchPhase = if game.config.is_none() {
            LaunchPhase::Finished { outcome: Err(GameError::MissingConfig) }
        } else if game.foglet.is_none() {
            LaunchPhase::Finished { outcome: Err(GameError::MissingContext) }
        } else {
            LaunchPhase::Opening
        };
        Launch { min_size: game.min_size, phase }
    }

    /// What the start needs next.
    pub fn action(&self) -> (r: LaunchAction)
        ensures
            r == launch_asks(self.now()),
    {
        match &self.phase {
            LaunchPhase::Opening => LaunchAction::OpenWorld,
            LaunchPhase::Measuring => LaunchAction::MeasureTerminal,
            LaunchPhase::Entering { .. } => LaunchAction::EnterTerminal,
            LaunchPhase::Running { size } => LaunchAction::RunLoop { size: *size },
            LaunchPhase::Leaving { .. } => LaunchAction::LeaveTerminal,
            LaunchPhase::Finished { .. } => LaunchAction::Finish,
        }
    }

    /// Go on with the reply to the action asked for.
    pub fn step(self, reply: LaunchReply) -> (r: Launch)
        requires
            launch_fits(launch_asks(self.now()), reply),
        ensures
            r.needs() == self.needs(),
            r.now() == launch_after(self.needs(), self.now(), reply),
    {
        let phase: LaunchPhase = match (self.phase, reply) {
            (LaunchPhase::Leaving { outcome }, _) => LaunchPhase::Finished { outcome },
            (_, LaunchReply::Failed(error)) => LaunchPhase::Finished { outcome: Err(error) },
            (LaunchPhase::Opening, _) => LaunchPhase::Measuring,
            (LaunchPhase::Measuring, LaunchReply::Measured(size)) => {
                if size.0 < self.min_size.0 || size.1 < self.min_size.1 {
                    LaunchPhase::Finished {
                        outcome: Err(
                            GameError::TerminalTooSmall {
                                actual_width: size.0,
                                actual_height: size.1,
                                required_width: self.min_size.0,
                                required_height: self.min_size.1,
                            },
                        ),
                    }
                } else {
                    LaunchPhase::Entering { size }
                }
            },
            (LaunchPhase::Entering { size }, _) => LaunchPhase::Running { size },
            (LaunchPhase::Running { .. }, LaunchReply::Ended(outcome)) => LaunchPhase::Leaving {
                outcome,
            },
            (other, _) => other,
        };
        Launch { min_size: self.min_size, phase }
    }

    /// How the game ended, once it has.
    pub fn outcome(self) -> (r: Option<GameResult<()>>)
        ensures
            match self.now() {
                LaunchPhase::Finished { outcome: Ok(_) } => r matches Some(Ok(_)),
                LaunchPhase::Finished { outcome: Err(error) } => r matches Some(Err(e)) && e
                    == error,
                _ => r is None,
            },
    {
        match self.phase {
            LaunchPhase::Finished { outcome: Ok(_) } => Some(Ok(())),
            LaunchPhase::Finished { outcome: Err(error) } => Some(Err(error)),
            _ => None,
        }
    }
}

/// Whether phases and replies alternate as in a start from the opening of the
/// world on.
pub open spec fn is_launch(
    min_size: (u16, u16),
    phases: Seq<LaunchPhase>,
    replies: Seq<LaunchReply>,
) -> bool {
    &&& phases.len() == replies.len() + 1
    &&& phases[0] is Opening
    &&& forall|i: int|
        #![trigger replies[i]]
        0 <= i < replies.len() ==> launch_fits(launch_asks(phases[i]), replies[i]) && phases[i + 1]
            == launch_after(min_size, phases[i], replies[i])
}

/// A terminal that was taken over is given back before the end: the game is
/// over only after the terminal was left, or was never entered.
pub proof fn an_entered_terminal_is_left(
    min_size: (u16, u16),
    phases: Seq<LaunchPhase>,
    replies: Seq<LaunchReply>,
    i: int,
)
    requires
        is_launch(min_size, phases, replies),
        phases.last() is Finished,
        0 <= i < replies.len(),
        phases[i] is Entering,
        replies[i] is Done,
    ensures
        i + 2 == replies.len() - 1,
        phases[i + 1] is Running,
        phases[i + 2] is Leaving,
{
    assert(launch_fits(launch_asks(phases[i]), replies[i]));
    assert(phases[i + 1] is Running);
    assert(phases.last() == phases[replies.len() as int]);
    assert(i + 1 < replies.len());
    assert(launch_fits(launch_asks(phases[i + 1]), replies[i + 1]));
    assert(phases[i + 1 + 1] is Leaving);
    assert(i + 2 < replies.len());
    assert(launch_fits(launch_asks(phases[i + 2]), replies[i + 2]));
    assert(phases[i + 2 + 1] is Finished);
    if i + 3 < replies.len() {
        assert(launch_fits(launch_asks(phases[i + 3]), replies[i + 3]));
    }
}

/// Where the world cannot be opened, or the terminal is too small, the terminal
/// is never taken over.
pub proof fn no_terminal_without_a_world(
    min_size: (u16, u16),
    phases: Seq<LaunchPhase>,
    replies: Seq<LaunchReply>,
    i: int,
)
    requires
        is_launch(min_size, phases, replies),
        0 <= i < phases.len(),
        phases[i] is Entering,
    ensures
        i == 2,
        replies[0] is Done,
        replies[1] matches LaunchReply::Measured(size) && size.0 >= min_size.0 && size.1
            >= min_size.1,
{
    assert(i > 0);
    assert(launch_fits(launch_asks(phases[0]), replies[0]));
    assert(phases[0int + 1] == launch_after(min_size, phases[0], replies[0]));
    if i == 1 {
        assert(phases[1] is Measuring || phases[1] is Finished);
    } else {
        assert(launch_fits(launch_asks(phases[1]), replies[1]));
        assert(phases[1int + 1] == launch_after(min_size, phases[1], replies[1]));
        if i > 2 {
            lemma_entering_is_early(min_size, phases, replies, i);
        }
    }
}

/// How far a phase lies from the start.
spec fn launch_rank(phase: LaunchPhase) -> int {
    match phase {
        LaunchPhase::Opening => 0,
        LaunchPhase::Measuring => 1,
        LaunchPhase::Entering { .. } => 2,
        LaunchPhase::Running { .. } => 3,
        LaunchPhase::Leaving { .. } => 4,
        LaunchPhase::Finished { .. } => 5,
    }
}

proof fn lemma_entering_is_early(
    min_size: (u16, u16),
    phases: Seq<LaunchPhase>,
    replies: Seq<LaunchReply>,
    i: int,
)
    requires
        is_launch(min_size, phases, replies),
        0 <= i < phases.len(),
    ensures
        launch_rank(phases[i]) >= i,
    decreases i,
{
    if i > 0 {
        lemma_entering_is_early(min_size, phases, replies, i - 1);
        assert(launch_fits(launch_asks(phases[i - 1]), replies[i - 1]));
        assert(phases[i - 1 + 1] == launch_after(min_size, phases[i - 1], replies[i - 1]));
    }
}

/// A terminal is refused exactly if it is narrower or lower than the game needs,
/// and the error gives both sizes. Any other terminal is taken over, at the size
/// it was measured.
pub proof fn only_small_terminals_are_refused(min_size: (u16, u16), size: (u16, u16))
    ensures
        ({
            let next = launch_after(min_size, LaunchPhase::Measuring, LaunchReply::Measured(size));
            &&& size.0 >= min_size.0 && size.1 >= min_size.1 ==> next == (LaunchPhase::Entering {
                size,
            })
            &&& size.0 < min_size.0 || size.1 < min_size.1 ==> next == (LaunchPhase::Finished {
                outcome: Err(
                    GameError::TerminalTooSmall {
                        actual_width: size.0,
                        actual_height: size.1,
                        required_width: min_size.0,
                        required_height: min_size.1,
                    },
                ),
            })
        }),
{
}

/// A game starts only with a configuration and a player, and the one that is
/// missing is named.
pub proof fn a_start_needs_config_and_player(has_config: bool, has_foglet: bool)
    ensures
        first_phase(has_config, has_foglet) is Opening <==> has_config && has_foglet,
        !has_config ==> first_phase(has_config, has_foglet) == (LaunchPhase::Finished {
            outcome: Err(GameError::MissingConfig),
        }),
        has_config && !has_foglet ==> first_phase(has_config, has_foglet)
            == (LaunchPhase::Finished { outcome: Err(GameError::MissingContext) }),
{
}

/// Where nothing goes wrong and the terminal is large enough, the game is run at
/// the size measured, after the world was opened and the terminal entered, and
/// ends as its loop ended, even if the terminal could not be left.
pub proof fn a_good_start_runs_the_game(
    min_size: (u16, u16),
    phases: Seq<LaunchPhase>,
    replies: Seq<LaunchReply>,
    size: (u16, u16),
    ended: Result<ExitReason, GameError>,
)
    requires
        is_launch(min_size, phases, replies),
        replies.len() == 5,
        replies[0] is Done,
        replies[1] == LaunchReply::Measured(size),
        size.0 >= min_size.0,
        size.1 >= min_size.1,
        replies[2] is Done,
        replies[3] == LaunchReply::Ended(ended),
    ensures
        launch_asks(phases[0]) == LaunchAction::OpenWorld,
        launch_asks(phases[1]) == LaunchAction::MeasureTerminal,
        launch_asks(phases[2]) == LaunchAction::EnterTerminal,
        launch_asks(phases[3]) == (LaunchAction::RunLoop { size }),
        launch_asks(phases[4]) == LaunchAction::LeaveTerminal,
        phases[5] == (LaunchPhase::Finished { outcome: ended }),
{
    assert(phases[0int + 1] == launch_after(min_size, phases[0], replies[0]));
    assert(phases[1int + 1] == launch_after(min_size, phases[1], replies[1]));
    assert(phases[2int + 1] == launch_after(min_size, phases[2], replies[2]));
    assert(phases[3int + 1] == launch_after(min_size, phases[3], replies[3]));
    assert(phases[4int + 1] == launch_after(min_size, phases[4], replies[4]));
}

/// Before the game runs, whatever fails ends the start with its own error.
pub proof fn a_failed_start_says_why(min_size: (u16, u16), phase: LaunchPhase, error: GameError)
    requires
        phase is Opening || phase is Measuring || phase is Entering,
    ensures
        launch_after(min_size, phase, LaunchReply::Failed(error)) == (LaunchPhase::Finished {
            outcome: Err(error),
        }),
{
}

/// A game is complete exactly if its title has a character other than white
/// space, its smallest terminal is not empty, and it has a screen. What is wrong
/// with the title is said first, then what is wrong with the size.
pub proof fn complete_games_have_no_flaw<S, H>(parts: GameParts<S, H>)
    ensures
        flaw(parts) is None <==> (exists|i: int|
            0 <= i < parts.title.len() && !is_space(#[trigger] parts.title[i])) && parts.min_size.0
            > 0 && parts.min_size.1 > 0 && parts.screens.len() > 0,
        (forall|i: int| 0 <= i < parts.title.len() ==> is_space(#[trigger] parts.title[i]))
            ==> flaw(parts) == Some(GameError::EmptyTitle),
        flaw(parts) == Some(GameError::NoStartingScreen) ==> parts.screens.len() == 0,
        flaw(parts) matches Some(GameError::InvalidMinSize { width, height }) ==> (width, height)
            == parts.min_size && (width == 0 || height == 0),
{
    trimming_takes_only_the_ends(parts.title);
    let t = trim(parts.title);
    if t.len() > 0 {
        assert(!is_space(t[0]));
        assert(parts.title.contains(t[0]));
    }
}

/// Only a command that saves or ends the game calls the save handler; any other
/// command, also one that shows a message or an error, lets the game go on.
pub proof fn only_saves_and_exits_save(effect: SideEffect)
    ensures
        effect == SideEffect::Save ==> phase_for(effect) == (LoopPhase::Saving { exit: None }),
        effect matches SideEffect::Exit(reason) ==> phase_for(effect) == (LoopPhase::Saving {
            exit: Some(reason),
        }),
        !(effect == SideEffect::Save || effect is Exit) ==> phase_for(effect)
            == LoopPhase::Rendering,
{
}

/// A running game draws, then waits for an input; a save in between makes it draw
/// again. It ends as the command said that ended it, or with what the system or
/// the save handler said.
pub proof fn a_game_goes_round(phase: LoopPhase, reply: LoopReply)
    requires
        loop_fits(loop_asks(phase), reply),
        !(reply is Polled),
    ensures
        phase is Rendering && reply is Rendered ==> loop_after(phase, reply) is Polling,
        phase == (LoopPhase::Saving { exit: None }) && reply is Saved ==> loop_after(phase, reply)
            is Rendering,
        phase matches LoopPhase::Saving { exit: Some(reason) } ==> reply is Saved ==> loop_after(
            phase,
            reply,
        ) == (LoopPhase::Finished { outcome: Ok(reason) }),
        reply matches LoopReply::RenderFailed(said) ==> loop_after(phase, reply)
            == (LoopPhase::Finished { outcome: Err(GameError::Render(said)) }),
        reply matches LoopReply::PollFailed(said) ==> loop_after(phase, reply)
            == (LoopPhase::Finished { outcome: Err(GameError::EventIo(said)) }),
        reply matches LoopReply::SaveFailed(said) ==> loop_after(phase, reply)
            == (LoopPhase::Finished { outcome: Err(GameError::Save(said)) }),
        loop_asks(phase) == LoopAction::Render <==> phase is Rendering,
        loop_asks(phase) == LoopAction::Poll <==> phase is Polling,
        loop_asks(phase) == LoopAction::Save <==> phase is Saving,
{
}

/// Only a resize changes the size of the terminal, and to what it says.
pub proof fn only_a_resize_changes_the_size(size: (u16, u16), event: Option<Input>)
    ensures
        event matches Some(Input::Resize { width, height }) ==> size_after(size, event) == (
            width,
            height,
        ),
        !(event matches Some(Input::Resize { width, height })) ==> size_after(size, event) == size,
{
}

/// Time passes for the screens again fifty milliseconds later, unless the clock
/// ends before that.
pub proof fn ticks_are_an_interval_apart(now_ms: u64)
    ensures
        tick_after(now_ms) >= now_ms,
        tick_after(now_ms) < u64::MAX ==> tick_after(now_ms) - now_ms == 50,
        tick_after(now_ms) - now_ms <= 50,
        now_ms <= u64::MAX - 50 ==> tick_after(now_ms) - now_ms == 50,
{
}

/// A turn replaces the top screen by what became of it, carries out its command,
/// and leaves all other screens alone, unless the command takes them away.
pub proof fn a_turn_carries_out_the_command<S>(
    before: Seq<S>,
    top: S,
    command: ScreenCommand<S>,
    after: Seq<S>,
    phase: LoopPhase,
)
    requires
        before.len() > 0,
        turn_taken(before, top, command, after, phase),
    ensures
        command is Stay || command is Save || command is Message || command is Error ==> after
            == before.drop_last().push(top),
        command matches ScreenCommand::Push(screen) ==> after == before.drop_last().push(top).push(
            screen,
        ),
        command is Pop ==> after == before.drop_last(),
        command matches ScreenCommand::Replace(screen) ==> after == before.drop_last().push(screen),
        command is Quit ==> after.len() == 0,
        phase is Rendering <==> command is Stay || command is Push || command is Replace || command
            is Message || command is Error || (command is Pop && before.len() > 1),
        command is Save ==> phase == (LoopPhase::Saving { exit: None }),
        command is Quit ==> phase == (LoopPhase::Saving { exit: Some(ExitReason::Quit) }),
        command is Pop && before.len() == 1 ==> phase == (LoopPhase::Saving {
            exit: Some(ExitReason::EmptyStack),
        }),
{
    let changed = before.update(before.len() - 1, top);
    assert(changed =~= before.drop_last().push(top));
    assert(changed.drop_last() =~= before.drop_last());
}

/// A wait ends when the time has come, and not before; a time that has passed is not
/// waited for.
pub proof fn waits_end_on_time(tick_ms: u64, now_ms: u64)
    ensures
        now_ms + wait_until(tick_ms, now_ms) >= tick_ms,
        wait_until(tick_ms, now_ms) >= 0,
        now_ms <= tick_ms ==> now_ms + wait_until(tick_ms, now_ms) == tick_ms,
        now_ms >= tick_ms ==> wait_until(tick_ms, now_ms) == 0,
{
}

/// A save handler that fails never counts as a save, whatever its error is; what it
/// said is kept, without being quoted twice where it is a save error already.
pub proof fn failed_handlers_do_not_save(handled: GameResult<()>, reply: LoopReply)
    requires
        answers_save(handled, reply),
    ensures
        reply is Saved <==> handled is Ok,
        reply is SaveFailed <==> handled is Err,
        handled matches Err(GameError::Save(said)) ==> reply->SaveFailed_0@ == said@,
        handled matches Err(error) ==> !(error is Save) ==> reply->SaveFailed_0@ == game_error_text(
            error,
        ),
{
}

/// Every action has its own kind of reply, good or bad; the end has none.
pub proof fn every_loop_action_takes_its_reply(action: LoopAction, reply: LoopReply)
    ensures
        loop_fits(action, reply) <==> (action == LoopAction::Render && (reply is Rendered || reply
            is RenderFailed)) || (action == LoopAction::Poll && (reply is Polled || reply
            is PollFailed)) || (action == LoopAction::Save && (reply is Saved || reply
            is SaveFailed)),
{
}

/// Every action of a start has its own kind of reply; all but running the game can
/// fail.
pub proof fn every_launch_action_takes_its_reply(action: LaunchAction, reply: LaunchReply)
    ensures
        reply is Done ==> (launch_fits(action, reply) <==> action is OpenWorld || action
            is EnterTerminal || action is LeaveTerminal),
        reply is Failed ==> (launch_fits(action, reply) <==> action is OpenWorld || action
            is MeasureTerminal || action is EnterTerminal || action is LeaveTerminal),
        reply is Measured ==> (launch_fits(action, reply) <==> action is MeasureTerminal),
        reply is Ended ==> (launch_fits(action, reply) <==> action is RunLoop),
{
}

/// A message gives the sizes it is about, and quotes what the system said.
pub proof fn game_errors_give_sizes_and_quotes(
    width: u16,
    height: u16,
    needed_width: u16,
    needed_height: u16,
    said: String,
)
    ensures
        game_error_text(GameError::InvalidMinSize { width, height })
            == "min_size must be at least 1x1, got "@ + decimal(width as int) + "x"@ + decimal(
            height as int,
        ),
        game_error_text(
            GameError::TerminalTooSmall {
                actual_width: width,
                actual_height: height,
                required_width: needed_width,
                required_height: needed_height,
            },
        ) == "terminal too small: have "@ + (decimal(width as int) + "x"@ + decimal(height as int))
            + ", need at least "@ + (decimal(needed_width as int) + "x"@ + decimal(
            needed_height as int,
        )),
        game_error_text(GameError::EventIo(said)) == "event source I/O error: "@ + said@,
        game_error_text(GameError::Render(said)) == "render error: "@ + said@,
        game_error_text(GameError::Save(said)) == "save error: "@ + said@,
        game_error_text(GameError::WorldOpen(said)) == said@,
{
    assert("min_size must be at least 1x1, got "@ + size_text(width, height)
        =~= "min_size must be at least 1x1, got "@ + decimal(width as int) + "x"@ + decimal(
        height as int,
    ));
}

} // verus!
