//! Screens and their stack.

use foglet_game::config::{
    GameConfig, GameSection, ManifestSection, SaveSection, SaveStrategy, WorldSection,
};
use foglet_game::foglet::{ContextSource, FogletContext};
use foglet_game::input::Input;
use foglet_game::screen::{
    apply_command, ExitReason, GameContext, Screen, ScreenCommand, ScreenStack, SideEffect,
};
use std::cell::RefCell;
use std::collections::VecDeque;
use std::rc::Rc;

struct AnyScreen(Box<dyn Screen<AnyScreen, ()>>);

impl std::fmt::Debug for AnyScreen {
    fn fmt(&self, f: &mut std::fmt::Formatter<'_>) -> std::fmt::Result {
        f.write_str("<dyn Screen>")
    }
}

type Command = ScreenCommand<AnyScreen>;
type Stack = ScreenStack<AnyScreen>;

fn fixture_config() -> GameConfig {
    GameConfig {
        game: GameSection {
            title: "Test".into(),
            slug: "test".into(),
            description: "fixture".into(),
            min_width: 80,
            min_height: 24,
            start_map: "lobby".into(),
            start_x: 1,
            start_y: 1,
        },
        save: SaveSection {
            strategy: SaveStrategy::PerFogletUser,
        },
        manifest: ManifestSection {
            timeout_ms: 1_800_000,
            idle_timeout_ms: 300_000,
            visibility: "members".into(),
            auth_scope: "site".into(),
        },
        world: WorldSection {
            enabled: false,
            path: String::new(),
        },
        turns: None,
    }
}

fn fixture_context() -> FogletContext {
    FogletContext {
        door_id: "test-door".into(),
        user_id: Some("test-user".into()),
        username: Some("tester".into()),
        role: None,
        session_id: Some("sess-1".into()),
        terminal_width: 80,
        terminal_height: 24,
        source: ContextSource::LocalDev,
    }
}

struct NoopScreen;

impl Screen<AnyScreen, ()> for NoopScreen {}

fn noop() -> AnyScreen {
    AnyScreen(Box::new(NoopScreen))
}

#[test]
fn game_context_borrows_runtime_data() {
    let cfg = fixture_config();
    let fc = fixture_context();
    let ctx = GameContext::<()>::new(&cfg, &fc, (100, 30));
    assert_eq!(ctx.config.game.slug, "test");
    assert_eq!(ctx.foglet.user_id.as_deref(), Some("test-user"));
    assert_eq!(ctx.terminal_size, (100, 30));
    assert_eq!(ctx.world_db, None);
    assert_eq!(ctx.with_world_db(&()).world_db, Some(&()));
}

#[test]
fn default_handle_input_is_none() {
    let cfg = fixture_config();
    let fc = fixture_context();
    let mut ctx = GameContext::<()>::new(&cfg, &fc, (80, 24));
    let mut screen = NoopScreen;
    assert!(matches!(
        screen.handle_input(&mut ctx, Input::Enter),
        ScreenCommand::Stay
    ));
}

#[test]
fn default_tick_is_none() {
    let cfg = fixture_config();
    let fc = fixture_context();
    let mut ctx = GameContext::<()>::new(&cfg, &fc, (80, 24));
    let mut screen = NoopScreen;
    assert!(matches!(screen.tick(&mut ctx), ScreenCommand::Stay));
}

#[test]
fn default_on_resize_is_none() {
    let cfg = fixture_config();
    let fc = fixture_context();
    let mut ctx = GameContext::<()>::new(&cfg, &fc, (80, 24));
    let mut screen = NoopScreen;
    assert!(matches!(
        screen.on_resize(&mut ctx, 100, 40),
        ScreenCommand::Stay
    ));
}

#[test]
fn screen_is_object_safe() {
    let _boxed: Box<dyn Screen<AnyScreen, ()>> = Box::new(NoopScreen);
}

#[test]
fn screen_command_push_carries_screen() {
    let cmd = ScreenCommand::Push(noop());
    match cmd {
        ScreenCommand::Push(_) => {}
        other => panic!("expected Push, got {other:?}"),
    }
}

#[test]
fn screen_command_replace_carries_screen() {
    let cmd = ScreenCommand::Replace(noop());
    assert!(matches!(cmd, ScreenCommand::Replace(_)));
}

#[test]
fn screen_command_message_round_trips_payload() {
    let cmd: Command = ScreenCommand::Message("hello".into());
    match cmd {
        ScreenCommand::Message(s) => assert_eq!(s, "hello"),
        other => panic!("expected Message, got {other:?}"),
    }
}

#[test]
fn screen_command_error_round_trips_payload() {
    let cmd: Command = ScreenCommand::Error("boom".into());
    match cmd {
        ScreenCommand::Error(s) => assert_eq!(s, "boom"),
        other => panic!("expected Error, got {other:?}"),
    }
}

struct ScriptedScreen {
    tag: &'static str,
    log: Rc<RefCell<Vec<&'static str>>>,
    script: VecDeque<Command>,
}

impl ScriptedScreen {
    fn new(
        tag: &'static str,
        log: Rc<RefCell<Vec<&'static str>>>,
        script: Vec<Command>,
    ) -> AnyScreen {
        AnyScreen(Box::new(Self {
            tag,
            log,
            script: script.into(),
        }))
    }
}

impl Screen<AnyScreen, ()> for ScriptedScreen {
    fn handle_input(&mut self, _ctx: &mut GameContext<'_, ()>, _input: Input) -> Command {
        self.log.borrow_mut().push(self.tag);
        self.script.pop_front().unwrap_or(ScreenCommand::Stay)
    }
}

fn scripted_run(
    stack: &mut Stack,
    ctx: &mut GameContext<'_, ()>,
    inputs: &[Input],
) -> Vec<SideEffect> {
    let mut effects = Vec::new();
    for input in inputs {
        let cmd = match stack.last_mut() {
            Some(top) => top.0.handle_input(ctx, *input),
            None => break,
        };
        let effect = apply_command(stack, cmd);
        let exited = matches!(effect, SideEffect::Exit(_));
        effects.push(effect);
        if exited {
            break;
        }
    }
    effects
}

#[test]
fn apply_none_is_noop() {
    let mut stack: Stack = vec![noop()];
    let effect = apply_command(&mut stack, ScreenCommand::Stay);
    assert_eq!(effect, SideEffect::Nothing);
    assert_eq!(stack.len(), 1);
}

#[test]
fn apply_push_grows_stack() {
    let mut stack: Stack = vec![noop()];
    let effect = apply_command(&mut stack, ScreenCommand::Push(noop()));
    assert_eq!(effect, SideEffect::Nothing);
    assert_eq!(stack.len(), 2);
}

#[test]
fn apply_pop_shrinks_stack() {
    let mut stack: Stack = vec![noop(), noop()];
    let effect = apply_command(&mut stack, ScreenCommand::Pop);
    assert_eq!(effect, SideEffect::Nothing);
    assert_eq!(stack.len(), 1);
}

#[test]
fn apply_pop_last_screen_signals_empty_stack_exit() {
    let mut stack: Stack = vec![noop()];
    let effect = apply_command(&mut stack, ScreenCommand::Pop);
    assert_eq!(effect, SideEffect::Exit(ExitReason::EmptyStack));
    assert!(stack.is_empty());
}

#[test]
fn apply_pop_on_empty_stack_signals_empty_stack_exit() {
    let mut stack: Stack = Vec::new();
    let effect = apply_command(&mut stack, ScreenCommand::Pop);
    assert_eq!(effect, SideEffect::Exit(ExitReason::EmptyStack));
    assert!(stack.is_empty());
}

#[test]
fn apply_replace_swaps_top() {
    let mut stack: Stack = vec![noop(), noop()];
    let effect = apply_command(&mut stack, ScreenCommand::Replace(noop()));
    assert_eq!(effect, SideEffect::Nothing);
    assert_eq!(stack.len(), 2);
}

#[test]
fn apply_replace_on_empty_just_pushes() {
    let mut stack: Stack = Vec::new();
    let effect = apply_command(&mut stack, ScreenCommand::Replace(noop()));
    assert_eq!(effect, SideEffect::Nothing);
    assert_eq!(stack.len(), 1);
}

#[test]
fn apply_quit_clears_stack_and_exits() {
    let mut stack: Stack = vec![noop(), noop(), noop()];
    let effect = apply_command(&mut stack, ScreenCommand::Quit);
    assert_eq!(effect, SideEffect::Exit(ExitReason::Quit));
    assert!(stack.is_empty());
}

#[test]
fn apply_save_leaves_stack_alone() {
    let mut stack: Stack = vec![noop()];
    let effect = apply_command(&mut stack, ScreenCommand::Save);
    assert_eq!(effect, SideEffect::Save);
    assert_eq!(stack.len(), 1);
}

#[test]
fn apply_message_passes_through() {
    let mut stack: Stack = vec![noop()];
    let effect = apply_command(&mut stack, ScreenCommand::Message("hi".into()));
    assert_eq!(effect, SideEffect::Message("hi".into()));
    assert_eq!(stack.len(), 1);
}

#[test]
fn apply_error_passes_through() {
    let mut stack: Stack = vec![noop()];
    let effect = apply_command(&mut stack, ScreenCommand::Error("boom".into()));
    assert_eq!(effect, SideEffect::Error("boom".into()));
    assert_eq!(stack.len(), 1);
}

#[test]
fn scripted_input_drives_push_then_pop_then_quit() {
    let cfg = fixture_config();
    let fc = fixture_context();
    let mut ctx = GameContext::<()>::new(&cfg, &fc, (80, 24));

    let log = Rc::new(RefCell::new(Vec::<&'static str>::new()));
    let menu = ScriptedScreen::new("menu", log.clone(), vec![ScreenCommand::Pop]);
    let title = ScriptedScreen::new(
        "title",
        log.clone(),
        vec![ScreenCommand::Push(menu), ScreenCommand::Quit],
    );
    let mut stack: Stack = vec![title];

    let inputs = [Input::Enter, Input::Esc, Input::Char('q')];
    let effects = scripted_run(&mut stack, &mut ctx, &inputs);

    assert_eq!(log.borrow().clone(), vec!["title", "menu", "title"]);
    assert_eq!(
        effects,
        vec![
            SideEffect::Nothing,
            SideEffect::Nothing,
            SideEffect::Exit(ExitReason::Quit),
        ]
    );
    assert!(stack.is_empty(), "Quit clears the stack");
}

#[test]
fn scripted_save_does_not_disturb_stack_or_top() {
    let cfg = fixture_config();
    let fc = fixture_context();
    let mut ctx = GameContext::<()>::new(&cfg, &fc, (80, 24));

    let log = Rc::new(RefCell::new(Vec::<&'static str>::new()));
    let s = ScriptedScreen::new(
        "only",
        log.clone(),
        vec![ScreenCommand::Save, ScreenCommand::Message("ok".into())],
    );
    let mut stack: Stack = vec![s];
    let effects = scripted_run(&mut stack, &mut ctx, &[Input::Enter, Input::Enter]);

    assert_eq!(log.borrow().clone(), vec!["only", "only"]);
    assert_eq!(
        effects,
        vec![SideEffect::Save, SideEffect::Message("ok".into())]
    );
    assert_eq!(stack.len(), 1);
}

#[test]
fn replace_puts_the_new_screen_on_top() {
    let mut stack = vec![1, 2];
    assert_eq!(apply_command(&mut stack, ScreenCommand::Replace(9)), SideEffect::Nothing);
    assert_eq!(stack, vec![1, 9]);
}

#[test]
fn pop_undoes_a_push() {
    let mut stack = vec![1, 2];
    apply_command(&mut stack, ScreenCommand::Push(3));
    assert_eq!(stack, vec![1, 2, 3]);
    apply_command(&mut stack, ScreenCommand::Pop);
    assert_eq!(stack, vec![1, 2]);
}
