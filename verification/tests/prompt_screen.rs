//! The screen that shows a prompt.

use foglet_game::canvas::Rect;
use foglet_game::config::{
    GameConfig, GameSection, ManifestSection, SaveSection, SaveStrategy, WorldSection,
};
use foglet_game::foglet::{ContextSource, FogletContext};
use foglet_game::input::Input;
use foglet_game::prompt::{ChoicePrompt, PromptAction};
use foglet_game::prompt_screen::{PromptLayout, PromptScreen};
use foglet_game::screen::{GameContext, ScreenCommand};
use ratatui::backend::TestBackend;
use ratatui::Terminal;
use std::cell::RefCell;
use std::collections::VecDeque;
use std::rc::Rc;

type Command = ScreenCommand<()>;

#[derive(Debug, Clone, Copy, PartialEq, Eq)]
enum DrawerChoice {
    TakeKey,
    Leave,
}

fn fixture_config() -> GameConfig {
    GameConfig {
        game: GameSection {
            title: "Test".into(),
            slug: "test".into(),
            description: "fixture".into(),
            min_width: 80,
            min_height: 24,
            start_map: "lobby".into(),
            start_x: 1,
            start_y: 1,
        },
        save: SaveSection {
            strategy: SaveStrategy::PerFogletUser,
        },
        manifest: ManifestSection {
            timeout_ms: 1_800_000,
            idle_timeout_ms: 300_000,
            visibility: "members".into(),
            auth_scope: "site".into(),
        },
        world: WorldSection {
            enabled: false,
            path: String::new(),
        },
        turns: None,
    }
}

fn fixture_context() -> FogletContext {
    FogletContext {
        door_id: "test-door".into(),
        user_id: Some("test-user".into()),
        username: Some("tester".into()),
        role: None,
        session_id: Some("sess-1".into()),
        terminal_width: 80,
        terminal_height: 24,
        source: ContextSource::LocalDev,
    }
}

fn drawer_prompt() -> ChoicePrompt<DrawerChoice> {
    ChoicePrompt::new()
        .title("Lost-and-Found Drawer")
        .body("A drawer of forgotten things.")
        .choice('k', DrawerChoice::TakeKey, "Take Room 7 key")
        .choice('l', DrawerChoice::Leave, "Leave it")
        .cancellable(true)
}

fn stay(_: PromptAction<DrawerChoice>) -> Command {
    ScreenCommand::Stay
}

fn rect_of(area: ratatui::layout::Rect) -> Rect {
    Rect::new(area.x, area.y, area.width, area.height)
}

#[test]
fn defaults_to_compact_layout() {
    let screen = PromptScreen::new(drawer_prompt(), stay);
    assert_eq!(screen.layout(), PromptLayout::Compact);
}

#[test]
fn modal_builder_switches_layout() {
    let screen = PromptScreen::new(drawer_prompt(), stay).modal();
    assert_eq!(screen.layout(), PromptLayout::Modal);
    assert_eq!(screen.compact().layout(), PromptLayout::Compact);
}

#[test]
fn handle_input_routes_selected_through_callback() {
    let last: Rc<RefCell<Option<PromptAction<DrawerChoice>>>> = Rc::new(RefCell::new(None));
    let last_writer = last.clone();
    let mut screen = PromptScreen::new(drawer_prompt(), move |action: PromptAction<DrawerChoice>| -> Command {
        *last_writer.borrow_mut() = Some(action.clone());
        match action {
            PromptAction::Selected(DrawerChoice::Leave) => ScreenCommand::Pop,
            PromptAction::Selected(_) => ScreenCommand::Stay,
            _ => ScreenCommand::Stay,
        }
    });

    let cfg = fixture_config();
    let fc = fixture_context();
    let mut ctx = GameContext::<()>::new(&cfg, &fc, (80, 24));
    let cmd = screen.handle_input(&mut ctx, Input::Char('l'));

    assert!(matches!(cmd, ScreenCommand::Pop));
    assert_eq!(
        last.borrow().clone(),
        Some(PromptAction::Selected(DrawerChoice::Leave))
    );
}

#[test]
fn handle_input_routes_cancelled_when_cancellable() {
    let mut screen = PromptScreen::new(drawer_prompt(), |action| -> Command {
        match action {
            PromptAction::Cancelled => ScreenCommand::Pop,
            _ => ScreenCommand::Stay,
        }
    });
    let cfg = fixture_config();
    let fc = fixture_context();
    let mut ctx = GameContext::<()>::new(&cfg, &fc, (80, 24));
    let cmd = screen.handle_input(&mut ctx, Input::Esc);
    assert!(matches!(cmd, ScreenCommand::Pop));
}

#[test]
fn handle_input_uppercase_hotkey_matches_lowercase_choice() {
    let seen: Rc<RefCell<Vec<DrawerChoice>>> = Rc::new(RefCell::new(Vec::new()));
    let seen_writer = seen.clone();
    let mut screen = PromptScreen::new(drawer_prompt(), move |action| -> Command {
        if let PromptAction::Selected(c) = action {
            seen_writer.borrow_mut().push(c);
        }
        ScreenCommand::Stay
    });
    let cfg = fixture_config();
    let fc = fixture_context();
    let mut ctx = GameContext::<()>::new(&cfg, &fc, (80, 24));
    let _ = screen.handle_input(&mut ctx, Input::Char('K'));
    assert_eq!(seen.borrow().clone(), vec![DrawerChoice::TakeKey]);
}

#[test]
fn navigation_input_does_not_invoke_callback() {
    let invoked = Rc::new(RefCell::new(0u32));
    let invoked_writer = invoked.clone();
    let prompt = drawer_prompt().navigable(true);
    let mut screen = PromptScreen::new(prompt, move |_| -> Command {
        *invoked_writer.borrow_mut() += 1;
        ScreenCommand::Stay
    });
    let cfg = fixture_config();
    let fc = fixture_context();
    let mut ctx = GameContext::<()>::new(&cfg, &fc, (80, 24));
    let cmd = screen.handle_input(&mut ctx, Input::Down);
    assert!(matches!(cmd, ScreenCommand::Stay));
    assert_eq!(*invoked.borrow(), 0);
    assert_eq!(screen.prompt().selected, Some(1));
}

#[test]
fn prompt_mut_changes_the_prompt_that_is_shown() {
    let mut screen = PromptScreen::new(drawer_prompt(), stay);
    screen.prompt_mut().cancellable = false;
    assert!(!screen.prompt().cancellable);
}

#[test]
fn render_writes_choice_label_in_compact_layout() {
    let screen = PromptScreen::new(drawer_prompt(), stay);
    let backend = TestBackend::new(80, 24);
    let mut terminal = Terminal::new(backend).expect("test backend");
    terminal
        .draw(|frame| {
            let area = rect_of(frame.area());
            screen.render(area, frame.buffer_mut());
        })
        .expect("draw");
    let buf = terminal.backend().buffer().clone();
    let mut found = false;
    for y in 0..buf.area.height {
        let mut row = String::new();
        for x in 0..buf.area.width {
            row.push_str(buf[(x, y)].symbol());
        }
        if row.contains("(K) Take Room 7 key") {
            found = true;
            break;
        }
    }
    assert!(found, "compact render should include the choice row");
}

#[test]
fn render_draws_border_in_modal_layout() {
    let screen = PromptScreen::new(drawer_prompt(), stay).modal();
    let backend = TestBackend::new(40, 12);
    let mut terminal = Terminal::new(backend).expect("test backend");
    terminal
        .draw(|frame| {
            let area = rect_of(frame.area());
            screen.render(area, frame.buffer_mut());
        })
        .expect("draw");
    let buf = terminal.backend().buffer().clone();
    assert_eq!(buf[(0, 0)].symbol(), "┌");
    assert_eq!(buf[(39, 0)].symbol(), "┐");
    assert_eq!(buf[(0, 11)].symbol(), "└");
}

#[test]
fn fake_event_source_drives_screen_to_selection() {
    let captured: Rc<RefCell<Vec<PromptAction<DrawerChoice>>>> = Rc::new(RefCell::new(Vec::new()));
    let captured_writer = captured.clone();
    let prompt = drawer_prompt().navigable(true);
    let mut screen = PromptScreen::new(prompt, move |action: PromptAction<DrawerChoice>| -> Command {
        captured_writer.borrow_mut().push(action.clone());
        match action {
            PromptAction::Selected(DrawerChoice::TakeKey) => ScreenCommand::Pop,
            PromptAction::Selected(DrawerChoice::Leave) => ScreenCommand::Stay,
            PromptAction::Cancelled => ScreenCommand::Pop,
            _ => ScreenCommand::Stay,
        }
    });

    let cfg = fixture_config();
    let fc = fixture_context();
    let mut ctx = GameContext::<()>::new(&cfg, &fc, (80, 24));
    let mut events = VecDeque::from(vec![
        Input::Resize {
            width: 80,
            height: 24,
        },
        Input::Down,
        Input::Char('k'),
    ]);
    let mut commands = Vec::new();
    while let Some(ev) = events.pop_front() {
        commands.push(screen.handle_input(&mut ctx, ev));
    }

    assert_eq!(commands.len(), 3);
    assert!(matches!(commands[0], ScreenCommand::Stay));
    assert!(matches!(commands[1], ScreenCommand::Stay));
    assert!(matches!(commands[2], ScreenCommand::Pop));

    let actions = captured.borrow().clone();
    assert_eq!(actions.len(), 2);
    assert_eq!(actions[0], PromptAction::Ignored);
    assert_eq!(actions[1], PromptAction::Selected(DrawerChoice::TakeKey));
}

#[test]
fn fake_event_source_routes_cancellation_through_screen_command() {
    let mut screen = PromptScreen::new(drawer_prompt(), |action| -> Command {
        match action {
            PromptAction::Cancelled => ScreenCommand::Pop,
            _ => ScreenCommand::Stay,
        }
    });
    let cfg = fixture_config();
    let fc = fixture_context();
    let mut ctx = GameContext::<()>::new(&cfg, &fc, (80, 24));
    let mut events = VecDeque::from(vec![Input::Esc]);
    let cmd = screen.handle_input(&mut ctx, events.pop_front().expect("scripted event"));
    assert!(matches!(cmd, ScreenCommand::Pop));
    assert!(events.pop_front().is_none());
}
