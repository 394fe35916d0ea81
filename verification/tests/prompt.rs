//! Prompts: keys, choices, confirmations, pauses, feedback and their drawing.

use foglet_game::canvas::{Modifier, Rect, Style, TermColor};
use foglet_game::input::Input;
use foglet_game::prompt::{
    validate_choices, AnyKeyOutcome, AnyKeyPrompt, ChoicePrompt, ConfirmOutcome, ConfirmPrompt,
    FeedbackKind, FeedbackLine, PromptAction, PromptChoice, PromptError, PromptKey, StyleRole,
    TextBlock, Theme, DEFAULT_ANY_KEY_FOOTER,
};
use ratatui::backend::TestBackend;
use ratatui::buffer::Buffer;
use ratatui::Terminal;

fn rect_of(area: ratatui::layout::Rect) -> Rect {
    Rect::new(area.x, area.y, area.width, area.height)
}

fn empty_buffer(area: Rect) -> Buffer {
    Buffer::empty(ratatui::layout::Rect::new(area.x, area.y, area.width, area.height))
}

#[derive(Debug, Clone, Copy, PartialEq, Eq)]
enum Drawer {
    Key,
    Match,
    Receipt,
    Leave,
}

#[derive(Debug, Clone, Copy, PartialEq, Eq)]
enum ShopAction {
    BuyMana,
    NoThanks,
}
#[test]
fn char_lowercases_ascii_letters() {
    assert_eq!(PromptKey::char('e'), PromptKey::Char('e'));
    assert_eq!(PromptKey::char('E'), PromptKey::Char('e'));
    assert_eq!(PromptKey::char('e'), PromptKey::char('E'));
}

#[test]
fn char_preserves_non_letter_ascii_and_digits() {
    assert_eq!(PromptKey::char('1'), PromptKey::Char('1'));
    assert_eq!(PromptKey::char('?'), PromptKey::Char('?'));
}

#[test]
fn from_input_maps_chars_lowercased() {
    assert_eq!(
        PromptKey::from_input(Input::Char('e')),
        Some(PromptKey::Char('e'))
    );
    assert_eq!(
        PromptKey::from_input(Input::Char('E')),
        Some(PromptKey::Char('e'))
    );
    assert_eq!(
        PromptKey::from_input(Input::Char('e')),
        PromptKey::from_input(Input::Char('E'))
    );
}

#[test]
fn from_input_maps_enter_and_esc() {
    assert_eq!(PromptKey::from_input(Input::Enter), Some(PromptKey::Enter));
    assert_eq!(PromptKey::from_input(Input::Esc), Some(PromptKey::Esc));
}

#[test]
fn resize_is_not_a_prompt_key() {
    assert_eq!(
        PromptKey::from_input(Input::Resize {
            width: 120,
            height: 40
        }),
        None
    );
}

#[test]
fn arrows_backspace_ctrl_unknown_are_not_prompt_keys() {
    for input in [
        Input::Up,
        Input::Down,
        Input::Left,
        Input::Right,
        Input::Backspace,
        Input::Ctrl('c'),
        Input::Unknown,
    ] {
        assert_eq!(PromptKey::from_input(input), None, "{input:?}");
    }
}

#[derive(Debug, Clone, Copy, PartialEq, Eq)]
enum LootAction {
    Equip,
    Take,
    Pass,
}

#[test]
fn choice_new_defaults_enabled_true_with_no_metadata() {
    let choice = PromptChoice::new('e', "Equip immediately", LootAction::Equip);

    assert_eq!(choice.key, PromptKey::Char('e'));
    assert_eq!(choice.label, "Equip immediately");
    assert_eq!(choice.value, LootAction::Equip);
    assert!(choice.enabled);
    assert_eq!(choice.disabled_reason, None);
    assert_eq!(choice.hint, None);
    assert_eq!(choice.style, None);
}

#[test]
fn choice_new_lowercases_ascii_hotkey_via_from_char() {
    let upper = PromptChoice::new('E', "Equip", LootAction::Equip);
    let lower = PromptChoice::new('e', "Equip", LootAction::Equip);
    assert_eq!(upper.key, lower.key);
}

#[test]
fn with_disabled_reason_preserves_reason_and_flips_enabled() {
    let choice =
        PromptChoice::new('m', "Mana potions", LootAction::Take).with_disabled_reason("full");

    assert!(!choice.enabled);
    assert_eq!(choice.disabled_reason.as_deref(), Some("full"));
}

#[test]
fn with_hint_does_not_disable_choice() {
    let choice = PromptChoice::new('b', "Black coffee", LootAction::Take).with_hint("25g");

    assert!(choice.enabled);
    assert_eq!(choice.hint.as_deref(), Some("25g"));
    assert_eq!(choice.disabled_reason, None);
}

#[test]
fn with_style_overrides_role() {
    let choice = PromptChoice::new('p', "Pass", LootAction::Pass).with_style(StyleRole::Muted);
    assert_eq!(choice.style, Some(StyleRole::Muted));
}

#[test]
fn validate_choices_accepts_unique_keys() {
    let choices = [
        PromptChoice::new('e', "Equip", LootAction::Equip),
        PromptChoice::new('t', "Take", LootAction::Take),
        PromptChoice::new('p', "Pass", LootAction::Pass),
    ];
    assert_eq!(validate_choices(&choices), Ok(()));

    let empty: [PromptChoice<LootAction>; 0] = [];
    assert_eq!(validate_choices(&empty), Ok(()));
}

#[test]
fn validate_choices_rejects_duplicate_active_keys() {
    let choices = [
        PromptChoice::new('e', "Equip", LootAction::Equip),
        PromptChoice::new('t', "Take", LootAction::Take),
        PromptChoice::new('e', "Eat", LootAction::Pass),
    ];
    assert_eq!(
        validate_choices(&choices),
        Err(PromptError::DuplicateHotkey {
            key: PromptKey::Char('e'),
            first_label: "Equip".to_string(),
            second_label: "Eat".to_string(),
        }),
    );
}

#[test]
fn validate_choices_normalises_case_before_comparing() {
    let choices = [
        PromptChoice::new('E', "Equip", LootAction::Equip),
        PromptChoice::new('e', "Eat", LootAction::Pass),
    ];
    assert!(matches!(
        validate_choices(&choices),
        Err(PromptError::DuplicateHotkey {
            key: PromptKey::Char('e'),
            ..
        })
    ));
}

#[test]
fn validate_choices_rejects_active_disabled_collision() {
    let choices = [
        PromptChoice::new('m', "Mana potions", LootAction::Take).with_disabled_reason("full"),
        PromptChoice::new('m', "Mead", LootAction::Equip),
    ];
    assert!(matches!(
        validate_choices(&choices),
        Err(PromptError::DuplicateHotkey {
            key: PromptKey::Char('m'),
            ..
        })
    ));
}

#[test]
fn validate_choices_rejects_two_disabled_with_same_key() {
    let choices = [
        PromptChoice::new('m', "Mana potions", LootAction::Take).with_disabled_reason("full"),
        PromptChoice::new('M', "Mead", LootAction::Equip).with_disabled_reason("none left"),
    ];
    assert!(matches!(
        validate_choices(&choices),
        Err(PromptError::DuplicateHotkey { .. })
    ));
}

#[test]
fn validate_choices_reports_first_duplicate_in_declaration_order() {
    let choices = [
        PromptChoice::new('a', "Alpha", LootAction::Equip),
        PromptChoice::new('b', "Bravo", LootAction::Take),
        PromptChoice::new('a', "Apple", LootAction::Pass),
        PromptChoice::new('b', "Banana", LootAction::Pass),
    ];
    assert_eq!(
        validate_choices(&choices),
        Err(PromptError::DuplicateHotkey {
            key: PromptKey::Char('a'),
            first_label: "Alpha".to_string(),
            second_label: "Apple".to_string(),
        }),
    );
}

#[test]
fn validate_choices_treats_enter_and_esc_as_keys_too() {
    let choices = [
        PromptChoice::new(PromptKey::Enter, "Confirm", LootAction::Equip),
        PromptChoice::new(PromptKey::Enter, "Also confirm", LootAction::Take),
    ];
    assert_eq!(
        validate_choices(&choices),
        Err(PromptError::DuplicateHotkey {
            key: PromptKey::Enter,
            first_label: "Confirm".to_string(),
            second_label: "Also confirm".to_string(),
        }),
    );
}

#[test]
fn prompt_builder_collects_body_choices_and_footer() {
    let prompt = ChoicePrompt::new()
        .body("You found this on the Giant Spider's corpse.")
        .choice('e', LootAction::Equip, "Equip immediately")
        .choice('t', LootAction::Take, "Take to inventory")
        .choice('p', LootAction::Pass, "Pass")
        .footer("Press a key to choose.");

    assert_eq!(
        prompt.body,
        vec!["You found this on the Giant Spider's corpse."]
    );
    assert_eq!(prompt.footer.as_deref(), Some("Press a key to choose."));

    let labels: Vec<&str> = prompt.choices.iter().map(|c| c.label.as_str()).collect();
    assert_eq!(
        labels,
        vec!["Equip immediately", "Take to inventory", "Pass"],
    );

    let keys: Vec<PromptKey> = prompt.choices.iter().map(|c| c.key).collect();
    assert_eq!(
        keys,
        vec![
            PromptKey::Char('e'),
            PromptKey::Char('t'),
            PromptKey::Char('p'),
        ],
    );

    for choice in &prompt.choices {
        assert!(choice.enabled, "{:?} should default enabled", choice.label);
        assert_eq!(choice.disabled_reason, None);
        assert_eq!(choice.hint, None);
    }
}

#[test]
fn prompt_builder_body_calls_accumulate_in_order() {
    let prompt: ChoicePrompt<LootAction> = ChoicePrompt::new()
        .body("A wandering monk approaches after the battle...")
        .body("\"I carry mana potions for those who wield magic.\"");
    assert_eq!(prompt.body.len(), 2);
    assert_eq!(
        prompt.body[0],
        "A wandering monk approaches after the battle..."
    );
    assert!(prompt.body[1].starts_with("\"I carry mana potions"));
}

#[test]
fn disabled_if_true_marks_last_choice_with_reason() {
    let prompt = ChoicePrompt::new()
        .choice('m', LootAction::Take, "Mana potions")
        .disabled_if(true, "not enough gold or potion bag is full")
        .choice('n', LootAction::Pass, "No thanks");

    assert!(!prompt.choices[0].enabled);
    assert_eq!(
        prompt.choices[0].disabled_reason.as_deref(),
        Some("not enough gold or potion bag is full"),
    );
    assert!(prompt.choices[1].enabled);
}

#[test]
fn disabled_if_false_leaves_last_choice_enabled() {
    let prompt: ChoicePrompt<LootAction> = ChoicePrompt::new()
        .choice('m', LootAction::Take, "Mana potions")
        .disabled_if(false, "would-be reason")
        .choice('n', LootAction::Pass, "No thanks");

    assert!(prompt.choices[0].enabled);
    assert_eq!(prompt.choices[0].disabled_reason, None);
}

#[test]
fn disabled_if_with_no_prior_choice_is_a_no_op() {
    let prompt: ChoicePrompt<LootAction> = ChoicePrompt::new()
        .disabled_if(true, "nothing to disable")
        .choice('e', LootAction::Equip, "Equip");
    assert!(prompt.choices[0].enabled);
    assert_eq!(prompt.choices[0].disabled_reason, None);
}

#[test]
fn disabled_if_replaces_prior_disabled_reason() {
    let prompt = ChoicePrompt::new()
        .choice('t', LootAction::Take, "Tip for rumor")
        .disabled_if(true, "stale reason")
        .disabled_if(true, "need 50g");
    assert!(!prompt.choices[0].enabled);
    assert_eq!(
        prompt.choices[0].disabled_reason.as_deref(),
        Some("need 50g"),
    );
}

#[test]
fn footer_replaces_previous_footer() {
    let prompt: ChoicePrompt<LootAction> = ChoicePrompt::new()
        .footer("Your gold: 100g")
        .footer("Your gold: 173g");
    assert_eq!(prompt.footer.as_deref(), Some("Your gold: 173g"));
}

#[test]
fn builder_validate_passes_for_unique_keys_and_rejects_duplicates() {
    let good: ChoicePrompt<LootAction> = ChoicePrompt::new()
        .choice('e', LootAction::Equip, "Equip")
        .choice('t', LootAction::Take, "Take");
    assert_eq!(good.validate(), Ok(()));

    let bad: ChoicePrompt<LootAction> = ChoicePrompt::new()
        .choice('e', LootAction::Equip, "Equip")
        .choice('E', LootAction::Take, "Eat");
    assert!(matches!(
        bad.validate(),
        Err(PromptError::DuplicateHotkey {
            key: PromptKey::Char('e'),
            ..
        }),
    ));
}

#[test]
fn default_matches_new() {
    let a: ChoicePrompt<LootAction> = ChoicePrompt::new();
    let b: ChoicePrompt<LootAction> = ChoicePrompt::default();
    assert_eq!(a, b);
}

#[test]
fn prompt_action_variants_construct_and_compare() {
    let none: PromptAction<LootAction> = PromptAction::Ignored;
    let selected = PromptAction::Selected(LootAction::Equip);
    let disabled = PromptAction::Disabled {
        id: LootAction::Take,
        reason: Some("full".to_string()),
    };
    let cancelled: PromptAction<LootAction> = PromptAction::Cancelled;
    let confirm = PromptAction::ConfirmRequested(LootAction::Pass);

    assert_ne!(none, PromptAction::Selected(LootAction::Equip));
    assert_ne!(selected, PromptAction::Selected(LootAction::Take));
    assert_ne!(cancelled, none);
    assert_ne!(confirm, selected);

    assert_eq!(
        disabled,
        PromptAction::Disabled {
            id: LootAction::Take,
            reason: Some("full".to_string()),
        }
    );
    assert_ne!(
        disabled,
        PromptAction::Disabled {
            id: LootAction::Take,
            reason: None,
        }
    );

    assert_eq!(selected.clone(), PromptAction::Selected(LootAction::Equip));
}

#[test]
fn handle_direct_key_lowercase_selects_enabled_choice() {
    let prompt: ChoicePrompt<LootAction> = ChoicePrompt::new()
        .choice('e', LootAction::Equip, "Equip")
        .choice('t', LootAction::Take, "Take")
        .choice('p', LootAction::Pass, "Pass");

    assert_eq!(
        prompt.handle(Input::Char('e')),
        PromptAction::Selected(LootAction::Equip),
    );
    assert_eq!(
        prompt.handle(Input::Char('t')),
        PromptAction::Selected(LootAction::Take),
    );
    assert_eq!(
        prompt.handle(Input::Char('p')),
        PromptAction::Selected(LootAction::Pass),
    );
}

#[test]
fn handle_direct_key_uppercase_selects_same_enabled_choice_as_lowercase() {
    let prompt: ChoicePrompt<LootAction> = ChoicePrompt::new()
        .choice('e', LootAction::Equip, "Equip")
        .choice('t', LootAction::Take, "Take");

    assert_eq!(
        prompt.handle(Input::Char('E')),
        prompt.handle(Input::Char('e')),
    );
    assert_eq!(
        prompt.handle(Input::Char('E')),
        PromptAction::Selected(LootAction::Equip),
    );
    assert_eq!(
        prompt.handle(Input::Char('T')),
        PromptAction::Selected(LootAction::Take),
    );
}

#[test]
fn handle_unmatched_key_returns_none() {
    let prompt: ChoicePrompt<LootAction> = ChoicePrompt::new()
        .choice('e', LootAction::Equip, "Equip")
        .choice('t', LootAction::Take, "Take");

    assert_eq!(prompt.handle(Input::Char('z')), PromptAction::Ignored);
    assert_eq!(prompt.handle(Input::Char('1')), PromptAction::Ignored);
}

#[test]
fn handle_ignores_non_prompt_inputs() {
    let prompt: ChoicePrompt<LootAction> = ChoicePrompt::new()
        .choice('e', LootAction::Equip, "Equip")
        .choice('t', LootAction::Take, "Take");

    for input in [
        Input::Resize {
            width: 80,
            height: 24,
        },
        Input::Up,
        Input::Down,
        Input::Left,
        Input::Right,
        Input::Backspace,
        Input::Ctrl('c'),
        Input::Unknown,
    ] {
        assert_eq!(
            prompt.handle(input),
            PromptAction::Ignored,
            "non-prompt input {input:?} must be a no-op",
        );
    }
}

#[test]
fn handle_non_prompt_inputs_do_not_mutate_selection() {
    let prompt: ChoicePrompt<LootAction> = ChoicePrompt::new()
        .choice('e', LootAction::Equip, "Equip")
        .choice('t', LootAction::Take, "Take");

    for input in [
        Input::Resize {
            width: 80,
            height: 24,
        },
        Input::Resize {
            width: 1,
            height: 1,
        },
        Input::Up,
        Input::Down,
        Input::Backspace,
        Input::Ctrl('c'),
        Input::Unknown,
    ] {
        assert_eq!(prompt.handle(input), PromptAction::Ignored);
    }

    assert_eq!(
        prompt.handle(Input::Char('e')),
        PromptAction::Selected(LootAction::Equip),
    );
    assert_eq!(
        prompt.handle(Input::Char('t')),
        PromptAction::Selected(LootAction::Take),
    );
}

#[test]
fn handle_disabled_choice_returns_disabled_with_id_and_reason() {
    let prompt: ChoicePrompt<LootAction> = ChoicePrompt::new()
        .choice('m', LootAction::Take, "Mana potions")
        .disabled_if(true, "full")
        .choice('n', LootAction::Pass, "No thanks");

    assert_eq!(
        prompt.handle(Input::Char('m')),
        PromptAction::Disabled {
            id: LootAction::Take,
            reason: Some("full".to_string()),
        },
    );
    assert_eq!(
        prompt.handle(Input::Char('M')),
        PromptAction::Disabled {
            id: LootAction::Take,
            reason: Some("full".to_string()),
        },
    );
    assert_eq!(
        prompt.handle(Input::Char('n')),
        PromptAction::Selected(LootAction::Pass),
    );
}

#[test]
fn handle_disabled_choice_without_reason_returns_disabled_with_none() {
    let mut choice = PromptChoice::new('k', "Take key", LootAction::Take);
    choice.enabled = false;
    let prompt: ChoicePrompt<LootAction> = ChoicePrompt {
        body: Vec::new(),
        choices: vec![choice],
        footer: None,
        cancellable: false,
        selected: None,
        vim_navigation: false,
        title: None,
    };

    assert_eq!(
        prompt.handle(Input::Char('k')),
        PromptAction::Disabled {
            id: LootAction::Take,
            reason: None,
        },
    );
}

#[test]
fn handle_enter_is_a_no_op_on_direct_key_prompts() {
    let prompt: ChoicePrompt<LootAction> =
        ChoicePrompt::new().choice('e', LootAction::Equip, "Equip");

    assert_eq!(prompt.selected, None);
    assert_eq!(prompt.handle(Input::Enter), PromptAction::Ignored);
}

#[test]
fn handle_esc_returns_none_when_cancellation_disabled() {
    let prompt: ChoicePrompt<LootAction> =
        ChoicePrompt::new().choice('e', LootAction::Equip, "Equip");

    assert!(!prompt.cancellable);
    assert_eq!(prompt.handle(Input::Esc), PromptAction::Ignored);
}

#[test]
fn handle_esc_returns_cancelled_when_cancellation_enabled() {
    let prompt: ChoicePrompt<LootAction> = ChoicePrompt::new()
        .choice('e', LootAction::Equip, "Equip")
        .cancellable(true);

    assert!(prompt.cancellable);
    assert_eq!(prompt.handle(Input::Esc), PromptAction::Cancelled);
    assert_eq!(
        prompt.handle(Input::Char('e')),
        PromptAction::Selected(LootAction::Equip),
    );
    assert_eq!(prompt.handle(Input::Char('z')), PromptAction::Ignored);
}

#[test]
fn cancellable_setter_round_trips_both_ways() {
    let on: ChoicePrompt<LootAction> = ChoicePrompt::new().cancellable(true);
    let off: ChoicePrompt<LootAction> =
        ChoicePrompt::new().cancellable(true).cancellable(false);
    assert!(on.cancellable);
    assert!(!off.cancellable);
}

#[test]
fn default_prompt_is_not_cancellable() {
    let prompt: ChoicePrompt<LootAction> = ChoicePrompt::new();
    assert!(!prompt.cancellable);
}

#[test]
fn navigable_defaults_to_none_for_direct_key_prompts() {
    let prompt: ChoicePrompt<LootAction> = ChoicePrompt::new()
        .choice('e', LootAction::Equip, "Equip")
        .choice('t', LootAction::Take, "Take");
    assert_eq!(prompt.selected, None);
}

#[test]
fn navigable_seeds_cursor_on_first_enabled_choice() {
    let prompt: ChoicePrompt<LootAction> = ChoicePrompt::new()
        .choice('e', LootAction::Equip, "Equip")
        .choice('t', LootAction::Take, "Take")
        .navigable(true);
    assert_eq!(prompt.selected, Some(0));
}

#[test]
fn navigable_skips_leading_disabled_choices_when_seeding() {
    let prompt: ChoicePrompt<LootAction> = ChoicePrompt::new()
        .choice('e', LootAction::Equip, "Equip")
        .disabled_if(true, "bag full")
        .choice('t', LootAction::Take, "Take")
        .navigable(true);
    assert_eq!(prompt.selected, Some(1));
}

#[test]
fn navigable_on_empty_prompt_leaves_selection_none() {
    let prompt: ChoicePrompt<LootAction> = ChoicePrompt::new().navigable(true);
    assert_eq!(prompt.selected, None);
}

#[test]
fn navigable_with_all_disabled_choices_leaves_selection_none() {
    let prompt: ChoicePrompt<LootAction> = ChoicePrompt::new()
        .choice('e', LootAction::Equip, "Equip")
        .disabled_if(true, "bag full")
        .choice('t', LootAction::Take, "Take")
        .disabled_if(true, "bag full");
    let prompt = prompt.navigable(true);
    assert_eq!(prompt.selected, None);
}

#[test]
fn navigable_false_clears_cursor_for_round_trip() {
    let prompt: ChoicePrompt<LootAction> = ChoicePrompt::new()
        .choice('e', LootAction::Equip, "Equip")
        .navigable(true)
        .navigable(false);
    assert_eq!(prompt.selected, None);

    let prompt = prompt.navigable(true);
    assert_eq!(prompt.selected, Some(0));
}

#[test]
fn navigable_preserves_direct_key_handle() {
    let prompt: ChoicePrompt<LootAction> = ChoicePrompt::new()
        .choice('e', LootAction::Equip, "Equip")
        .choice('t', LootAction::Take, "Take")
        .navigable(true);
    assert_eq!(
        prompt.handle(Input::Char('t')),
        PromptAction::Selected(LootAction::Take),
    );
    assert_eq!(
        prompt.handle(Input::Enter),
        PromptAction::Selected(LootAction::Equip),
    );
}

#[test]
fn handle_enter_selects_highlighted_choice_in_navigation_mode() {
    let mut prompt: ChoicePrompt<LootAction> = ChoicePrompt::new()
        .choice('e', LootAction::Equip, "Equip")
        .choice('t', LootAction::Take, "Take")
        .choice('p', LootAction::Pass, "Pass")
        .navigable(true);
    prompt.move_down();
    assert_eq!(prompt.selected, Some(1));
    assert_eq!(
        prompt.handle(Input::Enter),
        PromptAction::Selected(LootAction::Take),
    );
}

#[test]
fn handle_enter_skips_disabled_seed_via_cursor_invariant() {
    let prompt: ChoicePrompt<LootAction> = ChoicePrompt::new()
        .choice('e', LootAction::Equip, "Equip")
        .disabled_if(true, "bag full")
        .choice('t', LootAction::Take, "Take")
        .navigable(true);
    assert_eq!(prompt.selected, Some(1));
    assert_eq!(
        prompt.handle(Input::Enter),
        PromptAction::Selected(LootAction::Take),
    );
}

#[test]
fn handle_enter_is_no_op_when_no_enabled_choices_exist() {
    let prompt: ChoicePrompt<LootAction> = ChoicePrompt::new()
        .choice('e', LootAction::Equip, "Equip")
        .disabled_if(true, "bag full")
        .choice('t', LootAction::Take, "Take")
        .disabled_if(true, "no slot")
        .navigable(true);
    assert_eq!(prompt.selected, None);
    assert_eq!(prompt.handle(Input::Enter), PromptAction::Ignored);
}

#[test]
fn move_down_advances_to_next_enabled_choice() {
    let mut prompt: ChoicePrompt<LootAction> = ChoicePrompt::new()
        .choice('e', LootAction::Equip, "Equip")
        .choice('t', LootAction::Take, "Take")
        .navigable(true);
    assert_eq!(prompt.selected, Some(0));
    prompt.move_down();
    assert_eq!(prompt.selected, Some(1));
}

#[test]
fn move_up_walks_back_to_previous_enabled_choice() {
    let mut prompt: ChoicePrompt<LootAction> = ChoicePrompt::new()
        .choice('e', LootAction::Equip, "Equip")
        .choice('t', LootAction::Take, "Take")
        .choice('p', LootAction::Pass, "Pass")
        .navigable(true);
    prompt.move_down();
    prompt.move_down();
    assert_eq!(prompt.selected, Some(2));
    prompt.move_up();
    assert_eq!(prompt.selected, Some(1));
}

#[test]
fn move_down_skips_disabled_rows() {
    let mut prompt: ChoicePrompt<LootAction> = ChoicePrompt::new()
        .choice('e', LootAction::Equip, "Equip")
        .choice('t', LootAction::Take, "Take")
        .disabled_if(true, "no slot")
        .choice('p', LootAction::Pass, "Pass")
        .navigable(true);
    assert_eq!(prompt.selected, Some(0));
    prompt.move_down();
    assert_eq!(prompt.selected, Some(2));
}

#[test]
fn move_up_skips_disabled_rows() {
    let mut prompt: ChoicePrompt<LootAction> = ChoicePrompt::new()
        .choice('e', LootAction::Equip, "Equip")
        .choice('t', LootAction::Take, "Take")
        .disabled_if(true, "no slot")
        .choice('p', LootAction::Pass, "Pass")
        .navigable(true);
    prompt.move_down();
    assert_eq!(prompt.selected, Some(2));
    prompt.move_up();
    assert_eq!(prompt.selected, Some(0));
}

#[test]
fn move_down_wraps_from_last_enabled_to_first_enabled() {
    let mut prompt: ChoicePrompt<LootAction> = ChoicePrompt::new()
        .choice('e', LootAction::Equip, "Equip")
        .choice('t', LootAction::Take, "Take")
        .navigable(true);
    prompt.move_down();
    assert_eq!(prompt.selected, Some(1));
    prompt.move_down();
    assert_eq!(prompt.selected, Some(0));
}

#[test]
fn move_up_wraps_from_first_enabled_to_last_enabled() {
    let mut prompt: ChoicePrompt<LootAction> = ChoicePrompt::new()
        .choice('e', LootAction::Equip, "Equip")
        .choice('t', LootAction::Take, "Take")
        .choice('p', LootAction::Pass, "Pass")
        .navigable(true);
    assert_eq!(prompt.selected, Some(0));
    prompt.move_up();
    assert_eq!(prompt.selected, Some(2));
}

#[test]
fn wrap_skips_disabled_trailing_row() {
    let mut prompt: ChoicePrompt<LootAction> = ChoicePrompt::new()
        .choice('e', LootAction::Equip, "Equip")
        .choice('t', LootAction::Take, "Take")
        .choice('p', LootAction::Pass, "Pass")
        .disabled_if(true, "out of stock")
        .navigable(true);
    prompt.move_down();
    assert_eq!(prompt.selected, Some(1));
    prompt.move_down();
    assert_eq!(prompt.selected, Some(0));
}

#[test]
fn move_is_noop_when_only_one_enabled_choice() {
    let mut prompt: ChoicePrompt<LootAction> = ChoicePrompt::new()
        .choice('e', LootAction::Equip, "Equip")
        .choice('t', LootAction::Take, "Take")
        .disabled_if(true, "no slot")
        .choice('p', LootAction::Pass, "Pass")
        .disabled_if(true, "vendor closed")
        .navigable(true);
    assert_eq!(prompt.selected, Some(0));
    prompt.move_down();
    assert_eq!(prompt.selected, Some(0));
    prompt.move_up();
    assert_eq!(prompt.selected, Some(0));
}

#[test]
fn move_is_noop_in_direct_key_mode() {
    let mut prompt: ChoicePrompt<LootAction> = ChoicePrompt::new()
        .choice('e', LootAction::Equip, "Equip")
        .choice('t', LootAction::Take, "Take");
    assert_eq!(prompt.selected, None);
    prompt.move_down();
    prompt.move_up();
    assert_eq!(prompt.selected, None);
}

#[test]
fn vim_navigation_defaults_off() {
    let prompt: ChoicePrompt<LootAction> = ChoicePrompt::new();
    assert!(!prompt.vim_navigation);
}

#[test]
fn vim_navigation_setter_round_trips_both_ways() {
    let on: ChoicePrompt<LootAction> = ChoicePrompt::new().vim_navigation(true);
    let off: ChoicePrompt<LootAction> = ChoicePrompt::new()
        .vim_navigation(true)
        .vim_navigation(false);
    assert!(on.vim_navigation);
    assert!(!off.vim_navigation);
}

#[test]
fn step_from_input_arrows_drive_cursor_without_vim_flag() {
    let mut prompt: ChoicePrompt<LootAction> = ChoicePrompt::new()
        .choice('e', LootAction::Equip, "Equip")
        .choice('t', LootAction::Take, "Take")
        .navigable(true);
    assert_eq!(prompt.selected, Some(0));
    assert!(prompt.step_from_input(Input::Down));
    assert_eq!(prompt.selected, Some(1));
    assert!(prompt.step_from_input(Input::Up));
    assert_eq!(prompt.selected, Some(0));
}

#[test]
fn step_from_input_ignores_j_and_k_when_vim_disabled() {
    let mut prompt: ChoicePrompt<LootAction> = ChoicePrompt::new()
        .choice('e', LootAction::Equip, "Equip")
        .choice('t', LootAction::Take, "Take")
        .navigable(true);
    assert!(!prompt.vim_navigation);
    assert!(!prompt.step_from_input(Input::Char('j')));
    assert_eq!(prompt.selected, Some(0));
    assert!(!prompt.step_from_input(Input::Char('k')));
    assert_eq!(prompt.selected, Some(0));
}

#[test]
fn step_from_input_maps_j_and_k_when_vim_enabled() {
    let mut prompt: ChoicePrompt<LootAction> = ChoicePrompt::new()
        .choice('e', LootAction::Equip, "Equip")
        .choice('t', LootAction::Take, "Take")
        .choice('p', LootAction::Pass, "Pass")
        .navigable(true)
        .vim_navigation(true);
    assert_eq!(prompt.selected, Some(0));
    assert!(prompt.step_from_input(Input::Char('j')));
    assert_eq!(prompt.selected, Some(1));
    assert!(prompt.step_from_input(Input::Char('j')));
    assert_eq!(prompt.selected, Some(2));
    assert!(prompt.step_from_input(Input::Char('k')));
    assert_eq!(prompt.selected, Some(1));
}

#[test]
fn step_from_input_returns_false_in_direct_key_mode() {
    let mut prompt: ChoicePrompt<LootAction> = ChoicePrompt::new()
        .choice('e', LootAction::Equip, "Equip")
        .choice('t', LootAction::Take, "Take")
        .vim_navigation(true);
    assert_eq!(prompt.selected, None);
    assert!(!prompt.step_from_input(Input::Up));
    assert!(!prompt.step_from_input(Input::Down));
    assert!(!prompt.step_from_input(Input::Char('j')));
    assert!(!prompt.step_from_input(Input::Char('k')));
    assert_eq!(prompt.selected, None);
}

#[test]
fn step_from_input_does_not_consume_unrelated_keys() {
    let mut prompt: ChoicePrompt<LootAction> = ChoicePrompt::new()
        .choice('e', LootAction::Equip, "Equip")
        .choice('t', LootAction::Take, "Take")
        .navigable(true)
        .vim_navigation(true);
    for input in [
        Input::Enter,
        Input::Esc,
        Input::Char('e'),
        Input::Char('J'),
        Input::Char('K'),
        Input::Resize {
            width: 80,
            height: 24,
        },
        Input::Unknown,
    ] {
        assert!(
            !prompt.step_from_input(input),
            "step_from_input should not consume {input:?}",
        );
        assert_eq!(prompt.selected, Some(0));
    }
}

fn render_textblock_to_strings(block: &TextBlock, w: u16, h: u16) -> Vec<String> {
    let backend = TestBackend::new(w, h);
    let mut term = Terminal::new(backend).expect("test backend");
    term.draw(|frame| {
        let area = rect_of(frame.area());
        block.render(area, frame.buffer_mut());
    })
    .expect("draw");
    let buf = term.backend().buffer().clone();
    (0..h)
        .map(|y| {
            let mut row = String::new();
            for x in 0..w {
                row.push_str(buf[(x, y)].symbol());
            }
            row.trim_end().to_string()
        })
        .collect()
}

#[test]
fn textblock_wraps_long_line_at_word_boundary() {
    let block = TextBlock::new("the quick brown fox");
    let rows = block.wrapped_rows(10);
    assert_eq!(rows, vec!["the quick".to_string(), "brown fox".to_string()]);
}

#[test]
fn textblock_preserves_explicit_blank_lines() {
    let block = TextBlock::new("first paragraph\n\nsecond paragraph");
    let rows = block.wrapped_rows(40);
    assert_eq!(
        rows,
        vec![
            "first paragraph".to_string(),
            String::new(),
            "second paragraph".to_string(),
        ]
    );
}

#[test]
fn textblock_hard_breaks_word_longer_than_width() {
    let block = TextBlock::new("antidisestablishmentarianism");
    let rows = block.wrapped_rows(10);
    assert_eq!(rows.len(), 3);
    assert_eq!(rows[0].chars().count(), 10);
    assert_eq!(rows[1].chars().count(), 10);
    assert_eq!(rows[2], "arianism");
    let joined: String = rows.join("");
    assert_eq!(joined, "antidisestablishmentarianism");
}

#[test]
fn textblock_zero_width_returns_no_rows_and_does_not_panic() {
    let block = TextBlock::new("anything");
    assert!(block.wrapped_rows(0).is_empty());
}

#[test]
fn textblock_renders_under_test_backend_with_wrapped_rows() {
    let block = TextBlock::new("the quick brown fox jumps");
    let rows = render_textblock_to_strings(&block, 10, 4);
    assert_eq!(
        rows,
        vec![
            "the quick".to_string(),
            "brown fox".to_string(),
            "jumps".to_string(),
            String::new(),
        ]
    );
}

#[test]
fn textblock_render_clips_when_height_exceeded() {
    let block = TextBlock::new("alpha\nbeta\ngamma\ndelta");
    let area = Rect::new(0, 0, 10, 2);
    let mut buf = empty_buffer(area);
    let drawn = block.render(area, &mut buf);
    assert_eq!(drawn, 2);
    let row0: String = (0..area.width).map(|x| buf[(x, 0)].symbol()).collect();
    let row1: String = (0..area.width).map(|x| buf[(x, 1)].symbol()).collect();
    assert_eq!(row0.trim_end(), "alpha");
    assert_eq!(row1.trim_end(), "beta");
}

#[test]
fn textblock_render_zero_area_is_a_noop() {
    let block = TextBlock::new("anything");
    let area = Rect::new(0, 0, 0, 0);
    let mut buf = empty_buffer(Rect::new(0, 0, 4, 4));
    assert_eq!(block.render(area, &mut buf), 0);
}

#[test]
fn textblock_strips_trailing_carriage_returns() {
    let block = TextBlock::new("alpha\r\nbeta\r\n");
    assert_eq!(
        block.lines(),
        &["alpha".to_string(), "beta".to_string(), String::new()]
    );
}

#[test]
fn textblock_with_style_records_role_for_theme_layer() {
    let block = TextBlock::new("status").with_style(StyleRole::Success);
    assert_eq!(block.style(), Some(StyleRole::Success));
}

#[test]
fn textblock_from_lines_preserves_input_order_and_blanks() {
    let block = TextBlock::from_lines(vec!["one", "", "two"]);
    assert_eq!(
        block.wrapped_rows(40),
        vec!["one".to_string(), String::new(), "two".to_string()]
    );
}

#[test]
fn builder_chain_combines_disabled_and_hint() {
    let choice = PromptChoice::new('t', "Tip for rumor", LootAction::Take)
        .with_hint("50g")
        .with_disabled_reason("need 50g");

    assert!(!choice.enabled);
    assert_eq!(choice.hint.as_deref(), Some("50g"));
    assert_eq!(choice.disabled_reason.as_deref(), Some("need 50g"));
}

fn render_prompt_to_strings<T>(prompt: &ChoicePrompt<T>, w: u16, h: u16) -> Vec<String> {
    let backend = TestBackend::new(w, h);
    let mut term = Terminal::new(backend).expect("test backend");
    term.draw(|frame| {
        let area = rect_of(frame.area());
        prompt.render(area, frame.buffer_mut());
    })
    .expect("draw");
    let buf = term.backend().buffer().clone();
    (0..h)
        .map(|y| {
            let mut row = String::new();
            for x in 0..w {
                row.push_str(buf[(x, y)].symbol());
            }
            row.trim_end().to_string()
        })
        .collect()
}

#[test]
fn rendered_lines_matches_spec_4_3_giant_spider_example() {
    let prompt: ChoicePrompt<LootAction> = ChoicePrompt::new()
        .body("You found this on the Giant Spider's corpse.")
        .choice('e', LootAction::Equip, "Equip immediately")
        .choice('t', LootAction::Take, "Take to inventory")
        .choice('p', LootAction::Pass, "Pass");

    let rows = prompt.rendered_lines(60);
    assert_eq!(
        rows,
        vec![
            "You found this on the Giant Spider's corpse.".to_string(),
            String::new(),
            "(E) Equip immediately".to_string(),
            "(T) Take to inventory".to_string(),
            "(P) Pass".to_string(),
            String::new(),
            "Your choice:".to_string(),
        ]
    );
}

#[test]
fn rendered_lines_uppercases_marker_for_lowercase_or_uppercase_input() {
    let prompt: ChoicePrompt<LootAction> = ChoicePrompt::new()
        .choice('E', LootAction::Equip, "Equip")
        .choice('t', LootAction::Take, "Take");

    let rows = prompt.rendered_lines(40);
    assert_eq!(rows[0], "(E) Equip");
    assert_eq!(rows[1], "(T) Take");
}

#[test]
fn rendered_lines_matches_spec_9_lost_and_found_example() {
    let prompt: ChoicePrompt<Drawer> = ChoicePrompt::new()
        .choice('k', Drawer::Key, "Take the Room 7 key")
        .choice('m', Drawer::Match, "Pocket the matchbook")
        .choice('r', Drawer::Receipt, "Read the receipt")
        .choice('l', Drawer::Leave, "Leave it alone");

    let rows = prompt.rendered_lines(60);
    assert_eq!(
        rows,
        vec![
            "(K) Take the Room 7 key".to_string(),
            "(M) Pocket the matchbook".to_string(),
            "(R) Read the receipt".to_string(),
            "(L) Leave it alone".to_string(),
            String::new(),
            "Your choice:".to_string(),
        ]
    );
}

#[test]
fn rendered_lines_includes_optional_footer_with_blank_gap() {
    let prompt: ChoicePrompt<LootAction> = ChoicePrompt::new()
        .choice('e', LootAction::Equip, "Equip")
        .footer("Your gold: 173g");

    let rows = prompt.rendered_lines(40);
    assert_eq!(
        rows,
        vec![
            "(E) Equip".to_string(),
            String::new(),
            "Your gold: 173g".to_string(),
            String::new(),
            "Your choice:".to_string(),
        ]
    );
}

#[test]
fn rendered_lines_preserves_explicit_blank_lines_in_body() {
    let prompt: ChoicePrompt<LootAction> = ChoicePrompt::new()
        .body("first")
        .body("")
        .body("second")
        .choice('e', LootAction::Equip, "Equip");

    let rows = prompt.rendered_lines(40);
    assert_eq!(
        rows,
        vec![
            "first".to_string(),
            String::new(),
            "second".to_string(),
            String::new(),
            "(E) Equip".to_string(),
            String::new(),
            "Your choice:".to_string(),
        ]
    );
}

#[test]
fn rendered_lines_omits_prompt_label_when_no_choices() {
    let prompt: ChoicePrompt<LootAction> = ChoicePrompt::new().body("narration only");
    let rows = prompt.rendered_lines(40);
    assert_eq!(rows, vec!["narration only".to_string()]);
}

#[test]
fn rendered_lines_zero_width_returns_no_rows_and_does_not_panic() {
    let prompt: ChoicePrompt<LootAction> =
        ChoicePrompt::new()
            .body("body")
            .choice('e', LootAction::Equip, "Equip");
    assert!(prompt.rendered_lines(0).is_empty());
}

#[test]
fn render_writes_rows_under_test_backend() {
    let prompt: ChoicePrompt<LootAction> = ChoicePrompt::new()
        .body("You found this on the Giant Spider's corpse.")
        .choice('e', LootAction::Equip, "Equip immediately")
        .choice('t', LootAction::Take, "Take to inventory")
        .choice('p', LootAction::Pass, "Pass");

    let rows = render_prompt_to_strings(&prompt, 60, 8);
    assert_eq!(
        rows,
        vec![
            "You found this on the Giant Spider's corpse.".to_string(),
            String::new(),
            "(E) Equip immediately".to_string(),
            "(T) Take to inventory".to_string(),
            "(P) Pass".to_string(),
            String::new(),
            "Your choice:".to_string(),
            String::new(),
        ]
    );
}

#[test]
fn render_clips_when_height_exceeded_without_panic() {
    let prompt: ChoicePrompt<LootAction> = ChoicePrompt::new()
        .body("body")
        .choice('a', LootAction::Equip, "alpha")
        .choice('b', LootAction::Take, "beta")
        .choice('c', LootAction::Pass, "gamma");
    let area = Rect::new(0, 0, 20, 2);
    let mut buf = empty_buffer(area);
    let drawn = prompt.render(area, &mut buf);
    assert_eq!(drawn, 2);
    let row0: String = (0..area.width).map(|x| buf[(x, 0)].symbol()).collect();
    let row1: String = (0..area.width).map(|x| buf[(x, 1)].symbol()).collect();
    assert_eq!(row0.trim_end(), "body");
    assert_eq!(row1.trim_end(), "");
}

#[test]
fn render_zero_area_is_a_noop() {
    let prompt: ChoicePrompt<LootAction> =
        ChoicePrompt::new()
            .body("anything")
            .choice('e', LootAction::Equip, "Equip");
    let area = Rect::new(0, 0, 0, 0);
    let mut buf = empty_buffer(Rect::new(0, 0, 4, 4));
    assert_eq!(prompt.render(area, &mut buf), 0);
}

#[test]
fn rendered_lines_wraps_long_choice_label_at_word_boundary() {
    let prompt: ChoicePrompt<LootAction> = ChoicePrompt::new().choice(
        'e',
        LootAction::Equip,
        "Equip the very long sword of overflow",
    );
    let rows = prompt.rendered_lines(20);
    assert!(rows.len() >= 3);
    for row in rows.iter() {
        assert!(row.chars().count() <= 20, "row {row:?} exceeds width 20");
    }
    assert_eq!(rows.last().map(String::as_str), Some("Your choice:"));
}

#[test]
fn rendered_lines_marks_disabled_choice_with_monochrome_marker_and_reason() {
    let prompt: ChoicePrompt<LootAction> = ChoicePrompt::new()
        .choice('m', LootAction::Equip, "Mana potions")
        .disabled_if(true, "full");
    let rows = prompt.rendered_lines(60);
    assert_eq!(rows[0], "- [M] Mana potions (full)");
}

#[test]
fn rendered_lines_disabled_without_reason_still_carries_marker() {
    let prompt: ChoicePrompt<LootAction> =
        ChoicePrompt::new().choice('e', LootAction::Equip, "Equip");
    let mut prompt = prompt;
    prompt.choices[0].enabled = false;
    let rows = prompt.rendered_lines(40);
    assert_eq!(rows[0], "- [E] Equip");
}

#[test]
fn rendered_lines_mixes_enabled_and_disabled_rows_distinctly() {
    let prompt: ChoicePrompt<LootAction> = ChoicePrompt::new()
        .choice('e', LootAction::Equip, "Equip")
        .choice('t', LootAction::Take, "Take")
        .disabled_if(true, "bag full");
    let rows = prompt.rendered_lines(60);
    assert_eq!(rows[0], "(E) Equip");
    assert_eq!(rows[1], "- [T] Take (bag full)");
}

#[test]
fn rendered_lines_disabled_row_keeps_hint_between_label_and_reason() {
    let mut prompt: ChoicePrompt<LootAction> = ChoicePrompt::new()
        .choice('m', LootAction::Equip, "Mana potions")
        .disabled_if(true, "need 50g");
    prompt.choices[0].hint = Some("174g".to_string());
    let rows = prompt.rendered_lines(60);
    assert_eq!(rows[0], "- [M] Mana potions 174g (need 50g)");
}

#[test]
fn rendered_lines_matches_spec_5_wandering_monk_disabled_row() {
    let prompt: ChoicePrompt<ShopAction> = ChoicePrompt::new()
        .body("A wandering monk approaches after the battle...")
        .choice('m', ShopAction::BuyMana, "Mana potions")
        .disabled_if(true, "not enough gold or potion bag is full")
        .choice('n', ShopAction::NoThanks, "No thanks")
        .footer("Your gold: 32g");
    let rows = prompt.rendered_lines(80);
    assert_eq!(
        rows,
        vec![
            "A wandering monk approaches after the battle...".to_string(),
            String::new(),
            "- [M] Mana potions (not enough gold or potion bag is full)".to_string(),
            "(N) No thanks".to_string(),
            String::new(),
            "Your gold: 32g".to_string(),
            String::new(),
            "Your choice:".to_string(),
        ]
    );
}

#[test]
fn render_writes_disabled_marker_under_test_backend() {
    let prompt: ChoicePrompt<LootAction> = ChoicePrompt::new()
        .choice('m', LootAction::Equip, "Mana potions")
        .disabled_if(true, "full");
    let rows = render_prompt_to_strings(&prompt, 40, 4);
    assert_eq!(rows[0], "- [M] Mana potions (full)");
}

#[test]
fn rendered_lines_marks_selected_row_with_caret_in_nav_mode() {
    let prompt: ChoicePrompt<LootAction> = ChoicePrompt::new()
        .choice('e', LootAction::Equip, "Equip")
        .choice('t', LootAction::Take, "Take")
        .navigable(true);
    let rows = prompt.rendered_lines(40);
    assert_eq!(rows[0], "> (E) Equip");
    assert_eq!(rows[1], "  (T) Take");
}

#[test]
fn rendered_lines_marker_follows_cursor_after_move_down() {
    let mut prompt: ChoicePrompt<LootAction> = ChoicePrompt::new()
        .choice('e', LootAction::Equip, "Equip")
        .choice('t', LootAction::Take, "Take")
        .navigable(true);
    prompt.move_down();
    let rows = prompt.rendered_lines(40);
    assert_eq!(rows[0], "  (E) Equip");
    assert_eq!(rows[1], "> (T) Take");
}

#[test]
fn rendered_lines_no_marker_when_not_in_nav_mode() {
    let prompt: ChoicePrompt<LootAction> = ChoicePrompt::new()
        .choice('e', LootAction::Equip, "Equip")
        .choice('t', LootAction::Take, "Take");
    let rows = prompt.rendered_lines(40);
    assert_eq!(rows[0], "(E) Equip");
    assert_eq!(rows[1], "(T) Take");
}

#[test]
fn rendered_lines_marker_indents_disabled_row_in_nav_mode() {
    let prompt: ChoicePrompt<LootAction> = ChoicePrompt::new()
        .choice('e', LootAction::Equip, "Equip")
        .choice('t', LootAction::Take, "Take")
        .disabled_if(true, "bag full")
        .navigable(true);
    let rows = prompt.rendered_lines(60);
    assert_eq!(rows[0], "> (E) Equip");
    assert_eq!(rows[1], "  - [T] Take (bag full)");
}

#[test]
fn rendered_lines_marker_skips_unrelated_rows() {
    let prompt: ChoicePrompt<LootAction> = ChoicePrompt::new()
        .body("pick one")
        .choice('e', LootAction::Equip, "Equip")
        .footer("hint")
        .navigable(true);
    let rows = prompt.rendered_lines(40);
    assert_eq!(rows[0], "pick one");
    assert_eq!(rows[1], "");
    assert_eq!(rows[2], "> (E) Equip");
    assert_eq!(rows[3], "");
    assert_eq!(rows[4], "hint");
    assert_eq!(rows[5], "");
    assert_eq!(rows[6], "Your choice:");
}

#[test]
fn rendered_lines_marker_only_on_first_wrapped_row_of_selected_choice() {
    let prompt: ChoicePrompt<LootAction> = ChoicePrompt::new()
        .choice(
            'e',
            LootAction::Equip,
            "Equip the very long sword of overflow",
        )
        .navigable(true);
    let rows = prompt.rendered_lines(20);
    assert!(rows[0].starts_with("> "));
    assert!(rows.len() >= 2);
    assert!(rows[1].starts_with("  "));
    assert!(!rows[1].starts_with("> "));
}

#[test]
fn rendered_lines_drops_indent_when_width_too_narrow_for_marker() {
    let prompt: ChoicePrompt<LootAction> = ChoicePrompt::new()
        .choice('e', LootAction::Equip, "Equip")
        .navigable(true);
    let rows = prompt.rendered_lines(2);
    for row in &rows {
        assert!(
            !row.starts_with("> "),
            "row {row:?} kept the marker at width 2"
        );
        assert!(row.chars().count() <= 2, "row {row:?} exceeded width 2");
    }
}

#[test]
fn render_applies_reversed_modifier_to_selected_row() {
    let prompt: ChoicePrompt<LootAction> = ChoicePrompt::new()
        .choice('e', LootAction::Equip, "Equip")
        .choice('t', LootAction::Take, "Take")
        .navigable(true);
    let backend = TestBackend::new(40, 4);
    let mut term = Terminal::new(backend).expect("test backend");
    term.draw(|frame| {
        let area = rect_of(frame.area());
        prompt.render(area, frame.buffer_mut());
    })
    .expect("draw");
    let buf = term.backend().buffer().clone();
    assert!(
        buf[(0, 0)]
            .style()
            .add_modifier
            .contains(ratatui::style::Modifier::REVERSED),
        "selected row missing REVERSED modifier"
    );
    assert!(
        !buf[(0, 1)]
            .style()
            .add_modifier
            .contains(ratatui::style::Modifier::REVERSED),
        "non-selected row picked up REVERSED modifier"
    );
}

#[test]
fn render_does_not_apply_reversed_when_not_in_nav_mode() {
    let prompt: ChoicePrompt<LootAction> =
        ChoicePrompt::new().choice('e', LootAction::Equip, "Equip");
    let backend = TestBackend::new(40, 4);
    let mut term = Terminal::new(backend).expect("test backend");
    term.draw(|frame| {
        let area = rect_of(frame.area());
        prompt.render(area, frame.buffer_mut());
    })
    .expect("draw");
    let buf = term.backend().buffer().clone();
    assert!(
        !buf[(0, 0)]
            .style()
            .add_modifier
            .contains(ratatui::style::Modifier::REVERSED),
        "direct-key prompt picked up REVERSED on choice row"
    );
}

fn render_modal_to_strings<T>(prompt: &ChoicePrompt<T>, w: u16, h: u16) -> Vec<String> {
    let backend = TestBackend::new(w, h);
    let mut term = Terminal::new(backend).expect("test backend");
    term.draw(|frame| {
        let area = rect_of(frame.area());
        prompt.render_modal(area, frame.buffer_mut());
    })
    .expect("draw");
    let buf = term.backend().buffer().clone();
    (0..h)
        .map(|y| {
            let mut row = String::new();
            for x in 0..w {
                row.push_str(buf[(x, y)].symbol());
            }
            row.trim_end().to_string()
        })
        .collect()
}

#[test]
fn render_modal_draws_full_border_and_inner_content() {
    let prompt: ChoicePrompt<LootAction> =
        ChoicePrompt::new()
            .body("body")
            .choice('e', LootAction::Equip, "Equip");
    let rows = render_modal_to_strings(&prompt, 30, 8);
    assert!(
        rows[0].starts_with('┌'),
        "top-left corner missing: {:?}",
        rows[0]
    );
    assert!(
        rows[0].ends_with('┐'),
        "top-right corner missing: {:?}",
        rows[0]
    );
    assert!(
        rows[7].starts_with('└'),
        "bottom-left corner missing: {:?}",
        rows[7]
    );
    assert!(
        rows[7].ends_with('┘'),
        "bottom-right corner missing: {:?}",
        rows[7]
    );
    for (i, row) in rows.iter().enumerate().skip(1).take(6) {
        assert!(row.starts_with('│'), "row {i} missing left border: {row:?}");
    }
    assert!(
        rows[1].contains("body"),
        "body did not render inside modal: {:?}",
        rows[1]
    );
}

#[test]
fn render_modal_renders_title_in_top_border() {
    let prompt: ChoicePrompt<LootAction> = ChoicePrompt::new()
        .title("Lost & Found")
        .body("body")
        .choice('e', LootAction::Equip, "Equip");
    let rows = render_modal_to_strings(&prompt, 30, 6);
    assert!(
        rows[0].contains("Lost & Found"),
        "title missing from top border: {:?}",
        rows[0]
    );
    assert!(rows[0].ends_with('┐'));
}

#[test]
fn render_modal_inner_content_does_not_overwrite_borders() {
    let prompt: ChoicePrompt<LootAction> = ChoicePrompt::new()
        .choice('a', LootAction::Equip, "alpha")
        .choice('b', LootAction::Take, "beta")
        .choice('c', LootAction::Pass, "gamma")
        .choice('d', LootAction::Equip, "delta")
        .choice('e', LootAction::Take, "epsilon");
    let rows = render_modal_to_strings(&prompt, 20, 6);
    assert!(
        rows[5].starts_with('└'),
        "bottom border clobbered: {:?}",
        rows[5]
    );
    assert!(
        rows[5].ends_with('┘'),
        "bottom border clobbered: {:?}",
        rows[5]
    );
    for (i, row) in rows.iter().enumerate().skip(1).take(4) {
        assert!(row.starts_with('│'), "row {i} left side broken: {row:?}");
        assert!(row.ends_with('│'), "row {i} right side broken: {row:?}");
    }
}

#[test]
fn render_modal_zero_area_is_a_noop() {
    let prompt: ChoicePrompt<LootAction> =
        ChoicePrompt::new()
            .body("body")
            .choice('e', LootAction::Equip, "Equip");
    let area = Rect::new(0, 0, 0, 0);
    let mut buf = empty_buffer(Rect::new(0, 0, 4, 4));
    assert_eq!(prompt.render_modal(area, &mut buf), 0);
}

#[test]
fn render_modal_one_cell_area_does_not_panic() {
    let prompt: ChoicePrompt<LootAction> =
        ChoicePrompt::new()
            .body("body")
            .choice('e', LootAction::Equip, "Equip");
    let area = Rect::new(0, 0, 1, 1);
    let mut buf = empty_buffer(Rect::new(0, 0, 4, 4));
    assert_eq!(prompt.render_modal(area, &mut buf), 0);
}

#[test]
fn render_modal_two_by_two_draws_border_only() {
    let prompt: ChoicePrompt<LootAction> =
        ChoicePrompt::new()
            .body("body")
            .choice('e', LootAction::Equip, "Equip");
    let area = Rect::new(0, 0, 2, 2);
    let mut buf = empty_buffer(area);
    let drawn = prompt.render_modal(area, &mut buf);
    assert_eq!(drawn, 0, "no inner rows possible at 2×2");
    assert_eq!(buf[(0, 0)].symbol(), "┌");
    assert_eq!(buf[(1, 0)].symbol(), "┐");
    assert_eq!(buf[(0, 1)].symbol(), "└");
    assert_eq!(buf[(1, 1)].symbol(), "┘");
}

#[test]
fn render_modal_without_title_renders_unbroken_top_edge() {
    let prompt: ChoicePrompt<LootAction> =
        ChoicePrompt::new()
            .body("body")
            .choice('e', LootAction::Equip, "Equip");
    let rows = render_modal_to_strings(&prompt, 12, 5);
    let top = &rows[0];
    let chars: Vec<char> = top.chars().collect();
    assert_eq!(chars.first(), Some(&'┌'));
    assert_eq!(chars.last(), Some(&'┐'));
    for (i, c) in chars.iter().enumerate().skip(1).take(chars.len() - 2) {
        assert_eq!(*c, '─', "expected unbroken top edge at index {i}, got {c}");
    }
}

#[test]
fn default_theme_hotkey_role_is_bold_cyan() {
    let style = Theme::default().style(StyleRole::Hotkey);
    assert_eq!(style.fg, Some(TermColor::Cyan));
    assert!(
        style.add_modifier.contains(Modifier::bold()),
        "Hotkey role MUST add BOLD so the marker survives monochrome terminals"
    );
}

#[test]
fn default_theme_error_role_is_bold_red() {
    let style = Theme::default().style(StyleRole::Error);
    assert_eq!(style.fg, Some(TermColor::Red));
    assert!(
        style.add_modifier.contains(Modifier::bold()),
        "Error role MUST add BOLD so red-blind / monochrome terminals still read it as loud"
    );
}

#[test]
fn default_theme_disabled_role_is_dim_no_color() {
    let style = Theme::default().style(StyleRole::Disabled);
    assert_eq!(style.fg, None, "Disabled MUST NOT lean on a color");
    assert!(
        style.add_modifier.contains(Modifier::dim()),
        "Disabled role MUST add DIM as the supplementary visual weight"
    );
}

#[test]
fn default_theme_normal_role_is_bare_default() {
    assert_eq!(Theme::default().style(StyleRole::Normal), Style::default());
}

#[test]
fn default_theme_success_currency_carry_expected_colors() {
    let theme = Theme::default();
    assert_eq!(theme.style(StyleRole::Success).fg, Some(TermColor::Green));
    assert_eq!(theme.style(StyleRole::Currency).fg, Some(TermColor::Yellow));
}

#[test]
fn default_theme_title_and_emphasis_are_bold() {
    let theme = Theme::default();
    assert!(theme
        .style(StyleRole::Title)
        .add_modifier
        .contains(Modifier::bold()));
    assert!(theme
        .style(StyleRole::Emphasis)
        .add_modifier
        .contains(Modifier::bold()));
}

#[test]
fn default_theme_muted_and_hint_are_dim() {
    let theme = Theme::default();
    assert!(theme
        .style(StyleRole::Muted)
        .add_modifier
        .contains(Modifier::dim()));
    assert!(theme
        .style(StyleRole::Hint)
        .add_modifier
        .contains(Modifier::dim()));
}

#[test]
fn theme_with_role_overrides_only_that_role() {
    let custom =
        Theme::default().with_role(StyleRole::Hotkey, Style::default().fg(TermColor::Magenta));
    assert_eq!(
        custom.style(StyleRole::Hotkey),
        Style::default().fg(TermColor::Magenta)
    );
    let baseline = Theme::default();
    for role in [
        StyleRole::Normal,
        StyleRole::Title,
        StyleRole::Emphasis,
        StyleRole::Muted,
        StyleRole::Hint,
        StyleRole::Error,
        StyleRole::Success,
        StyleRole::Currency,
        StyleRole::Disabled,
    ] {
        assert_eq!(
            custom.style(role),
            baseline.style(role),
            "with_role MUST NOT alter unrelated roles; {role:?} drifted"
        );
    }
}

#[test]
fn confirm_prompt_y_returns_yes_case_insensitive() {
    let prompt = ConfirmPrompt::new("Delete the save?");
    assert_eq!(prompt.handle(Input::Char('y')), ConfirmOutcome::Yes);
    assert_eq!(prompt.handle(Input::Char('Y')), ConfirmOutcome::Yes);
}

#[test]
fn confirm_prompt_n_returns_no_case_insensitive() {
    let prompt = ConfirmPrompt::new("Delete the save?");
    assert_eq!(prompt.handle(Input::Char('n')), ConfirmOutcome::No);
    assert_eq!(prompt.handle(Input::Char('N')), ConfirmOutcome::No);
}

#[test]
fn confirm_prompt_esc_cancels_by_default() {
    let prompt = ConfirmPrompt::new("Delete the save?");
    assert_eq!(prompt.handle(Input::Esc), ConfirmOutcome::Cancelled);
}

#[test]
fn confirm_prompt_esc_no_op_when_cancellation_disabled() {
    let prompt = ConfirmPrompt::new("Confirm quit?").cancellable(false);
    assert_eq!(prompt.handle(Input::Esc), ConfirmOutcome::Ignored);
}

#[test]
fn confirm_prompt_enter_without_default_is_noop() {
    let prompt = ConfirmPrompt::new("Delete the save?");
    assert_eq!(prompt.handle(Input::Enter), ConfirmOutcome::Ignored);
}

#[test]
fn confirm_prompt_default_yes_makes_enter_confirm() {
    let prompt = ConfirmPrompt::new("Continue?").default_yes();
    assert_eq!(prompt.handle(Input::Enter), ConfirmOutcome::Yes);
    assert_eq!(prompt.handle(Input::Char('n')), ConfirmOutcome::No);
}

#[test]
fn confirm_prompt_default_no_makes_enter_decline() {
    let prompt = ConfirmPrompt::new("Delete the save?").default_no();
    assert_eq!(prompt.handle(Input::Enter), ConfirmOutcome::No);
    assert_eq!(prompt.handle(Input::Char('y')), ConfirmOutcome::Yes);
}

#[test]
fn confirm_prompt_resize_is_ignored() {
    let prompt = ConfirmPrompt::new("Continue?").default_yes();
    assert_eq!(
        prompt.handle(Input::Resize {
            width: 80,
            height: 24
        }),
        ConfirmOutcome::Ignored
    );
}

#[test]
fn confirm_prompt_unknown_key_is_ignored() {
    let prompt = ConfirmPrompt::new("Continue?");
    assert_eq!(prompt.handle(Input::Char('q')), ConfirmOutcome::Ignored);
    assert_eq!(prompt.handle(Input::Unknown), ConfirmOutcome::Ignored);
}

#[test]
fn confirm_prompt_labels_are_customisable_without_changing_keys() {
    let prompt = ConfirmPrompt::new("Delete the save?")
        .yes_label("Delete it")
        .no_label("Keep it");
    let inner = prompt.inner();
    assert_eq!(inner.choices[0].key, PromptKey::Char('y'));
    assert_eq!(inner.choices[0].label, "Delete it");
    assert_eq!(inner.choices[1].key, PromptKey::Char('n'));
    assert_eq!(inner.choices[1].label, "Keep it");
}

#[test]
fn confirm_prompt_renders_question_and_choices() {
    let prompt = ConfirmPrompt::new("Delete the save?");
    let rows = prompt.inner().rendered_lines(40);
    let joined = rows.join("\n");
    assert!(
        joined.contains("Delete the save?"),
        "body missing: {joined:?}"
    );
    assert!(joined.contains("(Y) Yes"), "yes row missing: {joined:?}");
    assert!(joined.contains("(N) No"), "no row missing: {joined:?}");
    assert!(
        joined.contains("Your choice:"),
        "prompt label missing: {joined:?}"
    );
}

#[test]
fn any_key_prompt_resize_is_ignored() {
    let prompt = AnyKeyPrompt::new().body("You feel a chill.");
    assert_eq!(
        prompt.handle(Input::Resize {
            width: 80,
            height: 24
        }),
        AnyKeyOutcome::Ignored,
    );
}

#[test]
fn any_key_prompt_unknown_is_ignored() {
    let prompt = AnyKeyPrompt::new();
    assert_eq!(prompt.handle(Input::Unknown), AnyKeyOutcome::Ignored);
}

#[test]
fn any_key_prompt_enter_completes() {
    let prompt = AnyKeyPrompt::new();
    assert_eq!(prompt.handle(Input::Enter), AnyKeyOutcome::Completed);
}

#[test]
fn any_key_prompt_space_completes() {
    let prompt = AnyKeyPrompt::new();
    assert_eq!(prompt.handle(Input::Char(' ')), AnyKeyOutcome::Completed);
}

#[test]
fn any_key_prompt_esc_completes() {
    let prompt = AnyKeyPrompt::new();
    assert_eq!(prompt.handle(Input::Esc), AnyKeyOutcome::Completed);
}

#[test]
fn any_key_prompt_arrow_keys_complete() {
    let prompt = AnyKeyPrompt::new();
    for input in [Input::Up, Input::Down, Input::Left, Input::Right] {
        assert_eq!(
            prompt.handle(input),
            AnyKeyOutcome::Completed,
            "arrow key {input:?} should complete the pause",
        );
    }
}

#[test]
fn any_key_prompt_backspace_and_ctrl_complete() {
    let prompt = AnyKeyPrompt::new();
    assert_eq!(prompt.handle(Input::Backspace), AnyKeyOutcome::Completed);
    assert_eq!(prompt.handle(Input::Ctrl('c')), AnyKeyOutcome::Completed);
}

#[test]
fn any_key_prompt_builder_records_body_footer_title() {
    let prompt = AnyKeyPrompt::new()
        .body("First.")
        .body("Second.")
        .footer("Press any key to wake up.")
        .title("Lobby");
    assert_eq!(
        prompt.body_lines(),
        &["First.".to_string(), "Second.".to_string()],
    );
    assert_eq!(prompt.footer_text(), Some("Press any key to wake up."));
    assert_eq!(prompt.title_text(), Some("Lobby"));
}

#[test]
fn any_key_prompt_default_footer_is_unset() {
    let prompt = AnyKeyPrompt::new();
    assert!(prompt.footer_text().is_none());
    assert!(prompt.title_text().is_none());
    assert!(prompt.body_lines().is_empty());
}

fn render_any_key_to_strings(prompt: &AnyKeyPrompt, w: u16, h: u16) -> Vec<String> {
    let backend = TestBackend::new(w, h);
    let mut term = Terminal::new(backend).expect("test backend");
    term.draw(|frame| {
        let area = rect_of(frame.area());
        prompt.render(area, frame.buffer_mut());
    })
    .expect("draw");
    let buf = term.backend().buffer().clone();
    (0..h)
        .map(|y| {
            let mut row = String::new();
            for x in 0..w {
                row.push_str(buf[(x, y)].symbol());
            }
            row.trim_end().to_string()
        })
        .collect()
}

#[test]
fn any_key_prompt_renders_default_footer_below_body_with_blank_gap() {
    let prompt = AnyKeyPrompt::new().body("You feel a chill.");
    assert_eq!(
        prompt.rendered_lines(40),
        vec![
            "You feel a chill.".to_string(),
            String::new(),
            "Press any key to continue...".to_string(),
        ],
    );
}

#[test]
fn any_key_prompt_default_footer_constant_matches_spec() {
    assert_eq!(DEFAULT_ANY_KEY_FOOTER, "Press any key to continue...");
}

#[test]
fn any_key_prompt_uses_author_footer_override() {
    let prompt = AnyKeyPrompt::new()
        .body("The lobby fades.")
        .footer("Press any key to wake up.");
    assert_eq!(
        prompt.rendered_lines(40),
        vec![
            "The lobby fades.".to_string(),
            String::new(),
            "Press any key to wake up.".to_string(),
        ],
    );
}

#[test]
fn any_key_prompt_renders_footer_alone_when_body_is_empty() {
    let prompt = AnyKeyPrompt::new();
    assert_eq!(
        prompt.rendered_lines(40),
        vec!["Press any key to continue...".to_string()],
    );
}

#[test]
fn any_key_prompt_wraps_body_at_supplied_width() {
    let prompt =
        AnyKeyPrompt::new().body("You feel a sudden cold breath on the back of your neck.");
    let rows = prompt.rendered_lines(20);
    assert_eq!(
        rows,
        vec![
            "You feel a sudden".to_string(),
            "cold breath on the".to_string(),
            "back of your neck.".to_string(),
            String::new(),
            "Press any key to".to_string(),
            "continue...".to_string(),
        ],
    );
}

#[test]
fn any_key_prompt_preserves_blank_lines_between_paragraphs() {
    let prompt = AnyKeyPrompt::new().body("first").body("").body("second");
    assert_eq!(
        prompt.rendered_lines(40),
        vec![
            "first".to_string(),
            String::new(),
            "second".to_string(),
            String::new(),
            "Press any key to continue...".to_string(),
        ],
    );
}

#[test]
fn any_key_prompt_zero_width_returns_no_rows_and_does_not_panic() {
    let prompt = AnyKeyPrompt::new().body("body");
    assert!(prompt.rendered_lines(0).is_empty());
}

#[test]
fn any_key_prompt_render_writes_rows_under_test_backend() {
    let prompt = AnyKeyPrompt::new().body("You feel a chill.");
    let rows = render_any_key_to_strings(&prompt, 40, 4);
    assert_eq!(
        rows,
        vec![
            "You feel a chill.".to_string(),
            String::new(),
            "Press any key to continue...".to_string(),
            String::new(),
        ],
    );
}

#[test]
fn any_key_prompt_render_clips_when_height_is_short() {
    let prompt = AnyKeyPrompt::new().body("You feel a chill.");
    let rows = render_any_key_to_strings(&prompt, 40, 2);
    assert_eq!(rows, vec!["You feel a chill.".to_string(), String::new()],);
}

#[test]
fn any_key_prompt_render_zero_dimensions_writes_nothing() {
    let prompt = AnyKeyPrompt::new().body("body");
    let mut buf = empty_buffer(Rect::new(0, 0, 4, 4));
    let written = prompt.render(Rect::new(0, 0, 0, 4), &mut buf);
    assert_eq!(written, 0);
    let written = prompt.render(Rect::new(0, 0, 4, 0), &mut buf);
    assert_eq!(written, 0);
}

#[test]
fn any_key_prompt_render_modal_draws_border_with_title() {
    let prompt = AnyKeyPrompt::new().title("Lobby").body("You feel a chill.");
    let rows = render_any_key_to_strings_modal(&prompt, 30, 6);
    assert!(
        rows[0].starts_with("┌Lobby"),
        "top border missing title: {:?}",
        rows[0],
    );
    assert!(rows[1].contains("You feel a chill."));
    assert!(rows[3].contains("Press any key to continue..."));
    assert!(rows[5].starts_with('└'));
}

fn render_any_key_to_strings_modal(prompt: &AnyKeyPrompt, w: u16, h: u16) -> Vec<String> {
    let backend = TestBackend::new(w, h);
    let mut term = Terminal::new(backend).expect("test backend");
    term.draw(|frame| {
        let area = rect_of(frame.area());
        prompt.render_modal(area, frame.buffer_mut());
    })
    .expect("draw");
    let buf = term.backend().buffer().clone();
    (0..h)
        .map(|y| {
            let mut row = String::new();
            for x in 0..w {
                row.push_str(buf[(x, y)].symbol());
            }
            row.trim_end().to_string()
        })
        .collect()
}

#[test]
fn any_key_prompt_render_modal_small_area_is_noop() {
    let prompt = AnyKeyPrompt::new().body("body");
    let mut buf = empty_buffer(Rect::new(0, 0, 4, 4));
    assert_eq!(prompt.render_modal(Rect::new(0, 0, 1, 4), &mut buf), 0);
    assert_eq!(prompt.render_modal(Rect::new(0, 0, 4, 1), &mut buf), 0);
}

#[test]
fn feedback_kind_markers_are_unique_and_monochrome_safe() {
    let info = FeedbackKind::Info.marker();
    let success = FeedbackKind::Success.marker();
    let error = FeedbackKind::Error.marker();
    assert_ne!(info, success);
    assert_ne!(info, error);
    assert_ne!(success, error);
    for marker in [info, success, error] {
        assert!(
            marker.chars().all(|c| c.is_ascii() && !c.is_control()),
            "marker {marker:?} must be plain ASCII",
        );
    }
}

#[test]
fn feedback_kind_marker_pins_concrete_strings() {
    assert_eq!(FeedbackKind::Info.marker(), "");
    assert_eq!(FeedbackKind::Success.marker(), "+ ");
    assert_eq!(FeedbackKind::Error.marker(), "! ");
}

#[test]
fn feedback_kind_style_role_maps_to_spec_roles() {
    assert_eq!(FeedbackKind::Info.style_role(), StyleRole::Normal);
    assert_eq!(FeedbackKind::Success.style_role(), StyleRole::Success);
    assert_eq!(FeedbackKind::Error.style_role(), StyleRole::Error);
}

#[test]
fn feedback_line_constructors_record_kind_and_text() {
    let info = FeedbackLine::info("Moved Room 7 key to inventory.");
    assert_eq!(info.kind(), FeedbackKind::Info);
    assert_eq!(info.text(), "Moved Room 7 key to inventory.");

    let success = FeedbackLine::success("Bought black coffee for 25g.");
    assert_eq!(success.kind(), FeedbackKind::Success);
    assert_eq!(success.text(), "Bought black coffee for 25g.");

    let error = FeedbackLine::error("Need 50g to tip for a rumor.");
    assert_eq!(error.kind(), FeedbackKind::Error);
    assert_eq!(error.text(), "Need 50g to tip for a rumor.");
}

#[test]
fn feedback_line_rendered_text_concatenates_marker_and_body() {
    let info = FeedbackLine::info("Moved Room 7 key to inventory.");
    assert_eq!(info.rendered_text(), "Moved Room 7 key to inventory.");

    let success = FeedbackLine::success("Bought black coffee for 25g.");
    assert_eq!(success.rendered_text(), "+ Bought black coffee for 25g.");

    let error = FeedbackLine::error("Need 50g to tip for a rumor.");
    assert_eq!(error.rendered_text(), "! Need 50g to tip for a rumor.");
}

fn render_feedback_to_strings(line: &FeedbackLine, w: u16, h: u16) -> Vec<String> {
    let backend = TestBackend::new(w, h);
    let mut term = Terminal::new(backend).expect("test backend");
    term.draw(|frame| {
        let area = rect_of(frame.area());
        line.render(area, frame.buffer_mut());
    })
    .expect("draw");
    let buf = term.backend().buffer().clone();
    (0..h)
        .map(|y| {
            let mut row = String::new();
            for x in 0..w {
                row.push_str(buf[(x, y)].symbol());
            }
            row.trim_end().to_string()
        })
        .collect()
}

#[test]
fn feedback_line_render_writes_marker_plus_text_under_test_backend() {
    let info = FeedbackLine::info("Moved Room 7 key to inventory.");
    assert_eq!(
        render_feedback_to_strings(&info, 40, 1),
        vec!["Moved Room 7 key to inventory.".to_string()],
    );

    let success = FeedbackLine::success("Bought black coffee for 25g.");
    assert_eq!(
        render_feedback_to_strings(&success, 40, 1),
        vec!["+ Bought black coffee for 25g.".to_string()],
    );

    let error = FeedbackLine::error("Need 50g to tip for a rumor.");
    assert_eq!(
        render_feedback_to_strings(&error, 40, 1),
        vec!["! Need 50g to tip for a rumor.".to_string()],
    );
}

#[test]
fn feedback_line_render_returns_one_row_and_leaves_extra_rows_blank() {
    let line = FeedbackLine::success("Saved.");
    let mut buf = empty_buffer(Rect::new(0, 0, 20, 3));
    let written = line.render(Rect::new(0, 0, 20, 3), &mut buf);
    assert_eq!(written, 1);
    let row0: String = (0..20).map(|x| buf[(x, 0)].symbol()).collect();
    let row1: String = (0..20).map(|x| buf[(x, 1)].symbol()).collect();
    assert_eq!(row0.trim_end(), "+ Saved.");
    assert_eq!(
        row1.trim().chars().filter(|c| !c.is_whitespace()).count(),
        0
    );
}

#[test]
fn feedback_line_render_truncates_when_width_is_short() {
    let line = FeedbackLine::error("Need 50g to tip for a rumor.");
    let rows = render_feedback_to_strings(&line, 10, 1);
    assert_eq!(rows, vec!["! Need 50g".to_string()]);
}

#[test]
fn feedback_line_render_zero_dimensions_is_noop() {
    let line = FeedbackLine::info("hi");
    let mut buf = empty_buffer(Rect::new(0, 0, 4, 4));
    assert_eq!(line.render(Rect::new(0, 0, 0, 4), &mut buf), 0);
    assert_eq!(line.render(Rect::new(0, 0, 4, 0), &mut buf), 0);
}

#[test]
fn feedback_line_render_with_theme_applies_role_style() {
    let line = FeedbackLine::success("Saved.");
    let theme =
        Theme::default().with_role(StyleRole::Success, Style::default().fg(TermColor::Magenta));
    let mut buf = empty_buffer(Rect::new(0, 0, 20, 1));
    let written = line.render_with_theme(Rect::new(0, 0, 20, 1), &mut buf, &theme);
    assert_eq!(written, 1);
    for x in 0..8u16 {
        assert_eq!(
            buf[(x, 0)].style().fg,
            Some(ratatui::style::Color::Magenta),
            "cell {x} missing role override",
        );
    }
    assert_ne!(buf[(8, 0)].style().fg, Some(ratatui::style::Color::Magenta));
}

#[test]
fn feedback_line_info_renders_with_normal_role_not_a_loud_one() {
    let line = FeedbackLine::info("Moved Room 7 key to inventory.");
    let theme = Theme::default();
    let mut buf = empty_buffer(Rect::new(0, 0, 40, 1));
    line.render_with_theme(Rect::new(0, 0, 40, 1), &mut buf, &theme);
    let baseline = buf[(39, 0)].style();
    for x in 0..30u16 {
        let cell_style = buf[(x, 0)].style();
        assert_eq!(
            cell_style.fg, baseline.fg,
            "info cell {x} fg drifted from untouched baseline",
        );
        assert_eq!(
            cell_style.add_modifier, baseline.add_modifier,
            "info cell {x} modifier drifted from untouched baseline",
        );
    }
    assert_ne!(
        theme.style(StyleRole::Success),
        theme.style(StyleRole::Normal)
    );
    assert_ne!(
        theme.style(StyleRole::Error),
        theme.style(StyleRole::Normal)
    );
}

#[test]
fn a_drawer_is_searched_by_key() {
    let prompt = ChoicePrompt::new()
        .body("A musty drawer holds a tagged room key.")
        .choice('k', Drawer::Key, "Take the Room 7 key")
        .choice('l', Drawer::Leave, "Leave it");
    assert_eq!(
        prompt.handle(Input::Char('K')),
        PromptAction::Selected(Drawer::Key)
    );
    assert_eq!(
        prompt.handle(Input::Resize { width: 80, height: 24 }),
        PromptAction::Ignored
    );
    assert_eq!(prompt.choices.len(), 2);
}

#[test]
fn a_stray_enter_takes_the_safe_default() {
    let prompt = ConfirmPrompt::new("Overwrite the existing save?").default_no();
    assert_eq!(prompt.handle(Input::Enter), ConfirmOutcome::No);
    assert_eq!(prompt.handle(Input::Char('y')), ConfirmOutcome::Yes);
    assert_eq!(prompt.handle(Input::Esc), ConfirmOutcome::Cancelled);
}

#[test]
fn a_pause_outlasts_a_resize() {
    let pause = AnyKeyPrompt::new()
        .body("The night clerk slides a chipped mug across the counter.")
        .footer("Press any key to continue...");
    assert_eq!(
        pause.handle(Input::Resize { width: 80, height: 24 }),
        AnyKeyOutcome::Ignored
    );
    assert_eq!(pause.handle(Input::Unknown), AnyKeyOutcome::Ignored);
    assert_eq!(pause.handle(Input::Char(' ')), AnyKeyOutcome::Completed);
    assert_eq!(pause.handle(Input::Enter), AnyKeyOutcome::Completed);
}
