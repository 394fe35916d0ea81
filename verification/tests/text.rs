//! Text, wrapping and numbers.

use foglet_game::text::{
    chars_of, clone_all, clone_opt, folded_eq, opt_str, push_decimal, text_of, to_lower, to_upper,
    trim_bounds, Text,
};
use foglet_game::prompt::{PromptError, PromptKey, TextBlock};

fn decimal(n: i64) -> String {
    let mut out = String::from("n=");
    push_decimal(&mut out, n);
    out
}

#[test]
fn numbers_are_written_in_decimal() {
    for n in [0, 7, 10, 42, 100, 1_234_567_890, i64::MAX, -1, -10, i64::MIN] {
        assert_eq!(decimal(n), format!("n={n}"));
    }
}

#[test]
fn ascii_case_is_folded_for_every_character_as_in_std() {
    for code in 0..=0x10ffff_u32 {
        if let Some(c) = char::from_u32(code) {
            assert_eq!(to_lower(c), c.to_ascii_lowercase());
            assert_eq!(to_upper(c), c.to_ascii_uppercase());
        }
    }
}

#[test]
fn trimming_agrees_with_std_for_every_character() {
    for code in 0..=0x10ffff_u32 {
        if let Some(c) = char::from_u32(code) {
            let cs = vec![c, 'x', c];
            let text: String = cs.iter().collect();
            let (from, to) = trim_bounds(&cs);
            assert_eq!(text_of(&cs, from, to), text.trim());
        }
    }
}

#[test]
fn trimming_takes_both_ends_and_nothing_between() {
    let cs = chars_of(" \t a b \n");
    let (from, to) = trim_bounds(&cs);
    assert_eq!(text_of(&cs, from, to), "a b");
    let blank = chars_of("\t \n");
    let (from, to) = trim_bounds(&blank);
    assert_eq!(from, to);
}

#[test]
fn comparing_without_case_is_for_ascii_letters_only() {
    assert!(folded_eq("SysOp", "sysop"));
    assert!(!folded_eq("sysop", "sysops"));
    assert!(!folded_eq("É", "é"));
    assert!(folded_eq("", ""));
}

#[test]
fn strings_of_any_kind_are_text() {
    assert_eq!("a".into_text(), "a");
    assert_eq!(String::from("b").into_text(), "b");
    assert_eq!((&String::from("c")).into_text(), "c");
    assert_eq!(String::from("d").as_text(), "d");
}

#[test]
fn optional_and_listed_strings_are_copied() {
    let some = Some("x".to_string());
    assert_eq!(opt_str(&some), Some("x"));
    assert_eq!(clone_opt(&some), some);
    assert_eq!(opt_str(&None), None);
    let list = vec!["a".to_string(), "b".to_string()];
    assert_eq!(clone_all(&list), list);
}

#[test]
fn words_are_cut_at_any_white_space() {
    for space in [" ", "\t", "\u{a0}", "\u{2003}", "\u{3000}", "\r", "  "] {
        let block = TextBlock::new(format!("one{space}two"));
        assert_eq!(block.wrapped_rows(3), vec!["one", "two"]);
    }
    let joined = TextBlock::new("one\u{200b}two");
    assert_eq!(joined.wrapped_rows(7), vec!["one\u{200b}two"]);
}

#[test]
fn wrapping_counts_characters_and_not_bytes() {
    let block = TextBlock::new("ééééé ééé");
    assert_eq!(block.wrapped_rows(4), vec!["éééé", "é", "ééé"]);
    assert_eq!(block.wrapped_rows(5), vec!["ééééé", "ééé"]);
    assert_eq!(block.wrapped_rows(9), vec!["ééééé ééé"]);
}

#[test]
fn the_rest_of_a_long_word_is_filled_up() {
    let block = TextBlock::new("a abcdefgh xy z");
    assert_eq!(block.wrapped_rows(5), vec!["a", "abcde", "fgh", "xy z"]);
    assert_eq!(block.wrapped_rows(6), vec!["a", "abcdef", "gh xy", "z"]);
    assert_eq!(block.wrapped_rows(1), vec!["a", "a", "b", "c", "d", "e", "f", "g", "h", "x", "y", "z"]);
}

#[test]
fn wrapping_keeps_every_visible_character_and_stays_within_the_width() {
    let text = "The night clerk slides a chipped mug across the counterandnevermindsthespill.";
    let visible: String = text.split_whitespace().collect();
    for width in 1..90 {
        let rows = TextBlock::new(text).wrapped_rows(width);
        assert!(rows.iter().all(|row| row.chars().count() <= width as usize));
        let kept: String = rows.concat().split_whitespace().collect();
        assert_eq!(kept, visible);
    }
}

#[test]
fn wrapping_is_greedy() {
    let text = "one two three four five six seven eight nine ten eleven twelve";
    for width in 6..40usize {
        let rows = TextBlock::new(text).wrapped_rows(width as u16);
        for pair in rows.windows(2) {
            let first = pair[1].split_whitespace().next().expect("no blank rows");
            assert!(pair[0].chars().count() + 1 + first.chars().count() > width);
        }
    }
}

#[test]
fn blank_lines_are_one_blank_row() {
    assert_eq!(TextBlock::new("").wrapped_rows(10), vec![""]);
    assert_eq!(TextBlock::new(" \t ").wrapped_rows(10), vec![""]);
    assert_eq!(TextBlock::new("a\n \nb").wrapped_rows(10), vec!["a", "", "b"]);
    let none: Vec<String> = TextBlock::default().wrapped_rows(10);
    assert!(none.is_empty());
}

#[test]
fn only_one_carriage_return_is_dropped_from_a_line() {
    let block = TextBlock::new("a\r\r\nb\rc\n\r");
    assert_eq!(block.lines(), ["a\r", "b\rc", ""]);
}

#[test]
fn duplicate_hotkeys_are_quoted_in_the_message() {
    let error = |key| PromptError::DuplicateHotkey {
        key,
        first_label: "Say \"hi\"".to_string(),
        second_label: "Tab\there".to_string(),
    };
    assert_eq!(
        error(PromptKey::Char('\'')).message(),
        "duplicate prompt hotkey Char('\\''): choices \"Say \\\"hi\\\"\" and \"Tab\\there\" both bind it"
    );
    assert_eq!(
        error(PromptKey::Enter).message(),
        "duplicate prompt hotkey Enter: choices \"Say \\\"hi\\\"\" and \"Tab\\there\" both bind it"
    );
    assert!(error(PromptKey::Esc).message().starts_with("duplicate prompt hotkey Esc:"));
}
