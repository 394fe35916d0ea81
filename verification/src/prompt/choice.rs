//! Prompts with a list of choices.

use vstd::pervasive::cloned;
use vstd::prelude::*;

use crate::input::Input;
use crate::prompt::key::{char_key, input_key, Hotkey, PromptKey};
use crate::prompt::theme::StyleRole;
use crate::text::{
    char_debug, clone_opt, lemma_texts_push, lower, lower_folds_case, opt_text, quoted,
    quoted_char, str_debug, texts, upper, Text,
};

verus! {

broadcast use {lemma_texts_push, vstd::string::group_string_axioms};

/// One option of a prompt.
#[derive(Debug, Clone, PartialEq, Eq)]
pub struct PromptChoice<T> {
    /// The hotkey.
    pub key: PromptKey,
    /// The text shown.
    pub label: String,
    /// The value handed back when the choice is picked.
    pub value: T,
    /// Whether the choice can be picked.
    pub enabled: bool,
    /// Why it cannot be picked.
    pub disabled_reason: Option<String>,
    /// A short note shown behind the label.
    pub hint: Option<String>,
    /// A style role other than the usual one.
    pub style: Option<StyleRole>,
}

impl<T> PromptChoice<T> {
    /// An enabled choice without hint or style.
    pub fn new(key: impl Hotkey, label: impl Text, value: T) -> (r: Self)
        ensures
            r.key == key.hotkey(),
            r.label@ == label.text(),
            r.value == value,
            r.enabled,
            r.disabled_reason is None,
            r.hint is None,
            r.style is None,
    {
        PromptChoice {
            key: key.into_hotkey(),
            label: label.into_text(),
            value,
            enabled: true,
            disabled_reason: None,
            hint: None,
            style: None,
        }
    }

    /// Disable the choice and say why.
    pub fn with_disabled_reason(self, reason: impl Text) -> (r: Self)
        ensures
            r.disabled_reason is Some,
            r == (PromptChoice { enabled: false, disabled_reason: r.disabled_reason, ..self }),
            opt_text(r.disabled_reason) == Some(reason.text()),
    {
        PromptChoice { enabled: false, disabled_reason: Some(reason.into_text()), ..self }
    }

    /// Attach a hint.
    pub fn with_hint(self, hint: impl Text) -> (r: Self)
        ensures
            r == (PromptChoice { hint: r.hint, ..self }),
            opt_text(r.hint) == Some(hint.text()),
    {
        PromptChoice { hint: Some(hint.into_text()), ..self }
    }

    /// Override the style role.
    pub fn with_style(self, role: StyleRole) -> (r: Self)
        ensures
            r == (PromptChoice { style: Some(role), ..self }),
    {
        PromptChoice { style: Some(role), ..self }
    }
}

/// What can be wrong with a prompt's choices.
#[derive(Debug, Clone, PartialEq, Eq)]
pub enum PromptError {
    /// Two choices share a hotkey. Disabled choices keep theirs.
    DuplicateHotkey { key: PromptKey, first_label: String, second_label: String },
}

/// How a key reads in a message.
pub open spec fn key_debug(key: PromptKey) -> Seq<char> {
    match key {
        PromptKey::Char(c) => "Char("@ + char_debug(c) + ")"@,
        PromptKey::Enter => "Enter"@,
        PromptKey::Esc => "Esc"@,
    }
}

impl PromptError {
    /// The message for the author of the prompt.
    pub fn message(&self) -> (r: String)
        ensures
            match *self {
                PromptError::DuplicateHotkey { key, first_label, second_label } => r@
                    == "duplicate prompt hotkey "@ + key_debug(key) + ": choices "@ + str_debug(
                    first_label@,
                ) + " and "@ + str_debug(second_label@) + " both bind it"@,
            },
    {
        match self {
            PromptError::DuplicateHotkey { key, first_label, second_label } => {
                let mut out: String = "duplicate prompt hotkey ".to_string();
                match key {
                    PromptKey::Char(c) => {
                        out.append("Char(");
                        out.append(quoted_char(*c).as_str());
                        out.append(")");
                    },
                    PromptKey::Enter => out.append("Enter"),
                    PromptKey::Esc => out.append("Esc"),
                }
                proof {
                    assert(out@ =~= "duplicate prompt hotkey "@ + key_debug(*key));
                }
                out.append(": choices ");
                out.append(quoted(first_label.as_str()).as_str());
                out.append(" and ");
                out.append(quoted(second_label.as_str()).as_str());
                out.append(" both bind it");
                out
            },
        }
    }
}

/// Whether no two choices share a hotkey.
pub open spec fn keys_distinct<T>(choices: Seq<PromptChoice<T>>) -> bool {
    forall|i: int, j: int|
        0 <= i < j < choices.len() ==> (#[trigger] choices[i]).key != (#[trigger] choices[j]).key
}

/// Whether `j` is the first choice whose hotkey was taken before, and `i` the
/// first choice that took it.
pub open spec fn first_clash<T>(choices: Seq<PromptChoice<T>>, i: int, j: int) -> bool {
    &&& 0 <= i < j < choices.len()
    &&& choices[i].key == choices[j].key
    &&& keys_distinct(choices.take(j))
    &&& forall|k: int| 0 <= k < i ==> (#[trigger] choices[k]).key != choices[j].key
}

/// Whether a verdict on a list of choices is right.
pub open spec fn validated<T>(
    choices: Seq<PromptChoice<T>>,
    verdict: Result<(), PromptError>,
) -> bool {
    match verdict {
        Ok(()) => keys_distinct(choices),
        Err(PromptError::DuplicateHotkey { key, first_label, second_label }) => exists|
            i: int,
            j: int,
        |
            #![trigger choices[i], choices[j]]
            first_clash(choices, i, j) && key == choices[j].key && first_label == choices[i].label
                && second_label == choices[j].label,
    }
}

/// Check that no two choices share a hotkey. The error names the first choice
/// whose hotkey was taken before, and the choice that took it.
pub fn validate_choices<T>(choices: &[PromptChoice<T>]) -> (r: Result<(), PromptError>)
    ensures
        validated(choices@, r),
{
    let mut i: usize = 0;
    while i < choices.len()
        invariant
            i <= choices@.len(),
            keys_distinct(choices@.take(i as int)),
        decreases choices@.len() - i,
    {
        let mut k: usize = 0;
        while k < i
            invariant
                k <= i < choices@.len(),
                keys_distinct(choices@.take(i as int)),
                forall|p: int|
                    0 <= p < k ==> (#[trigger] choices@[p]).key != choices@[i as int].key,
            decreases i - k,
        {
            if choices[k].key == choices[i].key {
                proof {
                    assert(first_clash(choices@, k as int, i as int));
                }
                return Err(
                    PromptError::DuplicateHotkey {
                        key: choices[i].key,
                        first_label: choices[k].label.clone(),
                        second_label: choices[i].label.clone(),
                    },
                );
            }
            k = k + 1;
        }
        proof {
            let next = choices@.take(i + 1);
            assert forall|a: int, b: int| 0 <= a < b < next.len() implies (#[trigger] next[a]).key
                != (#[trigger] next[b]).key by {
                if b < i {
                    assert(choices@.take(i as int)[a] == next[a]);
                    assert(choices@.take(i as int)[b] == next[b]);
                } else {
                    assert(next[a] == choices@[a]);
                }
            }
        }
        i = i + 1;
    }
    proof {
        assert(choices@.take(i as int) =~= choices@);
    }
    Ok(())
}

/// A body, a list of choices and a footer.
#[derive(Debug, Clone, PartialEq, Eq)]
pub struct ChoicePrompt<T> {
    /// Paragraphs shown above the choices.
    pub body: Vec<String>,
    /// The choices, in order.
    pub choices: Vec<PromptChoice<T>>,
    /// A line shown below the choices.
    pub footer: Option<String>,
    /// Whether Esc cancels the prompt.
    pub cancellable: bool,
    /// The choice under the cursor; `None` where there is no cursor.
    pub selected: Option<usize>,
    /// Whether `j` and `k` move the cursor too.
    pub vim_navigation: bool,
    /// Shown in the top border when the prompt is drawn as a modal.
    pub title: Option<String>,
}

/// The way the cursor moves.
#[derive(Debug, Clone, Copy, PartialEq, Eq, Structural)]
pub enum Direction {
    Up,
    Down,
}

/// The index of the first choice that can be picked.
pub open spec fn first_enabled<T>(choices: Seq<PromptChoice<T>>) -> Option<usize>
    decreases choices.len(),
{
    if choices.len() == 0 {
        None
    } else {
        match first_enabled(choices.drop_last()) {
            Some(i) => Some(i),
            None => if choices.last().enabled {
                Some((choices.len() - 1) as usize)
            } else {
                None
            },
        }
    }
}

/// The index `steps` away from `from`, round a ring of `len` choices.
pub open spec fn ring(from: int, steps: int, len: int, direction: Direction) -> int {
    match direction {
        Direction::Up => (from + len - steps) % len,
        Direction::Down => (from + steps) % len,
    }
}

/// Where a walk from `from` that has come `steps` far ends: on the first choice
/// that can be picked, or back at `from` if there is no other.
pub open spec fn walk<T>(
    choices: Seq<PromptChoice<T>>,
    from: int,
    steps: int,
    direction: Direction,
) -> int
    decreases choices.len() - steps,
{
    if steps >= choices.len() {
        from
    } else {
        let at = ring(from, steps, choices.len() as int, direction);
        if choices[at].enabled {
            at
        } else {
            walk(choices, from, steps + 1, direction)
        }
    }
}

/// Where the cursor goes from `from`.
pub open spec fn next_enabled<T>(
    choices: Seq<PromptChoice<T>>,
    from: int,
    direction: Direction,
) -> int {
    walk(choices, from, 1, direction)
}

/// The cursor after a movement.
pub open spec fn moved<T>(prompt: ChoicePrompt<T>, direction: Direction) -> Option<usize> {
    match prompt.selected {
        Some(i) => Some(next_enabled(prompt.choices@, i as int, direction) as usize),
        None => None,
    }
}

/// The way an input moves the cursor, if it does.
pub open spec fn movement<T>(prompt: ChoicePrompt<T>, input: Input) -> Option<Direction> {
    if prompt.selected is None {
        None
    } else {
        match input {
            Input::Up => Some(Direction::Up),
            Input::Down => Some(Direction::Down),
            Input::Char(c) => if prompt.vim_navigation && c == 'j' {
                Some(Direction::Down)
            } else if prompt.vim_navigation && c == 'k' {
                Some(Direction::Up)
            } else {
                None
            },
            _ => None,
        }
    }
}

/// Whether the cursor, if there is one, stands on a choice that can be picked.
pub open spec fn cursor_ok<T>(prompt: ChoicePrompt<T>) -> bool {
    match prompt.selected {
        Some(i) => i < prompt.choices@.len() && prompt.choices@[i as int].enabled,
        None => true,
    }
}

/// The index of the cursor and the number of choices add up within a machine
/// word, as they do for every cursor that stands on a choice.
pub open spec fn cursor_bounded<T>(prompt: ChoicePrompt<T>) -> bool {
    match prompt.selected {
        Some(i) => i + prompt.choices@.len() <= usize::MAX,
        None => true,
    }
}

impl<T> Default for ChoicePrompt<T> {
    fn default() -> (r: Self)
        ensures
            r.body@.len() == 0,
            r.choices@.len() == 0,
            r.footer is None,
            !r.cancellable,
            r.selected is None,
            !r.vim_navigation,
            r.title is None,
    {
        Self::new()
    }
}

impl<T> ChoicePrompt<T> {
    /// An empty prompt.
    pub fn new() -> (r: Self)
        ensures
            r.body@.len() == 0,
            r.choices@.len() == 0,
            r.footer is None,
            !r.cancellable,
            r.selected is None,
            !r.vim_navigation,
            r.title is None,
    {
        ChoicePrompt {
            body: Vec::new(),
            choices: Vec::new(),
            footer: None,
            cancellable: false,
            selected: None,
            vim_navigation: false,
            title: None,
        }
    }

    /// Add a paragraph to the body.
    pub fn body(self, line: impl Text) -> (r: Self)
        ensures
            texts(r.body@) == texts(self.body@).push(line.text()),
            r == (ChoicePrompt { body: r.body, ..self }),
    {
        let mut body: Vec<String> = self.body;
        body.push(line.into_text());
        ChoicePrompt { body, ..self }
    }

    /// Add an enabled choice.
    pub fn choice(self, key: impl Hotkey, value: T, label: impl Text) -> (r: Self)
        ensures
            r == (ChoicePrompt { choices: r.choices, ..self }),
            r.choices@.len() == self.choices@.len() + 1,
            r.choices@.drop_last() == self.choices@,
            r.choices@.last().key == key.hotkey(),
            r.choices@.last().label@ == label.text(),
            r.choices@.last().value == value,
            r.choices@.last().enabled,
            r.choices@.last().disabled_reason is None,
            r.choices@.last().hint is None,
            r.choices@.last().style is None,
    {
        let mut choices: Vec<PromptChoice<T>> = self.choices;
        choices.push(PromptChoice::new(key, label, value));
        proof {
            assert(choices@.drop_last() =~= self.choices@);
        }
        ChoicePrompt { choices, ..self }
    }

    /// Disable the choice added last, if the condition holds. Without a choice,
    /// or where the condition does not hold, nothing changes.
    pub fn disabled_if(self, cond: bool, reason: impl Text) -> (r: Self)
        ensures
            r == (ChoicePrompt { choices: r.choices, ..self }),
            !cond || self.choices@.len() == 0 ==> r.choices@ == self.choices@,
            cond && self.choices@.len() > 0 ==> {
                &&& r.choices@.len() == self.choices@.len()
                &&& r.choices@.drop_last() == self.choices@.drop_last()
                &&& r.choices@.last() == (PromptChoice {
                    enabled: false,
                    disabled_reason: r.choices@.last().disabled_reason,
                    ..self.choices@.last()
                })
                &&& opt_text(r.choices@.last().disabled_reason) == Some(reason.text())
            },
    {
        let mut choices: Vec<PromptChoice<T>> = self.choices;
        if cond {
            match choices.pop() {
                Some(last) => {
                    choices.push(last.with_disabled_reason(reason));
                },
                None => {},
            }
        }
        proof {
            assert(choices@.drop_last() =~= self.choices@.drop_last());
            if !cond || self.choices@.len() == 0 {
                assert(choices@ =~= self.choices@);
            }
        }
        ChoicePrompt { choices, ..self }
    }

    /// Set the footer.
    pub fn footer(self, footer: impl Text) -> (r: Self)
        ensures
            r == (ChoicePrompt { footer: r.footer, ..self }),
            opt_text(r.footer) == Some(footer.text()),
    {
        ChoicePrompt { footer: Some(footer.into_text()), ..self }
    }

    /// Set the title of the modal.
    pub fn title(self, title: impl Text) -> (r: Self)
        ensures
            r == (ChoicePrompt { title: r.title, ..self }),
            opt_text(r.title) == Some(title.text()),
    {
        ChoicePrompt { title: Some(title.into_text()), ..self }
    }

    /// Say whether Esc cancels the prompt.
    pub fn cancellable(self, cancellable: bool) -> (r: Self)
        ensures
            r == (ChoicePrompt { cancellable, ..self }),
    {
        ChoicePrompt { cancellable, ..self }
    }

    /// Give the prompt a cursor on its first enabled choice, or take the cursor
    /// away. A prompt without an enabled choice gets no cursor.
    pub fn navigable(self, enabled: bool) -> (r: Self)
        ensures
            r == (ChoicePrompt {
                selected: if enabled {
                    first_enabled(self.choices@)
                } else {
                    None
                },
                ..self
            }),
            cursor_ok(r),
    {
        let mut selected: Option<usize> = None;
        if enabled {
            let mut i: usize = 0;
            proof {
                assert(self.choices@.take(0) =~= seq![]);
            }
            while i < self.choices.len() && selected.is_none()
                invariant
                    i <= self.choices@.len(),
                    selected == first_enabled(self.choices@.take(i as int)),
                    selected is Some ==> selected->0 < i && self.choices@[selected->0 as int].enabled,
                decreases self.choices@.len() - i,
            {
                proof {
                    assert(self.choices@.take(i + 1).drop_last() =~= self.choices@.take(i as int));
                }
                if self.choices[i].enabled {
                    selected = Some(i);
                }
                i = i + 1;
            }
            proof {
                lemma_first_enabled_stays(self.choices@, i as int);
            }
        }
        ChoicePrompt { selected, ..self }
    }

    /// Say whether `j` and `k` move the cursor as the arrow keys do.
    pub fn vim_navigation(self, enabled: bool) -> (r: Self)
        ensures
            r == (ChoicePrompt { vim_navigation: enabled, ..self }),
    {
        ChoicePrompt { vim_navigation: enabled, ..self }
    }

    /// Move the cursor if the input asks for it. Gives `false`, and changes
    /// nothing, for every input that does not move the cursor.
    pub fn step_from_input(&mut self, input: Input) -> (consumed: bool)
        requires
            cursor_bounded(*old(self)),
        ensures
            consumed == (movement(*old(self), input) is Some),
            *final(self) == (ChoicePrompt {
                selected: match movement(*old(self), input) {
                    Some(direction) => moved(*old(self), direction),
                    None => old(self).selected,
                },
                ..*old(self)
            }),
    {
        if self.selected.is_none() {
            return false;
        }
        match input {
            Input::Up => {
                self.move_up();
                true
            },
            Input::Down => {
                self.move_down();
                true
            },
            Input::Char(c) => {
                if self.vim_navigation && c == 'j' {
                    self.move_down();
                    true
                } else if self.vim_navigation && c == 'k' {
                    self.move_up();
                    true
                } else {
                    false
                }
            },
            _ => false,
        }
    }

    /// Check that no two choices share a hotkey.
    pub fn validate(&self) -> (r: Result<(), PromptError>)
        ensures
            validated(self.choices@, r),
    {
        validate_choices(self.choices.as_slice())
    }

    /// Move the cursor to the enabled choice before it, round the list.
    pub fn move_up(&mut self)
        requires
            cursor_bounded(*old(self)),
        ensures
            *final(self) == (ChoicePrompt { selected: moved(*old(self), Direction::Up), ..*old(self) }),
    {
        self.step_selection(Direction::Up);
    }

    /// Move the cursor to the enabled choice after it, round the list.
    pub fn move_down(&mut self)
        requires
            cursor_bounded(*old(self)),
        ensures
            *final(self) == (ChoicePrompt {
                selected: moved(*old(self), Direction::Down),
                ..*old(self)
            }),
    {
        self.step_selection(Direction::Down);
    }

    /// Move the cursor to the next enabled choice in a direction, round the
    /// list. Without a cursor, or without another enabled choice, nothing
    /// changes.
    fn step_selection(&mut self, direction: Direction)
        requires
            cursor_bounded(*old(self)),
        ensures
            *final(self) == (ChoicePrompt { selected: moved(*old(self), direction), ..*old(self) }),
    {
        let current: usize = match self.selected {
            Some(i) => i,
            None => {
                return;
            },
        };
        let len: usize = self.choices.len();
        let mut step: usize = 1;
        while step < len
            invariant
                1 <= step,
                len == self.choices@.len(),
                self.selected == Some(current),
                *self == *old(self),
                current + len <= usize::MAX,
                next_enabled(self.choices@, current as int, direction) == walk(
                    self.choices@,
                    current as int,
                    step as int,
                    direction,
                ),
            decreases len - step,
        {
            let at: usize = match direction {
                Direction::Up => (current + len - step) % len,
                Direction::Down => (current + step) % len,
            };
            if self.choices[at].enabled {
                self.selected = Some(at);
                return;
            }
            step = step + 1;
        }
    }
}

/// Choices after the first enabled one do not change which is the first.
proof fn lemma_first_enabled_stays<T>(choices: Seq<PromptChoice<T>>, n: int)
    requires
        0 <= n <= choices.len(),
        n == choices.len() || first_enabled(choices.take(n)) is Some,
    ensures
        first_enabled(choices) == first_enabled(choices.take(n)),
    decreases choices.len(),
{
    if n == choices.len() {
        assert(choices.take(n) =~= choices);
    } else {
        assert(choices.drop_last().take(n) =~= choices.take(n));
        lemma_first_enabled_stays(choices.drop_last(), n);
    }
}

/// A ring position, without division.
proof fn lemma_ring(from: int, steps: int, len: int)
    requires
        0 <= from < len,
        0 <= steps <= len,
    ensures
        ring(from, steps, len, Direction::Down) == if from + steps < len {
            from + steps
        } else {
            from + steps - len
        },
        ring(from, steps, len, Direction::Up) == if from >= steps {
            from - steps
        } else {
            from + len - steps
        },
{
    if from + steps < len {
        vstd::arithmetic::div_mod::lemma_small_mod((from + steps) as nat, len as nat);
    } else {
        vstd::arithmetic::div_mod::lemma_small_mod((from + steps - len) as nat, len as nat);
        vstd::arithmetic::div_mod::lemma_mod_add_multiples_vanish(from + steps - len, len);
    }
    if from >= steps {
        vstd::arithmetic::div_mod::lemma_small_mod((from - steps) as nat, len as nat);
        vstd::arithmetic::div_mod::lemma_mod_add_multiples_vanish(from - steps, len);
    } else {
        vstd::arithmetic::div_mod::lemma_small_mod((from + len - steps) as nat, len as nat);
    }
}

/// A walk ends at the first enabled choice on its way, `k` steps from the start,
/// or passes none and ends where it began.
proof fn lemma_walk<T>(
    choices: Seq<PromptChoice<T>>,
    from: int,
    steps: int,
    direction: Direction,
) -> (k: int)
    requires
        0 <= from < choices.len(),
        1 <= steps <= choices.len(),
    ensures
        steps <= k <= choices.len(),
        k < choices.len() ==> {
            &&& walk(choices, from, steps, direction) == ring(
                from,
                k,
                choices.len() as int,
                direction,
            )
            &&& choices[ring(from, k, choices.len() as int, direction)].enabled
        },
        k == choices.len() ==> walk(choices, from, steps, direction) == from,
        forall|s: int|
            steps <= s < k ==> !(#[trigger] choices[ring(
                from,
                s,
                choices.len() as int,
                direction,
            )]).enabled,
    decreases choices.len() - steps,
{
    if steps >= choices.len() {
        steps
    } else {
        lemma_ring(from, steps, choices.len() as int);
        if choices[ring(from, steps, choices.len() as int, direction)].enabled {
            steps
        } else {
            lemma_walk(choices, from, steps + 1, direction)
        }
    }
}

/// A movement is decided by the first enabled choice on its way.
proof fn lemma_walk_to<T>(
    choices: Seq<PromptChoice<T>>,
    from: int,
    steps: int,
    k: int,
    direction: Direction,
)
    requires
        0 <= from < choices.len(),
        1 <= steps <= k < choices.len(),
        choices[ring(from, k, choices.len() as int, direction)].enabled,
        forall|s: int|
            steps <= s < k ==> !(#[trigger] choices[ring(
                from,
                s,
                choices.len() as int,
                direction,
            )]).enabled,
    ensures
        walk(choices, from, steps, direction) == ring(from, k, choices.len() as int, direction),
    decreases k - steps,
{
    if steps < k {
        assert(!choices[ring(from, steps, choices.len() as int, direction)].enabled);
        lemma_walk_to(choices, from, steps + 1, k, direction);
    }
}

/// The other direction.
pub open spec fn opposite(direction: Direction) -> Direction {
    match direction {
        Direction::Up => Direction::Down,
        Direction::Down => Direction::Up,
    }
}

/// Moving keeps the cursor on a choice that can be picked.
pub proof fn moving_keeps_cursor_ok<T>(prompt: ChoicePrompt<T>, direction: Direction)
    requires
        cursor_ok(prompt),
    ensures
        cursor_ok(ChoicePrompt { selected: moved(prompt, direction), ..prompt }),
        moved(prompt, direction) is None <==> prompt.selected is None,
{
    if prompt.selected is Some {
        let from = prompt.selected->0 as int;
        let len = prompt.choices.len() as int;
        let k = lemma_walk(prompt.choices@, from, 1, direction);
        if k < len {
            lemma_ring(from, k, len);
        }
    }
}

/// Wherever the cursor stands, a movement puts it on an enabled choice or
/// leaves it where it is, and it leaves it only where no other choice is
/// enabled.
pub proof fn moving_reaches_an_enabled_choice<T>(prompt: ChoicePrompt<T>, direction: Direction)
    requires
        prompt.selected is Some,
        prompt.selected->0 < prompt.choices@.len(),
    ensures
        ({
            let from = prompt.selected->0;
            let to = moved(prompt, direction)->0;
            &&& to < prompt.choices@.len()
            &&& to != from ==> prompt.choices@[to as int].enabled
            &&& to == from ==> forall|i: int|
                0 <= i < prompt.choices@.len() && i != from ==> !(
                #[trigger] prompt.choices@[i]).enabled
        }),
{
    let from = prompt.selected->0 as int;
    let len = prompt.choices.len() as int;
    let k = lemma_walk(prompt.choices@, from, 1, direction);
    if k < len {
        lemma_ring(from, k, len);
    } else {
        assert forall|i: int| 0 <= i < len && i != from implies !(
        #[trigger] prompt.choices@[i]).enabled by {
            let s = match direction {
                Direction::Up => if i < from {
                    from - i
                } else {
                    from + len - i
                },
                Direction::Down => if i > from {
                    i - from
                } else {
                    i + len - from
                },
            };
            lemma_ring(from, s, len);
            assert(ring(from, s, len, direction) == i);
        }
    }
}

/// A movement and the opposite movement bring the cursor back.
pub proof fn moving_back_returns<T>(prompt: ChoicePrompt<T>, direction: Direction)
    requires
        cursor_ok(prompt),
    ensures
        moved(
            ChoicePrompt { selected: moved(prompt, direction), ..prompt },
            opposite(direction),
        ) == prompt.selected,
{
    if prompt.selected is Some {
        let choices = prompt.choices@;
        let from = prompt.selected->0 as int;
        let len = prompt.choices.len() as int;
        let back = opposite(direction);
        let k = lemma_walk(choices, from, 1, direction);
        if k < len {
            lemma_ring(from, k, len);
            let to = ring(from, k, len, direction);
            lemma_ring(to, k, len);
            assert(ring(to, k, len, back) == from);
            assert forall|s: int| 1 <= s < k implies !(#[trigger] choices[ring(
                to,
                s,
                len,
                back,
            )]).enabled by {
                lemma_ring(to, s, len);
                lemma_ring(from, k - s, len);
                assert(ring(to, s, len, back) == ring(from, k - s, len, direction));
            }
            lemma_walk_to(choices, to, 1, k, back);
        } else {
            let j = lemma_walk(choices, from, 1, back);
            if j < len {
                lemma_ring(from, j, len);
                lemma_ring(from, len - j, len);
                assert(ring(from, j, len, back) == ring(from, len - j, len, direction));
            }
        }
    }
}

/// What an input comes to: it is ignored, cancels the prompt, or picks a choice.
pub enum Route {
    Ignored,
    Cancel,
    Pick(int),
}

/// The first choice with a hotkey.
pub open spec fn first_bound<T>(choices: Seq<PromptChoice<T>>, key: PromptKey) -> Option<int>
    decreases choices.len(),
{
    if choices.len() == 0 {
        None
    } else {
        match first_bound(choices.drop_last(), key) {
            Some(i) => Some(i),
            None => if choices.last().key == key {
                Some(choices.len() - 1)
            } else {
                None
            },
        }
    }
}

/// Where a prompt routes an input.
///
/// Esc cancels a cancellable prompt. Enter picks the choice under the cursor. A
/// character picks the first choice with that hotkey, enabled or not.
pub open spec fn route<T>(prompt: ChoicePrompt<T>, input: Input) -> Route {
    match input_key(input) {
        None => Route::Ignored,
        Some(PromptKey::Esc) => if prompt.cancellable {
            Route::Cancel
        } else {
            Route::Ignored
        },
        Some(PromptKey::Enter) => match prompt.selected {
            Some(i) => if i < prompt.choices@.len() {
                Route::Pick(i as int)
            } else {
                Route::Ignored
            },
            None => Route::Ignored,
        },
        Some(PromptKey::Char(c)) => match first_bound(prompt.choices@, PromptKey::Char(c)) {
            Some(i) => Route::Pick(i),
            None => Route::Ignored,
        },
    }
}

/// What sending an input through a prompt gives back.
#[derive(Debug, Clone, PartialEq, Eq)]
pub enum PromptAction<T> {
    /// The input does not concern the prompt.
    Ignored,
    /// An enabled choice was picked.
    Selected(T),
    /// A disabled choice was picked.
    Disabled { id: T, reason: Option<String> },
    /// The prompt was cancelled.
    Cancelled,
    /// A choice was picked that asks for a confirmation first.
    ConfirmRequested(T),
}

/// Whether an outcome is that of picking a choice.
pub open spec fn picks<T: Clone>(action: PromptAction<T>, choice: PromptChoice<T>) -> bool {
    match action {
        PromptAction::Selected(value) => choice.enabled && cloned(choice.value, value),
        PromptAction::Disabled { id, reason } => !choice.enabled && cloned(choice.value, id)
            && reason == choice.disabled_reason,
        _ => false,
    }
}

/// Whether an outcome is the one a prompt owes for an input.
pub open spec fn answers<T: Clone>(
    action: PromptAction<T>,
    prompt: ChoicePrompt<T>,
    input: Input,
) -> bool {
    match route(prompt, input) {
        Route::Ignored => action is Ignored,
        Route::Cancel => action is Cancelled,
        Route::Pick(i) => picks(action, prompt.choices@[i]),
    }
}

impl<T: Clone> PromptChoice<T> {
    /// The outcome of picking this choice.
    fn pick(&self) -> (r: PromptAction<T>)
        ensures
            picks(r, *self),
    {
        if self.enabled {
            PromptAction::Selected(self.value.clone())
        } else {
            PromptAction::Disabled {
                id: self.value.clone(),
                reason: clone_opt(&self.disabled_reason),
            }
        }
    }
}

impl<T: Clone> ChoicePrompt<T> {
    /// Send an input through the prompt.
    pub fn handle(&self, input: Input) -> (r: PromptAction<T>)
        ensures
            answers(r, *self, input),
    {
        let key: PromptKey = match PromptKey::from_input(input) {
            Some(key) => key,
            None => {
                return PromptAction::Ignored;
            },
        };
        if key == PromptKey::Esc && self.cancellable {
            return PromptAction::Cancelled;
        }
        if key == PromptKey::Enter {
            match self.selected {
                Some(i) => {
                    if i < self.choices.len() {
                        return self.choices[i].pick();
                    }
                },
                None => {},
            }
        }
        match key {
            PromptKey::Char(_) => {
                let mut i: usize = 0;
                proof {
                    assert(self.choices@.take(0) =~= seq![]);
                }
                while i < self.choices.len()
                    invariant
                        i <= self.choices@.len(),
                        input_key(input) == Some(key),
                        key is Char,
                        first_bound(self.choices@.take(i as int), key) is None,
                    decreases self.choices@.len() - i,
                {
                    proof {
                        assert(self.choices@.take(i + 1).drop_last() =~= self.choices@.take(
                            i as int,
                        ));
                    }
                    if self.choices[i].key == key {
                        proof {
                            lemma_first_bound_stays(self.choices@, i + 1, key);
                        }
                        return self.choices[i].pick();
                    }
                    i = i + 1;
                }
                proof {
                    assert(self.choices@.take(i as int) =~= self.choices@);
                }
            },
            _ => {},
        }
        PromptAction::Ignored
    }
}

/// Choices after the first one with a hotkey do not change which is the first.
proof fn lemma_first_bound_stays<T>(choices: Seq<PromptChoice<T>>, n: int, key: PromptKey)
    requires
        0 <= n <= choices.len(),
        first_bound(choices.take(n), key) is Some,
    ensures
        first_bound(choices, key) == first_bound(choices.take(n), key),
    decreases choices.len(),
{
    if n == choices.len() {
        assert(choices.take(n) =~= choices);
    } else {
        assert(choices.drop_last().take(n) =~= choices.take(n));
        lemma_first_bound_stays(choices.drop_last(), n, key);
    }
}

/// The first choice with a hotkey has it, and no choice before it does; where
/// there is none, no choice has it.
proof fn lemma_first_bound<T>(choices: Seq<PromptChoice<T>>, key: PromptKey)
    ensures
        match first_bound(choices, key) {
            Some(i) => 0 <= i < choices.len() && choices[i].key == key && forall|k: int|
                0 <= k < i ==> (#[trigger] choices[k]).key != key,
            None => forall|k: int| 0 <= k < choices.len() ==> (#[trigger] choices[k]).key != key,
        },
    decreases choices.len(),
{
    if choices.len() > 0 {
        let front = choices.drop_last();
        lemma_first_bound(front, key);
        assert forall|k: int| 0 <= k < front.len() implies front[k] == #[trigger] choices[k] by {
        }
    }
}

/// In a prompt without clashing hotkeys every choice is reached by its own
/// hotkey, enabled or not, in either case.
pub proof fn every_hotkey_reaches_its_choice<T>(prompt: ChoicePrompt<T>, i: int, c: char)
    requires
        keys_distinct(prompt.choices@),
        0 <= i < prompt.choices@.len(),
        prompt.choices@[i].key == char_key(c),
    ensures
        route(prompt, Input::Char(c)) == Route::Pick(i),
        route(prompt, Input::Char(lower(c))) == Route::Pick(i),
        route(prompt, Input::Char(upper(c))) == Route::Pick(i),
{
    lemma_first_bound(prompt.choices@, char_key(c));
    lower_folds_case(c);
}

/// Nothing but a character, Enter or Esc has an effect on a prompt; in
/// particular a resize never picks a choice.
pub proof fn other_inputs_are_ignored<T>(prompt: ChoicePrompt<T>, input: Input)
    requires
        !(input is Char || input is Enter || input is Esc),
    ensures
        route(prompt, input) is Ignored,
{
}

/// Enter on a fresh cursor always picks an enabled choice.
pub proof fn enter_picks_the_cursor<T>(prompt: ChoicePrompt<T>)
    requires
        cursor_ok(prompt),
        prompt.selected is Some,
    ensures
        route(prompt, Input::Enter) == Route::Pick(prompt.selected->0 as int),
        prompt.choices@[prompt.selected->0 as int].enabled,
{
}

/// Whether `to` is the enabled choice that comes first on the way from `from`, down
/// the list and on from its top.
pub open spec fn next_below<T>(choices: Seq<PromptChoice<T>>, from: int, to: int) -> bool {
    ||| from < to < choices.len() && choices[to].enabled && forall|i: int|
        from < i < to ==> !(#[trigger] choices[i]).enabled
    ||| 0 <= to < from && choices[to].enabled && (forall|i: int|
        from < i < choices.len() || 0 <= i < to ==> !(#[trigger] choices[i]).enabled)
    ||| to == from && forall|i: int|
        0 <= i < choices.len() && i != from ==> !(#[trigger] choices[i]).enabled
}

/// Whether `to` is the enabled choice that comes first on the way from `from`, up
/// the list and on from its end.
pub open spec fn next_above<T>(choices: Seq<PromptChoice<T>>, from: int, to: int) -> bool {
    ||| 0 <= to < from && choices[to].enabled && forall|i: int|
        to < i < from ==> !(#[trigger] choices[i]).enabled
    ||| from < to < choices.len() && choices[to].enabled && (forall|i: int|
        0 <= i < from || to < i < choices.len() ==> !(#[trigger] choices[i]).enabled)
    ||| to == from && forall|i: int|
        0 <= i < choices.len() && i != from ==> !(#[trigger] choices[i]).enabled
}

/// Down moves the cursor to the nearest enabled choice below it, Up to the nearest
/// above it, each round the list. Where that is switched on, `j` does the same as
/// Down and `k` the same as Up. Nothing else moves the cursor, and nothing does where
/// there is none.
pub proof fn arrows_move_to_the_nearest_choice<T>(prompt: ChoicePrompt<T>, input: Input)
    ensures
        movement(prompt, input) is Some <==> prompt.selected is Some && (input == Input::Up || input
            == Input::Down || (prompt.vim_navigation && (input == Input::Char('j') || input
            == Input::Char('k')))),
        prompt.selected matches Some(from) ==> from < prompt.choices@.len() ==> {
            let down = input == Input::Down || (prompt.vim_navigation && input == Input::Char('j'));
            let up = input == Input::Up || (prompt.vim_navigation && input == Input::Char('k'));
            let to = moved(prompt, movement(prompt, input)->0);
            &&& down ==> to is Some && next_below(prompt.choices@, from as int, to->0 as int)
            &&& up ==> to is Some && next_above(prompt.choices@, from as int, to->0 as int)
        },
{
    if prompt.selected is Some && prompt.selected->0 < prompt.choices@.len() && movement(
        prompt,
        input,
    ) is Some {
        let direction = movement(prompt, input)->0;
        let choices = prompt.choices@;
        let len = prompt.choices.len() as int;
        let from = prompt.selected->0 as int;
        let k = lemma_walk(choices, from, 1, direction);
        moving_reaches_an_enabled_choice(prompt, direction);
        if k < len {
            lemma_ring(from, k, len);
            let to = ring(from, k, len, direction);
            assert forall|i: int|
                0 <= i < len && i != from && (match direction {
                    Direction::Down => if to > from {
                        from < i < to
                    } else {
                        i > from || i < to
                    },
                    Direction::Up => if to < from {
                        to < i < from
                    } else {
                        i < from || i > to
                    },
                }) implies !(#[trigger] choices[i]).enabled by {
                let s = match direction {
                    Direction::Up => if i < from {
                        from - i
                    } else {
                        from + len - i
                    },
                    Direction::Down => if i > from {
                        i - from
                    } else {
                        i + len - from
                    },
                };
                lemma_ring(from, s, len);
                assert(ring(from, s, len, direction) == i);
            }
        }
    }
}

/// A fresh cursor stands on the first choice that can be picked, and there is none
/// where no choice can be.
pub proof fn a_fresh_cursor_is_on_the_first_enabled_choice<T>(choices: Seq<PromptChoice<T>>)
    requires
        choices.len() <= usize::MAX,
    ensures
        first_enabled(choices) matches Some(i) ==> i < choices.len() && choices[i as int].enabled
            && forall|k: int| 0 <= k < i ==> !(#[trigger] choices[k]).enabled,
        first_enabled(choices) is None <==> forall|k: int|
            0 <= k < choices.len() ==> !(#[trigger] choices[k]).enabled,
    decreases choices.len(),
{
    if choices.len() > 0 {
        let front = choices.drop_last();
        a_fresh_cursor_is_on_the_first_enabled_choice(front);
        assert forall|k: int| 0 <= k < front.len() implies front[k] == #[trigger] choices[k] by {}
    }
}

/// Esc cancels a prompt that can be cancelled, and is ignored by any other.
pub proof fn esc_cancels_where_it_may<T: Clone>(prompt: ChoicePrompt<T>, action: PromptAction<T>)
    requires
        answers(action, prompt, Input::Esc),
    ensures
        action is Cancelled <==> prompt.cancellable,
        action is Ignored <==> !prompt.cancellable,
{
}

/// Only Esc cancels a prompt.
pub proof fn only_esc_cancels<T: Clone>(
    prompt: ChoicePrompt<T>,
    input: Input,
    action: PromptAction<T>,
)
    requires
        answers(action, prompt, input),
        action is Cancelled,
    ensures
        input == Input::Esc,
{
}

/// Picking an enabled choice hands back its value; picking a disabled one says so,
/// with its value and its reason.
pub open spec fn hands_back<T: Clone>(action: PromptAction<T>, choice: PromptChoice<T>) -> bool {
    &&& choice.enabled ==> (action matches PromptAction::Selected(value) && cloned(
        choice.value,
        value,
    ))
    &&& !choice.enabled ==> (action matches PromptAction::Disabled { id, reason } && cloned(
        choice.value,
        id,
    ) && reason == choice.disabled_reason)
}

/// A character picks the first choice whose hotkey is that character in either case,
/// enabled or not. A character that is no choice's hotkey is ignored.
pub proof fn characters_pick_by_hotkey<T: Clone>(
    prompt: ChoicePrompt<T>,
    c: char,
    action: PromptAction<T>,
    i: int,
)
    requires
        answers(action, prompt, Input::Char(c)),
    ensures
        0 <= i < prompt.choices@.len() && prompt.choices@[i].key == PromptKey::Char(lower(c)) && (
        forall|k: int|
            0 <= k < i ==> (#[trigger] prompt.choices@[k]).key != PromptKey::Char(lower(c)))
            ==> hands_back(action, prompt.choices@[i]),
        (forall|k: int|
            0 <= k < prompt.choices@.len() ==> (#[trigger] prompt.choices@[k]).key
                != PromptKey::Char(lower(c))) ==> action is Ignored,
{
    lemma_first_bound(prompt.choices@, PromptKey::Char(lower(c)));
}

/// Enter picks the choice under the cursor, whatever its hotkey is, and is ignored
/// where there is no cursor or it stands on no choice.
pub proof fn enter_picks_under_the_cursor<T: Clone>(
    prompt: ChoicePrompt<T>,
    action: PromptAction<T>,
)
    requires
        answers(action, prompt, Input::Enter),
    ensures
        prompt.selected matches Some(i) ==> i < prompt.choices@.len() ==> hands_back(
            action,
            prompt.choices@[i as int],
        ),
        prompt.selected is None || prompt.selected->0 >= prompt.choices@.len() ==> action is Ignored,
{
}

/// Choices are in order exactly if no two of them have the same hotkey, disabled or
/// not. The clash that is reported is the first that a reader of the list meets.
pub proof fn clashes_are_found_in_order<T>(choices: Seq<PromptChoice<T>>, i: int, j: int)
    ensures
        keys_distinct(choices) <==> forall|a: int, b: int|
            0 <= a < choices.len() && 0 <= b < choices.len() && a != b ==> (
            #[trigger] choices[a]).key != (#[trigger] choices[b]).key,
        first_clash(choices, i, j) ==> 0 <= i < j < choices.len() && choices[i].key
            == choices[j].key && !keys_distinct(choices) && forall|a: int, b: int|
            0 <= a < b < choices.len() && (#[trigger] choices[a]).key == (
            #[trigger] choices[b]).key ==> j <= b && (b == j ==> i <= a),
{
    if first_clash(choices, i, j) {
        let front = choices.take(j);
        assert forall|a: int, b: int|
            0 <= a < b < choices.len() && (#[trigger] choices[a]).key == (
            #[trigger] choices[b]).key implies j <= b && (b == j ==> i <= a) by {
            if b < j {
                assert(front[a] == choices[a] && front[b] == choices[b]);
            }
        }
    }
}

/// Choices pass exactly if no two have the same hotkey, enabled or not. Otherwise the
/// error names a hotkey that two of them have, and their labels in the order of the
/// list.
pub proof fn validation_finds_shared_hotkeys<T>(
    choices: Seq<PromptChoice<T>>,
    verdict: Result<(), PromptError>,
) -> (r: (int, int))
    requires
        validated(choices, verdict),
    ensures
        verdict is Ok <==> forall|a: int, b: int|
            0 <= a < b < choices.len() ==> (#[trigger] choices[a]).key != (
            #[trigger] choices[b]).key,
        verdict matches Err(PromptError::DuplicateHotkey { key, first_label, second_label }) ==> {
            &&& 0 <= r.0 < r.1 < choices.len()
            &&& choices[r.0].key == key
            &&& choices[r.1].key == key
            &&& choices[r.0].label == first_label
            &&& choices[r.1].label == second_label
            &&& forall|a: int, b: int|
                0 <= a < b < r.1 ==> (#[trigger] choices[a]).key != (#[trigger] choices[b]).key
        },
{
    match verdict {
        Ok(()) => (0, 0),
        Err(PromptError::DuplicateHotkey { key, first_label, second_label }) => {
            let (i, j) = choose|i: int, j: int|
                #![trigger choices[i], choices[j]]
                first_clash(choices, i, j) && key == choices[j].key && first_label
                    == choices[i].label && second_label == choices[j].label;
            clashes_are_found_in_order(choices, i, j);
            (i, j)
        },
    }
}

} // verus!
