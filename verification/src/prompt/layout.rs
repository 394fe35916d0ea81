//! Layout and drawing of choice prompts.

use ratatui::buffer::Buffer;
use vstd::prelude::*;

use crate::canvas::{
    border_shown, buffer_area, buffer_cells, content_keeps_the_border, draw_frame, draw_rows,
    frame_drawn, frame_inner, heading, inside, lemma_clip_inside, lemma_fit_same_dom, lemma_no_rows,
    lies_in, plain, row_views, rows_drawn, rows_fit, title_fits, visible, whole, Modifier, Rect,
    Row, Style,
};
use crate::prompt::block::{
    block_rows, block_rows_keep_text, lines_keep_the_text, split_lines_round_trip, text_lines,
    TextBlock,
};
use crate::prompt::choice::{ChoicePrompt, PromptChoice};
use crate::prompt::key::PromptKey;
use crate::text::{clone_all, opt_str, opt_text, push_char, texts, to_upper, upper};
use crate::wrap::{ink, lemma_ink_concat, lemma_rows_ink_concat, lemma_rows_ink_one, rows_ink};

verus! {

broadcast use vstd::string::group_string_axioms;

/// How a key is shown in the marker of a choice.
pub open spec fn glyph(key: PromptKey) -> Seq<char> {
    match key {
        PromptKey::Char(c) => seq![upper(c)],
        PromptKey::Enter => "Enter"@,
        PromptKey::Esc => "Esc"@,
    }
}

/// The text of a choice: `(K) label`, or `- [K] label` where it is disabled,
/// followed by the hint after two spaces, and by the reason in parentheses where
/// it is disabled.
pub open spec fn choice_text<T>(choice: PromptChoice<T>) -> Seq<char> {
    let marker = if choice.enabled {
        seq!['('] + glyph(choice.key) + seq![')', ' ']
    } else {
        seq!['-', ' ', '['] + glyph(choice.key) + seq![']', ' ']
    };
    let hint = match opt_text(choice.hint) {
        Some(hint) => seq![' ', ' '] + hint,
        None => seq![],
    };
    let reason = match opt_text(choice.disabled_reason) {
        Some(reason) => if choice.enabled {
            seq![]
        } else {
            seq![' ', '('] + reason + seq![')']
        },
        None => seq![],
    };
    marker + choice.label@ + hint + reason
}

/// A row of text, and whether it belongs to the choice under the cursor.
pub type MarkedRow = (Seq<char>, bool);

/// Rows that belong to no choice.
pub open spec fn unmarked(rows: Seq<Seq<char>>) -> Seq<MarkedRow> {
    rows.map_values(|row: Seq<char>| (row, false))
}

/// A blank row.
pub open spec fn blank() -> Seq<MarkedRow> {
    seq![(Seq::<char>::empty(), false)]
}

/// Whether choices are indented to make room for the cursor.
pub open spec fn indented<T>(prompt: ChoicePrompt<T>, width: u16) -> bool {
    prompt.selected is Some && width >= 3
}

/// The rows of the `k`-th choice. The first row under the cursor starts with
/// `> `, every other indented row with two spaces.
pub open spec fn choice_rows<T>(prompt: ChoicePrompt<T>, width: u16, k: int) -> Seq<MarkedRow> {
    let room = if indented(prompt, width) {
        (width - 2) as u16
    } else {
        width
    };
    let rows = block_rows(text_lines(choice_text(prompt.choices@[k])), room);
    let chosen = prompt.selected is Some && prompt.selected->0 == k;
    Seq::new(
        rows.len(),
        |i: int|
            (
                if !indented(prompt, width) {
                    rows[i]
                } else if chosen && i == 0 {
                    seq!['>', ' '] + rows[i]
                } else {
                    seq![' ', ' '] + rows[i]
                },
                chosen,
            ),
    )
}

/// The rows of the first `n` choices.
pub open spec fn choices_rows<T>(prompt: ChoicePrompt<T>, width: u16, n: nat) -> Seq<MarkedRow>
    decreases n,
{
    if n == 0 {
        seq![]
    } else {
        choices_rows(prompt, width, (n - 1) as nat) + choice_rows(prompt, width, n - 1)
    }
}

/// The rows of the body and the choices, with a blank row between them.
pub open spec fn upper_rows<T>(prompt: ChoicePrompt<T>, width: u16) -> Seq<MarkedRow> {
    let body = unmarked(block_rows(texts(prompt.body@), width));
    let gap = if body.len() > 0 && prompt.choices@.len() > 0 {
        blank()
    } else {
        seq![]
    };
    body + gap + choices_rows(prompt, width, prompt.choices@.len())
}

/// The rows of the footer, behind a blank row where anything stands above.
pub open spec fn footer_rows<T>(prompt: ChoicePrompt<T>, width: u16) -> Seq<MarkedRow> {
    match opt_text(prompt.footer) {
        Some(footer) => (if upper_rows(prompt, width).len() > 0 {
            blank()
        } else {
            seq![]
        }) + unmarked(block_rows(text_lines(footer), width)),
        None => seq![],
    }
}

/// The rows that ask for a choice, where there is one.
pub open spec fn label_rows<T>(prompt: ChoicePrompt<T>, width: u16) -> Seq<MarkedRow> {
    if prompt.choices@.len() > 0 {
        blank() + unmarked(block_rows(text_lines("Your choice:"@), width))
    } else {
        seq![]
    }
}

/// All rows of a prompt at a width; no width, no rows.
pub open spec fn prompt_rows<T>(prompt: ChoicePrompt<T>, width: u16) -> Seq<MarkedRow> {
    if width == 0 {
        seq![]
    } else {
        upper_rows(prompt, width) + footer_rows(prompt, width) + label_rows(prompt, width)
    }
}

/// The rows of a list with their marks.
pub open spec fn marked_views(rows: Seq<(String, bool)>) -> Seq<MarkedRow> {
    rows.map_values(|row: (String, bool)| (row.0@, row.1))
}

/// Rows with the style they are drawn in: the choice under the cursor is
/// reversed.
pub open spec fn cursor_styles(rows: Seq<MarkedRow>) -> Seq<Row> {
    rows.map_values(
        |row: MarkedRow|
            (
                row.0,
                if row.1 {
                    Style { add_modifier: Modifier { bits: 64 }, ..plain() }
                } else {
                    plain()
                },
            ),
    )
}

/// Show a key in the marker of a choice.
fn marker_glyph(key: &PromptKey) -> (r: String)
    ensures
        r@ == glyph(*key),
{
    match key {
        PromptKey::Char(c) => {
            let mut out: String = String::new();
            push_char(&mut out, to_upper(*c));
            assert(out@ =~= seq![upper(*c)]);
            out
        },
        PromptKey::Enter => "Enter".to_string(),
        PromptKey::Esc => "Esc".to_string(),
    }
}

/// Write out a choice in one line.
fn format_choice_row<T>(choice: &PromptChoice<T>) -> (r: String)
    ensures
        r@ == choice_text(*choice),
{
    proof {
        reveal_strlit("(");
        reveal_strlit(") ");
        reveal_strlit("- [");
        reveal_strlit("] ");
        reveal_strlit("  ");
        reveal_strlit(" (");
        reveal_strlit(")");
    }
    let mut row: String = String::new();
    if choice.enabled {
        row.append("(");
        row.append(marker_glyph(&choice.key).as_str());
        row.append(") ");
    } else {
        row.append("- [");
        row.append(marker_glyph(&choice.key).as_str());
        row.append("] ");
    }
    row.append(choice.label.as_str());
    match opt_str(&choice.hint) {
        Some(hint) => {
            row.append("  ");
            row.append(hint);
        },
        None => {},
    }
    if !choice.enabled {
        match opt_str(&choice.disabled_reason) {
            Some(reason) => {
                row.append(" (");
                row.append(reason);
                row.append(")");
            },
            None => {},
        }
    }
    assert(row@ =~= choice_text(*choice));
    row
}

/// Add rows that belong to no choice.
fn push_unmarked(rows: &mut Vec<(String, bool)>, more: &Vec<String>)
    ensures
        marked_views(final(rows)@) == marked_views(old(rows)@) + unmarked(texts(more@)),
{
    let ghost before = marked_views(rows@);
    let mut i: usize = 0;
    proof {
        assert(before + unmarked(texts(more@)).take(0) =~= before);
    }
    while i < more.len()
        invariant
            i <= more@.len(),
            marked_views(rows@) == before + unmarked(texts(more@)).take(i as int),
        decreases more@.len() - i,
    {
        let ghost so_far = marked_views(rows@);
        let ghost all = unmarked(texts(more@));
        rows.push((more[i].clone(), false));
        i = i + 1;
        proof {
            assert(all[i - 1] == (more@[i - 1]@, false));
            assert(marked_views(rows@) =~= so_far.push(all[i - 1]));
            assert(all.take(i as int) =~= all.take(i - 1).push(all[i - 1]));
            assert(marked_views(rows@) =~= before + all.take(i as int));
        }
    }
    assert(unmarked(texts(more@)).take(i as int) =~= unmarked(texts(more@)));
}

/// Add a blank row.
fn push_blank(rows: &mut Vec<(String, bool)>)
    ensures
        marked_views(final(rows)@) == marked_views(old(rows)@) + blank(),
{
    let ghost before = marked_views(rows@);
    rows.push((String::new(), false));
    assert(marked_views(rows@) =~= before + blank());
}

impl<T> ChoicePrompt<T> {
    /// The text that asks for a choice.
    fn prompt_label_text(&self) -> (r: &str)
        ensures
            r@ == "Your choice:"@,
    {
        "Your choice:"
    }

    /// The rows of the prompt, each with the mark of the choice under the
    /// cursor.
    fn rendered_rows(&self, width: u16) -> (r: Vec<(String, bool)>)
        ensures
            marked_views(r@) == prompt_rows(*self, width),
    {
        let mut rows: Vec<(String, bool)> = Vec::new();
        assert(marked_views(rows@) =~= seq![]);
        if width == 0 {
            return rows;
        }
        let block = TextBlock::from_lines(clone_all(&self.body));
        assert(block.line_texts() =~= texts(self.body@));
        push_unmarked(&mut rows, &block.wrapped_rows(width));
        if rows.len() > 0 && self.choices.len() > 0 {
            push_blank(&mut rows);
        }
        let ghost head = marked_views(rows@);
        let ghost body_rows = unmarked(block_rows(texts(self.body@), width));
        assert(head =~= body_rows + (if body_rows.len() > 0 && self.choices@.len() > 0 {
            blank()
        } else {
            seq![]
        }));
        let indent: bool = self.selected.is_some() && width >= 3;
        let room: u16 = if indent { width - 2 } else { width };
        let mut k: usize = 0;
        while k < self.choices.len()
            invariant
                k <= self.choices@.len(),
                width > 0,
                indent == indented(*self, width),
                room == if indented(*self, width) {
                    (width - 2) as u16
                } else {
                    width
                },
                marked_views(rows@) == head + choices_rows(*self, width, k as nat),
            decreases self.choices@.len() - k,
        {
            let ghost so_far = marked_views(rows@);
            let ghost own = choice_rows(*self, width, k as int);
            let line: String = format_choice_row(&self.choices[k]);
            let wrapped: Vec<String> = TextBlock::new(&line).wrapped_rows(room);
            let chosen: bool = match self.selected {
                Some(at) => at == k,
                None => false,
            };
            let ghost expected = block_rows(text_lines(choice_text(self.choices@[k as int])), room);
            assert(texts(wrapped@) == expected);
            let mut i: usize = 0;
            while i < wrapped.len()
                invariant
                    i <= wrapped@.len(),
                    texts(wrapped@) == expected,
                    own.len() == expected.len(),
                    own == choice_rows(*self, width, k as int),
                    expected == block_rows(
                        text_lines(choice_text(self.choices@[k as int])),
                        room,
                    ),
                    indent == indented(*self, width),
                    room == if indented(*self, width) {
                        (width - 2) as u16
                    } else {
                        width
                    },
                    chosen == (self.selected is Some && self.selected->0 == k),
                    marked_views(rows@) == so_far + own.take(i as int),
                decreases wrapped@.len() - i,
            {
                let mut row: String = String::new();
                proof {
                    reveal_strlit("> ");
                    reveal_strlit("  ");
                    assert(expected[i as int] == wrapped@[i as int]@);
                }
                if indent {
                    if chosen && i == 0 {
                        row.append("> ");
                    } else {
                        row.append("  ");
                    }
                }
                row.append(wrapped[i].as_str());
                proof {
                    assert(own[i as int] == (row@, chosen)) by {
                        assert(row@ =~= own[i as int].0);
                    }
                }
                let ghost before = marked_views(rows@);
                rows.push((row, chosen));
                i = i + 1;
                proof {
                    assert(own.take(i as int) =~= own.take(i - 1).push(own[i - 1]));
                    assert(marked_views(rows@) =~= before.push(own[i - 1]));
                    assert(marked_views(rows@) =~= so_far + own.take(i as int));
                }
            }
            k = k + 1;
            proof {
                assert(own.take(i as int) =~= own);
                assert(marked_views(rows@) =~= head + choices_rows(*self, width, k as nat));
            }
        }
        assert(marked_views(rows@) =~= upper_rows(*self, width));
        match opt_str(&self.footer) {
            Some(footer) => {
                if rows.len() > 0 {
                    push_blank(&mut rows);
                }
                push_unmarked(&mut rows, &TextBlock::new(footer).wrapped_rows(width));
            },
            None => {},
        }
        assert(marked_views(rows@) =~= upper_rows(*self, width) + footer_rows(*self, width));
        if self.choices.len() > 0 {
            push_blank(&mut rows);
            push_unmarked(&mut rows, &TextBlock::new(self.prompt_label_text()).wrapped_rows(width));
        }
        assert(marked_views(rows@) =~= prompt_rows(*self, width));
        rows
    }

    /// The rows of the prompt at a width, from top to bottom: the body, the
    /// choices, the footer, and the line that asks for a choice, with blank rows
    /// between them.
    pub fn rendered_lines(&self, width: u16) -> (r: Vec<String>)
        ensures
            texts(r@) == prompt_rows(*self, width).map_values(|row: MarkedRow| row.0),
    {
        let rows: Vec<(String, bool)> = self.rendered_rows(width);
        let mut out: Vec<String> = Vec::new();
        let mut i: usize = 0;
        while i < rows.len()
            invariant
                i <= rows@.len(),
                out@.len() == i,
                forall|j: int| 0 <= j < i ==> (#[trigger] out@[j])@ == rows@[j].0@,
            decreases rows@.len() - i,
        {
            out.push(rows[i].0.clone());
            i = i + 1;
        }
        proof {
            let want = prompt_rows(*self, width).map_values(|row: MarkedRow| row.0);
            assert forall|j: int| 0 <= j < out@.len() implies texts(out@)[j]
                == #[trigger] want[j] by {
                assert(marked_views(rows@)[j] == (rows@[j].0@, rows@[j].1));
            }
            assert(texts(out@) =~= want);
        }
        out
    }

    /// Draw the prompt into an area, from the top; rows beyond its height are
    /// left out. Gives the number of rows drawn.
    pub fn render(&self, area: Rect, buf: &mut Buffer) -> (drawn: u16)
        requires
            rows_fit(
                buffer_cells(*old(buf)),
                buffer_area(*old(buf)),
                area,
                visible(cursor_styles(prompt_rows(*self, area.width)), area),
            ),
        ensures
            drawn == visible(cursor_styles(prompt_rows(*self, area.width)), area).len(),
            buffer_area(*final(buf)) == buffer_area(*old(buf)),
            rows_drawn(
                buffer_cells(*old(buf)),
                buffer_cells(*final(buf)),
                buffer_area(*old(buf)),
                area,
                visible(cursor_styles(prompt_rows(*self, area.width)), area),
            ),
    {
        let rows: Vec<(String, bool)> = self.rendered_rows(area.width);
        let reversed: Style = Style::default().add_modifier(Modifier::reversed());
        assert(0u16 | 64u16 == 64u16 && 0u16 & !64u16 == 0u16) by (bit_vector);
        let mut styled: Vec<(String, Style)> = Vec::new();
        let mut i: usize = 0;
        while i < rows.len()
            invariant
                i <= rows@.len(),
                styled@.len() == i,
                reversed == (Style { add_modifier: Modifier { bits: 64 }, ..plain() }),
                forall|j: int|
                    0 <= j < i ==> (#[trigger] styled@[j]).0@ == rows@[j].0@ && styled@[j].1
                        == if rows@[j].1 {
                        reversed
                    } else {
                        plain()
                    },
            decreases rows@.len() - i,
        {
            let style: Style = if rows[i].1 { reversed } else { Style::default() };
            styled.push((rows[i].0.clone(), style));
            i = i + 1;
        }
        proof {
            let want = cursor_styles(prompt_rows(*self, area.width));
            assert forall|j: int| 0 <= j < styled@.len() implies row_views(styled@)[j]
                == #[trigger] want[j] by {
                assert(marked_views(rows@)[j] == (rows@[j].0@, rows@[j].1));
            }
            assert(row_views(styled@) =~= want);
        }
        draw_rows(area, &styled, buf)
    }

    /// Draw the prompt with a border, and its title in the top edge. Gives the
    /// number of rows drawn inside the border. An area of less than two by two
    /// cells stays as it is.
    pub fn render_modal(&self, area: Rect, buf: &mut Buffer) -> (drawn: u16)
        requires
            area.width >= 2 && area.height >= 2 ==> {
                &&& whole(buffer_cells(*old(buf)), buffer_area(*old(buf)))
                &&& self.title is Some ==> title_fits(self.title->0@)
                &&& rows_fit(
                    buffer_cells(*old(buf)),
                    buffer_area(*old(buf)),
                    inside(area),
                    visible(cursor_styles(prompt_rows(*self, inside(area).width)), inside(area)),
                )
            },
        ensures
            buffer_area(*final(buf)) == buffer_area(*old(buf)),
            area.width < 2 || area.height < 2 ==> drawn == 0 && *final(buf) == *old(buf),
            area.width >= 2 && area.height >= 2 ==> {
                let rows = visible(
                    cursor_styles(prompt_rows(*self, inside(area).width)),
                    inside(area),
                );
                &&& drawn == rows.len()
                &&& rows_drawn(
                    frame_drawn(
                        buffer_cells(*old(buf)),
                        buffer_area(*old(buf)),
                        area,
                        opt_text(self.title),
                    ),
                    buffer_cells(*final(buf)),
                    buffer_area(*old(buf)),
                    inside(area),
                    rows,
                )
            },
            area.width >= 2 && area.height >= 2 && lies_in(area, buffer_area(*old(buf)))
                ==> border_shown(
                buffer_cells(*old(buf)),
                buffer_cells(*final(buf)),
                area,
                heading(opt_text(self.title)),
            ),
            buffer_cells(*final(buf)).dom() == buffer_cells(*old(buf)).dom(),
            forall|x: u16, y: u16|
                #![trigger buffer_cells(*final(buf))[(x, y)]]
                buffer_cells(*old(buf)).contains_key((x, y)) && !area.spans(x, y)
                    ==> buffer_cells(*final(buf))[(x, y)] == buffer_cells(*old(buf))[(x, y)],
    {
        if area.width < 2 || area.height < 2 {
            return 0;
        }
        let inner: Rect = frame_inner(area);
        draw_frame(area, opt_str(&self.title), buf);
        let ghost framed = buffer_cells(*buf);
        proof {
            let rows = visible(cursor_styles(prompt_rows(*self, inner.width)), inner);
            if lies_in(area, buffer_area(*buf)) {
                lemma_clip_inside(area, buffer_area(*buf));
            }
            lemma_fit_same_dom(
                buffer_cells(*old(buf)),
                buffer_cells(*buf),
                buffer_area(*buf),
                inner,
                rows,
            );
            lemma_no_rows(buffer_cells(*buf), buffer_area(*buf), inner);
            if inner.width == 0 || inner.height == 0 {
                assert(rows =~= seq![]);
            }
        }
        if inner.width == 0 || inner.height == 0 {
            return 0;
        }
        let drawn: u16 = self.render(inner, buf);
        proof {
            let cells = buffer_cells(*old(buf));
            let after = buffer_cells(*buf);
            if lies_in(area, buffer_area(*buf)) {
                content_keeps_the_border(
                    cells,
                    framed,
                    after,
                    buffer_area(*buf),
                    area,
                    heading(opt_text(self.title)),
                    visible(cursor_styles(prompt_rows(*self, inner.width)), inner),
                );
            }
            assert forall|x: u16, y: u16|
                #![trigger after[(x, y)]]
                cells.contains_key((x, y)) && !area.spans(x, y) implies after[(x, y)] == cells[(
                x,
                y,
            )] by {
                assert(framed.dom().contains((x, y)));
                assert(framed.contains_key((x, y)));
                assert(framed[(x, y)] == cells[(x, y)]);
            }
        }
        drawn
    }
}

/// Whether no row is wider than `width` characters.
pub open spec fn within_width(rows: Seq<MarkedRow>, width: u16) -> bool {
    forall|i: int| 0 <= i < rows.len() ==> (#[trigger] rows[i]).0.len() <= width
}

proof fn lemma_within_width_concat(a: Seq<MarkedRow>, b: Seq<MarkedRow>, width: u16)
    requires
        within_width(a, width),
        within_width(b, width),
    ensures
        within_width(a + b, width),
{
    assert forall|i: int| 0 <= i < (a + b).len() implies (#[trigger] (a + b)[i]).0.len()
        <= width by {
        if i < a.len() {
            assert((a + b)[i] == a[i]);
        } else {
            assert((a + b)[i] == b[i - a.len()]);
        }
    }
}

proof fn lemma_unmarked_within_width(lines: Seq<Seq<char>>, width: u16)
    requires
        width > 0,
    ensures
        within_width(unmarked(block_rows(lines, width)), width),
{
    let rows = block_rows(lines, width);
    block_rows_keep_text(lines, width);
    assert forall|i: int| 0 <= i < unmarked(rows).len() implies (#[trigger] unmarked(
        rows,
    )[i]).0.len() <= width by {
        assert(unmarked(rows)[i].0 == rows[i]);
    }
}

proof fn lemma_choices_within_width<T>(prompt: ChoicePrompt<T>, width: u16, n: nat)
    requires
        width > 0,
    ensures
        within_width(choices_rows(prompt, width, n), width),
    decreases n,
{
    if n > 0 {
        lemma_choices_within_width(prompt, width, (n - 1) as nat);
        let room = if indented(prompt, width) {
            (width - 2) as u16
        } else {
            width
        };
        let lines = text_lines(choice_text(prompt.choices@[n - 1]));
        let rows = block_rows(lines, room);
        block_rows_keep_text(lines, room);
        let own = choice_rows(prompt, width, n - 1);
        assert forall|i: int| 0 <= i < own.len() implies (#[trigger] own[i]).0.len() <= width by {
            assert(rows[i].len() <= room);
        }
        lemma_within_width_concat(choices_rows(prompt, width, (n - 1) as nat), own, width);
    }
}

/// No row of a prompt is wider than the prompt.
pub proof fn prompt_rows_stay_within_width<T>(prompt: ChoicePrompt<T>, width: u16)
    ensures
        within_width(prompt_rows(prompt, width), width),
{
    if width > 0 {
        let body = unmarked(block_rows(texts(prompt.body@), width));
        let gap = if body.len() > 0 && prompt.choices@.len() > 0 {
            blank()
        } else {
            seq![]
        };
        let choices = choices_rows(prompt, width, prompt.choices@.len());
        lemma_unmarked_within_width(texts(prompt.body@), width);
        lemma_choices_within_width(prompt, width, prompt.choices@.len());
        lemma_within_width_concat(body, gap, width);
        lemma_within_width_concat(body + gap, choices, width);
        let upper = upper_rows(prompt, width);
        let footer = footer_rows(prompt, width);
        if prompt.footer is Some {
            let lines = text_lines(prompt.footer->0@);
            let lead = if upper.len() > 0 {
                blank()
            } else {
                seq![]
            };
            lemma_unmarked_within_width(lines, width);
            lemma_within_width_concat(lead, unmarked(block_rows(lines, width)), width);
        }
        lemma_unmarked_within_width(text_lines("Your choice:"@), width);
        lemma_within_width_concat(
            blank(),
            unmarked(block_rows(text_lines("Your choice:"@), width)),
            width,
        );
        lemma_within_width_concat(upper, footer, width);
        lemma_within_width_concat(upper + footer, label_rows(prompt, width), width);
    }
}

/// Enabled and disabled choices differ in their first character, so that they
/// can be told apart without colour.
pub proof fn disabled_choices_look_different<T>(choice: PromptChoice<T>)
    ensures
        choice_text(choice).len() > 0,
        choice_text(choice)[0] == if choice.enabled {
            '('
        } else {
            '-'
        },
{
}

/// In a prompt without a cursor no row is marked.
pub proof fn no_cursor_no_mark<T>(prompt: ChoicePrompt<T>, width: u16)
    requires
        prompt.selected is None,
    ensures
        forall|i: int|
            0 <= i < prompt_rows(prompt, width).len() ==> !(#[trigger] prompt_rows(
                prompt,
                width,
            )[i]).1,
{
    lemma_choices_unmarked(prompt, width, prompt.choices@.len());
}

proof fn lemma_choices_unmarked<T>(prompt: ChoicePrompt<T>, width: u16, n: nat)
    requires
        prompt.selected is None,
    ensures
        forall|i: int|
            0 <= i < choices_rows(prompt, width, n).len() ==> !(#[trigger] choices_rows(
                prompt,
                width,
                n,
            )[i]).1,
    decreases n,
{
    if n > 0 {
        lemma_choices_unmarked(prompt, width, (n - 1) as nat);
        let front = choices_rows(prompt, width, (n - 1) as nat);
        let own = choice_rows(prompt, width, n - 1);
        assert forall|i: int| 0 <= i < (front + own).len() implies !(#[trigger] (front
            + own)[i]).1 by {
            if i < front.len() {
                assert((front + own)[i] == front[i]);
            } else {
                assert((front + own)[i] == own[i - front.len()]);
            }
        }
    }
}

/// An enabled choice without a hint reads `(K) label`; a disabled one without hint
/// and reason reads `- [K] label`. Letters are shown in upper case, the other keys by
/// their names.
pub proof fn choices_read_key_and_label<T>(choice: PromptChoice<T>)
    requires
        choice.hint is None,
    ensures
        choice.enabled ==> choice_text(choice) == seq!['('] + glyph(choice.key) + seq![')', ' ']
            + choice.label@,
        !choice.enabled && choice.disabled_reason is None ==> choice_text(choice) == seq![
            '-',
            ' ',
            '[',
        ] + glyph(choice.key) + seq![']', ' '] + choice.label@,
        choice.key matches PromptKey::Char(c) ==> glyph(choice.key) == seq![upper(c)],
        choice.key == PromptKey::Enter ==> glyph(choice.key) == seq!['E', 'n', 't', 'e', 'r'],
        choice.key == PromptKey::Esc ==> glyph(choice.key) == seq!['E', 's', 'c'],
{
    reveal_strlit("Enter");
    reveal_strlit("Esc");
    assert("Enter"@ =~= seq!['E', 'n', 't', 'e', 'r']);
    assert("Esc"@ =~= seq!['E', 's', 'c']);
    if choice.enabled {
        assert(choice_text(choice) =~= seq!['('] + glyph(choice.key) + seq![')', ' ']
            + choice.label@);
    } else if choice.disabled_reason is None {
        assert(choice_text(choice) =~= seq!['-', ' ', '['] + glyph(choice.key) + seq![']', ' ']
            + choice.label@);
    }
}

/// A hint stands two spaces behind the label, whether or not the choice is enabled.
/// A reason stands behind all else, in parentheses, where the choice is disabled, and
/// is not shown where it is enabled.
pub proof fn hints_and_reasons_follow_the_label<T>(choice: PromptChoice<T>)
    ensures
        ({
            let bare = PromptChoice { disabled_reason: None, ..choice };
            let barest = PromptChoice { hint: None, ..bare };
            &&& choice.hint matches Some(hint) ==> choice_text(bare) == choice_text(barest) + seq![
                ' ',
                ' ',
            ] + hint@
            &&& choice.disabled_reason matches Some(reason) ==> choice_text(choice)
                == if choice.enabled {
                choice_text(bare)
            } else {
                choice_text(bare) + seq![' ', '('] + reason@ + seq![')']
            }
        }),
{
    let bare = PromptChoice { disabled_reason: None, ..choice };
    let barest = PromptChoice { hint: None, ..bare };
    if choice.hint is Some {
        assert(choice_text(bare) =~= choice_text(barest) + seq![' ', ' '] + choice.hint->0@);
    }
    if choice.disabled_reason is Some {
        if choice.enabled {
            assert(choice_text(choice) =~= choice_text(bare));
        } else {
            assert(choice_text(choice) =~= choice_text(bare) + seq![' ', '(']
                + choice.disabled_reason->0@ + seq![')']);
        }
    }
}

proof fn lemma_ink_marks()
    ensures
        ink(seq!['(']) == seq!['('],
        ink(seq![')']) == seq![')'],
        ink(seq![')', ' ']) == seq![')'],
        ink(seq!['-', ' ', '[']) == seq!['-', '['],
        ink(seq![']', ' ']) == seq![']'],
        ink(seq![' ', ' ']) == Seq::<char>::empty(),
        ink(seq![' ', '(']) == seq!['('],
        ink(seq!['>', ' ']) == seq!['>'],
        ink(Seq::<char>::empty()) == Seq::<char>::empty(),
{
    reveal_with_fuel(ink, 4);
    assert(seq!['('].drop_last() =~= seq![]);
    assert(seq![')'].drop_last() =~= seq![]);
    assert(seq![')', ' '].drop_last() =~= seq![')']);
    assert(seq!['-', ' ', '['].drop_last() =~= seq!['-', ' ']);
    assert(seq!['-', ' '].drop_last() =~= seq!['-']);
    assert(seq!['-'].drop_last() =~= seq![]);
    assert(seq![']', ' '].drop_last() =~= seq![']']);
    assert(seq![']'].drop_last() =~= seq![]);
    assert(seq![' ', ' '].drop_last() =~= seq![' ']);
    assert(seq![' '].drop_last() =~= seq![]);
    assert(seq![' ', '('].drop_last() =~= seq![' ']);
    assert(seq!['>', ' '].drop_last() =~= seq!['>']);
    assert(seq!['>'].drop_last() =~= seq![]);
    assert(ink(seq!['(']) =~= seq!['(']);
    assert(ink(seq![')']) =~= seq![')']);
    assert(ink(seq![')', ' ']) =~= seq![')']);
    assert(ink(seq!['-', ' ', '[']) =~= seq!['-', '[']);
    assert(ink(seq![']', ' ']) =~= seq![']']);
    assert(ink(seq![' ', ' ']) =~= seq![]);
    assert(ink(seq![' ', '(']) =~= seq!['(']);
    assert(ink(seq!['>', ' ']) =~= seq!['>']);
}

/// The visible characters of a choice: the key in its marker, the label, the hint,
/// and the reason where it is disabled.
pub open spec fn choice_ink<T>(choice: PromptChoice<T>) -> Seq<char> {
    (if choice.enabled {
        seq!['('] + ink(glyph(choice.key)) + seq![')']
    } else {
        seq!['-', '['] + ink(glyph(choice.key)) + seq![']']
    }) + ink(choice.label@) + (match choice.hint {
        Some(hint) => ink(hint@),
        None => seq![],
    }) + (match choice.disabled_reason {
        Some(reason) => if choice.enabled {
            seq![]
        } else {
            seq!['('] + ink(reason@) + seq![')']
        },
        None => seq![],
    })
}

/// The characters of rows that carry marks.
pub open spec fn bare_rows(rows: Seq<MarkedRow>) -> Seq<Seq<char>> {
    rows.map_values(|row: MarkedRow| row.0)
}

proof fn lemma_bare_concat(a: Seq<MarkedRow>, b: Seq<MarkedRow>)
    ensures
        bare_rows(a + b) == bare_rows(a) + bare_rows(b),
        rows_ink(bare_rows(a + b)) == rows_ink(bare_rows(a)) + rows_ink(bare_rows(b)),
{
    assert(bare_rows(a + b) =~= bare_rows(a) + bare_rows(b));
    lemma_rows_ink_concat(bare_rows(a), bare_rows(b));
}

proof fn lemma_choice_text_ink<T>(choice: PromptChoice<T>)
    ensures
        ink(choice_text(choice)) == choice_ink(choice),
{
    lemma_ink_marks();
    let g = glyph(choice.key);
    let open = if choice.enabled {
        seq!['(']
    } else {
        seq!['-', ' ', '[']
    };
    let close = if choice.enabled {
        seq![')', ' ']
    } else {
        seq![']', ' ']
    };
    lemma_ink_concat(open, g);
    lemma_ink_concat(open + g, close);
    let marker = open + g + close;
    let hint = match opt_text(choice.hint) {
        Some(hint) => seq![' ', ' '] + hint,
        None => seq![],
    };
    let reason = match opt_text(choice.disabled_reason) {
        Some(reason) => if choice.enabled {
            seq![]
        } else {
            seq![' ', '('] + reason + seq![')']
        },
        None => seq![],
    };
    if choice.hint is Some {
        lemma_ink_concat(seq![' ', ' '], choice.hint->0@);
        assert(ink(hint) =~= ink(choice.hint->0@));
    }
    if choice.disabled_reason is Some && !choice.enabled {
        let r = choice.disabled_reason->0@;
        lemma_ink_concat(seq![' ', '('], r);
        lemma_ink_concat(seq![' ', '('] + r, seq![')']);
    }
    lemma_ink_concat(marker, choice.label@);
    lemma_ink_concat(marker + choice.label@, hint);
    lemma_ink_concat(marker + choice.label@ + hint, reason);
    assert(choice_text(choice) == marker + choice.label@ + hint + reason);
    assert(ink(choice_text(choice)) =~= choice_ink(choice));
}

/// The rows of a choice show its key, its label, its hint and, where it is disabled,
/// its reason, in that order and nothing else; the choice under the cursor has the
/// cursor in front, where there is room for it.
pub proof fn choices_show_all_they_hold<T>(prompt: ChoicePrompt<T>, width: u16, k: int)
    requires
        width > 0,
        0 <= k < prompt.choices@.len(),
    ensures
        rows_ink(bare_rows(choice_rows(prompt, width, k))) == (if width >= 3 && prompt.selected
            == Some(k as usize) && k <= usize::MAX {
            seq!['>']
        } else {
            seq![]
        }) + choice_ink(prompt.choices@[k]),
        forall|i: int|
            0 <= i < choice_rows(prompt, width, k).len() ==> (#[trigger] choice_rows(
                prompt,
                width,
                k,
            )[i]).1 == (prompt.selected is Some && prompt.selected->0 == k),
{
    let choice = prompt.choices@[k];
    let room = if indented(prompt, width) {
        (width - 2) as u16
    } else {
        width
    };
    let lines = text_lines(choice_text(choice));
    let rows = block_rows(lines, room);
    lines_keep_the_text(choice_text(choice));
    block_rows_keep_text(lines, room);
    lemma_choice_text_ink(choice);
    let own = choice_rows(prompt, width, k);
    let shown = bare_rows(own);
    let chosen = prompt.selected is Some && prompt.selected->0 == k;
    if !indented(prompt, width) {
        assert(shown =~= rows);
        assert(seq![] + choice_ink(choice) =~= choice_ink(choice));
    } else {
        assert(rows.len() > 0) by {
            lemma_lines_nonempty(choice_text(choice));
        }
        assert forall|i: int| 0 <= i < shown.len() implies #[trigger] shown[i] == (if chosen && i
            == 0 {
            seq!['>', ' ']
        } else {
            seq![' ', ' ']
        }) + rows[i] by {}
        lemma_indented_ink(shown, rows, chosen);
    }
}

proof fn lemma_lines_nonempty(s: Seq<char>)
    ensures
        text_lines(s).len() > 0,
{
    split_lines_round_trip(s);
}

proof fn lemma_indented_ink(shown: Seq<Seq<char>>, rows: Seq<Seq<char>>, chosen: bool)
    requires
        shown.len() == rows.len(),
        forall|i: int|
            0 <= i < shown.len() ==> #[trigger] shown[i] == (if chosen && i == 0 {
                seq!['>', ' ']
            } else {
                seq![' ', ' ']
            }) + rows[i],
    ensures
        rows.len() > 0 ==> rows_ink(shown) == (if chosen {
            seq!['>']
        } else {
            seq![]
        }) + rows_ink(rows),
        rows.len() == 0 ==> rows_ink(shown) == rows_ink(rows),
    decreases rows.len(),
{
    lemma_ink_marks();
    if rows.len() > 0 {
        let n = rows.len() - 1;
        let a = shown.drop_last();
        let b = rows.drop_last();
        assert forall|i: int| 0 <= i < a.len() implies #[trigger] a[i] == (if chosen && i == 0 {
            seq!['>', ' ']
        } else {
            seq![' ', ' ']
        }) + b[i] by {
            assert(a[i] == shown[i]);
        }
        lemma_indented_ink(a, b, chosen);
        assert(shown[n] == shown.last());
        let lead = if chosen && n == 0 {
            seq!['>', ' ']
        } else {
            seq![' ', ' ']
        };
        lemma_ink_concat(lead, rows.last());
        if n == 0 {
            assert(rows_ink(b) =~= seq![]);
            assert(rows_ink(a) =~= seq![]);
        }
        assert(rows_ink(shown) =~= (if chosen {
            seq!['>']
        } else {
            seq![]
        }) + rows_ink(rows));
    }
}

/// The visible characters of the first `n` choices, with the cursor in front of the
/// one it stands on.
pub open spec fn choices_ink<T>(prompt: ChoicePrompt<T>, width: u16, n: nat) -> Seq<char>
    decreases n,
{
    if n == 0 {
        seq![]
    } else {
        choices_ink(prompt, width, (n - 1) as nat) + (if width >= 3 && prompt.selected is Some
            && prompt.selected->0 == n - 1 {
            seq!['>']
        } else {
            seq![]
        }) + choice_ink(prompt.choices@[n - 1])
    }
}

proof fn lemma_choices_ink<T>(prompt: ChoicePrompt<T>, width: u16, n: nat)
    requires
        width > 0,
        n <= prompt.choices@.len(),
    ensures
        rows_ink(bare_rows(choices_rows(prompt, width, n))) == choices_ink(prompt, width, n),
    decreases n,
{
    if n == 0 {
        assert(bare_rows(choices_rows(prompt, width, n)) =~= seq![]);
    } else {
        lemma_choices_ink(prompt, width, (n - 1) as nat);
        choices_show_all_they_hold(prompt, width, n - 1);
        lemma_bare_concat(
            choices_rows(prompt, width, (n - 1) as nat),
            choice_rows(prompt, width, n - 1),
        );
        let len = prompt.choices.len();
        assert(prompt.selected == Some((n - 1) as usize) <==> prompt.selected is Some
            && prompt.selected->0 == n - 1);
        assert(rows_ink(bare_rows(choices_rows(prompt, width, n))) =~= choices_ink(
            prompt,
            width,
            n,
        ));
    }
}

proof fn lemma_unmarked_bare(rows: Seq<Seq<char>>)
    ensures
        bare_rows(unmarked(rows)) == rows,
{
    assert(bare_rows(unmarked(rows)) =~= rows);
}

proof fn lemma_blank_ink()
    ensures
        rows_ink(bare_rows(blank())) == Seq::<char>::empty(),
        rows_ink(bare_rows(Seq::<MarkedRow>::empty())) == Seq::<char>::empty(),
{
    assert(bare_rows(blank()) =~= seq![Seq::<char>::empty()]);
    lemma_rows_ink_one(Seq::<char>::empty());
    assert(ink(Seq::<char>::empty()) =~= seq![]);
    assert(bare_rows(Seq::<MarkedRow>::empty()) =~= seq![]);
}

/// A prompt shows its body, then every choice in order, then its footer, and then
/// asks for a choice where there is one; it shows all of that and nothing else.
pub proof fn prompts_show_all_they_hold<T>(prompt: ChoicePrompt<T>, width: u16)
    requires
        width > 0,
    ensures
        rows_ink(bare_rows(prompt_rows(prompt, width))) == rows_ink(texts(prompt.body@))
            + choices_ink(prompt, width, prompt.choices@.len()) + (match prompt.footer {
            Some(footer) => ink(footer@),
            None => seq![],
        }) + (if prompt.choices@.len() > 0 {
            ink("Your choice:"@)
        } else {
            seq![]
        }),
{
    let lines = texts(prompt.body@);
    let body = unmarked(block_rows(lines, width));
    let gap = if body.len() > 0 && prompt.choices@.len() > 0 {
        blank()
    } else {
        seq![]
    };
    let choices = choices_rows(prompt, width, prompt.choices@.len());
    lemma_blank_ink();
    lemma_unmarked_bare(block_rows(lines, width));
    block_rows_keep_text(lines, width);
    lemma_choices_ink(prompt, width, prompt.choices@.len());
    lemma_bare_concat(body, gap);
    lemma_bare_concat(body + gap, choices);
    let upper = upper_rows(prompt, width);
    assert(rows_ink(bare_rows(upper)) =~= rows_ink(lines) + choices_ink(
        prompt,
        width,
        prompt.choices@.len(),
    ));
    let footer = footer_rows(prompt, width);
    if prompt.footer is Some {
        let own = text_lines(prompt.footer->0@);
        let lead = if upper.len() > 0 {
            blank()
        } else {
            seq![]
        };
        lemma_unmarked_bare(block_rows(own, width));
        block_rows_keep_text(own, width);
        lines_keep_the_text(prompt.footer->0@);
        lemma_bare_concat(lead, unmarked(block_rows(own, width)));
        assert(rows_ink(bare_rows(footer)) =~= ink(prompt.footer->0@));
    }
    let label = label_rows(prompt, width);
    let ask = text_lines("Your choice:"@);
    lemma_unmarked_bare(block_rows(ask, width));
    block_rows_keep_text(ask, width);
    lines_keep_the_text("Your choice:"@);
    lemma_bare_concat(blank(), unmarked(block_rows(ask, width)));
    if prompt.choices@.len() > 0 {
        assert(rows_ink(bare_rows(label)) =~= ink("Your choice:"@));
    }
    lemma_bare_concat(upper, footer);
    lemma_bare_concat(upper + footer, label);
    assert(rows_ink(bare_rows(prompt_rows(prompt, width))) =~= rows_ink(lines) + choices_ink(
        prompt,
        width,
        prompt.choices@.len(),
    ) + (match prompt.footer {
        Some(footer) => ink(footer@),
        None => seq![],
    }) + (if prompt.choices@.len() > 0 {
        ink("Your choice:"@)
    } else {
        seq![]
    }));
}

/// The rows of a prompt are those of its body, its choices, its footer and the line
/// that asks for a choice. A blank row stands between the body and the choices, in
/// front of a footer that has anything above it, and in front of the line that asks.
pub proof fn parts_are_set_apart_by_blank_rows<T>(prompt: ChoicePrompt<T>, width: u16) -> (r: (
    Seq<MarkedRow>,
    Seq<MarkedRow>,
    Seq<MarkedRow>,
))
    requires
        width > 0,
    ensures
        ({
            let body = unmarked(block_rows(texts(prompt.body@), width));
            let choices = choices_rows(prompt, width, prompt.choices@.len());
            let footer = match prompt.footer {
                Some(footer) => unmarked(block_rows(text_lines(footer@), width)),
                None => seq![],
            };
            let label = if prompt.choices@.len() > 0 {
                unmarked(block_rows(text_lines("Your choice:"@), width))
            } else {
                seq![]
            };
            let blank = seq![(Seq::<char>::empty(), false)];
            &&& prompt_rows(prompt, width) == body + r.0 + choices + r.1 + footer + r.2 + label
            &&& r.0 == if prompt.body@.len() > 0 && prompt.choices@.len() > 0 {
                blank
            } else {
                seq![]
            }
            &&& r.1 == if prompt.footer is Some && (prompt.body@.len() > 0 || prompt.choices@.len()
                > 0) {
                blank
            } else {
                seq![]
            }
            &&& r.2 == if prompt.choices@.len() > 0 {
                blank
            } else {
                seq![]
            }
        }),
{
    let lines = texts(prompt.body@);
    let body = unmarked(block_rows(lines, width));
    let choices = choices_rows(prompt, width, prompt.choices@.len());
    let footer = match prompt.footer {
        Some(footer) => unmarked(block_rows(text_lines(footer@), width)),
        None => seq![],
    };
    let label = if prompt.choices@.len() > 0 {
        unmarked(block_rows(text_lines("Your choice:"@), width))
    } else {
        seq![]
    };
    block_rows_keep_text(lines, width);
    assert(body.len() >= lines.len());
    if lines.len() == 0 {
        assert(block_rows(lines, width) =~= seq![]);
    }
    lemma_choices_len(prompt, width, prompt.choices@.len());
    let a = if prompt.body@.len() > 0 && prompt.choices@.len() > 0 {
        blank()
    } else {
        seq![]
    };
    let b = if prompt.footer is Some && (prompt.body@.len() > 0 || prompt.choices@.len() > 0) {
        blank()
    } else {
        seq![]
    };
    let c = if prompt.choices@.len() > 0 {
        blank()
    } else {
        seq![]
    };
    assert(upper_rows(prompt, width) =~= body + a + choices);
    assert(footer_rows(prompt, width) =~= b + footer);
    assert(label_rows(prompt, width) =~= c + label);
    assert(prompt_rows(prompt, width) =~= body + a + choices + b + footer + c + label);
    (a, b, c)
}

proof fn lemma_choices_len<T>(prompt: ChoicePrompt<T>, width: u16, n: nat)
    requires
        width > 0,
        n <= prompt.choices@.len(),
    ensures
        choices_rows(prompt, width, n).len() >= n,
    decreases n,
{
    if n > 0 {
        lemma_choices_len(prompt, width, (n - 1) as nat);
        let room = if indented(prompt, width) {
            (width - 2) as u16
        } else {
            width
        };
        let lines = text_lines(choice_text(prompt.choices@[n - 1]));
        block_rows_keep_text(lines, room);
        lemma_lines_nonempty(choice_text(prompt.choices@[n - 1]));
    }
}

/// Choices are shown from the first to the last: one more choice adds its rows behind
/// those of the others.
pub proof fn choices_are_shown_in_order<T>(prompt: ChoicePrompt<T>, width: u16, k: int)
    requires
        0 <= k < prompt.choices@.len(),
    ensures
        choices_rows(prompt, width, (k + 1) as nat) == choices_rows(prompt, width, k as nat)
            + choice_rows(prompt, width, k),
        choices_rows(prompt, width, 0).len() == 0,
{
}

/// Where there is room for the cursor, the first row of the choice it stands on starts
/// with `> `, and every other row of every choice with two spaces. Without a cursor, or
/// without room for it, choices are not indented.
pub proof fn the_cursor_points_at_one_row<T>(prompt: ChoicePrompt<T>, width: u16, k: int, i: int)
    requires
        0 <= k < prompt.choices@.len(),
        0 <= i < choice_rows(prompt, width, k).len(),
    ensures
        ({
            let row = choice_rows(prompt, width, k)[i].0;
            let text = text_lines(choice_text(prompt.choices@[k]));
            &&& prompt.selected is Some && width >= 3 ==> row.len() >= 2 && row[1] == ' ' && row[0]
                == (if prompt.selected->0 == k && i == 0 {
                '>'
            } else {
                ' '
            }) && row.skip(2) == block_rows(text, (width - 2) as u16)[i]
            &&& prompt.selected is None || width < 3 ==> row == block_rows(text, width)[i]
        }),
{
    let row = choice_rows(prompt, width, k)[i].0;
    if prompt.selected is Some && width >= 3 {
        let text = text_lines(choice_text(prompt.choices@[k]));
        assert(row.skip(2) =~= block_rows(text, (width - 2) as u16)[i]);
    }
}

/// The rows of the choice under the cursor are drawn reversed, and all other rows
/// plain.
pub proof fn only_marked_rows_are_reversed(rows: Seq<MarkedRow>, i: int)
    requires
        0 <= i < rows.len(),
    ensures
        cursor_styles(rows).len() == rows.len(),
        cursor_styles(rows)[i].0 == rows[i].0,
        rows[i].1 ==> cursor_styles(rows)[i].1.add_modifier.bits == 64,
        !rows[i].1 ==> cursor_styles(rows)[i].1 == plain(),
        cursor_styles(rows)[i].1.fg is None,
        cursor_styles(rows)[i].1.bg is None,
        cursor_styles(rows)[i].1.underline_color is None,
        cursor_styles(rows)[i].1.sub_modifier.bits == 0,
{
}

} // verus!
