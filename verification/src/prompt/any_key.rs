//! Pauses that any key ends.

use ratatui::buffer::Buffer;
use vstd::prelude::*;

use crate::canvas::{
    border_shown, buffer_area, buffer_cells, content_keeps_the_border, draw_frame, draw_plain_rows,
    frame_drawn, frame_inner, heading, inside, lemma_clip_inside, lemma_fit_same_dom, lemma_no_rows,
    lies_in, plain_rows, rows_drawn, rows_fit, title_fits, visible, whole, Rect,
};
use crate::input::Input;
use crate::prompt::block::{
    block_rows, block_rows_keep_text, lines_keep_the_text, text_lines, TextBlock,
};
use crate::text::{clone_all, lemma_texts_push, opt_str, opt_text, texts, Text};
use crate::wrap::{ink, lemma_rows_ink_concat, lemma_rows_ink_one, rows_ink};

verus! {

broadcast use {lemma_texts_push, vstd::string::group_string_axioms};

/// Shown below a pause that has no footer of its own.
pub const DEFAULT_ANY_KEY_FOOTER: &'static str = "Press any key to continue...";

/// What sending an input through a pause gives back.
#[derive(Debug, Clone, Copy, PartialEq, Eq, Hash, Structural)]
pub enum AnyKeyOutcome {
    /// The input was no key press.
    Ignored,
    /// The player went on.
    Completed,
}

/// Text that stays until the player presses a key.
#[derive(Debug, Clone, PartialEq, Eq)]
pub struct AnyKeyPrompt {
    body: Vec<String>,
    footer: Option<String>,
    title: Option<String>,
}

/// What an input comes to: every key ends a pause; a resize and an unknown input do
/// not.
pub open spec fn pause_outcome(input: Input) -> AnyKeyOutcome {
    if input is Resize || input is Unknown {
        AnyKeyOutcome::Ignored
    } else {
        AnyKeyOutcome::Completed
    }
}

/// The rows of a pause: the body, and the footer behind a blank row where there
/// is a body.
pub open spec fn pause_rows(
    body: Seq<Seq<char>>,
    footer: Option<Seq<char>>,
    width: u16,
) -> Seq<Seq<char>> {
    if width == 0 {
        seq![]
    } else {
        let above = block_rows(body, width);
        let gap = if above.len() > 0 {
            seq![Seq::<char>::empty()]
        } else {
            seq![]
        };
        let cue = match footer {
            Some(text) => text,
            None => DEFAULT_ANY_KEY_FOOTER@,
        };
        above + gap + block_rows(text_lines(cue), width)
    }
}

impl Default for AnyKeyPrompt {
    fn default() -> (r: AnyKeyPrompt)
        ensures
            r.paragraphs() == Seq::<Seq<char>>::empty(),
            r.cue() is None,
            r.heading() is None,
    {
        let body: Vec<String> = Vec::new();
        assert(texts(body@) =~= seq![]);
        AnyKeyPrompt { body, footer: None, title: None }
    }
}

impl AnyKeyPrompt {
    /// The paragraphs of the body.
    pub closed spec fn paragraphs(self) -> Seq<Seq<char>> {
        texts(self.body@)
    }

    /// The footer, if one was set.
    pub closed spec fn cue(self) -> Option<Seq<char>> {
        opt_text(self.footer)
    }

    /// The title, if one was set.
    pub closed spec fn heading(self) -> Option<Seq<char>> {
        opt_text(self.title)
    }

    /// The rows of the pause at a width.
    pub open spec fn rows(self, width: u16) -> Seq<Seq<char>> {
        pause_rows(self.paragraphs(), self.cue(), width)
    }

    /// A pause without text.
    pub fn new() -> (r: AnyKeyPrompt)
        ensures
            r.paragraphs() == Seq::<Seq<char>>::empty(),
            r.cue() is None,
            r.heading() is None,
    {
        Self::default()
    }

    /// Add a paragraph.
    pub fn body(self, line: impl Text) -> (r: AnyKeyPrompt)
        ensures
            r.paragraphs() == self.paragraphs().push(line.text()),
            r.cue() == self.cue(),
            r.heading() == self.heading(),
    {
        let mut body: Vec<String> = self.body;
        body.push(line.into_text());
        AnyKeyPrompt { body, footer: self.footer, title: self.title }
    }

    /// Set the footer.
    pub fn footer(self, footer: impl Text) -> (r: AnyKeyPrompt)
        ensures
            r.paragraphs() == self.paragraphs(),
            r.cue() == Some(footer.text()),
            r.heading() == self.heading(),
    {
        AnyKeyPrompt { body: self.body, footer: Some(footer.into_text()), title: self.title }
    }

    /// Set the title of the modal.
    pub fn title(self, title: impl Text) -> (r: AnyKeyPrompt)
        ensures
            r.paragraphs() == self.paragraphs(),
            r.cue() == self.cue(),
            r.heading() == Some(title.text()),
    {
        AnyKeyPrompt { body: self.body, footer: self.footer, title: Some(title.into_text()) }
    }

    /// The paragraphs of the body.
    pub fn body_lines(&self) -> (r: &[String])
        ensures
            texts(r@) == self.paragraphs(),
    {
        self.body.as_slice()
    }

    /// The footer, if one was set.
    pub fn footer_text(&self) -> (r: Option<&str>)
        ensures
            match r {
                Some(s) => self.cue() == Some(s@),
                None => self.cue() is None,
            },
    {
        opt_str(&self.footer)
    }

    /// The title, if one was set.
    pub fn title_text(&self) -> (r: Option<&str>)
        ensures
            match r {
                Some(s) => self.heading() == Some(s@),
                None => self.heading() is None,
            },
    {
        opt_str(&self.title)
    }

    /// Send an input through the pause. Every key ends it; a resize and an
    /// unknown input do not.
    pub fn handle(&self, input: Input) -> (r: AnyKeyOutcome)
        ensures
            r == pause_outcome(input),
    {
        match input {
            Input::Resize { .. } | Input::Unknown => AnyKeyOutcome::Ignored,
            Input::Up
            | Input::Down
            | Input::Left
            | Input::Right
            | Input::Enter
            | Input::Esc
            | Input::Backspace
            | Input::Char(_)
            | Input::Ctrl(_) => AnyKeyOutcome::Completed,
        }
    }

    /// The rows of the pause at a width, from top to bottom.
    pub fn rendered_lines(&self, width: u16) -> (r: Vec<String>)
        ensures
            texts(r@) == self.rows(width),
    {
        let mut rows: Vec<String> = Vec::new();
        if width == 0 {
            assert(texts(rows@) =~= seq![]);
            return rows;
        }
        let block = TextBlock::from_lines(clone_all(&self.body));
        assert(block.line_texts() =~= self.paragraphs());
        rows = block.wrapped_rows(width);
        if rows.len() > 0 {
            rows.push(String::new());
        }
        let ghost above = texts(rows@);
        let cue: &str = match opt_str(&self.footer) {
            Some(footer) => footer,
            None => DEFAULT_ANY_KEY_FOOTER,
        };
        let last: Vec<String> = TextBlock::new(cue).wrapped_rows(width);
        let mut k: usize = 0;
        proof {
            assert(above + texts(last@).take(0) =~= above);
        }
        while k < last.len()
            invariant
                k <= last@.len(),
                texts(rows@) == above + texts(last@).take(k as int),
            decreases last@.len() - k,
        {
            let ghost before = texts(rows@);
            rows.push(last[k].clone());
            k = k + 1;
            assert(texts(rows@) =~= above + texts(last@).take(k as int));
        }
        assert(texts(last@).take(k as int) =~= texts(last@));
        assert(texts(rows@) =~= self.rows(width)) by {
            let b = block_rows(self.paragraphs(), width);
            let gap = if b.len() > 0 {
                seq![Seq::<char>::empty()]
            } else {
                seq![]
            };
            assert(above =~= b + gap);
        }
        rows
    }

    /// Draw the pause into an area, from the top; rows beyond its height are
    /// left out. Gives the number of rows drawn.
    pub fn render(&self, area: Rect, buf: &mut Buffer) -> (drawn: u16)
        requires
            rows_fit(
                buffer_cells(*old(buf)),
                buffer_area(*old(buf)),
                area,
                visible(plain_rows(self.rows(area.width)), area),
            ),
        ensures
            drawn == visible(plain_rows(self.rows(area.width)), area).len(),
            buffer_area(*final(buf)) == buffer_area(*old(buf)),
            rows_drawn(
                buffer_cells(*old(buf)),
                buffer_cells(*final(buf)),
                buffer_area(*old(buf)),
                area,
                visible(plain_rows(self.rows(area.width)), area),
            ),
    {
        let rows: Vec<String> = self.rendered_lines(area.width);
        draw_plain_rows(area, &rows, buf)
    }

    /// Draw the pause with a border, and its title in the top edge. Gives the
    /// number of rows drawn inside the border. An area of less than two by two
    /// cells stays as it is.
    pub fn render_modal(&self, area: Rect, buf: &mut Buffer) -> (drawn: u16)
        requires
            area.width >= 2 && area.height >= 2 ==> {
                &&& whole(buffer_cells(*old(buf)), buffer_area(*old(buf)))
                &&& self.heading() is Some ==> title_fits(self.heading()->0)
                &&& rows_fit(
                    buffer_cells(*old(buf)),
                    buffer_area(*old(buf)),
                    inside(area),
                    visible(plain_rows(self.rows(inside(area).width)), inside(area)),
                )
            },
        ensures
            buffer_area(*final(buf)) == buffer_area(*old(buf)),
            area.width < 2 || area.height < 2 ==> drawn == 0 && *final(buf) == *old(buf),
            area.width >= 2 && area.height >= 2 ==> {
                let rows = visible(plain_rows(self.rows(inside(area).width)), inside(area));
                &&& drawn == rows.len()
                &&& rows_drawn(
                    frame_drawn(
                        buffer_cells(*old(buf)),
                        buffer_area(*old(buf)),
                        area,
                        self.heading(),
                    ),
                    buffer_cells(*final(buf)),
                    buffer_area(*old(buf)),
                    inside(area),
                    rows,
                )
            },
            area.width >= 2 && area.height >= 2 && lies_in(area, buffer_area(*old(buf)))
                ==> border_shown(
                buffer_cells(*old(buf)),
                buffer_cells(*final(buf)),
                area,
                heading(self.heading()),
            ),
            buffer_cells(*final(buf)).dom() == buffer_cells(*old(buf)).dom(),
            forall|x: u16, y: u16|
                #![trigger buffer_cells(*final(buf))[(x, y)]]
                buffer_cells(*old(buf)).contains_key((x, y)) && !area.spans(x, y)
                    ==> buffer_cells(*final(buf))[(x, y)] == buffer_cells(*old(buf))[(x, y)],
    {
        if area.width < 2 || area.height < 2 {
            return 0;
        }
        let inner: Rect = frame_inner(area);
        draw_frame(area, opt_str(&self.title), buf);
        let ghost framed = buffer_cells(*buf);
        proof {
            let rows = visible(plain_rows(self.rows(inner.width)), inner);
            if lies_in(area, buffer_area(*buf)) {
                lemma_clip_inside(area, buffer_area(*buf));
            }
            lemma_fit_same_dom(
                buffer_cells(*old(buf)),
                framed,
                buffer_area(*buf),
                inner,
                rows,
            );
            lemma_no_rows(framed, buffer_area(*buf), inner);
            if inner.width == 0 || inner.height == 0 {
                assert(rows =~= seq![]);
            }
        }
        if inner.width == 0 || inner.height == 0 {
            return 0;
        }
        let drawn: u16 = self.render(inner, buf);
        proof {
            let cells = buffer_cells(*old(buf));
            let after = buffer_cells(*buf);
            if lies_in(area, buffer_area(*buf)) {
                content_keeps_the_border(
                    cells,
                    framed,
                    after,
                    buffer_area(*buf),
                    area,
                    heading(self.heading()),
                    visible(plain_rows(self.rows(inner.width)), inner),
                );
            }
            assert forall|x: u16, y: u16|
                #![trigger after[(x, y)]]
                cells.contains_key((x, y)) && !area.spans(x, y) implies after[(x, y)] == cells[(
                x,
                y,
            )] by {
                assert(framed.dom().contains((x, y)));
                assert(framed.contains_key((x, y)));
                assert(framed[(x, y)] == cells[(x, y)]);
            }
        }
        drawn
    }
}

/// No row of a pause is wider than the pause.
pub proof fn pause_rows_stay_within_width(
    body: Seq<Seq<char>>,
    footer: Option<Seq<char>>,
    width: u16,
)
    ensures
        forall|i: int|
            0 <= i < pause_rows(body, footer, width).len() ==> (#[trigger] pause_rows(
                body,
                footer,
                width,
            )[i]).len() <= width,
{
    if width > 0 {
        let cue = match footer {
            Some(text) => text,
            None => DEFAULT_ANY_KEY_FOOTER@,
        };
        block_rows_keep_text(body, width);
        block_rows_keep_text(text_lines(cue), width);
        let above = block_rows(body, width);
        let below = block_rows(text_lines(cue), width);
        let rows = pause_rows(body, footer, width);
        assert forall|i: int| 0 <= i < rows.len() implies (#[trigger] rows[i]).len() <= width by {
            if i < above.len() {
                assert(rows[i] == above[i]);
            } else if i >= rows.len() - below.len() {
                assert(rows[i] == below[i - (rows.len() - below.len())]);
            }
        }
    }
}

/// Any key ends a pause, whatever it is, with or without control; what is no key
/// press does not.
pub proof fn any_key_ends_a_pause(input: Input)
    ensures
        pause_outcome(input) == AnyKeyOutcome::Completed <==> input is Char || input is Ctrl || input
            is Enter || input is Esc || input is Backspace || input is Up || input is Down || input
            is Left || input is Right,
        pause_outcome(input) == AnyKeyOutcome::Ignored <==> input is Resize || input is Unknown,
{
}

/// A pause shows its body and then its footer, or the usual words where it has none,
/// and nothing else. A blank row stands between them where there is a body.
pub proof fn pauses_show_all_they_hold(
    body: Seq<Seq<char>>,
    footer: Option<Seq<char>>,
    width: u16,
)
    requires
        width > 0,
    ensures
        ({
            let cue = match footer {
                Some(text) => text,
                None => "Press any key to continue..."@,
            };
            let rows = pause_rows(body, footer, width);
            let n = block_rows(body, width).len() as int;
            &&& rows_ink(rows) == rows_ink(body) + ink(cue)
            &&& rows.take(n) == block_rows(body, width)
            &&& body.len() > 0 ==> rows[n] == Seq::<char>::empty() && rows.skip(n + 1)
                == block_rows(text_lines(cue), width)
            &&& body.len() == 0 ==> rows == block_rows(text_lines(cue), width)
        }),
{
    let cue = match footer {
        Some(text) => text,
        None => DEFAULT_ANY_KEY_FOOTER@,
    };
    let above = block_rows(body, width);
    let below = block_rows(text_lines(cue), width);
    let gap = if above.len() > 0 {
        seq![Seq::<char>::empty()]
    } else {
        seq![]
    };
    let rows = pause_rows(body, footer, width);
    let n = above.len() as int;
    block_rows_keep_text(body, width);
    block_rows_keep_text(text_lines(cue), width);
    lines_keep_the_text(cue);
    lemma_rows_ink_concat(above, gap);
    lemma_rows_ink_concat(above + gap, below);
    lemma_rows_ink_one(Seq::<char>::empty());
    assert(ink(Seq::<char>::empty()) =~= seq![]);
    assert(rows_ink(gap) =~= seq![]);
    assert(rows == above + gap + below);
    assert(rows.take(n) =~= above);
    assert(rows_ink(rows) =~= rows_ink(body) + ink(cue));
    if body.len() > 0 {
        assert(rows.skip(n + 1) =~= below);
    } else {
        assert(above =~= seq![]);
        assert(rows =~= below);
    }
}

} // verus!
