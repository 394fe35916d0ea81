//! Blocks of text, laid out in rows.

use ratatui::buffer::Buffer;
use vstd::prelude::*;

use crate::canvas::{
    buffer_area, buffer_cells, draw_plain_rows, plain_rows, rows_drawn, rows_fit, visible, Rect,
};
use crate::prompt::theme::StyleRole;
use crate::text::{chars_of, lemma_texts_push, text_of, texts, Text};
use crate::wrap::{
    ink, lemma_rows_ink_concat, lemma_rows_ink_one, lines_are_wrapped_on_their_own,
    only_white_space_ends_a_word, rows_ink, wrap_line, wrap_line_into, wrap_lines,
    wrapping_keeps_text,
};

verus! {

broadcast use {lemma_texts_push, vstd::string::group_string_axioms};

/// Text cut at every line feed. A trailing line feed leaves an empty last line.
pub open spec fn split_lines(s: Seq<char>) -> Seq<Seq<char>>
    decreases s.len(),
{
    if s.len() == 0 {
        seq![s]
    } else {
        let front = split_lines(s.drop_last());
        if s.last() == '\n' {
            front.push(seq![])
        } else {
            front.drop_last().push(front.last().push(s.last()))
        }
    }
}

/// A line without the carriage return at its end, if there is one.
pub open spec fn strip_return(line: Seq<char>) -> Seq<char> {
    if line.len() > 0 && line.last() == '\r' {
        line.drop_last()
    } else {
        line
    }
}

/// The lines of a text, each without a carriage return at its end.
pub open spec fn text_lines(s: Seq<char>) -> Seq<Seq<char>> {
    split_lines(s).map_values(|line: Seq<char>| strip_return(line))
}

/// Lines put together again with line feeds between them.
pub open spec fn join_lines(lines: Seq<Seq<char>>) -> Seq<char>
    decreases lines.len(),
{
    if lines.len() == 0 {
        seq![]
    } else if lines.len() == 1 {
        lines[0]
    } else {
        join_lines(lines.drop_last()).push('\n') + lines.last()
    }
}

/// Cutting a text into lines loses nothing: the lines, joined by line feeds,
/// are the text, and there is always at least one line.
pub proof fn split_lines_round_trip(s: Seq<char>)
    ensures
        split_lines(s).len() > 0,
        join_lines(split_lines(s)) == s,
    decreases s.len(),
{
    if s.len() > 0 {
        let front = split_lines(s.drop_last());
        let lines = split_lines(s);
        split_lines_round_trip(s.drop_last());
        assert(s =~= s.drop_last().push(s.last()));
        if s.last() == '\n' {
            assert(lines.drop_last() =~= front);
            assert(join_lines(lines) =~= s);
        } else {
            assert(lines.drop_last() =~= front.drop_last());
            if lines.len() == 1 {
                assert(join_lines(lines) =~= s);
            } else {
                assert(join_lines(lines) =~= join_lines(front).push(s.last()));
            }
        }
    }
}

/// Lines of text with an optional style role.
#[derive(Debug, Clone, PartialEq, Eq)]
pub struct TextBlock {
    lines: Vec<String>,
    style: Option<StyleRole>,
}

impl Default for TextBlock {
    fn default() -> (r: TextBlock)
        ensures
            r.line_texts() == Seq::<Seq<char>>::empty(),
            r.role() is None,
    {
        let lines: Vec<String> = Vec::new();
        assert(texts(lines@) =~= seq![]);
        TextBlock { lines, style: None }
    }
}

impl TextBlock {
    /// The lines, in order.
    pub closed spec fn line_texts(self) -> Seq<Seq<char>> {
        texts(self.lines@)
    }

    /// The style role of the whole block, if one was given.
    pub closed spec fn role(self) -> Option<StyleRole> {
        self.style
    }

    /// The block of the lines of a text. A carriage return before a line feed,
    /// or at the end of the text, is dropped.
    pub fn new(text: impl Text) -> (r: TextBlock)
        ensures
            r.line_texts() == text_lines(text.text()),
            r.role() is None,
    {
        let cs: Vec<char> = chars_of(text.as_text());
        let n: usize = cs.len();
        let mut lines: Vec<String> = Vec::new();
        let mut start: usize = 0;
        let mut i: usize = 0;
        proof {
            assert(texts(lines@) =~= seq![]);
            assert(cs@.take(0) =~= cs@.subrange(0, 0));
            assert(text_lines(cs@.take(0)).drop_last() =~= seq![]);
        }
        while i < n
            invariant
                start <= i <= n == cs@.len(),
                split_lines(cs@.take(i as int)).len() > 0,
                split_lines(cs@.take(i as int)).last() == cs@.subrange(start as int, i as int),
                texts(lines@) == text_lines(cs@.take(i as int)).drop_last(),
            decreases n - i,
        {
            let ghost before = split_lines(cs@.take(i as int));
            let ghost done = texts(lines@);
            proof {
                assert(cs@.take(i + 1).drop_last() =~= cs@.take(i as int));
                assert(cs@.take(i + 1).last() == cs@[i as int]);
            }
            if cs[i] == '\n' {
                lines.push(line_of(&cs, start, i));
                start = i + 1;
                proof {
                    assert(texts(lines@) =~= text_lines(cs@.take(i + 1)).drop_last());
                    assert(cs@.subrange(i + 1, i + 1) =~= seq![]);
                }
            } else {
                proof {
                    assert(text_lines(cs@.take(i + 1)).drop_last() =~= done);
                    assert(cs@.subrange(start as int, i + 1) =~= before.last().push(cs@[i as int]));
                }
            }
            i = i + 1;
        }
        proof {
            assert(cs@.take(n as int) =~= cs@);
        }
        lines.push(line_of(&cs, start, n));
        proof {
            assert(texts(lines@) =~= text_lines(cs@));
        }
        TextBlock { lines, style: None }
    }
}

/// The rows of a block of lines at a width; no width, no rows.
pub open spec fn block_rows(lines: Seq<Seq<char>>, width: u16) -> Seq<Seq<char>> {
    if width == 0 {
        seq![]
    } else {
        wrap_lines(lines, width as nat)
    }
}

impl TextBlock {
    /// The block of a list of lines.
    pub fn from_lines<S: Text>(lines: Vec<S>) -> (r: TextBlock)
        ensures
            r.line_texts() == lines@.map_values(|line: S| line.text()),
            r.role() is None,
    {
        let mut out: Vec<String> = Vec::new();
        for line in it: lines
            invariant
                it.seq() == lines@,
                out@.len() == it.index(),
                forall|k: int|
                    0 <= k < out@.len() ==> (#[trigger] out@[k])@ == lines@[k].text(),
        {
            out.push(line.into_text());
        }
        proof {
            assert(texts(out@) =~= lines@.map_values(|line: S| line.text()));
        }
        TextBlock { lines: out, style: None }
    }

    /// Give the block a style role.
    pub fn with_style(self, role: StyleRole) -> (r: TextBlock)
        ensures
            r.line_texts() == self.line_texts(),
            r.role() == Some(role),
    {
        TextBlock { lines: self.lines, style: Some(role) }
    }

    /// The lines, in order.
    pub fn lines(&self) -> (r: &[String])
        ensures
            texts(r@) == self.line_texts(),
    {
        self.lines.as_slice()
    }

    /// The style role, if one was given.
    pub fn style(&self) -> (r: Option<StyleRole>)
        ensures
            r == self.role(),
    {
        self.style
    }

    /// The rows of the block at a width: every line wrapped on its own, blank
    /// lines kept as blank rows.
    pub fn wrapped_rows(&self, width: u16) -> (r: Vec<String>)
        ensures
            texts(r@) == block_rows(self.line_texts(), width),
    {
        let mut out: Vec<String> = Vec::new();
        proof {
            assert(texts(out@) =~= seq![]);
        }
        if width == 0 {
            return out;
        }
        let ghost all = self.line_texts();
        let mut i: usize = 0;
        proof {
            assert(all.take(0) =~= seq![]);
        }
        while i < self.lines.len()
            invariant
                width > 0,
                i <= self.lines@.len(),
                all == texts(self.lines@),
                texts(out@) == wrap_lines(all.take(i as int), width as nat),
            decreases self.lines@.len() - i,
        {
            proof {
                assert(all.take(i + 1).drop_last() =~= all.take(i as int));
                assert(all.take(i + 1).last() == self.lines@[i as int]@);
            }
            wrap_line_into(self.lines[i].as_str(), width as usize, &mut out);
            i = i + 1;
        }
        proof {
            assert(all.take(i as int) =~= all);
        }
        out
    }

    /// Draw the block into an area, from the top; rows beyond its height are
    /// left out. Gives the number of rows drawn.
    pub fn render(&self, area: Rect, buf: &mut Buffer) -> (drawn: u16)
        requires
            rows_fit(
                buffer_cells(*old(buf)),
                buffer_area(*old(buf)),
                area,
                visible(plain_rows(block_rows(self.line_texts(), area.width)), area),
            ),
        ensures
            drawn == visible(plain_rows(block_rows(self.line_texts(), area.width)), area).len(),
            buffer_area(*final(buf)) == buffer_area(*old(buf)),
            rows_drawn(
                buffer_cells(*old(buf)),
                buffer_cells(*final(buf)),
                buffer_area(*old(buf)),
                area,
                visible(plain_rows(block_rows(self.line_texts(), area.width)), area),
            ),
    {
        let rows: Vec<String> = self.wrapped_rows(area.width);
        draw_plain_rows(area, &rows, buf)
    }
}

/// The visible characters of a list of lines, in order, line after line, are
/// those of its rows: laying out a block drops nothing. No row is wider than
/// asked for, and every line has at least one row.
pub proof fn block_rows_keep_text(lines: Seq<Seq<char>>, width: u16)
    requires
        width > 0,
    ensures
        rows_ink(block_rows(lines, width)) == rows_ink(lines),
        block_rows(lines, width).len() >= lines.len(),
        forall|i: int|
            0 <= i < block_rows(lines, width).len() ==> (#[trigger] block_rows(
                lines,
                width,
            )[i]).len() <= width,
    decreases lines.len(),
{
    if lines.len() > 0 {
        block_rows_keep_text(lines.drop_last(), width);
        wrapping_keeps_text(lines.last(), width as nat);
        lemma_rows_ink_concat(
            block_rows(lines.drop_last(), width),
            wrap_line(lines.last(), width as nat),
        );
    }
}

/// The line made of the characters `from..to`, without a carriage return at its
/// end.
fn line_of(cs: &Vec<char>, from: usize, to: usize) -> (r: String)
    requires
        from <= to <= cs@.len(),
    ensures
        r@ == strip_return(cs@.subrange(from as int, to as int)),
{
    if from < to && cs[to - 1] == '\r' {
        proof {
            assert(cs@.subrange(from as int, to as int).drop_last() =~= cs@.subrange(
                from as int,
                to - 1,
            ));
        }
        text_of(cs, from, to - 1)
    } else {
        text_of(cs, from, to)
    }
}

/// A text is cut at its line feeds and nowhere else: no line holds one, and there is
/// one line more than there are line feeds.
pub proof fn lines_end_at_line_feeds(s: Seq<char>)
    ensures
        forall|i: int, j: int|
            0 <= i < split_lines(s).len() && 0 <= j < split_lines(s)[i].len()
                ==> #[trigger] split_lines(s)[i][j] != '\n',
        forall|t: Seq<char>| #[trigger]
            split_lines(s.push('\n') + t).len() == split_lines(s).len() + split_lines(t).len(),
    decreases s.len(),
{
    if s.len() > 0 {
        lines_end_at_line_feeds(s.drop_last());
        split_lines_round_trip(s.drop_last());
        let front = split_lines(s.drop_last());
        let lines = split_lines(s);
        assert forall|i: int, j: int|
            0 <= i < lines.len() && 0 <= j < lines[i].len() implies #[trigger] lines[i][j]
            != '\n' by {
            if i < front.len() && j < front[i].len() {
                assert(lines[i][j] == front[i][j]);
            }
        }
    }
    assert forall|t: Seq<char>| #[trigger]
        split_lines(s.push('\n') + t).len() == split_lines(s).len() + split_lines(t).len() by {
        lemma_split_concat(s, t);
    }
}

proof fn lemma_split_concat(s: Seq<char>, t: Seq<char>)
    ensures
        split_lines(s.push('\n') + t) == split_lines(s) + split_lines(t),
    decreases t.len(),
{
    let all = s.push('\n') + t;
    split_lines_round_trip(t);
    if t.len() == 0 {
        assert(all.drop_last() =~= s);
        assert(all.last() == '\n');
        assert(t =~= seq![]);
        assert(split_lines(t) =~= seq![Seq::<char>::empty()]);
        assert(split_lines(all) == split_lines(s).push(seq![]));
        assert(split_lines(all) =~= split_lines(s) + split_lines(t));
    } else {
        assert(all.drop_last() =~= s.push('\n') + t.drop_last());
        lemma_split_concat(s, t.drop_last());
        split_lines_round_trip(t.drop_last());
        let front = split_lines(s) + split_lines(t.drop_last());
        assert(front.last() == split_lines(t.drop_last()).last());
        assert(split_lines(all) =~= split_lines(s) + split_lines(t));
    }
}

/// The lines of two texts with a line feed between them are the lines of each.
pub proof fn lines_are_read_one_by_one(s: Seq<char>, t: Seq<char>)
    ensures
        text_lines(s.push('\n') + t) == text_lines(s) + text_lines(t),
        (forall|i: int| 0 <= i < s.len() ==> #[trigger] s[i] != '\n') && (s.len() == 0 || s.last()
            != '\r') ==> text_lines(s) == seq![s] && text_lines(s.push('\r')) == seq![s],
{
    lemma_split_concat(s, t);
    assert(text_lines(s.push('\n') + t) =~= text_lines(s) + text_lines(t));
    if forall|i: int| 0 <= i < s.len() ==> #[trigger] s[i] != '\n' {
        lemma_one_line(s);
        assert(s.push('\r').drop_last() =~= s);
        let one = split_lines(s);
        assert(split_lines(s.push('\r')) =~= seq![s.push('\r')]);
        if s.len() == 0 || s.last() != '\r' {
            assert(text_lines(s) =~= seq![s]);
            assert(text_lines(s.push('\r')) =~= seq![s]);
        }
    }
}

proof fn lemma_one_line(s: Seq<char>)
    requires
        forall|i: int| 0 <= i < s.len() ==> #[trigger] s[i] != '\n',
    ensures
        split_lines(s) == seq![s],
    decreases s.len(),
{
    if s.len() > 0 {
        let front = s.drop_last();
        assert forall|i: int| 0 <= i < front.len() implies #[trigger] front[i] != '\n' by {
            assert(front[i] == s[i]);
        }
        lemma_one_line(front);
        assert(s[s.len() - 1] != '\n');
        assert(front.push(s.last()) =~= s);
        assert(split_lines(s) =~= seq![s]);
    }
}

/// Cutting a text into lines drops no visible character.
pub proof fn lines_keep_the_text(s: Seq<char>)
    ensures
        rows_ink(text_lines(s)) == ink(s),
    decreases s.len(),
{
    split_lines_round_trip(s);
    let lines = text_lines(s);
    if s.len() == 0 {
        assert(lines =~= seq![s]);
        lemma_rows_ink_one(s);
    } else {
        let rest = s.drop_last();
        lines_keep_the_text(rest);
        split_lines_round_trip(rest);
        let front = text_lines(rest);
        let raw = split_lines(rest);
        let c = s.last();
        if c == '\n' {
            assert(lines.drop_last() =~= front);
            assert(lines.last() =~= seq![]);
            assert(rows_ink(lines) =~= rows_ink(front));
        } else {
            assert(lines.drop_last() =~= front.drop_last());
            lemma_ink_of_stripped(raw.last());
            lemma_ink_of_stripped(raw.last().push(c));
            assert(raw.last().push(c).drop_last() =~= raw.last());
            assert(lines.last() == strip_return(raw.last().push(c)));
            assert(front.last() == strip_return(raw.last()));
            assert(rows_ink(lines) =~= ink(s));
        }
    }
}

proof fn lemma_ink_of_stripped(line: Seq<char>)
    ensures
        ink(strip_return(line)) == ink(line),
{
}

/// A block is laid out line by line, and a blank line is one blank row.
pub proof fn blocks_are_laid_out_line_by_line(
    a: Seq<Seq<char>>,
    b: Seq<Seq<char>>,
    line: Seq<char>,
    width: u16,
)
    ensures
        block_rows(a + b, width) == block_rows(a, width) + block_rows(b, width),
        width > 0 ==> block_rows(seq![line], width) == wrap_line(line, width as nat),
        width > 0 ==> block_rows(seq![Seq::<char>::empty()], width) == seq![
            Seq::<char>::empty(),
        ],
        block_rows(a, 0).len() == 0,
{
    lines_are_wrapped_on_their_own(a, b, width as nat);
    let empty = Seq::<char>::empty();
    if width > 0 {
        wrapping_keeps_text(empty, width as nat);
        only_white_space_ends_a_word(empty, 'x', empty);
        assert(wrap_lines(seq![line], width as nat) == wrap_line(line, width as nat));
        assert(wrap_lines(seq![empty], width as nat) == wrap_line(empty, width as nat));
    } else {
        assert(block_rows(a + b, width) =~= block_rows(a, width) + block_rows(b, width));
    }
}

} // verus!
