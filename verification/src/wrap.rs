//! Greedy word wrapping.
//!
//! A line is cut into words (maximal runs of characters that are not white
//! space). Words are placed one after another: a word that fits behind the row
//! under construction joins it after one space, any other word starts a row of
//! its own, and a word wider than the row is cut into pieces of the full width.

use vstd::prelude::*;

use crate::text::{chars_of, is_space, is_whitespace, lemma_texts_push, push_char, texts};

verus! {

broadcast use lemma_texts_push;

/// Length of the longest prefix without white space.
pub open spec fn word_len(s: Seq<char>) -> nat
    decreases s.len(),
{
    if s.len() == 0 || is_space(s[0]) {
        0
    } else {
        1 + word_len(s.drop_first())
    }
}

/// The maximal runs of characters that are not white space, in order.
pub open spec fn words(s: Seq<char>) -> Seq<Seq<char>>
    decreases s.len(),
{
    if s.len() == 0 {
        seq![]
    } else if is_space(s[0]) {
        words(s.drop_first())
    } else {
        let n = word_len(s) as int;
        if 0 < n <= s.len() {
            seq![s.take(n)] + words(s.skip(n))
        } else {
            seq![]
        }
    }
}

/// The pieces of `width` characters that a word is cut into; the last piece
/// holds what is left.
pub open spec fn pieces(word: Seq<char>, width: nat) -> Seq<Seq<char>>
    decreases word.len(),
{
    if width == 0 || word.len() <= width {
        seq![word]
    } else {
        seq![word.take(width as int)] + pieces(word.skip(width as int), width)
    }
}

/// Rows that are complete, and the row that is still being filled.
pub struct Wrapping {
    pub rows: Seq<Seq<char>>,
    pub current: Seq<char>,
}

/// Put one more word in place.
pub open spec fn place(w: Wrapping, word: Seq<char>, width: nat) -> Wrapping {
    if word.len() > width {
        let cut = pieces(word, width);
        let flushed = if w.current.len() > 0 {
            w.rows.push(w.current)
        } else {
            w.rows
        };
        Wrapping { rows: flushed + cut.drop_last(), current: cut.last() }
    } else if w.current.len() == 0 {
        Wrapping { rows: w.rows, current: word }
    } else if w.current.len() + 1 + word.len() > width {
        Wrapping { rows: w.rows.push(w.current), current: word }
    } else {
        Wrapping { rows: w.rows, current: w.current.push(' ') + word }
    }
}

/// Put all words in place, starting from nothing.
pub open spec fn place_all(ws: Seq<Seq<char>>, width: nat) -> Wrapping
    decreases ws.len(),
{
    if ws.len() == 0 {
        Wrapping { rows: seq![], current: seq![] }
    } else {
        place(place_all(ws.drop_last(), width), ws.last(), width)
    }
}

/// The rows of one line wrapped to `width`; a line without words is one blank
/// row.
pub open spec fn wrap_line(line: Seq<char>, width: nat) -> Seq<Seq<char>> {
    let w = place_all(words(line), width);
    w.rows.push(w.current)
}

/// The rows of a list of lines, each wrapped on its own.
pub open spec fn wrap_lines(lines: Seq<Seq<char>>, width: nat) -> Seq<Seq<char>>
    decreases lines.len(),
{
    if lines.len() == 0 {
        seq![]
    } else {
        wrap_lines(lines.drop_last(), width) + wrap_line(lines.last(), width)
    }
}

/// The characters of each word of a list.
spec fn char_lists(v: Seq<Vec<char>>) -> Seq<Seq<char>> {
    v.map_values(|w: Vec<char>| w@)
}

/// Cut a line into words.
fn split_words(line: &str) -> (r: Vec<Vec<char>>)
    ensures
        char_lists(r@) == words(line@),
{
    let cs: Vec<char> = chars_of(line);
    let n: usize = cs.len();
    let mut out: Vec<Vec<char>> = Vec::new();
    let mut i: usize = 0;
    proof {
        assert(line@.skip(0) =~= line@);
        assert(char_lists(out@) + words(line@) =~= words(line@));
    }
    while i < n
        invariant
            i <= n,
            n == cs@.len(),
            cs@ == line@,
            words(line@) == char_lists(out@) + words(cs@.skip(i as int)),
        decreases n - i,
    {
        let ghost rest = cs@.skip(i as int);
        if is_whitespace(cs[i]) {
            proof {
                assert(rest.drop_first() =~= cs@.skip(i + 1));
            }
            i = i + 1;
        } else {
            let ghost start = i;
            let mut word: Vec<char> = Vec::new();
            while i < n && !is_whitespace(cs[i])
                invariant
                    start <= i <= n,
                    n == cs@.len(),
                    rest == cs@.skip(start as int),
                    word@ == cs@.subrange(start as int, i as int),
                    word_len(rest) == (i - start) + word_len(cs@.skip(i as int)),
                decreases n - i,
            {
                proof {
                    let here = cs@.skip(i as int);
                    assert(here.drop_first() =~= cs@.skip(i + 1));
                    assert(here[0] == cs@[i as int]);
                }
                word.push(cs[i]);
                i = i + 1;
                proof {
                    assert(word@ =~= cs@.subrange(start as int, i as int));
                }
            }
            let ghost so_far = out@;
            out.push(word);
            proof {
                let k = (i - start) as int;
                let after = words(cs@.skip(i as int));
                assert(word_len(cs@.skip(i as int)) == 0);
                assert(rest.take(k) =~= word@);
                assert(rest.skip(k) =~= cs@.skip(i as int));
                assert(word_len(rest) == 1 + word_len(rest.drop_first()));
                assert(words(rest) == seq![word@] + after);
                assert(char_lists(out@) =~= char_lists(so_far).push(word@));
                assert(words(line@) =~= char_lists(out@) + after);
            }
        }
    }
    proof {
        assert(char_lists(out@) + words(cs@.skip(n as int)) =~= char_lists(out@));
    }
    out
}

/// Cutting a word that grew by one character: the last piece grows, or a new
/// piece starts where the last one is full.
proof fn lemma_pieces_push(word: Seq<char>, c: char, width: nat)
    requires
        width > 0,
        word.len() > 0,
    ensures
        pieces(word, width).len() > 0,
        0 < pieces(word, width).last().len() <= width,
        pieces(word.push(c), width) == if pieces(word, width).last().len() == width {
            pieces(word, width).push(seq![c])
        } else {
            pieces(word, width).drop_last().push(pieces(word, width).last().push(c))
        },
    decreases word.len(),
{
    let longer = word.push(c);
    if word.len() < width {
        assert(pieces(word, width).drop_last().push(word.push(c)) =~= seq![longer]);
    } else if word.len() == width {
        assert(longer.take(width as int) =~= word);
        assert(longer.skip(width as int) =~= seq![c]);
        assert(pieces(longer.skip(width as int), width) =~= seq![seq![c]]);
        assert(pieces(longer, width) =~= pieces(word, width).push(seq![c]));
    } else {
        let rest = word.skip(width as int);
        lemma_pieces_push(rest, c, width);
        assert(longer.take(width as int) =~= word.take(width as int));
        assert(longer.skip(width as int) =~= rest.push(c));
        let head = seq![word.take(width as int)];
        let tail = pieces(rest, width);
        assert(pieces(word, width) == head + tail);
        assert((head + tail).last() == tail.last());
        if tail.last().len() == width {
            assert(head + tail.push(seq![c]) =~= (head + tail).push(seq![c]));
        } else {
            assert(head + tail.drop_last().push(tail.last().push(c))
                =~= (head + tail).drop_last().push((head + tail).last().push(c)));
        }
    }
}

/// Append the rows of one line wrapped to `width`.
pub(crate) fn wrap_line_into(line: &str, width: usize, out: &mut Vec<String>)
    requires
        0 < width <= u16::MAX,
    ensures
        texts(final(out)@) == texts(old(out)@) + wrap_line(line@, width as nat),
{
    let ghost given = texts(out@);
    let ws: Vec<Vec<char>> = split_words(line);
    let ghost all = words(line@);
    let mut current: String = String::new();
    let mut current_width: usize = 0;
    let mut k: usize = 0;
    proof {
        assert(all.take(0) =~= seq![]);
        assert(given + Seq::<Seq<char>>::empty() =~= given);
    }
    while k < ws.len()
        invariant
            0 < width <= u16::MAX,
            k <= ws@.len(),
            char_lists(ws@) == all,
            current@ == place_all(all.take(k as int), width as nat).current,
            texts(out@) == given + place_all(all.take(k as int), width as nat).rows,
            current_width == current@.len(),
            current_width <= width,
        decreases ws@.len() - k,
    {
        let word: &Vec<char> = &ws[k];
        let word_width: usize = word.len();
        let ghost w0 = place_all(all.take(k as int), width as nat);
        let ghost w1 = place(w0, word@, width as nat);
        proof {
            assert(all.take(k + 1).drop_last() =~= all.take(k as int));
            assert(all.take(k + 1).last() == word@);
        }
        if word_width > width {
            if current_width > 0 {
                out.push(current);
                proof {
                    assert(texts(out@) =~= given + w0.rows.push(w0.current));
                }
            }
            let ghost flushed = texts(out@);
            let mut piece: String = String::new();
            let mut piece_width: usize = 0;
            let mut j: usize = 0;
            while j < word_width
                invariant
                    0 < width <= u16::MAX,
                    j <= word_width == word@.len(),
                    piece_width == piece@.len(),
                    piece_width <= width,
                    j == 0 ==> piece@ =~= seq![] && texts(out@) == flushed,
                    j > 0 ==> piece_width > 0 && pieces(word@.take(j as int), width as nat).len()
                        > 0 && piece@ == pieces(word@.take(j as int), width as nat).last() && texts(
                        out@,
                    ) == flushed + pieces(word@.take(j as int), width as nat).drop_last(),
                decreases word_width - j,
            {
                let ghost rows = texts(out@);
                let ghost last = piece@;
                proof {
                    assert(word@.take(j + 1) =~= word@.take(j as int).push(word@[j as int]));
                    if j > 0 {
                        lemma_pieces_push(word@.take(j as int), word@[j as int], width as nat);
                    }
                }
                if piece_width == width {
                    out.push(piece);
                    piece = String::new();
                    piece_width = 0;
                    proof {
                        assert(texts(out@) =~= rows.push(last));
                    }
                }
                push_char(&mut piece, word[j]);
                piece_width = piece_width + 1;
                proof {
                    let now = pieces(word@.take(j + 1), width as nat);
                    if j == 0 {
                        assert(word@.take(1) =~= seq![word@[0]]);
                        assert(piece@ =~= seq![word@[0]]);
                        assert(now =~= seq![word@.take(1)]);
                        assert(flushed + now.drop_last() =~= flushed);
                    } else {
                        let was = pieces(word@.take(j as int), width as nat);
                        if was.last().len() == width {
                            assert(piece@ =~= seq![word@[j as int]]);
                            assert(now.drop_last() =~= was);
                            assert(was =~= was.drop_last().push(was.last()));
                            assert(flushed + now.drop_last() =~= rows.push(last));
                        } else {
                            assert(now.drop_last() =~= was.drop_last());
                        }
                    }
                }
                j = j + 1;
            }
            current = piece;
            current_width = piece_width;
            proof {
                assert(word@.take(word_width as int) =~= word@);
                assert(texts(out@) =~= given + w1.rows);
            }
        } else {
            let needs_space: bool = current_width > 0;
            let gap: usize = if needs_space { 1 } else { 0 };
            if current_width + gap + word_width > width {
                out.push(current);
                proof {
                    assert(texts(out@) =~= given + w1.rows);
                }
                current = String::new();
                current_width = 0;
            } else if needs_space {
                push_char(&mut current, ' ');
                current_width = current_width + 1;
            }
            let ghost lead = current@;
            let mut j: usize = 0;
            while j < word_width
                invariant
                    j <= word_width == word@.len(),
                    current@ == lead + word@.take(j as int),
                decreases word_width - j,
            {
                push_char(&mut current, word[j]);
                j = j + 1;
                proof {
                    assert(word@.take(j as int) =~= word@.take(j - 1).push(word@[j - 1]));
                    assert(current@ =~= lead + word@.take(j as int));
                }
            }
            current_width = current_width + word_width;
            proof {
                assert(word@.take(word_width as int) =~= word@);
                assert(current@ =~= w1.current);
            }
        }
        k = k + 1;
    }
    proof {
        assert(all.take(k as int) =~= all);
    }
    let ghost w = place_all(all, width as nat);
    out.push(current);
    proof {
        assert(texts(out@) =~= given + w.rows.push(w.current));
    }
}

/// A word: at least one character, and no white space.
pub open spec fn is_word(s: Seq<char>) -> bool {
    &&& s.len() > 0
    &&& forall|i: int| 0 <= i < s.len() ==> !is_space(#[trigger] s[i])
}

/// The characters that are not white space, in order.
pub open spec fn ink(s: Seq<char>) -> Seq<char>
    decreases s.len(),
{
    if s.len() == 0 {
        seq![]
    } else if is_space(s.last()) {
        ink(s.drop_last())
    } else {
        ink(s.drop_last()).push(s.last())
    }
}

/// The characters of a list of rows that are not white space, row after row.
pub open spec fn rows_ink(rows: Seq<Seq<char>>) -> Seq<char>
    decreases rows.len(),
{
    if rows.len() == 0 {
        seq![]
    } else {
        rows_ink(rows.drop_last()) + ink(rows.last())
    }
}

pub(crate) proof fn lemma_ink_concat(a: Seq<char>, b: Seq<char>)
    ensures
        ink(a + b) == ink(a) + ink(b),
    decreases b.len(),
{
    if b.len() == 0 {
        assert(a + b =~= a);
        assert(ink(a) + ink(b) =~= ink(a));
    } else {
        lemma_ink_concat(a, b.drop_last());
        assert((a + b).drop_last() =~= a + b.drop_last());
        assert((a + b).last() == b.last());
        assert(ink(a + b) =~= ink(a) + ink(b));
    }
}

pub(crate) proof fn lemma_rows_ink_concat(a: Seq<Seq<char>>, b: Seq<Seq<char>>)
    ensures
        rows_ink(a + b) == rows_ink(a) + rows_ink(b),
    decreases b.len(),
{
    if b.len() == 0 {
        assert(a + b =~= a);
        assert(rows_ink(a) + rows_ink(b) =~= rows_ink(a));
    } else {
        lemma_rows_ink_concat(a, b.drop_last());
        assert((a + b).drop_last() =~= a + b.drop_last());
        assert((a + b).last() == b.last());
        assert(rows_ink(a + b) =~= rows_ink(a) + rows_ink(b));
    }
}

pub(crate) proof fn lemma_rows_ink_one(row: Seq<char>)
    ensures
        rows_ink(seq![row]) == ink(row),
{
    let one = seq![row];
    assert(one.drop_last() =~= seq![]);
    assert(rows_ink(seq![]) + ink(row) =~= ink(row));
}

proof fn lemma_word_len(s: Seq<char>)
    ensures
        word_len(s) <= s.len(),
        forall|i: int| 0 <= i < word_len(s) ==> !is_space(#[trigger] s[i]),
        word_len(s) < s.len() ==> is_space(s[word_len(s) as int]),
        (forall|i: int| 0 <= i < s.len() ==> !is_space(#[trigger] s[i])) ==> word_len(s) == s.len(),
    decreases s.len(),
{
    if s.len() > 0 && !is_space(s[0]) {
        let t = s.drop_first();
        lemma_word_len(t);
        assert forall|i: int| 0 <= i < word_len(s) implies !is_space(#[trigger] s[i]) by {
            if i > 0 {
                assert(s[i] == t[i - 1]);
            }
        }
        if forall|i: int| 0 <= i < s.len() ==> !is_space(#[trigger] s[i]) {
            assert forall|i: int| 0 <= i < t.len() implies !is_space(#[trigger] t[i]) by {
                assert(t[i] == s[i + 1]);
            }
        }
    }
}

/// What follows a space does not lengthen the first word.
proof fn lemma_word_len_stops(a: Seq<char>, b: Seq<char>)
    requires
        b.len() > 0,
        is_space(b[0]),
    ensures
        word_len(a + b) == word_len(a),
    decreases a.len(),
{
    let s = a + b;
    if a.len() == 0 {
        assert(s =~= b);
    } else {
        assert(s[0] == a[0]);
        assert(s.drop_first() =~= a.drop_first() + b);
        lemma_word_len_stops(a.drop_first(), b);
    }
}

/// Every element of `words` is a word, and together they hold every character
/// of the line that is not white space.
proof fn lemma_words(s: Seq<char>)
    ensures
        forall|i: int| 0 <= i < words(s).len() ==> is_word(#[trigger] words(s)[i]),
        rows_ink(words(s)) == ink(s),
    decreases s.len(),
{
    if s.len() > 0 {
        lemma_word_len(s);
        if is_space(s[0]) {
            let t = s.drop_first();
            lemma_words(t);
            assert(s =~= seq![s[0]] + t);
            lemma_ink_concat(seq![s[0]], t);
            let one = seq![s[0]];
            assert(one.drop_last() =~= seq![]);
            assert(ink(one.drop_last()) =~= seq![]);
            assert(one.last() == s[0]);
            assert(ink(one) =~= seq![]);
            assert(ink(s) =~= ink(t));
        } else {
            let n = word_len(s) as int;
            let head = s.take(n);
            let t = s.skip(n);
            assert(word_len(s) == 1 + word_len(s.drop_first()));
            lemma_words(t);
            assert(is_word(head));
            let ws = seq![head] + words(t);
            assert(words(s) == ws);
            assert forall|i: int| 0 <= i < ws.len() implies is_word(#[trigger] ws[i]) by {
                if i > 0 {
                    assert(ws[i] == words(t)[i - 1]);
                }
            }
            lemma_rows_ink_concat(seq![head], words(t));
            lemma_rows_ink_one(head);
            assert(s =~= head + t);
            lemma_ink_concat(head, t);
        }
    }
}

proof fn lemma_pieces(word: Seq<char>, width: nat)
    requires
        width > 0,
        is_word(word),
    ensures
        pieces(word, width).len() > 0,
        word.len() > width ==> pieces(word, width).len() > 1,
        rows_ink(pieces(word, width)) == ink(word),
        forall|i: int|
            0 <= i < pieces(word, width).len() ==> is_word(#[trigger] pieces(word, width)[i])
                && pieces(word, width)[i].len() <= width,
        forall|i: int|
            0 <= i < pieces(word, width).len() - 1 ==> (#[trigger] pieces(word, width)[i]).len()
                == width,
    decreases word.len(),
{
    if word.len() <= width {
        lemma_rows_ink_one(word);
    } else {
        let head = word.take(width as int);
        let rest = word.skip(width as int);
        lemma_pieces(rest, width);
        let ps = seq![head] + pieces(rest, width);
        assert(pieces(word, width) == ps);
        assert forall|i: int| 0 <= i < ps.len() implies is_word(#[trigger] ps[i]) && ps[i].len()
            <= width by {
            if i > 0 {
                assert(ps[i] == pieces(rest, width)[i - 1]);
            }
        }
        assert forall|i: int| 0 <= i < ps.len() - 1 implies (#[trigger] ps[i]).len() == width by {
            if i > 0 {
                assert(ps[i] == pieces(rest, width)[i - 1]);
            }
        }
        lemma_rows_ink_concat(seq![head], pieces(rest, width));
        lemma_rows_ink_one(head);
        assert(word =~= head + rest);
        lemma_ink_concat(head, rest);
    }
}

/// A row could not also have held the first word of the row below it.
pub open spec fn tight(above: Seq<char>, below: Seq<char>, width: nat) -> bool {
    above.len() + 1 + word_len(below) > width
}

/// What holds while words are being placed.
spec fn placed(w: Wrapping, ws: Seq<Seq<char>>, width: nat) -> bool {
    &&& w.current.len() <= width
    &&& w.current.len() == 0 ==> w.rows.len() == 0 && ws.len() == 0
    &&& ws.len() == 0 ==> w.rows.len() == 0 && w.current.len() == 0
    &&& forall|i: int|
        0 <= i < w.rows.len() ==> 0 < (#[trigger] w.rows[i]).len() <= width
    &&& rows_ink(w.rows) + ink(w.current) == rows_ink(ws)
    &&& forall|i: int|
        0 <= i < w.rows.len() - 1 ==> tight(#[trigger] w.rows[i], w.rows[i + 1], width)
    &&& w.rows.len() > 0 ==> tight(w.rows.last(), w.current, width)
}

proof fn lemma_place(w: Wrapping, ws: Seq<Seq<char>>, word: Seq<char>, width: nat)
    requires
        width > 0,
        is_word(word),
        placed(w, ws, width),
    ensures
        placed(place(w, word, width), ws.push(word), width),
{
    let next = place(w, word, width);
    let all = ws.push(word);
    assert(all.drop_last() =~= ws);
    assert(rows_ink(all) == rows_ink(ws) + ink(word));
    let flushed = if w.current.len() > 0 {
        w.rows.push(w.current)
    } else {
        w.rows
    };
    assert(rows_ink(flushed) =~= rows_ink(ws)) by {
        if w.current.len() > 0 {
            assert(flushed.drop_last() =~= w.rows);
        } else {
            assert(w.current =~= seq![]);
        }
    }
    assert forall|i: int| 0 <= i < flushed.len() - 1 implies tight(
        #[trigger] flushed[i],
        flushed[i + 1],
        width,
    ) by {
        assert(flushed[i] == w.rows[i]);
        if i + 1 < w.rows.len() {
            assert(flushed[i + 1] == w.rows[i + 1]);
        }
    }
    lemma_word_len(word);
    if word.len() > width {
        let cut = pieces(word, width);
        lemma_pieces(word, width);
        let head = cut.drop_last();
        assert(next.rows == flushed + head);
        assert(cut =~= head.push(cut.last()));
        assert(rows_ink(cut) == rows_ink(head) + ink(cut.last()));
        lemma_rows_ink_concat(flushed, head);
        assert(rows_ink(next.rows) + ink(next.current) =~= rows_ink(all));
        assert forall|i: int| 0 <= i < next.rows.len() implies 0 < (#[trigger] next.rows[i]).len()
            <= width by {
            if i >= flushed.len() {
                assert(next.rows[i] == cut[i - flushed.len()]);
                assert(is_word(cut[i - flushed.len()]));
            }
        }
        assert forall|i: int| 0 <= i < next.rows.len() - 1 implies tight(
            #[trigger] next.rows[i],
            next.rows[i + 1],
            width,
        ) by {
            if i + 1 < flushed.len() {
                assert(next.rows[i] == flushed[i]);
            } else if i + 1 == flushed.len() {
                let first = cut[0];
                assert(next.rows[i + 1] == first);
                assert(is_word(first));
                lemma_word_len(first);
            } else {
                assert(next.rows[i] == cut[i - flushed.len()]);
            }
        }
        assert(next.rows.last() == cut[cut.len() - 2]);
        assert(is_word(cut.last()));
    } else if w.current.len() == 0 {
        assert(next.rows =~= seq![]);
        assert(rows_ink(next.rows) + ink(next.current) =~= rows_ink(all));
    } else if w.current.len() + 1 + word.len() > width {
        assert(next.rows == flushed);
        assert(rows_ink(next.rows) + ink(next.current) =~= rows_ink(all));
    } else {
        lemma_ink_concat(w.current.push(' '), word);
        assert(w.current.push(' ').drop_last() =~= w.current);
        assert(ink(w.current.push(' ')) == ink(w.current));
        assert(rows_ink(next.rows) + ink(next.current) =~= rows_ink(all));
        assert(next.current =~= w.current + (seq![' '] + word));
        lemma_word_len_stops(w.current, seq![' '] + word);
    }
}

proof fn lemma_place_all(ws: Seq<Seq<char>>, width: nat)
    requires
        width > 0,
        forall|i: int| 0 <= i < ws.len() ==> is_word(#[trigger] ws[i]),
    ensures
        placed(place_all(ws, width), ws, width),
    decreases ws.len(),
{
    if ws.len() == 0 {
        let w = place_all(ws, width);
        assert(rows_ink(w.rows) + ink(w.current) =~= rows_ink(ws));
    } else {
        let front = ws.drop_last();
        assert forall|i: int| 0 <= i < front.len() implies is_word(#[trigger] front[i]) by {
            assert(front[i] == ws[i]);
        }
        lemma_place_all(front, width);
        lemma_place(place_all(front, width), front, ws.last(), width);
        assert(front.push(ws.last()) =~= ws);
    }
}

/// Wrapping never makes a row wider than asked for, never drops or reorders a
/// visible character, and gives at least one row. A line without words is
/// exactly one blank row; no row of any other line is blank.
pub proof fn wrapping_keeps_text(line: Seq<char>, width: nat)
    requires
        width > 0,
    ensures
        wrap_line(line, width).len() >= 1,
        forall|i: int|
            0 <= i < wrap_line(line, width).len() ==> (#[trigger] wrap_line(line, width)[i]).len()
                <= width,
        rows_ink(wrap_line(line, width)) == ink(line),
        words(line).len() == 0 ==> wrap_line(line, width) == seq![Seq::<char>::empty()],
        words(line).len() > 0 ==> forall|i: int|
            0 <= i < wrap_line(line, width).len() ==> (#[trigger] wrap_line(line, width)[i]).len()
                > 0,
{
    lemma_words(line);
    lemma_place_all(words(line), width);
    let w = place_all(words(line), width);
    let rows = w.rows.push(w.current);
    assert(rows.drop_last() =~= w.rows);
    if words(line).len() == 0 {
        assert(w.current =~= seq![]);
        assert(rows =~= seq![Seq::<char>::empty()]);
    }
}

/// Wrapping is greedy: no row could also have held the first word of the row
/// below it.
pub proof fn wrapping_is_greedy(line: Seq<char>, width: nat)
    requires
        width > 0,
    ensures
        forall|i: int|
            0 <= i < wrap_line(line, width).len() - 1 ==> tight(
                #[trigger] wrap_line(line, width)[i],
                wrap_line(line, width)[i + 1],
                width,
            ),
{
    lemma_words(line);
    lemma_place_all(words(line), width);
    let w = place_all(words(line), width);
    let rows = w.rows.push(w.current);
    assert forall|i: int| 0 <= i < rows.len() - 1 implies tight(
        #[trigger] rows[i],
        rows[i + 1],
        width,
    ) by {
        assert(rows[i] == w.rows[i]);
        if i + 1 < w.rows.len() {
            assert(rows[i + 1] == w.rows[i + 1]);
        }
    }
}

/// White space ends a word, and nothing else does: the words of two texts with
/// white space between them are the words of each, and a text without white space
/// is one word.
pub proof fn only_white_space_ends_a_word(a: Seq<char>, gap: char, b: Seq<char>)
    ensures
        is_space(gap) ==> words(a.push(gap) + b) == words(a) + words(b),
        is_word(a) ==> words(a) == seq![a],
        words(Seq::<char>::empty()).len() == 0,
    decreases a.len(),
{
    if is_word(a) {
        lemma_word_len(a);
        let n = a.len() as int;
        assert(a.take(n) =~= a);
        assert(a.skip(n) =~= seq![]);
        assert(words(a.skip(n)) =~= seq![]);
        assert(words(a) =~= seq![a]);
    }
    if is_space(gap) {
        let s = a.push(gap) + b;
        if a.len() == 0 {
            assert(s.drop_first() =~= b);
            assert(words(a) + words(b) =~= words(b));
        } else if is_space(a[0]) {
            assert(s[0] == a[0]);
            assert(s.drop_first() =~= a.drop_first().push(gap) + b);
            only_white_space_ends_a_word(a.drop_first(), gap, b);
        } else {
            let rest = seq![gap] + b;
            assert(s =~= a + rest);
            assert(s[0] == a[0]);
            lemma_word_len_stops(a, rest);
            lemma_word_len(a);
            let n = word_len(a) as int;
            assert(n == 1 + word_len(a.drop_first()));
            assert(s.take(n) =~= a.take(n));
            assert(s.skip(n) =~= a.skip(n).push(gap) + b);
            only_white_space_ends_a_word(a.skip(n), gap, b);
            assert(words(s) =~= words(a) + words(b));
        }
    }
}

/// Words with one space between each two.
pub open spec fn spaced(ws: Seq<Seq<char>>) -> Seq<char>
    decreases ws.len(),
{
    if ws.len() == 0 {
        seq![]
    } else if ws.len() == 1 {
        ws[0]
    } else {
        spaced(ws.drop_last()).push(' ') + ws.last()
    }
}

/// The words of a list of rows, row after row.
pub open spec fn rows_words(rows: Seq<Seq<char>>) -> Seq<Seq<char>>
    decreases rows.len(),
{
    if rows.len() == 0 {
        seq![]
    } else {
        rows_words(rows.drop_last()) + words(rows.last())
    }
}

/// Words, with those wider than a row cut into pieces.
pub open spec fn cut_words(ws: Seq<Seq<char>>, width: nat) -> Seq<Seq<char>>
    decreases ws.len(),
{
    if ws.len() == 0 {
        seq![]
    } else {
        cut_words(ws.drop_last(), width) + if ws.last().len() > width {
            pieces(ws.last(), width)
        } else {
            seq![ws.last()]
        }
    }
}

/// A word wider than a row is cut where the row is full: every piece but the last
/// is as wide as the row, the last is not empty, and together they are the word.
pub proof fn long_words_fill_their_rows(word: Seq<char>, width: nat)
    requires
        width > 0,
        is_word(word),
    ensures
        pieces(word, width).len() > 0,
        rows_ink(pieces(word, width)) == word,
        forall|i: int|
            0 <= i < pieces(word, width).len() - 1 ==> (#[trigger] pieces(word, width)[i]).len()
                == width,
        0 < pieces(word, width).last().len() <= width,
        word.len() <= width ==> pieces(word, width) == seq![word],
{
    lemma_pieces(word, width);
    lemma_ink_of_word(word);
    assert(is_word(pieces(word, width)[pieces(word, width).len() - 1]));
}

proof fn lemma_ink_of_word(word: Seq<char>)
    requires
        forall|i: int| 0 <= i < word.len() ==> !is_space(#[trigger] word[i]),
    ensures
        ink(word) == word,
    decreases word.len(),
{
    if word.len() > 0 {
        lemma_ink_of_word(word.drop_last());
        assert(!is_space(word[word.len() - 1]));
        assert(word.drop_last().push(word.last()) =~= word);
    } else {
        assert(ink(word) =~= word);
    }
}

spec fn neat(row: Seq<char>) -> bool {
    row == spaced(words(row))
}

proof fn lemma_rows_words_concat(a: Seq<Seq<char>>, b: Seq<Seq<char>>)
    ensures
        rows_words(a + b) == rows_words(a) + rows_words(b),
    decreases b.len(),
{
    if b.len() == 0 {
        assert(a + b =~= a);
        assert(rows_words(a) + rows_words(b) =~= rows_words(a));
    } else {
        lemma_rows_words_concat(a, b.drop_last());
        assert((a + b).drop_last() =~= a + b.drop_last());
        assert(rows_words(a + b) =~= rows_words(a) + rows_words(b));
    }
}

proof fn lemma_rows_words_of_words(ws: Seq<Seq<char>>)
    requires
        forall|i: int| 0 <= i < ws.len() ==> is_word(#[trigger] ws[i]),
    ensures
        rows_words(ws) == ws,
    decreases ws.len(),
{
    if ws.len() > 0 {
        let front = ws.drop_last();
        assert forall|i: int| 0 <= i < front.len() implies is_word(#[trigger] front[i]) by {
            assert(front[i] == ws[i]);
        }
        lemma_rows_words_of_words(front);
        assert(is_word(ws[ws.len() - 1]));
        only_white_space_ends_a_word(ws.last(), 'x', seq![]);
        assert(front + seq![ws.last()] =~= ws);
    } else {
        assert(rows_words(ws) =~= ws);
    }
}

proof fn lemma_word_is_neat(word: Seq<char>)
    requires
        is_word(word),
    ensures
        words(word) == seq![word],
        neat(word),
{
    only_white_space_ends_a_word(word, 'x', seq![]);
}

spec fn tidy(w: Wrapping, ws: Seq<Seq<char>>, width: nat) -> bool {
    &&& forall|i: int| 0 <= i < w.rows.len() ==> neat(#[trigger] w.rows[i])
    &&& neat(w.current)
    &&& rows_words(w.rows) + words(w.current) == cut_words(ws, width)
}

proof fn lemma_tidy_place(w: Wrapping, ws: Seq<Seq<char>>, word: Seq<char>, width: nat)
    requires
        width > 0,
        is_word(word),
        tidy(w, ws, width),
    ensures
        tidy(place(w, word, width), ws.push(word), width),
{
    let next = place(w, word, width);
    let all = ws.push(word);
    assert(all.drop_last() =~= ws);
    lemma_word_is_neat(word);
    only_white_space_ends_a_word(seq![], 'x', seq![]);
    let flushed = if w.current.len() > 0 {
        w.rows.push(w.current)
    } else {
        w.rows
    };
    assert(rows_words(flushed) =~= cut_words(ws, width)) by {
        if w.current.len() > 0 {
            assert(flushed.drop_last() =~= w.rows);
        } else {
            assert(w.current =~= seq![]);
            assert(rows_words(w.rows) + words(w.current) =~= rows_words(w.rows));
        }
    }
    assert forall|i: int| 0 <= i < flushed.len() implies neat(#[trigger] flushed[i]) by {
        if i < w.rows.len() {
            assert(flushed[i] == w.rows[i]);
        }
    }
    if word.len() > width {
        lemma_pieces(word, width);
        let cut = pieces(word, width);
        let head = cut.drop_last();
        assert forall|i: int| 0 <= i < head.len() implies is_word(#[trigger] head[i]) by {
            assert(head[i] == cut[i]);
        }
        lemma_rows_words_of_words(head);
        assert(is_word(cut[cut.len() - 1]));
        lemma_word_is_neat(cut.last());
        lemma_rows_words_concat(flushed, head);
        assert(head + seq![cut.last()] =~= cut);
        assert(rows_words(next.rows) + words(next.current) =~= cut_words(all, width));
        assert forall|i: int| 0 <= i < next.rows.len() implies neat(#[trigger] next.rows[i]) by {
            if i < flushed.len() {
                assert(next.rows[i] == flushed[i]);
            } else {
                assert(next.rows[i] == head[i - flushed.len()]);
                assert(is_word(head[i - flushed.len()]));
                lemma_word_is_neat(next.rows[i]);
            }
        }
    } else if w.current.len() == 0 {
        assert(rows_words(next.rows) + words(next.current) =~= cut_words(all, width));
    } else if w.current.len() + 1 + word.len() > width {
        assert(rows_words(next.rows) + words(next.current) =~= cut_words(all, width));
        assert forall|i: int| 0 <= i < next.rows.len() implies neat(#[trigger] next.rows[i]) by {
            assert(next.rows[i] == flushed[i]);
        }
    } else {
        only_white_space_ends_a_word(w.current, ' ', word);
        let before = words(w.current);
        let after = words(next.current);
        assert(after =~= before.push(word));
        assert(before.len() > 0) by {
            if before.len() == 0 {
                assert(spaced(before) =~= seq![]);
            }
        }
        assert(after.drop_last() =~= before);
        assert(neat(next.current));
        assert(rows_words(next.rows) + words(next.current) =~= cut_words(all, width));
    }
}

proof fn lemma_tidy_all(ws: Seq<Seq<char>>, width: nat)
    requires
        width > 0,
        forall|i: int| 0 <= i < ws.len() ==> is_word(#[trigger] ws[i]),
    ensures
        tidy(place_all(ws, width), ws, width),
    decreases ws.len(),
{
    if ws.len() == 0 {
        let w = place_all(ws, width);
        only_white_space_ends_a_word(seq![], 'x', seq![]);
        assert(w.current =~= seq![]);
        assert(words(w.current) =~= seq![]);
        assert(rows_words(w.rows) + words(w.current) =~= cut_words(ws, width));
    } else {
        let front = ws.drop_last();
        assert forall|i: int| 0 <= i < front.len() implies is_word(#[trigger] front[i]) by {
            assert(front[i] == ws[i]);
        }
        lemma_tidy_all(front, width);
        assert(is_word(ws[ws.len() - 1]));
        lemma_tidy_place(place_all(front, width), front, ws.last(), width);
        assert(front.push(ws.last()) =~= ws);
    }
}

/// The rows of a line are its words in order, whole where they fit a row and cut
/// only where they do not, with one space between each two in a row and none at its
/// ends.
pub proof fn rows_are_words_with_single_spaces(line: Seq<char>, width: nat)
    requires
        width > 0,
    ensures
        rows_words(wrap_line(line, width)) == cut_words(words(line), width),
        forall|i: int|
            0 <= i < wrap_line(line, width).len() ==> (#[trigger] wrap_line(line, width)[i])
                == spaced(words(wrap_line(line, width)[i])),
        (forall|i: int| 0 <= i < words(line).len() ==> (#[trigger] words(line)[i]).len() <= width)
            ==> rows_words(wrap_line(line, width)) == words(line),
{
    lemma_words(line);
    lemma_tidy_all(words(line), width);
    let w = place_all(words(line), width);
    let rows = w.rows.push(w.current);
    assert(rows.drop_last() =~= w.rows);
    assert forall|i: int| 0 <= i < rows.len() implies (#[trigger] rows[i]) == spaced(
        words(rows[i]),
    ) by {
        if i < w.rows.len() {
            assert(neat(w.rows[i]));
        } else {
            assert(neat(w.current));
        }
    }
    if forall|i: int| 0 <= i < words(line).len() ==> (#[trigger] words(line)[i]).len() <= width {
        lemma_nothing_to_cut(words(line), width);
    }
}

proof fn lemma_nothing_to_cut(ws: Seq<Seq<char>>, width: nat)
    requires
        forall|i: int| 0 <= i < ws.len() ==> (#[trigger] ws[i]).len() <= width,
    ensures
        cut_words(ws, width) == ws,
    decreases ws.len(),
{
    if ws.len() > 0 {
        let front = ws.drop_last();
        assert forall|i: int| 0 <= i < front.len() implies (#[trigger] front[i]).len() <= width by {
            assert(front[i] == ws[i]);
        }
        lemma_nothing_to_cut(front, width);
        assert(ws[ws.len() - 1].len() <= width);
        assert(front + seq![ws.last()] =~= ws);
    } else {
        assert(cut_words(ws, width) =~= ws);
    }
}

/// The rows of lines are the rows of each, one line after the other.
pub proof fn lines_are_wrapped_on_their_own(a: Seq<Seq<char>>, b: Seq<Seq<char>>, width: nat)
    ensures
        wrap_lines(a + b, width) == wrap_lines(a, width) + wrap_lines(b, width),
        forall|line: Seq<char>| #[trigger]
            wrap_lines(seq![line], width) == wrap_line(line, width),
    decreases b.len(),
{
    assert forall|line: Seq<char>| #[trigger] wrap_lines(seq![line], width) == wrap_line(
        line,
        width,
    ) by {
        let one = seq![line];
        assert(one.drop_last() =~= seq![]);
        assert(wrap_lines(one.drop_last(), width) =~= seq![]);
        assert(wrap_lines(one, width) =~= wrap_line(line, width));
    }
    if b.len() == 0 {
        assert(a + b =~= a);
        assert(wrap_lines(a, width) + wrap_lines(b, width) =~= wrap_lines(a, width));
    } else {
        lines_are_wrapped_on_their_own(a, b.drop_last(), width);
        assert((a + b).drop_last() =~= a + b.drop_last());
        assert(wrap_lines(a + b, width) =~= wrap_lines(a, width) + wrap_lines(b, width));
    }
}

} // verus!
