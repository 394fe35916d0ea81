//! One-line feedback on what the player did.

use ratatui::buffer::Buffer;
use vstd::prelude::*;

use crate::canvas::{
    buffer_area, buffer_cells, draw_rows, row_views, rows_drawn, rows_fit, visible,
    Rect, Row, Style,
};
use crate::prompt::theme::{default_style, StyleRole, Theme};
use crate::text::Text;

verus! {

broadcast use vstd::string::group_string_axioms;

/// How serious a feedback line is.
#[derive(Debug, Clone, Copy, PartialEq, Eq, Hash, Structural)]
pub enum FeedbackKind {
    Info,
    Success,
    Error,
}

/// The characters in front of a feedback line. They tell the kinds apart
/// without colour.
pub open spec fn marker_text(kind: FeedbackKind) -> Seq<char> {
    match kind {
        FeedbackKind::Info => seq![],
        FeedbackKind::Success => seq!['+', ' '],
        FeedbackKind::Error => seq!['!', ' '],
    }
}

/// The style role of a feedback line.
pub open spec fn kind_role(kind: FeedbackKind) -> StyleRole {
    match kind {
        FeedbackKind::Info => StyleRole::Normal,
        FeedbackKind::Success => StyleRole::Success,
        FeedbackKind::Error => StyleRole::Error,
    }
}

impl FeedbackKind {
    /// The characters in front of a line of this kind.
    pub fn marker(self) -> (r: &'static str)
        ensures
            r@ == marker_text(self),
    {
        proof {
            reveal_strlit("");
            reveal_strlit("+ ");
            reveal_strlit("! ");
        }
        let r: &'static str = match self {
            FeedbackKind::Info => "",
            FeedbackKind::Success => "+ ",
            FeedbackKind::Error => "! ",
        };
        assert(r@ =~= marker_text(self));
        r
    }

    /// The style role of a line of this kind.
    pub fn style_role(self) -> (r: StyleRole)
        ensures
            r == kind_role(self),
    {
        match self {
            FeedbackKind::Info => StyleRole::Normal,
            FeedbackKind::Success => StyleRole::Success,
            FeedbackKind::Error => StyleRole::Error,
        }
    }
}

/// A line of feedback.
#[derive(Debug, Clone, PartialEq, Eq)]
pub struct FeedbackLine {
    kind: FeedbackKind,
    text: String,
}

impl FeedbackLine {
    /// How serious the line is.
    pub closed spec fn severity(self) -> FeedbackKind {
        self.kind
    }

    /// The text without its marker.
    pub closed spec fn message(self) -> Seq<char> {
        self.text@
    }

    /// The row that is drawn in a theme.
    pub open spec fn row(self, theme: Theme) -> Row {
        (
            marker_text(self.severity()) + self.message(),
            theme.role_style(kind_role(self.severity())),
        )
    }

    /// The row that is drawn in the default theme.
    pub open spec fn default_row(self) -> Row {
        (
            marker_text(self.severity()) + self.message(),
            default_style(kind_role(self.severity())),
        )
    }

    /// A neutral note.
    pub fn info(text: impl Text) -> (r: FeedbackLine)
        ensures
            r.severity() == FeedbackKind::Info,
            r.message() == text.text(),
    {
        FeedbackLine { kind: FeedbackKind::Info, text: text.into_text() }
    }

    /// Something went well.
    pub fn success(text: impl Text) -> (r: FeedbackLine)
        ensures
            r.severity() == FeedbackKind::Success,
            r.message() == text.text(),
    {
        FeedbackLine { kind: FeedbackKind::Success, text: text.into_text() }
    }

    /// Something went wrong.
    pub fn error(text: impl Text) -> (r: FeedbackLine)
        ensures
            r.severity() == FeedbackKind::Error,
            r.message() == text.text(),
    {
        FeedbackLine { kind: FeedbackKind::Error, text: text.into_text() }
    }

    /// How serious the line is.
    pub fn kind(&self) -> (r: FeedbackKind)
        ensures
            r == self.severity(),
    {
        self.kind
    }

    /// The text without its marker.
    pub fn text(&self) -> (r: &str)
        ensures
            r@ == self.message(),
    {
        self.text.as_str()
    }

    /// The text with its marker in front.
    pub fn rendered_text(&self) -> (r: String)
        ensures
            r@ == marker_text(self.severity()) + self.message(),
    {
        let mut out: String = String::new();
        out.append(self.kind.marker());
        out.append(self.text.as_str());
        assert(out@ =~= marker_text(self.severity()) + self.message());
        out
    }

    /// Draw the line into the top row of an area in the default theme. Gives the
    /// number of rows drawn: none where the area is empty, else one.
    pub fn render(&self, area: Rect, buf: &mut Buffer) -> (drawn: u16)
        requires
            rows_fit(
                buffer_cells(*old(buf)),
                buffer_area(*old(buf)),
                area,
                visible(seq![self.default_row()], area),
            ),
        ensures
            drawn == if area.width == 0 || area.height == 0 {
                0int
            } else {
                1
            },
            buffer_area(*final(buf)) == buffer_area(*old(buf)),
            rows_drawn(
                buffer_cells(*old(buf)),
                buffer_cells(*final(buf)),
                buffer_area(*old(buf)),
                area,
                visible(seq![self.default_row()], area),
            ),
    {
        let theme: Theme = Theme::default();
        assert(self.row(theme) == self.default_row());
        self.render_with_theme(area, buf, &theme)
    }

    /// Draw the line into the top row of an area. Gives the number of rows
    /// drawn: none where the area is empty, else one.
    pub fn render_with_theme(&self, area: Rect, buf: &mut Buffer, theme: &Theme) -> (drawn: u16)
        requires
            rows_fit(
                buffer_cells(*old(buf)),
                buffer_area(*old(buf)),
                area,
                visible(seq![self.row(*theme)], area),
            ),
        ensures
            drawn == if area.width == 0 || area.height == 0 {
                0int
            } else {
                1
            },
            buffer_area(*final(buf)) == buffer_area(*old(buf)),
            rows_drawn(
                buffer_cells(*old(buf)),
                buffer_cells(*final(buf)),
                buffer_area(*old(buf)),
                area,
                visible(seq![self.row(*theme)], area),
            ),
    {
        let style: Style = theme.style(self.kind.style_role());
        let mut rows: Vec<(String, Style)> = Vec::new();
        rows.push((self.rendered_text(), style));
        assert(row_views(rows@) =~= seq![self.row(*theme)]);
        draw_rows(area, &rows, buf)
    }
}

/// The kinds of feedback can be told apart by their markers alone.
pub proof fn markers_differ(a: FeedbackKind, b: FeedbackKind)
    requires
        a != b,
    ensures
        marker_text(a) != marker_text(b),
{
    if marker_text(a).len() == marker_text(b).len() {
        assert(marker_text(a)[0] != marker_text(b)[0]);
    }
}

/// A note has no marker; good news start with `+ ` and bad news with `! `. The message
/// follows unchanged.
pub proof fn feedback_is_marker_and_message(line: FeedbackLine, theme: Theme)
    ensures
        line.severity() == FeedbackKind::Info ==> line.row(theme).0 == line.message(),
        line.severity() == FeedbackKind::Success ==> line.row(theme).0 == seq!['+', ' ']
            + line.message(),
        line.severity() == FeedbackKind::Error ==> line.row(theme).0 == seq!['!', ' ']
            + line.message(),
        line.default_row().0 == line.row(theme).0,
{
    if line.severity() == FeedbackKind::Info {
        assert(line.row(theme).0 =~= line.message());
    }
}

/// A line takes the style that the theme has for its kind: notes are normal, good
/// news success, bad news errors.
pub proof fn feedback_takes_the_style_of_its_kind(line: FeedbackLine, theme: Theme)
    ensures
        line.severity() == FeedbackKind::Info ==> line.row(theme).1 == theme.role_style(
            StyleRole::Normal,
        ) && line.default_row().1 == default_style(StyleRole::Normal),
        line.severity() == FeedbackKind::Success ==> line.row(theme).1 == theme.role_style(
            StyleRole::Success,
        ) && line.default_row().1 == default_style(StyleRole::Success),
        line.severity() == FeedbackKind::Error ==> line.row(theme).1 == theme.role_style(
            StyleRole::Error,
        ) && line.default_row().1 == default_style(StyleRole::Error),
{
}

} // verus!
