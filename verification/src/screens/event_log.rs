//! A screen that shows the event log, page by page.

use ratatui::buffer::Buffer;
use vstd::prelude::*;

use crate::canvas::{
    ascii_centered, border_shown, border_takes, buffer_area, buffer_cells, centered_drawn,
    char_rows, characters_stand_where_they_belong, draw_centered, draw_frame, frame_drawn,
    frame_inner, inside, lemma_clip_inside, lies_in, line_fits, on_border, plain, printable, row_takes, title_fits, whole, write_row, Cells,
    Modifier, Rect, Style,
};
use crate::config::EventLogScreenSection;
use crate::input::Input;
use crate::screen::{GameContext, Screen, ScreenCommand};
use crate::text::{lemma_texts_push, texts, Text};
use crate::world::EventRecord;

verus! {

broadcast use {lemma_texts_push, vstd::string::group_string_axioms};

/// Which events are shown.
#[derive(Debug, PartialEq, Eq)]
pub enum EventLogScope {
    /// All of them.
    Global,
    /// Those of one player.
    Player(i64),
    /// Those of one kind.
    Kind(String),
    /// Those that the game picks.
    Custom,
}

impl Clone for EventLogScope {
    fn clone(&self) -> (r: EventLogScope)
        ensures
            r == *self,
    {
        match self {
            EventLogScope::Global => EventLogScope::Global,
            EventLogScope::Player(player_id) => EventLogScope::Player(*player_id),
            EventLogScope::Kind(kind) => EventLogScope::Kind(kind.clone()),
            EventLogScope::Custom => EventLogScope::Custom,
        }
    }
}

/// How the time of an event is shown.
#[derive(Debug, Clone, Copy, PartialEq, Eq, Structural)]
pub enum TimestampStyle {
    /// As it was stored.
    Absolute,
    /// As the word `now`.
    Relative,
    /// Not at all.
    Hidden,
}

/// What a game makes of an event.
#[derive(Debug, Clone, PartialEq, Eq)]
pub struct EventLogLine {
    pub primary: String,
    pub secondary: Option<String>,
}

/// What makes the lines of events.
pub trait EventFormatter: Sized {
    /// Whether a line can be made of this event.
    spec fn takes(self, event: EventRecord) -> bool;

    /// Whether this line can come of this event.
    spec fn makes(self, event: EventRecord, line: EventLogLine) -> bool;

    /// The line of an event.
    fn line(&self, event: &EventRecord) -> (r: EventLogLine)
        requires
            self.takes(*event),
        ensures
            self.makes(*event, r),
    ;
}

/// Shows the messages of events as they are.
#[derive(Debug, Clone, Copy, PartialEq, Eq)]
pub struct Messages;

impl EventFormatter for Messages {
    open spec fn takes(self, event: EventRecord) -> bool {
        true
    }

    open spec fn makes(self, event: EventRecord, line: EventLogLine) -> bool {
        line.primary@ == event.message@ && line.secondary is None
    }

    fn line(&self, event: &EventRecord) -> (r: EventLogLine) {
        EventLogLine { primary: event.message.clone(), secondary: None }
    }
}

/// Shows what a game makes of events.
#[derive(Debug, Clone, Copy)]
pub struct LinesBy<F>(pub F);

impl<F: Fn(&EventRecord) -> EventLogLine> EventFormatter for LinesBy<F> {
    open spec fn takes(self, event: EventRecord) -> bool {
        call_requires(self.0, (&event,))
    }

    open spec fn makes(self, event: EventRecord, line: EventLogLine) -> bool {
        call_ensures(self.0, (&event,), line)
    }

    fn line(&self, event: &EventRecord) -> (r: EventLogLine) {
        (self.0)(event)
    }
}

/// Whether a verdict on an event is right. What the game picks, it decides
/// itself.
pub open spec fn in_scope<P: Fn(&EventRecord) -> bool>(
    scope: EventLogScope,
    event: EventRecord,
    custom: P,
    verdict: bool,
) -> bool {
    match scope {
        EventLogScope::Global => verdict,
        EventLogScope::Player(player_id) => verdict == (event.player_id == Some(player_id)),
        EventLogScope::Kind(kind) => verdict == (event.kind@ == kind@),
        EventLogScope::Custom => call_ensures(custom, (&event,), verdict),
    }
}

/// The events with a good verdict, in order.
pub open spec fn kept(events: Seq<EventRecord>, verdicts: Seq<bool>) -> Seq<EventRecord>
    decreases events.len(),
{
    if events.len() == 0 {
        seq![]
    } else if verdicts[events.len() - 1] {
        kept(events.drop_last(), verdicts).push(events.last())
    } else {
        kept(events.drop_last(), verdicts)
    }
}

/// Whether an event is in a scope.
pub fn scope_includes<P>(scope: &EventLogScope, event: &EventRecord, custom: &P) -> (r: bool) where
    P: Fn(&EventRecord) -> bool,

    requires
        *scope is Custom ==> call_requires(*custom, (event,)),
    ensures
        in_scope(*scope, *event, *custom, r),
{
    match scope {
        EventLogScope::Global => true,
        EventLogScope::Player(player_id) => match event.player_id {
            Some(id) => id == *player_id,
            None => false,
        },
        EventLogScope::Kind(kind) => event.kind == *kind,
        EventLogScope::Custom => custom(event),
    }
}

/// The events in a scope, in the order given. The game is asked once for each
/// event where it picks them.
pub fn select_events<P>(scope: &EventLogScope, events: Vec<EventRecord>, custom: &P) -> (r: Vec<
    EventRecord,
>) where P: Fn(&EventRecord) -> bool
    requires
        *scope is Custom ==> forall|event: &EventRecord| #[trigger]
            call_requires(*custom, (event,)),
    ensures
        exists|verdicts: Seq<bool>|
            #![trigger kept(events@, verdicts)]
            verdicts.len() == events@.len() && (forall|i: int|
                0 <= i < events@.len() ==> in_scope(
                    *scope,
                    #[trigger] events@[i],
                    *custom,
                    verdicts[i],
                )) && r@ == kept(events@, verdicts),
{
    let mut out: Vec<EventRecord> = Vec::new();
    let ghost mut verdicts: Seq<bool> = seq![];
    let mut i: usize = 0;
    assert(events@.take(0) =~= seq![]);
    while i < events.len()
        invariant
            i <= events@.len(),
            verdicts.len() == i,
            *scope is Custom ==> forall|event: &EventRecord| #[trigger]
                call_requires(*custom, (event,)),
            forall|k: int| 0 <= k < i ==> in_scope(*scope, #[trigger] events@[k], *custom, verdicts[k]),
            out@ == kept(events@.take(i as int), verdicts),
        decreases events@.len() - i,
    {
        let verdict: bool = scope_includes(scope, &events[i], custom);
        proof {
            let before = verdicts;
            verdicts = verdicts.push(verdict);
            assert(events@.take(i + 1).drop_last() =~= events@.take(i as int));
            lemma_kept_ignores_rest(events@.take(i as int), before, verdicts);
        }
        if verdict {
            out.push(events[i].clone());
        }
        i = i + 1;
    }
    assert(events@.take(i as int) =~= events@);
    out
}

proof fn lemma_kept_ignores_rest(events: Seq<EventRecord>, a: Seq<bool>, b: Seq<bool>)
    requires
        events.len() <= a.len(),
        events.len() <= b.len(),
        forall|i: int| 0 <= i < events.len() ==> a[i] == b[i],
    ensures
        kept(events, a) == kept(events, b),
    decreases events.len(),
{
    if events.len() > 0 {
        lemma_kept_ignores_rest(events.drop_last(), a, b);
    }
}

/// What is kept comes from the list, in the same order, and has a good verdict.
pub proof fn kept_events_are_in_scope(events: Seq<EventRecord>, verdicts: Seq<bool>, k: int) -> (i:
    int)
    requires
        0 <= k < kept(events, verdicts).len(),
        verdicts.len() == events.len(),
    ensures
        k <= i < events.len(),
        events[i] == kept(events, verdicts)[k],
        verdicts[i],
    decreases events.len(),
{
    let last = events.len() - 1;
    let front = kept(events.drop_last(), verdicts);
    if verdicts[last] && k == front.len() {
        lemma_kept_is_shorter(events.drop_last(), verdicts);
        last
    } else {
        lemma_kept_ignores_rest(events.drop_last(), verdicts, verdicts.drop_last());
        let i = kept_events_are_in_scope(events.drop_last(), verdicts.drop_last(), k);
        i
    }
}

proof fn lemma_kept_is_shorter(events: Seq<EventRecord>, verdicts: Seq<bool>)
    ensures
        kept(events, verdicts).len() <= events.len(),
    decreases events.len(),
{
    if events.len() > 0 {
        lemma_kept_is_shorter(events.drop_last(), verdicts);
    }
}

/// Title of a log that was given none.
pub const DEFAULT_TITLE: &'static str = "Event Log";

/// Text of an empty log that was given none.
pub const DEFAULT_EMPTY_STATE_TEXT: &'static str = "(no events yet)";

/// A page of the event log. `F` makes the lines of its events.
#[derive(Debug)]
pub struct EventLogScreen<F> {
    title: String,
    events: Vec<EventRecord>,
    scope: EventLogScope,
    page_size: usize,
    timestamp_style: TimestampStyle,
    empty_state_text: String,
    formatter: F,
    page_start: usize,
}

/// What an event log is made of.
pub ghost struct LogParts {
    pub title: Seq<char>,
    pub events: Seq<EventRecord>,
    pub scope: EventLogScope,
    pub page_size: nat,
    pub timestamp_style: TimestampStyle,
    pub empty_state_text: Seq<char>,
    pub page_start: nat,
}

/// A page holds at least one event.
pub open spec fn at_least_one(n: nat) -> nat {
    if n == 0 {
        1
    } else {
        n
    }
}

/// The event that the page after this one starts with. The last event is never
/// passed.
pub open spec fn next_start(log: LogParts) -> nat {
    if log.events.len() == 0 {
        0
    } else if log.page_start + log.page_size < log.events.len() {
        log.page_start + log.page_size
    } else {
        (log.events.len() - 1) as nat
    }
}

/// The event that the page before this one starts with.
pub open spec fn previous_start(log: LogParts) -> nat {
    if log.page_start < log.page_size {
        0
    } else {
        (log.page_start - log.page_size) as nat
    }
}

/// The log after an input.
pub open spec fn log_after(log: LogParts, input: Input) -> LogParts {
    match input {
        Input::Right | Input::Down => LogParts { page_start: next_start(log), ..log },
        Input::Left | Input::Up => LogParts { page_start: previous_start(log), ..log },
        Input::Char(c) => if c == 'n' || c == 'N' {
            LogParts { page_start: next_start(log), ..log }
        } else if c == 'p' || c == 'P' {
            LogParts { page_start: previous_start(log), ..log }
        } else {
            log
        },
        _ => log,
    }
}

/// Whether an input closes the log.
pub open spec fn closes(input: Input) -> bool {
    input == Input::Esc || input == Input::Char('q') || input == Input::Char('Q')
}

/// The number of events on the page in `height` rows.
pub open spec fn page_len(log: LogParts, height: u16) -> nat {
    let room = if log.page_size < height {
        log.page_size
    } else {
        height as nat
    };
    if log.page_start >= log.events.len() {
        0
    } else if log.events.len() - log.page_start < room {
        (log.events.len() - log.page_start) as nat
    } else {
        room
    }
}

/// The row of an event.
pub open spec fn event_row(style: TimestampStyle, event: EventRecord, primary: Seq<char>) -> Seq<
    char,
> {
    let rest = event.kind@ + " "@ + primary;
    match style {
        TimestampStyle::Absolute => event.created_at@ + " "@ + rest,
        TimestampStyle::Relative => "now "@ + rest,
        TimestampStyle::Hidden => rest,
    }
}

/// The rows of the page, given what the game makes of its events.
pub open spec fn page_rows(log: LogParts, lines: Seq<EventLogLine>) -> Seq<Seq<char>> {
    Seq::new(
        lines.len(),
        |i: int|
            event_row(log.timestamp_style, log.events[log.page_start + i], lines[i].primary@),
    )
}

/// Whether these are the lines of the events on the page.
pub open spec fn page_lines<F: EventFormatter>(
    log: LogParts,
    height: u16,
    formatter: F,
    lines: Seq<EventLogLine>,
) -> bool {
    &&& lines.len() == page_len(log, height)
    &&& forall|i: int|
        0 <= i < lines.len() ==> formatter.makes(
            log.events[log.page_start + i],
            #[trigger] lines[i],
        )
}

/// The row in the middle of an area.
pub open spec fn middle(area: Rect) -> Rect {
    Rect { x: area.x, y: (area.y + area.height / 2) as u16, width: area.width, height: 1 }
}

/// The style of the text of an empty log.
pub open spec fn faint() -> Style {
    Style { add_modifier: Modifier { bits: 2 }, ..plain() }
}

/// The cells of an empty log: a border with the title, and a text in the middle.
pub open spec fn empty_log_drawn(log: LogParts, cells: Cells, within: Rect, area: Rect) -> Cells {
    centered_drawn(
        frame_drawn(cells, within, area, Some(log.title)),
        middle(inside(area)),
        log.empty_state_text,
        faint(),
    )
}

/// The cells of a log with rows: a border with the title, and the rows inside.
pub open spec fn log_drawn(
    log: LogParts,
    cells: Cells,
    within: Rect,
    area: Rect,
    rows: Seq<Seq<char>>,
) -> Cells {
    char_rows(frame_drawn(cells, within, area, Some(log.title)), inside(area), rows)
}

impl<F> View for EventLogScreen<F> {
    type V = LogParts;

    closed spec fn view(&self) -> LogParts {
        LogParts {
            title: self.title@,
            events: self.events@,
            scope: self.scope,
            page_size: self.page_size as nat,
            timestamp_style: self.timestamp_style,
            empty_state_text: self.empty_state_text@,
            page_start: self.page_start as nat,
        }
    }
}

/// Whether the page lies in the log.
pub open spec fn page_ok(log: LogParts) -> bool {
    log.page_size > 0 && (log.page_start == 0 || log.page_start < log.events.len())
}

impl<F> EventLogScreen<F> {
    #[verifier::type_invariant]
    spec fn well_formed(self) -> bool {
        page_ok(self@)
    }

    /// What makes the lines of the events.
    pub closed spec fn formatter(self) -> F {
        self.formatter
    }
}

impl EventLogScreen<Messages> {
    /// A log of these events, from the first page on.
    pub fn new(events: Vec<EventRecord>, page_size: usize) -> (r: EventLogScreen<Messages>)
        ensures
            r@ == (LogParts {
                title: DEFAULT_TITLE@,
                events: events@,
                scope: EventLogScope::Global,
                page_size: at_least_one(page_size as nat),
                timestamp_style: TimestampStyle::Absolute,
                empty_state_text: DEFAULT_EMPTY_STATE_TEXT@,
                page_start: 0,
            }),
    {
        EventLogScreen {
            title: DEFAULT_TITLE.to_string(),
            events,
            scope: EventLogScope::Global,
            page_size: if page_size == 0 { 1 } else { page_size },
            timestamp_style: TimestampStyle::Absolute,
            empty_state_text: DEFAULT_EMPTY_STATE_TEXT.to_string(),
            formatter: Messages,
            page_start: 0,
        }
    }

    /// A log of those of the stored events that are in a scope, in pages of the
    /// configured size.
    pub fn from_events<P>(
        stored: Vec<EventRecord>,
        config: &EventLogScreenSection,
        scope: EventLogScope,
        custom: &P,
    ) -> (r: EventLogScreen<Messages>) where P: Fn(&EventRecord) -> bool
        requires
            scope is Custom ==> forall|event: &EventRecord| #[trigger]
                call_requires(*custom, (event,)),
        ensures
            exists|verdicts: Seq<bool>|
                #![trigger kept(stored@, verdicts)]
                verdicts.len() == stored@.len() && (forall|i: int|
                    0 <= i < stored@.len() ==> in_scope(
                        scope,
                        #[trigger] stored@[i],
                        *custom,
                        verdicts[i],
                    )) && r@.events == kept(stored@, verdicts),
            r@ == (LogParts {
                title: DEFAULT_TITLE@,
                events: r@.events,
                scope,
                page_size: at_least_one(config.default_page_size as nat),
                timestamp_style: TimestampStyle::Absolute,
                empty_state_text: DEFAULT_EMPTY_STATE_TEXT@,
                page_start: 0,
            }),
    {
        let events: Vec<EventRecord> = select_events(&scope, stored, custom);
        EventLogScreen::new(events, config.default_page_size as usize).with_scope(scope)
    }
}

impl<F> EventLogScreen<F> {
    /// Set the title.
    pub fn with_title(self, title: impl Text) -> (r: EventLogScreen<F>)
        ensures
            r@ == (LogParts { title: title.text(), ..self@ }),
            r.formatter() == self.formatter(),
    {
        proof {
            use_type_invariant(&self);
        }
        EventLogScreen { title: title.into_text(), ..self }
    }

    /// Note the scope of the events.
    pub fn with_scope(self, scope: EventLogScope) -> (r: EventLogScreen<F>)
        ensures
            r@ == (LogParts { scope, ..self@ }),
            r.formatter() == self.formatter(),
    {
        proof {
            use_type_invariant(&self);
        }
        EventLogScreen { scope, ..self }
    }

    /// Set how the times of events are shown.
    pub fn with_timestamp_style(self, style: TimestampStyle) -> (r: EventLogScreen<F>)
        ensures
            r@ == (LogParts { timestamp_style: style, ..self@ }),
            r.formatter() == self.formatter(),
    {
        proof {
            use_type_invariant(&self);
        }
        EventLogScreen { timestamp_style: style, ..self }
    }

    /// Set the text of an empty log.
    pub fn with_empty_state_text(self, text: impl Text) -> (r: EventLogScreen<F>)
        ensures
            r@ == (LogParts { empty_state_text: text.text(), ..self@ }),
            r.formatter() == self.formatter(),
    {
        proof {
            use_type_invariant(&self);
        }
        EventLogScreen { empty_state_text: text.into_text(), ..self }
    }

    /// Set what makes the lines of the events.
    pub fn with_formatter<G>(self, formatter: G) -> (r: EventLogScreen<LinesBy<G>>) where
        G: Fn(&EventRecord) -> EventLogLine,

        ensures
            r@ == self@,
            r.formatter() == LinesBy(formatter),
    {
        proof {
            use_type_invariant(&self);
        }
        EventLogScreen {
            title: self.title,
            events: self.events,
            scope: self.scope,
            page_size: self.page_size,
            timestamp_style: self.timestamp_style,
            empty_state_text: self.empty_state_text,
            formatter: LinesBy(formatter),
            page_start: self.page_start,
        }
    }

    /// Whether the texts of the log can be drawn into an area of that width.
    pub fn texts_fit(&self, width: u16) -> (r: bool)
        ensures
            r == (title_fits(self@.title) && (self@.events.len() == 0 ==> width <= 0x7fff
                && line_fits(self@.empty_state_text))),
    {
        border_takes(self.title.as_str()) && (self.events.len() > 0 || (width <= 0x7fff
            && row_takes(self.empty_state_text.as_str())))
    }

    /// The row of an event.
    fn format_event_line(&self, event: &EventRecord, line: &EventLogLine) -> (r: String)
        ensures
            r@ == event_row(self@.timestamp_style, *event, line.primary@),
    {
        let mut out: String = String::new();
        match self.timestamp_style {
            TimestampStyle::Absolute => {
                out.append(event.created_at.as_str());
                out.append(" ");
            },
            TimestampStyle::Relative => out.append("now "),
            TimestampStyle::Hidden => {},
        }
        out.append(event.kind.as_str());
        out.append(" ");
        out.append(line.primary.as_str());
        assert(out@ =~= event_row(self@.timestamp_style, *event, line.primary@));
        out
    }

    /// The first event of the page after this one.
    fn next_page(&mut self)
        ensures
            final(self)@ == (LogParts { page_start: next_start(old(self)@), ..old(self)@ }),
            final(self).formatter() == old(self).formatter(),
    {
        proof {
            use_type_invariant(&*self);
        }
        let len: usize = self.events.len();
        if len == 0 {
            self.page_start = 0;
            return;
        }
        if self.page_size < len - self.page_start {
            self.page_start = self.page_start + self.page_size;
        } else {
            self.page_start = len - 1;
        }
    }

    /// The first event of the page before this one.
    fn previous_page(&mut self)
        ensures
            final(self)@ == (LogParts { page_start: previous_start(old(self)@), ..old(self)@ }),
            final(self).formatter() == old(self).formatter(),
    {
        proof {
            use_type_invariant(&*self);
        }
        if self.page_start < self.page_size {
            self.page_start = 0;
        } else {
            self.page_start = self.page_start - self.page_size;
        }
    }
}

impl<F: EventFormatter> EventLogScreen<F> {
    /// The rows of the page in `height` rows. The formatter is asked once for
    /// each event on the page.
    pub fn visible_rows(&self, height: u16) -> (r: Vec<String>)
        requires
            forall|event: EventRecord| #[trigger] self.formatter().takes(event),
        ensures
            exists|lines: Seq<EventLogLine>|
                #![trigger page_rows(self@, lines)]
                page_lines(self@, height, self.formatter(), lines) && texts(r@) == page_rows(self@, lines),
    {
        proof {
            use_type_invariant(self);
        }
        let room: usize = if self.page_size < height as usize {
            self.page_size
        } else {
            height as usize
        };
        let mut rows: Vec<String> = Vec::new();
        let ghost mut lines: Seq<EventLogLine> = seq![];
        let mut i: usize = 0;
        proof {
            assert(texts(rows@) =~= page_rows(self@, lines));
        }
        while i < room && i < self.events.len() - self.page_start
            invariant
                i <= room,
                self.page_start <= self.events@.len(),
                i <= self.events@.len() - self.page_start,
                forall|event: EventRecord| #[trigger] self.formatter().takes(event),
                lines.len() == i,
                forall|k: int|
                    0 <= k < i ==> self.formatter().makes(
                        self@.events[self@.page_start + k],
                        #[trigger] lines[k],
                    ),
                texts(rows@) == page_rows(self@, lines),
            decreases room - i,
        {
            let event: &EventRecord = &self.events[self.page_start + i];
            assert(self.formatter().takes(*event));
            let line: EventLogLine = self.formatter.line(event);
            let row: String = self.format_event_line(event, &line);
            let ghost before = page_rows(self@, lines);
            let ghost row_text = row@;
            rows.push(row);
            proof {
                lines = lines.push(line);
                assert(page_rows(self@, lines) =~= before.push(row_text));
            }
            i = i + 1;
        }
        proof {
            assert(lines.len() == page_len(self@, height));
            assert(page_lines(self@, height, self.formatter(), lines));
        }
        rows
    }

    /// Draw the page into an area: a border with the title, and inside it the
    /// rows, or the text of an empty log.
    pub fn render(&self, area: Rect, buf: &mut Buffer)
        requires
            whole(buffer_cells(*old(buf)), buffer_area(*old(buf))),
            lies_in(area, buffer_area(*old(buf))),
            title_fits(self@.title),
            self@.events.len() == 0 ==> area.width <= 0x7fff && line_fits(self@.empty_state_text),
            forall|event: EventRecord| #[trigger] self.formatter().takes(event),
        ensures
            buffer_area(*final(buf)) == buffer_area(*old(buf)),
            inside(area).width == 0 || inside(area).height == 0 ==> buffer_cells(*final(buf))
                == frame_drawn(
                buffer_cells(*old(buf)),
                buffer_area(*old(buf)),
                area,
                Some(self@.title),
            ),
            inside(area).width > 0 && inside(area).height > 0 && self@.events.len() == 0
                ==> buffer_cells(*final(buf)) == empty_log_drawn(
                self@,
                buffer_cells(*old(buf)),
                buffer_area(*old(buf)),
                area,
            ),
            inside(area).width > 0 && inside(area).height > 0 && self@.events.len() > 0 ==> exists|
                lines: Seq<EventLogLine>,
            |
                #![trigger page_rows(self@, lines)]
                page_lines(self@, inside(area).height, self.formatter(), lines) && buffer_cells(
                    *final(buf),
                ) == log_drawn(
                    self@,
                    buffer_cells(*old(buf)),
                    buffer_area(*old(buf)),
                    area,
                    page_rows(self@, lines),
                ),
            area.width >= 2 && area.height >= 2 ==> border_shown(
                buffer_cells(*old(buf)),
                buffer_cells(*final(buf)),
                area,
                self@.title,
            ),
            inside(area).width > 0 && inside(area).height > 0 && self@.events.len() == 0
                && printable(self@.empty_state_text) ==> buffer_cells(*final(buf))
                == ascii_centered(
                frame_drawn(
                    buffer_cells(*old(buf)),
                    buffer_area(*old(buf)),
                    area,
                    Some(self@.title),
                ),
                middle(inside(area)),
                self@.empty_state_text,
                faint(),
            ),
    {
        let inner: Rect = frame_inner(area);
        draw_frame(area, Some(self.title.as_str()), buf);
        let ghost framed = buffer_cells(*buf);
        let ghost within = buffer_area(*buf);
        let ghost cells = buffer_cells(*old(buf));
        proof {
            assert forall|x: u16, y: u16| within.holds(x, y) implies #[trigger] framed.contains_key(
                (x, y),
            ) by {
                assert(cells.contains_key((x, y)));
                assert(framed.dom().contains((x, y)));
            }
            lemma_clip_inside(area, within);
        }
        if inner.width == 0 || inner.height == 0 {
            return;
        }
        if self.events.len() == 0 {
            let band = Rect {
                x: inner.x,
                y: inner.y + inner.height / 2,
                width: inner.width,
                height: 1,
            };
            assert(0u16 | 2u16 == 2u16 && 0u16 & !2u16 == 0u16) by (bit_vector);
            draw_centered(
                band,
                self.empty_state_text.as_str(),
                Style::default().add_modifier(Modifier::dim()),
                buf,
            );
            proof {
                let after = buffer_cells(*buf);
                assert forall|x: u16, y: u16|
                    #![trigger after[(x, y)]]
                    on_border(area, x, y) implies after[(x, y)] == framed[(x, y)] by {
                    assert(within.holds(x, y));
                    assert(framed.contains_key((x, y)));
                }
            }
            return;
        }
        let rows: Vec<String> = self.visible_rows(inner.height);
        let mut i: usize = 0;
        proof {
            assert(char_rows(framed, inner, texts(rows@).take(0)) =~= framed);
        }
        while i < rows.len()
            invariant
                i <= rows@.len() <= inner.height,
                within == buffer_area(*buf),
                whole(framed, within),
                lies_in(inner, within),
                buffer_cells(*buf) == char_rows(framed, inner, texts(rows@).take(i as int)),
            decreases rows@.len() - i,
        {
            let ghost upto = texts(rows@).take(i as int);
            let ghost before = buffer_cells(*buf);
            proof {
                assert forall|x: u16, y: u16| within.holds(x, y) implies #[trigger]
                    before.contains_key((x, y)) by {
                    assert(framed.contains_key((x, y)));
                }
            }
            write_row(buf, inner, i as u16, rows[i].as_str());
            proof {
                let next = texts(rows@).take(i + 1);
                assert(next[i as int] == rows@[i as int]@);
                assert forall|k: int| 0 <= k < i implies next[k] == upto[k] by {}
                assert(buffer_cells(*buf) =~= char_rows(framed, inner, next));
            }
            i = i + 1;
        }
        proof {
            assert(texts(rows@).take(i as int) =~= texts(rows@));
            let after = buffer_cells(*buf);
            assert forall|x: u16, y: u16|
                #![trigger after[(x, y)]]
                on_border(area, x, y) implies after[(x, y)] == framed[(x, y)] by {
                assert(within.holds(x, y));
                assert(framed.contains_key((x, y)));
            }
        }
    }
}

/// The rows of the page where the game does not say otherwise: the messages of
/// the events.
pub open spec fn message_rows(log: LogParts, height: u16) -> Seq<Seq<char>> {
    Seq::new(
        page_len(log, height),
        |i: int|
            event_row(
                log.timestamp_style,
                log.events[log.page_start + i],
                log.events[log.page_start + i].message@,
            ),
    )
}

/// Where the messages are shown as they are, the rows of the page are the
/// messages of its events.
pub proof fn messages_are_shown(log: LogParts, height: u16, lines: Seq<EventLogLine>)
    requires
        page_lines(log, height, Messages, lines),
    ensures
        page_rows(log, lines) == message_rows(log, height),
{
    assert(page_rows(log, lines) =~= message_rows(log, height));
}

impl<F: Clone> Clone for EventLogScreen<F> {
    fn clone(&self) -> (r: EventLogScreen<F>)
        ensures
            r@ == self@,
            cloned(self.formatter(), r.formatter()),
    {
        proof {
            use_type_invariant(self);
        }
        let mut events: Vec<EventRecord> = Vec::new();
        let mut i: usize = 0;
        while i < self.events.len()
            invariant
                i <= self.events@.len(),
                events@ == self.events@.take(i as int),
            decreases self.events@.len() - i,
        {
            events.push(self.events[i].clone());
            i = i + 1;
            assert(events@ =~= self.events@.take(i as int));
        }
        assert(events@ =~= self.events@);
        EventLogScreen {
            title: self.title.clone(),
            events,
            scope: self.scope.clone(),
            page_size: self.page_size,
            timestamp_style: self.timestamp_style,
            empty_state_text: self.empty_state_text.clone(),
            formatter: self.formatter.clone(),
            page_start: self.page_start,
        }
    }
}

/// The command that an input leads to.
pub open spec fn log_command<S>(input: Input) -> ScreenCommand<S> {
    if closes(input) {
        ScreenCommand::Pop
    } else {
        ScreenCommand::Stay
    }
}

impl<F> EventLogScreen<F> {
    /// Turn the page with the arrow keys, `n` and `p`; close the log with `q`
    /// or Esc.
    pub fn react<S>(&mut self, input: Input) -> (r: ScreenCommand<S>)
        ensures
            final(self)@ == log_after(old(self)@, input),
            final(self).formatter() == old(self).formatter(),
            r == log_command::<S>(input),
    {
        match input {
            Input::Right | Input::Down => {
                self.next_page();
                ScreenCommand::Stay
            },
            Input::Left | Input::Up => {
                self.previous_page();
                ScreenCommand::Stay
            },
            Input::Char(c) => {
                if c == 'n' || c == 'N' {
                    self.next_page();
                    ScreenCommand::Stay
                } else if c == 'p' || c == 'P' {
                    self.previous_page();
                    ScreenCommand::Stay
                } else if c == 'q' || c == 'Q' {
                    ScreenCommand::Pop
                } else {
                    ScreenCommand::Stay
                }
            },
            Input::Esc => ScreenCommand::Pop,
            _ => ScreenCommand::Stay,
        }
    }
}

/// Whether a command is the one that an input leads to.
pub open spec fn is_log_command<S>(command: ScreenCommand<S>, input: Input) -> bool {
    command == log_command::<S>(input)
}

impl<S, W, F> Screen<S, W> for EventLogScreen<F> {
    fn handle_input(&mut self, ctx: &mut GameContext<'_, W>, input: Input) -> (r: ScreenCommand<S>)
        ensures
            final(self)@ == log_after(old(self)@, input),
            final(self).formatter() == old(self).formatter(),
            *final(ctx) == *old(ctx),
            is_log_command::<S>(r, input),
    {
        self.react::<S>(input)
    }
}

/// Turning the page keeps it in the log, whatever the input.
pub proof fn pages_stay_in_the_log(log: LogParts, input: Input)
    requires
        page_ok(log),
    ensures
        page_ok(log_after(log, input)),
{
}

/// Turning the page and turning it back returns to the same page, wherever
/// there was a full page to turn.
pub proof fn turning_back_returns(log: LogParts)
    requires
        page_ok(log),
        log.page_start + log.page_size < log.events.len(),
    ensures
        previous_start(LogParts { page_start: next_start(log), ..log }) == log.page_start,
{
}

/// Turning pages reaches every event: unless the last event starts the page,
/// the next page starts further on, and by no more than a page.
pub proof fn paging_skips_nothing(log: LogParts)
    requires
        page_ok(log),
        log.page_start + 1 < log.events.len(),
    ensures
        log.page_start < next_start(log) <= log.page_start + log.page_size,
{
}

/// Right, Down and `n` turn forward: never back, and on wherever the page does not
/// start with the last event. Left, Up and `p` turn back: never forward, and back
/// wherever the page does not start with the first event. Nothing else turns the
/// page, and no input changes anything but the page.
pub proof fn keys_turn_the_page_their_way(log: LogParts, input: Input)
    requires
        page_ok(log),
    ensures
        ({
            let after = log_after(log, input);
            let forward = input == Input::Right || input == Input::Down || input == Input::Char('n')
                || input == Input::Char('N');
            let back = input == Input::Left || input == Input::Up || input == Input::Char('p')
                || input == Input::Char('P');
            &&& forward ==> after.page_start >= log.page_start
            &&& forward && log.page_start + 1 < log.events.len() ==> after.page_start
                > log.page_start
            &&& forward && log.page_start + log.page_size < log.events.len() ==> after.page_start
                == log.page_start + log.page_size
            &&& forward && log.page_start + log.page_size >= log.events.len() && log.events.len() > 0
                ==> after.page_start == log.events.len() - 1
            &&& back ==> after.page_start <= log.page_start
            &&& back && log.page_start > 0 ==> after.page_start < log.page_start
            &&& back && log.page_start >= log.page_size ==> after.page_start == log.page_start
                - log.page_size
            &&& back && log.page_start < log.page_size ==> after.page_start == 0
            &&& !forward && !back ==> after.page_start == log.page_start
            &&& after == (LogParts { page_start: after.page_start, ..log })
        }),
{
}

/// Esc and `q` close the log, in either case, and nothing else does; no other
/// command ever comes of an input.
pub proof fn esc_and_q_close_the_log<S>(input: Input)
    ensures
        log_command::<S>(input) is Pop <==> input == Input::Esc || input == Input::Char('q')
            || input == Input::Char('Q'),
        log_command::<S>(input) is Pop || log_command::<S>(input) is Stay,
        log_command::<S>(input) is Pop ==> forall|log: LogParts| log_after(log, input) == log,
{
}

/// A page shows as many events as it can: no more than its size and its height
/// allow, no event beyond the last, and fewer only where one of these runs out.
pub proof fn pages_are_filled(log: LogParts, height: u16)
    requires
        page_ok(log),
    ensures
        page_len(log, height) <= log.page_size,
        page_len(log, height) <= height,
        log.page_start + page_len(log, height) <= log.events.len() || log.events.len() == 0,
        log.events.len() == 0 ==> page_len(log, height) == 0,
        page_len(log, height) == log.page_size || page_len(log, height) == height || log.page_start
            + page_len(log, height) == log.events.len() || log.events.len() == 0,
{
}

/// A page shows consecutive events, from the one it starts with on, in the order
/// of the log.
pub proof fn pages_show_consecutive_events(log: LogParts, lines: Seq<EventLogLine>, i: int)
    requires
        0 <= i < lines.len(),
    ensures
        page_rows(log, lines).len() == lines.len(),
        page_rows(log, lines)[i] == event_row(
            log.timestamp_style,
            log.events[log.page_start + i],
            lines[i].primary@,
        ),
{
}

/// The row of an event is its kind and its text, behind the time as it was stored,
/// the word `now`, or nothing.
pub proof fn rows_say_what_happened(event: EventRecord, primary: Seq<char>)
    ensures
        event_row(TimestampStyle::Hidden, event, primary) == event.kind@.push(' ') + primary,
        event_row(TimestampStyle::Absolute, event, primary) == event.created_at@.push(' ')
            + event_row(TimestampStyle::Hidden, event, primary),
        event_row(TimestampStyle::Relative, event, primary) == seq!['n', 'o', 'w', ' ']
            + event_row(TimestampStyle::Hidden, event, primary),
{
    reveal_strlit(" ");
    reveal_strlit("now ");
    assert(event_row(TimestampStyle::Hidden, event, primary) =~= event.kind@.push(' ') + primary);
    assert(event_row(TimestampStyle::Absolute, event, primary) =~= event.created_at@.push(' ')
        + event_row(TimestampStyle::Hidden, event, primary));
    assert(event_row(TimestampStyle::Relative, event, primary) =~= seq!['n', 'o', 'w', ' ']
        + event_row(TimestampStyle::Hidden, event, primary));
}

/// A scope takes all events, those of one player, those of one kind, or those that
/// the game picks, and no others. An event of no player is in no player's scope.
pub proof fn scopes_take_what_they_name<P: Fn(&EventRecord) -> bool>(
    event: EventRecord,
    custom: P,
    verdict: bool,
    player_id: i64,
    kind: String,
)
    ensures
        in_scope(EventLogScope::Global, event, custom, verdict) <==> verdict,
        in_scope(EventLogScope::Player(player_id), event, custom, verdict) ==> (verdict <==> (
        event.player_id is Some && event.player_id->0 == player_id)),
        in_scope(EventLogScope::Kind(kind), event, custom, verdict) ==> (verdict <==> event.kind@
            == kind@),
        in_scope(EventLogScope::Custom, event, custom, verdict) <==> call_ensures(
            custom,
            (&event,),
            verdict,
        ),
{
}

/// How many of the first `n` verdicts are good.
pub open spec fn good_before(verdicts: Seq<bool>, n: int) -> int
    decreases n,
{
    if n <= 0 {
        0
    } else {
        good_before(verdicts, n - 1) + if verdicts[n - 1] {
            1int
        } else {
            0int
        }
    }
}

/// Every event with a good verdict is kept, behind exactly those good ones that
/// came before it, and nothing else is kept.
pub proof fn events_in_scope_are_kept(events: Seq<EventRecord>, verdicts: Seq<bool>, i: int)
    requires
        0 <= i < events.len(),
        events.len() <= verdicts.len(),
        verdicts[i],
    ensures
        kept(events, verdicts).len() == good_before(verdicts, events.len() as int),
        0 <= good_before(verdicts, i) < kept(events, verdicts).len(),
        kept(events, verdicts)[good_before(verdicts, i)] == events[i],
    decreases events.len(),
{
    lemma_kept_len(events, verdicts);
    let front = events.drop_last();
    if i < front.len() {
        events_in_scope_are_kept(front, verdicts, i);
    } else {
        lemma_kept_len(front, verdicts);
    }
}

proof fn lemma_kept_len(events: Seq<EventRecord>, verdicts: Seq<bool>)
    requires
        events.len() <= verdicts.len(),
    ensures
        kept(events, verdicts).len() == good_before(verdicts, events.len() as int),
    decreases events.len(),
{
    if events.len() > 0 {
        lemma_kept_len(events.drop_last(), verdicts);
    }
}

/// The row in the middle of an area is one row high and as wide as the area, and
/// has as many rows above it as below, or one more.
pub proof fn the_middle_is_in_the_middle(area: Rect)
    requires
        area.height > 0,
        area.y + area.height <= u16::MAX,
    ensures
        middle(area).height == 1,
        middle(area).x == area.x,
        middle(area).width == area.width,
        ({
            let above = middle(area).y - area.y;
            let below = area.y + area.height - 1 - middle(area).y;
            0 <= above && 0 <= below && (above == below || above == below + 1)
        }),
{
}

/// A page has the size asked for, but at least one event; an empty log is announced in
/// faint text.
pub proof fn pages_hold_at_least_one_event(n: nat)
    ensures
        at_least_one(n) >= 1,
        n >= 1 ==> at_least_one(n) == n,
        n == 0 ==> at_least_one(n) == 1,
        faint().add_modifier.bits == 2,
        faint().fg is None,
{
}

/// The rows of a log stand one below the other inside its border, one character to a
/// cell, from the left on; the border and what lies beyond a row's text stay as they
/// were drawn.
pub proof fn logs_show_their_rows(
    log: LogParts,
    cells: Cells,
    within: Rect,
    area: Rect,
    rows: Seq<Seq<char>>,
    i: int,
    j: int,
)
    requires
        0 <= i < inside(area).height,
        0 <= j < inside(area).width,
        inside(area).x + j <= u16::MAX,
        inside(area).y + i <= u16::MAX,
        frame_drawn(cells, within, area, Some(log.title)).contains_key(
            ((inside(area).x + j) as u16, (inside(area).y + i) as u16),
        ),
    ensures
        ({
            let framed = frame_drawn(cells, within, area, Some(log.title));
            let at = ((inside(area).x + j) as u16, (inside(area).y + i) as u16);
            let after = log_drawn(log, cells, within, area, rows)[at];
            &&& i < rows.len() && j < rows[i].len() ==> after.symbol == seq![rows[i][j]]
            &&& i >= rows.len() || j >= rows[i].len() ==> after == framed[at]
        }),
{
    let framed = frame_drawn(cells, within, area, Some(log.title));
    characters_stand_where_they_belong(framed, inside(area), rows, i, j);
}

} // verus!
