//! Calendar dates of the daily turn ledger.

use vstd::prelude::*;

use crate::text::{chars_of, quoted, str_debug, Text};
use crate::world::WorldMigration;

verus! {

broadcast use vstd::string::group_string_axioms;

/// Version of the migration that makes the table.
pub const TURN_LEDGER_VERSION: i64 = 3;

/// Name of the migration that makes the table.
pub const TURN_LEDGER_NAME: &'static str = "create_turn_ledger";

/// The table of turns: one row for each player and local date.
pub const TURN_LEDGER_SQL: &'static str = "CREATE TABLE IF NOT EXISTS turn_ledger (\n    player_id        INTEGER NOT NULL REFERENCES players(id),\n    local_date       TEXT NOT NULL,\n    balance          INTEGER NOT NULL,\n    daily_allowance  INTEGER NOT NULL,\n    created_at       TEXT NOT NULL DEFAULT CURRENT_TIMESTAMP,\n    updated_at       TEXT NOT NULL DEFAULT CURRENT_TIMESTAMP,\n    PRIMARY KEY (player_id, local_date)\n);\n";

/// The migration that makes the table.
pub fn turn_ledger_migration() -> (r: WorldMigration)
    ensures
        r.version == TURN_LEDGER_VERSION,
        r.name@ == TURN_LEDGER_NAME@,
        r.sql@ == TURN_LEDGER_SQL@,
{
    WorldMigration { version: TURN_LEDGER_VERSION, name: TURN_LEDGER_NAME, sql: TURN_LEDGER_SQL }
}

/// Whether a text has the shape `YYYY-MM-DD`. The calendar is not consulted.
pub open spec fn is_date(s: Seq<char>) -> bool {
    &&& s.len() == 10
    &&& s[4] == '-'
    &&& s[7] == '-'
    &&& forall|i: int| 0 <= i < 10 && i != 4 && i != 7 ==> '0' <= #[trigger] s[i] <= '9'
}

/// A local calendar date in the form `YYYY-MM-DD`.
#[derive(Debug, PartialEq, Eq, Hash, PartialOrd, Ord)]
pub struct LocalDate(String);

/// What can be wrong with a date.
#[derive(Debug, PartialEq, Eq)]
pub enum TurnError {
    /// The text does not have the shape of a date.
    InvalidLocalDate { input: String },
}

impl TurnError {
    /// The message for the author of the date.
    pub fn message(&self) -> (r: String)
        ensures
            match *self {
                TurnError::InvalidLocalDate { input } => r@ == "invalid local date "@ + str_debug(
                    input@,
                ) + "; expected YYYY-MM-DD"@,
            },
    {
        match self {
            TurnError::InvalidLocalDate { input } => {
                let mut out: String = "invalid local date ".to_string();
                out.append(quoted(input.as_str()).as_str());
                out.append("; expected YYYY-MM-DD");
                out
            },
        }
    }
}

impl View for LocalDate {
    type V = Seq<char>;

    closed spec fn view(&self) -> Seq<char> {
        self.0@
    }
}

impl Clone for LocalDate {
    fn clone(&self) -> (r: LocalDate)
        ensures
            r@ == self@,
    {
        proof {
            use_type_invariant(self);
        }
        LocalDate(self.0.clone())
    }
}

impl LocalDate {
    #[verifier::type_invariant]
    spec fn well_formed(self) -> bool {
        is_date(self.0@)
    }

    /// Read a date. Any text of the shape `YYYY-MM-DD` is one; any other text
    /// is handed back in the error.
    pub fn parse(given: impl Text) -> (r: Result<LocalDate, TurnError>)
        ensures
            match r {
                Ok(date) => is_date(given.text()) && date@ == given.text(),
                Err(TurnError::InvalidLocalDate { input }) => !is_date(given.text()) && input@
                    == given.text(),
            },
    {
        let input: String = given.into_text();
        let cs: Vec<char> = chars_of(input.as_str());
        if cs.len() != 10 || cs[4] != '-' || cs[7] != '-' {
            return Err(TurnError::InvalidLocalDate { input });
        }
        let mut i: usize = 0;
        while i < 10
            invariant
                i <= 10,
                cs@ == input@,
                input@ == given.text(),
                cs@.len() == 10,
                forall|k: int| 0 <= k < i && k != 4 && k != 7 ==> '0' <= #[trigger] cs@[k] <= '9',
            decreases 10 - i,
        {
            if i != 4 && i != 7 && !('0' <= cs[i] && cs[i] <= '9') {
                assert(!('0' <= input@[i as int] <= '9'));
                return Err(TurnError::InvalidLocalDate { input });
            }
            i = i + 1;
        }
        Ok(LocalDate(input))
    }

    /// The date as text.
    pub fn as_str(&self) -> (r: &str)
        ensures
            r@ == self@,
            is_date(r@),
    {
        proof {
            use_type_invariant(self);
        }
        self.0.as_str()
    }

    /// The date as owned text.
    pub fn into_string(self) -> (r: String)
        ensures
            r@ == self@,
            is_date(r@),
    {
        proof {
            use_type_invariant(&self);
        }
        self.0
    }
}

/// A source of the date that counts as today.
pub trait DateProvider {
    /// Today's date.
    fn today(&self) -> LocalDate;
}

/// A source that always gives the same date, until it is set to another.
#[derive(Debug, Clone)]
pub struct FixedDateProvider {
    date: LocalDate,
}

impl FixedDateProvider {
    /// The date that it gives.
    pub closed spec fn date(self) -> Seq<char> {
        self.date@
    }

    /// Give this date.
    pub fn new(date: LocalDate) -> (r: FixedDateProvider)
        ensures
            r.date() == date@,
    {
        FixedDateProvider { date }
    }

    /// Give this date from now on.
    pub fn set(&mut self, date: LocalDate)
        ensures
            final(self).date() == date@,
    {
        self.date = date;
    }
}

impl DateProvider for FixedDateProvider {
    fn today(&self) -> (r: LocalDate)
        ensures
            r@ == self.date(),
    {
        self.date.clone()
    }
}

/// Whether every character of a text is a digit.
pub open spec fn all_digits(s: Seq<char>) -> bool {
    forall|i: int| 0 <= i < s.len() ==> '0' <= #[trigger] s[i] <= '9'
}

/// Four digits, two digits and two digits with dashes between them are a date, and
/// nothing else is.
pub proof fn dates_are_year_month_and_day(
    s: Seq<char>,
    year: Seq<char>,
    month: Seq<char>,
    day: Seq<char>,
)
    ensures
        year.len() == 4 && month.len() == 2 && day.len() == 2 && all_digits(year) && all_digits(
            month,
        ) && all_digits(day) ==> is_date(year.push('-') + month.push('-') + day),
        is_date(s) ==> s.len() == 10 && all_digits(s.take(4)) && all_digits(s.subrange(5, 7))
            && all_digits(s.skip(8)) && s == s.take(4).push('-') + s.subrange(5, 7).push('-')
            + s.skip(8),
{
    if year.len() == 4 && month.len() == 2 && day.len() == 2 && all_digits(year) && all_digits(
        month,
    ) && all_digits(day) {
        let d = year.push('-') + month.push('-') + day;
        assert forall|i: int| 0 <= i < 10 && i != 4 && i != 7 implies '0' <= #[trigger] d[i]
            <= '9' by {
            if i < 4 {
                assert(d[i] == year[i]);
            } else if i < 7 {
                assert(d[i] == month[i - 5]);
            } else {
                assert(d[i] == day[i - 8]);
            }
        }
    }
    if is_date(s) {
        let a = s.take(4);
        let b = s.subrange(5, 7);
        let c = s.skip(8);
        assert forall|i: int| 0 <= i < a.len() implies '0' <= #[trigger] a[i] <= '9' by {
            assert(a[i] == s[i]);
        }
        assert forall|i: int| 0 <= i < b.len() implies '0' <= #[trigger] b[i] <= '9' by {
            assert(b[i] == s[i + 5]);
        }
        assert forall|i: int| 0 <= i < c.len() implies '0' <= #[trigger] c[i] <= '9' by {
            assert(c[i] == s[i + 8]);
        }
        assert(s =~= a.push('-') + b.push('-') + c);
    }
}

} // verus!
