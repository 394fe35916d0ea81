//! Dates and the turn ledger.

use foglet_game::turns::{
    turn_ledger_migration, DateProvider, FixedDateProvider, LocalDate, TurnError,
    TURN_LEDGER_VERSION,
};
use rusqlite::Connection;

fn ledger() -> Connection {
    let db = Connection::open_in_memory().expect("open succeeds");
    db.execute_batch("CREATE TABLE players (id INTEGER PRIMARY KEY, handle TEXT NOT NULL)")
        .expect("players table");
    db.execute_batch(turn_ledger_migration().sql)
        .expect("turn_ledger migration applies");
    db
}

#[test]
fn migration_creates_turn_ledger_table() {
    let db = ledger();
    let count: i64 = db
        .query_row(
            "SELECT COUNT(*) FROM sqlite_master \
             WHERE type = 'table' AND name = 'turn_ledger'",
            [],
            |row| row.get(0),
        )
        .expect("sqlite_master query runs");
    assert_eq!(
        count, 1,
        "turn_ledger table must exist after migration applies"
    );

    let mut stmt = db
        .prepare("SELECT name FROM pragma_table_info('turn_ledger') ORDER BY cid")
        .expect("pragma_table_info preparable");
    let columns: Vec<String> = stmt
        .query_map([], |row| row.get::<_, String>(0))
        .expect("query_map runs")
        .collect::<Result<_, _>>()
        .expect("rows decode");
    assert_eq!(
        columns,
        vec![
            "player_id".to_string(),
            "local_date".to_string(),
            "balance".to_string(),
            "daily_allowance".to_string(),
            "created_at".to_string(),
            "updated_at".to_string(),
        ],
        "turn_ledger column shape must match the documented contract"
    );
    assert_eq!(turn_ledger_migration().version, TURN_LEDGER_VERSION);
    assert_eq!(turn_ledger_migration().version, 3);
    assert_eq!(turn_ledger_migration().name, "create_turn_ledger");
}

#[test]
fn turn_ledger_primary_key_is_player_id_and_local_date() {
    let db = ledger();
    let mut stmt = db
        .prepare(
            "SELECT name, pk FROM pragma_table_info('turn_ledger') \
             WHERE pk > 0 ORDER BY pk",
        )
        .expect("pragma_table_info preparable");
    let pk_columns: Vec<(String, i64)> = stmt
        .query_map([], |row| {
            Ok((row.get::<_, String>(0)?, row.get::<_, i64>(1)?))
        })
        .expect("query_map runs")
        .collect::<Result<_, _>>()
        .expect("rows decode");
    assert_eq!(
        pk_columns,
        vec![("player_id".to_string(), 1), ("local_date".to_string(), 2),],
        "primary key must be (player_id, local_date) in that order"
    );
}

#[test]
fn turn_ledger_rejects_duplicate_player_day_rows() {
    let db = ledger();
    db.execute("INSERT INTO players (id, handle) VALUES (1, 'alice')", [])
        .expect("seed player row");
    db.execute(
        "INSERT INTO turn_ledger (player_id, local_date, balance, daily_allowance) \
         VALUES (1, '2026-05-08', 30, 30)",
        [],
    )
    .expect("first ledger row inserts");
    let err = db
        .execute(
            "INSERT INTO turn_ledger (player_id, local_date, balance, daily_allowance) \
             VALUES (1, '2026-05-08', 29, 30)",
            [],
        )
        .expect_err("duplicate (player_id, local_date) must be rejected");
    let msg = err.to_string();
    assert!(
        msg.to_lowercase().contains("turn_ledger") || msg.to_lowercase().contains("unique"),
        "duplicate insert error should mention turn_ledger or uniqueness, got: {msg}"
    );
}

#[test]
fn local_date_parse_accepts_canonical_iso_form() {
    let date = LocalDate::parse("2026-05-08").expect("canonical date parses");
    assert_eq!(date.as_str(), "2026-05-08");
    assert_eq!(date.clone().as_str(), "2026-05-08");
    assert_eq!(date.into_string(), "2026-05-08");
}

#[test]
fn local_date_parse_rejects_malformed_inputs() {
    let bad = [
        "",
        "2026-5-08",
        "2026-05-8",
        "2026/05/08",
        "26-05-08",
        "2026-05-08 ",
        " 2026-05-08",
        "2026-05-08T",
        "abcd-ef-gh",
    ];
    for input in bad {
        let err =
            LocalDate::parse(input).expect_err(&format!("expected {input:?} to be rejected"));
        let TurnError::InvalidLocalDate { input: got } = &err;
        assert_eq!(
            got, input,
            "InvalidLocalDate should preserve the offending input verbatim"
        );
        let msg = err.message();
        assert!(
            msg.contains("YYYY-MM-DD"),
            "error message should mention expected format, got: {msg}"
        );
    }
}

#[test]
fn date_errors_quote_the_input() {
    let err = LocalDate::parse("to\"day\n").unwrap_err();
    assert_eq!(
        err.message(),
        "invalid local date \"to\\\"day\\n\"; expected YYYY-MM-DD"
    );
}

#[test]
fn dates_are_checked_by_shape_and_not_by_calendar() {
    assert!(LocalDate::parse("2026-02-30").is_ok());
    assert!(LocalDate::parse("9999-99-99").is_ok());
    assert!(LocalDate::parse("2026-05-0٣").is_err());
    assert!(LocalDate::parse("é026-05-0").is_err());
}

#[test]
fn dates_sort_by_day() {
    let a = LocalDate::parse("2026-05-08").unwrap();
    let b = LocalDate::parse("2026-05-09".to_string()).unwrap();
    assert!(a < b);
    assert_eq!(a, a.clone());
}

#[test]
fn fixed_date_provider_returns_configured_date() {
    let provider =
        FixedDateProvider::new(LocalDate::parse("2026-05-08").expect("fixture date parses"));
    assert_eq!(provider.today().as_str(), "2026-05-08");
    assert_eq!(provider.today().as_str(), "2026-05-08");
}

#[test]
fn fixed_date_provider_set_advances_reported_date() {
    let mut provider =
        FixedDateProvider::new(LocalDate::parse("2026-05-08").expect("first date parses"));
    assert_eq!(provider.today().as_str(), "2026-05-08");

    provider.set(LocalDate::parse("2026-05-09").expect("second date parses"));
    assert_eq!(provider.today().as_str(), "2026-05-09");
}

fn read<P: DateProvider>(p: &P) -> String {
    p.today().into_string()
}

#[test]
fn date_provider_is_usable_through_generic_bound() {
    let provider =
        FixedDateProvider::new(LocalDate::parse("2026-05-08").expect("fixture date parses"));
    assert_eq!(read(&provider), "2026-05-08");
}
