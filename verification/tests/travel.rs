//! Travelling.

use foglet_game::travel::{
    resolve_route, InventoryError, Travel, TravelAction, TravelError, TravelEventDraft,
    TravelReply, TravelRequest, TravelResult,
};
use foglet_game::world::{PresenceRecord, Route};

fn presence_at(place_id: i64) -> PresenceRecord {
    PresenceRecord {
        player_id: 9,
        place_id,
        entered_at: "2030-01-01T00:00:00Z".to_string(),
        metadata_json: None,
    }
}

fn route(id: i64) -> Route {
    Route {
        id,
        from_place_id: 5,
        to_place_id: 8,
        kind: "passage".to_string(),
        requirements_json: None,
        metadata_json: None,
        created_at: "2030-01-01T00:00:00Z".to_string(),
    }
}

#[derive(Debug, Clone, PartialEq, Eq)]
struct Tables {
    place: Option<i64>,
    recalled: Vec<i64>,
    events: Vec<String>,
}

struct World {
    committed: Tables,
    routes: Vec<Route>,
    has_recall: bool,
    has_events: bool,
    verdict: Result<(), TravelError>,
    cost: Result<(), TravelError>,
    draft: Option<TravelEventDraft>,
    fail_at: Option<TravelAction>,
    log: Vec<TravelAction>,
}

fn world() -> World {
    World {
        committed: Tables {
            place: Some(5),
            recalled: vec![],
            events: vec![],
        },
        routes: vec![route(41)],
        has_recall: true,
        has_events: true,
        verdict: Ok(()),
        cost: Ok(()),
        draft: Some(TravelEventDraft {
            kind: "arrived".to_string(),
            message: "player 9 moved from 5 to 8".to_string(),
            metadata_json: Some(r#"{"via":"hall"}"#.to_string()),
        }),
        fail_at: None,
        log: vec![],
    }
}

impl World {
    fn travel(&mut self, request: TravelRequest) -> Result<TravelResult, TravelError> {
        let mut tables = self.committed.clone();
        let mut travel = Travel::new(request);
        loop {
            let action = travel.action();
            self.log.push(action);
            if self.fail_at == Some(action) {
                travel = travel.step(TravelReply::Failed("disk I/O error".to_string()));
                continue;
            }
            let reply = match action {
                TravelAction::Begin => TravelReply::Done,
                TravelAction::ReadPresence { .. } => {
                    TravelReply::Presence(tables.place.map(presence_at))
                }
                TravelAction::ReadRoute { route_id, .. } => TravelReply::Routes(
                    self.routes.iter().filter(|r| r.id == route_id).cloned().collect(),
                ),
                TravelAction::ListRoutes { .. } => TravelReply::Routes(self.routes.clone()),
                TravelAction::Validate => TravelReply::Verdict(self.verdict.clone()),
                TravelAction::ChargeCost => TravelReply::Verdict(self.cost.clone()),
                TravelAction::MovePresence { place_id, .. } => {
                    tables.place = Some(place_id);
                    TravelReply::Moved(PresenceRecord {
                        entered_at: "2030-01-02T00:00:00Z".to_string(),
                        ..presence_at(place_id)
                    })
                }
                TravelAction::FindRecallTable => TravelReply::Table(self.has_recall),
                TravelAction::TouchRecall { place_id, .. } => {
                    tables.recalled.push(place_id);
                    TravelReply::Done
                }
                TravelAction::FindEventTable => TravelReply::Table(self.has_events),
                TravelAction::DraftEvent => TravelReply::Draft(self.draft.clone()),
                TravelAction::AppendEvent { .. } => {
                    tables.events.push("arrived".to_string());
                    TravelReply::Appended(77)
                }
                TravelAction::Commit => {
                    self.committed = tables.clone();
                    TravelReply::Done
                }
                TravelAction::Finish => match travel.phase {
                    foglet_game::travel::Phase::Finished { outcome } => return outcome,
                    other => panic!("not finished: {other:?}"),
                },
            };
            travel = travel.step(reply);
        }
    }
}

#[test]
fn request_defaults_to_unique_route_resolution_and_touch_recall() {
    let request = TravelRequest::new(7, 12);
    assert_eq!(request.player_id, 7);
    assert_eq!(request.dest_place_id, 12);
    assert_eq!(request.route_id, None);
    assert!(request.touch_recall);
    assert!(!request.append_event);
}

#[test]
fn request_builder_overrides_route_and_touch_recall() {
    let request = TravelRequest::new(3, 4)
        .with_route_id(99)
        .with_touch_recall(false);
    assert_eq!(request.route_id, Some(99));
    assert!(!request.touch_recall);
}

#[test]
fn travel_error_variants_cover_specified_failure_buckets() {
    let errors = [
        TravelError::NoPresence { player_id: 1 },
        TravelError::no_route(1, 10, 20, Some(44)),
        TravelError::AmbiguousRoute {
            player_id: 1,
            from_place_id: 10,
            to_place_id: 20,
            matching_route_ids: vec![44, 45],
        },
        TravelError::ValidationFailed {
            player_id: 1,
            route_id: 44,
            reason: "locked gate".to_string(),
        },
        TravelError::CostFailed {
            player_id: 1,
            route_id: 44,
            reason: "not enough rations".to_string(),
        },
        TravelError::InventoryError {
            source: Box::new(InventoryError::MissingSourceSlot {
                owner_kind: "player".to_string(),
                owner_id: 1,
                item_key: "ration".to_string(),
            }),
        },
    ];

    assert_eq!(errors.len(), 6);
    let texts: Vec<String> = errors.iter().map(|e| e.message()).collect();
    assert_eq!(
        texts[..5],
        [
            "player `1` has no presence row",
            "no route for player `1` from place `10` to `20` (requested route `44`)",
            "ambiguous route for player `1` from place `10` to `20`; matching route ids: [44, 45]",
            "travel validation rejected player `1` on route `44`: locked gate",
            "travel cost charge failed for player `1` on route `44`: not enough rations",
        ]
    );
    assert!(texts[5].starts_with("travel inventory mutation failed: "));
    let plain = TravelError::no_route(-1, 10, 20, None);
    assert_eq!(
        plain.message(),
        "no route for player `-1` from place `10` to `20`"
    );
}

#[test]
fn travel_success_updates_presence_touches_recall_and_appends_event() {
    let mut world = world();
    let result = world
        .travel(TravelRequest::new(9, 8).with_append_event(true))
        .expect("travel succeeds");
    assert_eq!(
        result,
        TravelResult {
            from_place_id: 5,
            to_place_id: 8,
            route_id: 41,
            entered_at: "2030-01-02T00:00:00Z".to_string(),
            event_id: Some(77),
        }
    );
    assert_eq!(world.committed.place, Some(8));
    assert_eq!(world.committed.recalled, vec![8]);
    assert_eq!(world.committed.events, vec!["arrived"]);
    assert_eq!(
        world.log,
        vec![
            TravelAction::Begin,
            TravelAction::ReadPresence { player_id: 9 },
            TravelAction::ListRoutes { from_place_id: 5, to_place_id: 8 },
            TravelAction::Validate,
            TravelAction::ChargeCost,
            TravelAction::MovePresence { player_id: 9, place_id: 8 },
            TravelAction::FindRecallTable,
            TravelAction::TouchRecall { player_id: 9, place_id: 8 },
            TravelAction::FindEventTable,
            TravelAction::DraftEvent,
            TravelAction::AppendEvent { player_id: 9 },
            TravelAction::Commit,
            TravelAction::Finish,
        ]
    );
}

#[test]
fn travel_validation_failure_rolls_back_presence_recall_and_events() {
    let mut world = world();
    let before = world.committed.clone();
    world.verdict = Err(TravelError::ValidationFailed {
        player_id: 9,
        route_id: 41,
        reason: "locked passage".to_string(),
    });
    let rejected = world.travel(TravelRequest::new(9, 8).with_append_event(true));
    match rejected {
        Err(TravelError::ValidationFailed { reason, .. }) => {
            assert_eq!(reason, "locked passage");
        }
        other => panic!("expected validation failure, got {other:?}"),
    }
    assert_eq!(world.committed, before);
    assert!(!world.log.contains(&TravelAction::Commit));
}

#[test]
fn other_errors_of_the_game_are_quoted() {
    let mut world = world();
    world.verdict = Err(TravelError::NoPresence { player_id: 3 });
    assert_eq!(
        world.travel(TravelRequest::new(9, 8)),
        Err(TravelError::ValidationFailed {
            player_id: 9,
            route_id: 41,
            reason: "player `3` has no presence row".to_string(),
        })
    );
    world.verdict = Ok(());
    world.cost = Err(TravelError::NoPresence { player_id: 3 });
    assert_eq!(
        world.travel(TravelRequest::new(9, 8)),
        Err(TravelError::CostFailed {
            player_id: 9,
            route_id: 41,
            reason: "player `3` has no presence row".to_string(),
        })
    );
}

#[test]
fn errors_about_belongings_stay_as_they_are() {
    let missing = InventoryError::MissingSourceSlot {
        owner_kind: "player".to_string(),
        owner_id: 9,
        item_key: "ration".to_string(),
    };
    let mut world = world();
    world.cost = Err(TravelError::from(missing.clone()));
    assert_eq!(
        world.travel(TravelRequest::new(9, 8)),
        Err(TravelError::InventoryError { source: Box::new(missing) })
    );
    world.cost = Err(TravelError::CostFailed {
        player_id: 9,
        route_id: 41,
        reason: "poor".to_string(),
    });
    assert!(matches!(
        world.travel(TravelRequest::new(9, 8)),
        Err(TravelError::CostFailed { reason, .. }) if reason == "poor"
    ));
}

#[test]
fn a_player_who_is_nowhere_cannot_travel() {
    let mut world = world();
    world.committed.place = None;
    assert_eq!(
        world.travel(TravelRequest::new(9, 8)),
        Err(TravelError::NoPresence { player_id: 9 })
    );
}

#[test]
fn routes_must_be_unique_or_named() {
    let request = TravelRequest::new(9, 8);
    assert_eq!(resolve_route(&request, 5, vec![route(1)]), Ok(route(1)));
    assert_eq!(
        resolve_route(&request, 5, vec![]),
        Err(TravelError::no_route(9, 5, 8, None))
    );
    assert_eq!(
        resolve_route(&request, 5, vec![route(1), route(2)]),
        Err(TravelError::AmbiguousRoute {
            player_id: 9,
            from_place_id: 5,
            to_place_id: 8,
            matching_route_ids: vec![1, 2],
        })
    );
    let named = request.with_route_id(2);
    assert_eq!(resolve_route(&named, 5, vec![route(2)]), Ok(route(2)));
    assert_eq!(
        resolve_route(&named, 5, vec![]),
        Err(TravelError::no_route(9, 5, 8, Some(2)))
    );
    let mut world = world();
    world.routes = vec![route(1), route(2)];
    assert_eq!(world.travel(named).expect("named route").route_id, 2);
}

#[test]
fn missing_tables_and_drafts_are_skipped() {
    let mut world = world();
    world.has_recall = false;
    world.has_events = false;
    let result = world
        .travel(TravelRequest::new(9, 8).with_append_event(true))
        .expect("travel succeeds");
    assert_eq!(result.event_id, None);
    assert!(world.committed.recalled.is_empty());
    assert!(world.committed.events.is_empty());

    world.committed.place = Some(5);
    world.has_events = true;
    world.draft = None;
    let result = world
        .travel(TravelRequest::new(9, 8).with_append_event(true).with_touch_recall(false))
        .expect("travel succeeds");
    assert_eq!(result.event_id, None);
    assert!(world.committed.events.is_empty());
}

#[test]
fn database_failures_name_the_step_and_commit_nothing() {
    let cases = [
        (TravelAction::Begin, "begin transaction"),
        (TravelAction::ReadPresence { player_id: 9 }, "read current presence"),
        (TravelAction::ListRoutes { from_place_id: 5, to_place_id: 8 }, "resolve unique route"),
        (TravelAction::MovePresence { player_id: 9, place_id: 8 }, "move presence"),
        (TravelAction::FindRecallTable, "check optional table"),
        (TravelAction::TouchRecall { player_id: 9, place_id: 8 }, "touch place recall"),
        (TravelAction::FindEventTable, "check optional table"),
        (TravelAction::AppendEvent { player_id: 9 }, "append travel event"),
        (TravelAction::Commit, "commit travel"),
    ];
    for (action, step) in cases {
        let mut world = world();
        let before = world.committed.clone();
        world.fail_at = Some(action);
        let error = world
            .travel(TravelRequest::new(9, 8).with_append_event(true))
            .unwrap_err();
        assert_eq!(
            error,
            TravelError::Database { step, source: "disk I/O error".to_string() }
        );
        assert_eq!(world.committed, before);
    }
    let mut world = world();
    world.fail_at =
        Some(TravelAction::ReadRoute { route_id: 41, from_place_id: 5, to_place_id: 8 });
    let error = world.travel(TravelRequest::new(9, 8).with_route_id(41)).unwrap_err();
    assert_eq!(
        error.message(),
        "travel database operation failed during resolve explicit route: disk I/O error"
    );
}
