//! Triggers and outcomes.

use foglet_game::triggered_outcomes::{
    OutcomeFeedback, TriggerContext, TriggerKind, TriggeredEventDraft, TriggeredOutcome,
};

#[test]
fn place_arrival_context_has_stable_genre_neutral_key() {
    let context = TriggerContext::place_arrived(7, 12, Some(44))
        .with_source_id(3)
        .with_source_key("arrival.rule");

    assert_eq!(context.trigger_kind, TriggerKind::PlaceArrived);
    assert_eq!(
        context.stable_key(),
        "place_arrived:player:7:place:12:route:44:source:3:arrival.rule"
    );
}

#[test]
fn outcome_separates_feedback_from_event_draft_and_idempotency() {
    let context = TriggerContext::place_arrived(7, 12, None);
    let outcome = TriggeredOutcome::new("rule.arrive", context.clone())
        .with_idempotency_key(format!("{}:rule.arrive", context.stable_key()))
        .with_feedback(OutcomeFeedback::new("proof", "Survey proof recorded."))
        .with_event(TriggeredEventDraft {
            kind: "survey_proof".to_string(),
            message: "Survey proof recorded at place 12.".to_string(),
            metadata_json: Some(r#"{"place_id":12}"#.to_string()),
        });

    assert_eq!(
        outcome.idempotency_key.as_deref(),
        Some("place_arrived:player:7:place:12:route:-:source:-:-:rule.arrive")
    );
    assert_eq!(outcome.feedback[0].message, "Survey proof recorded.");
    assert_eq!(
        outcome.event.as_ref().map(|event| event.kind.as_str()),
        Some("survey_proof")
    );
}

#[test]
fn keys_tell_triggers_apart_in_every_part() {
    let base = TriggerContext::place_arrived(7, 12, Some(44));
    let others = vec![
        TriggerContext::place_arrived(71, 2, Some(44)),
        TriggerContext::place_arrived(7, 124, Some(4)),
        TriggerContext::place_arrived(7, -12, Some(44)),
        TriggerContext::place_arrived(7, 12, None),
        base.clone().with_source_id(0),
        base.clone().with_source_key("rule"),
        base.clone().with_source_key(""),
    ];
    for (i, a) in others.iter().enumerate() {
        assert_ne!(a.stable_key(), base.stable_key());
        for b in &others[i + 1..] {
            assert_ne!(a.stable_key(), b.stable_key());
        }
    }
    assert_eq!(
        base.clone().with_source_key("-").stable_key(),
        base.stable_key()
    );
}

#[test]
fn builders_fill_in_one_part_each() {
    let feedback = OutcomeFeedback::new("k", "m").with_tone("warm");
    assert_eq!(feedback.tone.as_deref(), Some("warm"));
    let outcome = TriggeredOutcome::new("r", TriggerContext::place_arrived(1, 2, None))
        .with_feedback(feedback.clone())
        .with_feedback(OutcomeFeedback::new("k2", "m2"))
        .with_metadata_json("{}");
    assert_eq!(outcome.feedback.len(), 2);
    assert_eq!(outcome.feedback[0], feedback);
    assert_eq!(outcome.metadata_json.as_deref(), Some("{}"));
    assert_eq!(outcome.idempotency_key, None);
    assert_eq!(outcome.event, None);
    assert_eq!(TriggerKind::PlaceArrived.as_str(), "place_arrived");
}
