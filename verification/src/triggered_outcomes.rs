//! Triggers and the outcomes that a game derives from them.

use vstd::prelude::*;

use crate::text::{decimal, decimals_differ, opt_str, opt_text, push_decimal, Text};

verus! {

broadcast use vstd::string::group_string_axioms;

/// What sets a trigger off.
#[derive(Debug, Clone, Copy, PartialEq, Eq, Hash, Structural)]
pub enum TriggerKind {
    /// A player came to a place.
    PlaceArrived,
}

/// The name of a kind of trigger.
pub open spec fn kind_name(kind: TriggerKind) -> Seq<char> {
    match kind {
        TriggerKind::PlaceArrived => "place_arrived"@,
    }
}

impl TriggerKind {
    /// The name of the kind, for storage and keys.
    pub fn as_str(self) -> (r: &'static str)
        ensures
            r@ == kind_name(self),
    {
        match self {
            TriggerKind::PlaceArrived => "place_arrived",
        }
    }
}

/// What a rule is told about a trigger.
#[derive(Debug, Clone, PartialEq, Eq)]
pub struct TriggerContext {
    pub trigger_kind: TriggerKind,
    pub player_id: i64,
    pub place_id: Option<i64>,
    pub route_id: Option<i64>,
    pub source_id: Option<i64>,
    pub source_key: Option<String>,
}

/// An optional number in a key; a dash stands for none.
pub open spec fn id_text(id: Option<i64>) -> Seq<char> {
    match id {
        Some(n) => decimal(n as int),
        None => "-"@,
    }
}

/// What the key of a trigger says of the rule.
pub open spec fn source_text(context: TriggerContext) -> Seq<char> {
    match opt_text(context.source_key) {
        Some(key) => key,
        None => "-"@,
    }
}

/// The end of a key: the row and the rule that the trigger comes from.
pub open spec fn source_part(context: TriggerContext) -> Seq<char> {
    id_text(context.source_id) + ":"@ + source_text(context)
}

/// A key from the route on.
pub open spec fn route_part(context: TriggerContext) -> Seq<char> {
    id_text(context.route_id) + ":source:"@ + source_part(context)
}

/// A key from the place on.
pub open spec fn place_part(context: TriggerContext) -> Seq<char> {
    id_text(context.place_id) + ":route:"@ + route_part(context)
}

/// A key from the player on.
pub open spec fn player_part(context: TriggerContext) -> Seq<char> {
    decimal(context.player_id as int) + ":place:"@ + place_part(context)
}

/// The key of a trigger.
pub open spec fn trigger_key(context: TriggerContext) -> Seq<char> {
    kind_name(context.trigger_kind) + ":player:"@ + player_part(context)
}

fn push_id(out: &mut String, id: Option<i64>)
    ensures
        final(out)@ == old(out)@ + id_text(id),
{
    match id {
        Some(n) => push_decimal(out, n),
        None => out.append("-"),
    }
}

fn push_source_part(out: &mut String, context: &TriggerContext)
    ensures
        final(out)@ == old(out)@ + source_part(*context),
{
    let ghost before = out@;
    push_id(out, context.source_id);
    out.append(":");
    match opt_str(&context.source_key) {
        Some(key) => out.append(key),
        None => out.append("-"),
    }
    assert(out@ =~= before + source_part(*context));
}

fn push_route_part(out: &mut String, context: &TriggerContext)
    ensures
        final(out)@ == old(out)@ + route_part(*context),
{
    let ghost before = out@;
    push_id(out, context.route_id);
    out.append(":source:");
    push_source_part(out, context);
    assert(out@ =~= before + route_part(*context));
}

fn push_place_part(out: &mut String, context: &TriggerContext)
    ensures
        final(out)@ == old(out)@ + place_part(*context),
{
    let ghost before = out@;
    push_id(out, context.place_id);
    out.append(":route:");
    push_route_part(out, context);
    assert(out@ =~= before + place_part(*context));
}

impl TriggerContext {
    /// A player came to a place, by a route if there was one.
    pub fn place_arrived(player_id: i64, place_id: i64, route_id: Option<i64>) -> (r: TriggerContext)
        ensures
            r == (TriggerContext {
                trigger_kind: TriggerKind::PlaceArrived,
                player_id,
                place_id: Some(place_id),
                route_id,
                source_id: None,
                source_key: None,
            }),
    {
        TriggerContext {
            trigger_kind: TriggerKind::PlaceArrived,
            player_id,
            place_id: Some(place_id),
            route_id,
            source_id: None,
            source_key: None,
        }
    }

    /// Name the row that the rule stands in.
    pub fn with_source_id(self, source_id: i64) -> (r: TriggerContext)
        ensures
            r == (TriggerContext { source_id: Some(source_id), ..self }),
    {
        TriggerContext { source_id: Some(source_id), ..self }
    }

    /// Name the rule.
    pub fn with_source_key(self, source_key: impl Text) -> (r: TriggerContext)
        ensures
            r == (TriggerContext { source_key: r.source_key, ..self }),
            opt_text(r.source_key) == Some(source_key.text()),
    {
        TriggerContext { source_key: Some(source_key.into_text()), ..self }
    }

    /// A key for the trigger: equal contexts have equal keys.
    pub fn stable_key(&self) -> (r: String)
        ensures
            r@ == trigger_key(*self),
    {
        let mut out: String = self.trigger_kind.as_str().to_string();
        out.append(":player:");
        push_decimal(&mut out, self.player_id);
        out.append(":place:");
        push_place_part(&mut out, self);
        assert(out@ =~= trigger_key(*self));
        out
    }
}

/// A line shown to the player at once.
#[derive(Debug, Clone, PartialEq, Eq)]
pub struct OutcomeFeedback {
    pub key: String,
    pub message: String,
    pub tone: Option<String>,
}

impl OutcomeFeedback {
    /// A line without a tone.
    pub fn new(key: impl Text, message: impl Text) -> (r: OutcomeFeedback)
        ensures
            r.key@ == key.text(),
            r.message@ == message.text(),
            r.tone is None,
    {
        OutcomeFeedback { key: key.into_text(), message: message.into_text(), tone: None }
    }

    /// Set the tone.
    pub fn with_tone(self, tone: impl Text) -> (r: OutcomeFeedback)
        ensures
            r == (OutcomeFeedback { tone: r.tone, ..self }),
            opt_text(r.tone) == Some(tone.text()),
    {
        OutcomeFeedback { tone: Some(tone.into_text()), ..self }
    }
}

/// An entry that an outcome may leave in the event log.
#[derive(Debug, Clone, PartialEq, Eq)]
pub struct TriggeredEventDraft {
    pub kind: String,
    pub message: String,
    pub metadata_json: Option<String>,
}

/// What follows from a trigger.
#[derive(Debug, Clone, PartialEq, Eq)]
pub struct TriggeredOutcome {
    pub key: String,
    pub context: TriggerContext,
    pub idempotency_key: Option<String>,
    pub feedback: Vec<OutcomeFeedback>,
    pub event: Option<TriggeredEventDraft>,
    pub metadata_json: Option<String>,
}

impl TriggeredOutcome {
    /// An outcome without feedback or event.
    pub fn new(key: impl Text, context: TriggerContext) -> (r: TriggeredOutcome)
        ensures
            r.key@ == key.text(),
            r.context == context,
            r.idempotency_key is None,
            r.feedback@.len() == 0,
            r.event is None,
            r.metadata_json is None,
    {
        TriggeredOutcome {
            key: key.into_text(),
            context,
            idempotency_key: None,
            feedback: Vec::new(),
            event: None,
            metadata_json: None,
        }
    }

    /// Set the key under which the outcome happens only once.
    pub fn with_idempotency_key(self, idempotency_key: impl Text) -> (r: TriggeredOutcome)
        ensures
            r == (TriggeredOutcome { idempotency_key: r.idempotency_key, ..self }),
            opt_text(r.idempotency_key) == Some(idempotency_key.text()),
    {
        TriggeredOutcome { idempotency_key: Some(idempotency_key.into_text()), ..self }
    }

    /// Add a line of feedback.
    pub fn with_feedback(self, feedback: OutcomeFeedback) -> (r: TriggeredOutcome)
        ensures
            r == (TriggeredOutcome { feedback: r.feedback, ..self }),
            r.feedback@ == self.feedback@.push(feedback),
    {
        let mut lines: Vec<OutcomeFeedback> = self.feedback;
        lines.push(feedback);
        TriggeredOutcome { feedback: lines, ..self }
    }

    /// Set the entry for the event log.
    pub fn with_event(self, event: TriggeredEventDraft) -> (r: TriggeredOutcome)
        ensures
            r == (TriggeredOutcome { event: Some(event), ..self }),
    {
        TriggeredOutcome { event: Some(event), ..self }
    }

    /// Attach data of the game's own.
    pub fn with_metadata_json(self, metadata_json: impl Text) -> (r: TriggeredOutcome)
        ensures
            r == (TriggeredOutcome { metadata_json: r.metadata_json, ..self }),
            opt_text(r.metadata_json) == Some(metadata_json.text()),
    {
        TriggeredOutcome { metadata_json: Some(metadata_json.into_text()), ..self }
    }
}

/// Two texts that agree, and whose heads end where a colon first stands, have
/// the same head and the same tail.
proof fn lemma_cut(a: Seq<char>, b: Seq<char>, mark: Seq<char>, r: Seq<char>, s: Seq<char>)
    requires
        mark.len() > 0,
        mark[0] == ':',
        forall|i: int| 0 <= i < a.len() ==> #[trigger] a[i] != ':',
        forall|i: int| 0 <= i < b.len() ==> #[trigger] b[i] != ':',
        a + mark + r == b + mark + s,
    ensures
        a == b,
        r == s,
{
    let x = a + mark + r;
    let y = b + mark + s;
    assert(x[a.len() as int] == ':');
    assert(y[b.len() as int] == ':');
    if a.len() < b.len() {
        assert(y[a.len() as int] == b[a.len() as int]);
    } else if b.len() < a.len() {
        assert(x[b.len() as int] == a[b.len() as int]);
    }
    assert(a =~= x.take(a.len() as int));
    assert(b =~= y.take(b.len() as int));
    assert(r =~= x.skip((a.len() + mark.len()) as int));
    assert(s =~= y.skip((b.len() + mark.len()) as int));
}

/// Optional numbers in keys differ, and hold no colon.
proof fn lemma_id_text(a: Option<i64>, b: Option<i64>)
    ensures
        id_text(a) == id_text(b) ==> a == b,
        forall|i: int| 0 <= i < id_text(a).len() ==> #[trigger] id_text(a)[i] != ':',
        forall|i: int| 0 <= i < id_text(b).len() ==> #[trigger] id_text(b)[i] != ':',
{
    reveal_strlit("-");
    assert("-"@ =~= seq!['-']);
    let n = if a is Some {
        a->0 as int
    } else {
        0
    };
    let m = if b is Some {
        b->0 as int
    } else {
        0
    };
    decimals_differ(n, m);
    decimals_differ(m, n);
}

/// Keys tell triggers apart: contexts with the same key agree in everything,
/// where a missing rule counts as a dash.
pub proof fn keys_tell_triggers_apart(a: TriggerContext, b: TriggerContext)
    requires
        trigger_key(a) == trigger_key(b),
    ensures
        a.trigger_kind == b.trigger_kind,
        a.player_id == b.player_id,
        a.place_id == b.place_id,
        a.route_id == b.route_id,
        a.source_id == b.source_id,
        source_text(a) == source_text(b),
{
    reveal_strlit(":place:");
    reveal_strlit(":route:");
    reveal_strlit(":source:");
    reveal_strlit(":");
    let kind = kind_name(a.trigger_kind) + ":player:"@;
    assert(player_part(a) =~= (kind + player_part(a)).skip(kind.len() as int));
    assert(player_part(b) =~= (kind + player_part(b)).skip(kind.len() as int));
    let p = a.player_id as int;
    let q = b.player_id as int;
    decimals_differ(p, q);
    decimals_differ(q, p);
    lemma_cut(decimal(p), decimal(q), ":place:"@, place_part(a), place_part(b));
    lemma_id_text(a.place_id, b.place_id);
    lemma_cut(id_text(a.place_id), id_text(b.place_id), ":route:"@, route_part(a), route_part(b));
    lemma_id_text(a.route_id, b.route_id);
    lemma_cut(
        id_text(a.route_id),
        id_text(b.route_id),
        ":source:"@,
        source_part(a),
        source_part(b),
    );
    lemma_id_text(a.source_id, b.source_id);
    lemma_cut(id_text(a.source_id), id_text(b.source_id), ":"@, source_text(a), source_text(b));
}

/// A key names, from left to right, the kind of trigger, the player, the place, the
/// route, the row and the rule, each behind its own label, with a dash for what is
/// missing.
pub proof fn keys_name_every_part(context: TriggerContext)
    ensures
        ({
            let place = match context.place_id {
                Some(id) => decimal(id as int),
                None => seq!['-'],
            };
            let route = match context.route_id {
                Some(id) => decimal(id as int),
                None => seq!['-'],
            };
            let row = match context.source_id {
                Some(id) => decimal(id as int),
                None => seq!['-'],
            };
            let rule = match context.source_key {
                Some(key) => key@,
                None => seq!['-'],
            };
            trigger_key(context) == "place_arrived:player:"@ + decimal(context.player_id as int)
                + ":place:"@ + place + ":route:"@ + route + ":source:"@ + row + seq![':'] + rule
        }),
{
    reveal_strlit("-");
    reveal_strlit(":");
    reveal_strlit("place_arrived");
    reveal_strlit(":player:");
    reveal_strlit("place_arrived:player:");
    assert("-"@ =~= seq!['-']);
    assert(":"@ =~= seq![':']);
    assert("place_arrived:player:"@ =~= "place_arrived"@ + ":player:"@);
    let place = id_text(context.place_id);
    let route = id_text(context.route_id);
    let row = id_text(context.source_id);
    let rule = source_text(context);
    assert(trigger_key(context) =~= "place_arrived:player:"@ + decimal(context.player_id as int)
        + ":place:"@ + place + ":route:"@ + route + ":source:"@ + row + seq![':'] + rule);
}

} // verus!
