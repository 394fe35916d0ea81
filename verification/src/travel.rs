//! Travelling from place to place.
//!
//! A [`Travel`] decides, step by step, what a trip needs: it names the next
//! action, takes the reply to it, and ends with a result or an error. Everything
//! happens inside one database transaction, which is committed last; an error
//! ends the trip without a commit.

use vstd::prelude::*;

use crate::text::{decimal, push_decimal};
use crate::world::{PresenceRecord, Route};

verus! {

broadcast use vstd::string::group_string_axioms;

/// An entry that a trip leaves in the event log.
#[derive(Debug, Clone, PartialEq, Eq)]
pub struct TravelEventDraft {
    pub kind: String,
    pub message: String,
    pub metadata_json: Option<String>,
}

/// What a player wants.
#[derive(Debug, Clone, Copy, PartialEq, Eq, Structural)]
pub struct TravelRequest {
    pub player_id: i64,
    pub dest_place_id: i64,
    /// The route to take; without one there must be exactly one.
    pub route_id: Option<i64>,
    /// Whether the player remembers the place.
    pub touch_recall: bool,
    /// Whether the trip may leave an entry in the event log.
    pub append_event: bool,
}

impl TravelRequest {
    /// A trip by the only route, remembered, without an entry in the log.
    pub fn new(player_id: i64, dest_place_id: i64) -> (r: TravelRequest)
        ensures
            r == (TravelRequest {
                player_id,
                dest_place_id,
                route_id: None,
                touch_recall: true,
                append_event: false,
            }),
    {
        TravelRequest {
            player_id,
            dest_place_id,
            route_id: None,
            touch_recall: true,
            append_event: false,
        }
    }

    /// Take this route.
    pub fn with_route_id(self, route_id: i64) -> (r: TravelRequest)
        ensures
            r == (TravelRequest { route_id: Some(route_id), ..self }),
    {
        TravelRequest { route_id: Some(route_id), ..self }
    }

    /// Say whether the player remembers the place.
    pub fn with_touch_recall(self, touch_recall: bool) -> (r: TravelRequest)
        ensures
            r == (TravelRequest { touch_recall, ..self }),
    {
        TravelRequest { touch_recall, ..self }
    }

    /// Say whether the trip may leave an entry in the event log.
    pub fn with_append_event(self, append_event: bool) -> (r: TravelRequest)
        ensures
            r == (TravelRequest { append_event, ..self }),
    {
        TravelRequest { append_event, ..self }
    }
}

/// What a trip came to.
#[derive(Debug, Clone, PartialEq, Eq)]
pub struct TravelResult {
    pub from_place_id: i64,
    pub to_place_id: i64,
    pub route_id: i64,
    pub entered_at: String,
    pub event_id: Option<i64>,
}

/// What can go wrong with a player's belongings on a trip.
#[derive(Debug, Clone, PartialEq, Eq)]
pub enum InventoryError {
    /// The owner has none of the item.
    MissingSourceSlot { owner_kind: String, owner_id: i64, item_key: String },
}

/// Why a trip failed.
#[derive(Debug, Clone, PartialEq, Eq)]
pub enum TravelError {
    /// The player is nowhere.
    NoPresence { player_id: i64 },
    /// No route leads there, or not the one asked for.
    NoRoute {
        player_id: i64,
        from_place_id: i64,
        to_place_id: i64,
        route_id: Option<i64>,
        route_suffix: String,
    },
    /// More than one route leads there.
    AmbiguousRoute {
        player_id: i64,
        from_place_id: i64,
        to_place_id: i64,
        matching_route_ids: Vec<i64>,
    },
    /// The game does not allow the trip.
    ValidationFailed { player_id: i64, route_id: i64, reason: String },
    /// The player cannot pay for it.
    CostFailed { player_id: i64, route_id: i64, reason: String },
    /// The player's belongings do not allow it.
    InventoryError { source: Box<InventoryError> },
    /// The database failed at a step; `source` is what it said.
    Database { step: &'static str, source: String },
}

/// How the route asked for reads in a message.
pub open spec fn route_suffix_text(route_id: Option<i64>) -> Seq<char> {
    match route_id {
        Some(id) => " (requested route `"@ + decimal(id as int) + "`)"@,
        None => seq![],
    }
}

/// Numbers between commas.
pub open spec fn comma_list(ids: Seq<i64>) -> Seq<char>
    decreases ids.len(),
{
    if ids.len() == 0 {
        seq![]
    } else if ids.len() == 1 {
        decimal(ids[0] as int)
    } else {
        comma_list(ids.drop_last()) + ", "@ + decimal(ids.last() as int)
    }
}

/// How an inventory error reads.
pub open spec fn inventory_text(error: InventoryError) -> Seq<char> {
    match error {
        InventoryError::MissingSourceSlot { owner_kind, owner_id, item_key } => "owner `"@
            + owner_kind@ + ":"@ + decimal(owner_id as int) + "` has no slot for item `"@
            + item_key@ + "`"@,
    }
}

/// How an error reads.
pub open spec fn error_text(error: TravelError) -> Seq<char> {
    match error {
        TravelError::NoPresence { player_id } => "player `"@ + decimal(player_id as int)
            + "` has no presence row"@,
        TravelError::NoRoute { player_id, from_place_id, to_place_id, route_id, route_suffix } =>
            "no route for player `"@ + decimal(player_id as int) + "` from place `"@ + decimal(
                from_place_id as int,
            ) + "` to `"@ + decimal(to_place_id as int) + "`"@ + route_suffix@,
        TravelError::AmbiguousRoute {
            player_id,
            from_place_id,
            to_place_id,
            matching_route_ids,
        } => "ambiguous route for player `"@ + decimal(player_id as int) + "` from place `"@
            + decimal(from_place_id as int) + "` to `"@ + decimal(to_place_id as int)
            + "`; matching route ids: ["@ + comma_list(matching_route_ids@) + "]"@,
        TravelError::ValidationFailed { player_id, route_id, reason } =>
            "travel validation rejected player `"@ + decimal(player_id as int) + "` on route `"@
                + decimal(route_id as int) + "`: "@ + reason@,
        TravelError::CostFailed { player_id, route_id, reason } =>
            "travel cost charge failed for player `"@ + decimal(player_id as int) + "` on route `"@
                + decimal(route_id as int) + "`: "@ + reason@,
        TravelError::InventoryError { source } => "travel inventory mutation failed: "@
            + inventory_text(*source),
        TravelError::Database { step, source } => "travel database operation failed during "@
            + step@ + ": "@ + source@,
    }
}

impl InventoryError {
    /// The message for the player or the author.
    pub fn message(&self) -> (r: String)
        ensures
            r@ == inventory_text(*self),
    {
        match self {
            InventoryError::MissingSourceSlot { owner_kind, owner_id, item_key } => {
                let mut out: String = "owner `".to_string();
                out.append(owner_kind.as_str());
                out.append(":");
                push_decimal(&mut out, *owner_id);
                out.append("` has no slot for item `");
                out.append(item_key.as_str());
                out.append("`");
                out
            },
        }
    }
}

fn push_comma_list(out: &mut String, ids: &Vec<i64>)
    ensures
        final(out)@ == old(out)@ + comma_list(ids@),
{
    let ghost before = out@;
    let mut i: usize = 0;
    assert(comma_list(ids@.take(0)) =~= seq![]);
    assert(before + comma_list(ids@.take(0)) =~= before);
    while i < ids.len()
        invariant
            i <= ids@.len(),
            out@ == before + comma_list(ids@.take(i as int)),
        decreases ids@.len() - i,
    {
        assert(ids@.take(i + 1).drop_last() =~= ids@.take(i as int));
        if i > 0 {
            out.append(", ");
        }
        push_decimal(out, ids[i]);
        i = i + 1;
        assert(out@ =~= before + comma_list(ids@.take(i as int)));
    }
    assert(ids@.take(i as int) =~= ids@);
}

impl TravelError {
    /// The error for a route that does not exist.
    pub fn no_route(
        player_id: i64,
        from_place_id: i64,
        to_place_id: i64,
        route_id: Option<i64>,
    ) -> (r: TravelError)
        ensures
            is_no_route(r, player_id, from_place_id, to_place_id, route_id),
    {
        let mut route_suffix: String = String::new();
        match route_id {
            Some(id) => {
                route_suffix.append(" (requested route `");
                push_decimal(&mut route_suffix, id);
                route_suffix.append("`)");
            },
            None => {},
        }
        assert(route_suffix@ =~= route_suffix_text(route_id));
        TravelError::NoRoute { player_id, from_place_id, to_place_id, route_id, route_suffix }
    }

    /// The message for the player or the author.
    pub fn message(&self) -> (r: String)
        ensures
            r@ == error_text(*self),
    {
        let mut out: String = String::new();
        match self {
            TravelError::NoPresence { player_id } => {
                out.append("player `");
                push_decimal(&mut out, *player_id);
                out.append("` has no presence row");
            },
            TravelError::NoRoute { player_id, from_place_id, to_place_id, route_id, route_suffix } => {
                out.append("no route for player `");
                push_decimal(&mut out, *player_id);
                out.append("` from place `");
                push_decimal(&mut out, *from_place_id);
                out.append("` to `");
                push_decimal(&mut out, *to_place_id);
                out.append("`");
                out.append(route_suffix.as_str());
            },
            TravelError::AmbiguousRoute {
                player_id,
                from_place_id,
                to_place_id,
                matching_route_ids,
            } => {
                out.append("ambiguous route for player `");
                push_decimal(&mut out, *player_id);
                out.append("` from place `");
                push_decimal(&mut out, *from_place_id);
                out.append("` to `");
                push_decimal(&mut out, *to_place_id);
                out.append("`; matching route ids: [");
                push_comma_list(&mut out, matching_route_ids);
                out.append("]");
            },
            TravelError::ValidationFailed { player_id, route_id, reason } => {
                out.append("travel validation rejected player `");
                push_decimal(&mut out, *player_id);
                out.append("` on route `");
                push_decimal(&mut out, *route_id);
                out.append("`: ");
                out.append(reason.as_str());
            },
            TravelError::CostFailed { player_id, route_id, reason } => {
                out.append("travel cost charge failed for player `");
                push_decimal(&mut out, *player_id);
                out.append("` on route `");
                push_decimal(&mut out, *route_id);
                out.append("`: ");
                out.append(reason.as_str());
            },
            TravelError::InventoryError { source } => {
                out.append("travel inventory mutation failed: ");
                out.append(source.message().as_str());
            },
            TravelError::Database { step, source } => {
                out.append("travel database operation failed during ");
                out.append(*step);
                out.append(": ");
                out.append(source.as_str());
            },
        }
        assert(out@ =~= error_text(*self));
        out
    }
}

impl From<InventoryError> for TravelError {
    fn from(source: InventoryError) -> (r: TravelError) {
        TravelError::InventoryError { source: Box::new(source) }
    }
}

impl vstd::std_specs::convert::FromSpecImpl<InventoryError> for TravelError {
    open spec fn obeys_from_spec() -> bool {
        true
    }

    open spec fn from_spec(source: InventoryError) -> TravelError {
        TravelError::InventoryError { source: Box::new(source) }
    }
}

/// Whether an error says that a route does not exist.
pub open spec fn is_no_route(
    error: TravelError,
    player: i64,
    from: i64,
    to: i64,
    route: Option<i64>,
) -> bool {
    match error {
        TravelError::NoRoute { player_id, from_place_id, to_place_id, route_id, route_suffix } => {
            &&& player_id == player
            &&& from_place_id == from
            &&& to_place_id == to
            &&& route_id == route
            &&& route_suffix@ == route_suffix_text(route)
        },
        _ => false,
    }
}

/// Whether an error says that the database failed at a step.
pub open spec fn is_database(error: TravelError, at: Seq<char>, said: String) -> bool {
    match error {
        TravelError::Database { step, source } => step@ == at && source == said,
        _ => false,
    }
}

/// Where a player was, and the route that was found.
#[derive(Debug, Clone, PartialEq, Eq)]
pub struct Way {
    pub presence: PresenceRecord,
    pub route: Route,
}

/// A player who has moved.
#[derive(Debug, Clone, PartialEq, Eq)]
pub struct Arrival {
    pub way: Way,
    pub moved: PresenceRecord,
}

/// How far a trip has come.
#[derive(Debug, PartialEq, Eq)]
pub enum Phase {
    Starting,
    Locating,
    Routing { presence: PresenceRecord },
    Validating { way: Way },
    Charging { way: Way },
    Moving { way: Way },
    FindingRecall { arrival: Arrival },
    Recalling { arrival: Arrival },
    FindingEvents { arrival: Arrival },
    Drafting { arrival: Arrival },
    Appending { arrival: Arrival, draft: TravelEventDraft },
    Committing { result: TravelResult },
    Finished { outcome: Result<TravelResult, TravelError> },
}

/// What a trip needs next.
#[derive(Debug, Clone, Copy, PartialEq, Eq, Structural)]
pub enum TravelAction {
    /// Begin a transaction.
    Begin,
    /// Read where the player is.
    ReadPresence { player_id: i64 },
    /// Read the route of that number between two places.
    ReadRoute { route_id: i64, from_place_id: i64, to_place_id: i64 },
    /// Read all routes between two places, in the order of their numbers.
    ListRoutes { from_place_id: i64, to_place_id: i64 },
    /// Ask the game whether the trip is allowed.
    Validate,
    /// Ask the game to charge for the trip.
    ChargeCost,
    /// Move the player.
    MovePresence { player_id: i64, place_id: i64 },
    /// See whether there is a table of remembered places.
    FindRecallTable,
    /// Remember the place.
    TouchRecall { player_id: i64, place_id: i64 },
    /// See whether there is an event log.
    FindEventTable,
    /// Ask the game for an entry.
    DraftEvent,
    /// Put the entry into the event log.
    AppendEvent { player_id: i64 },
    /// Commit the transaction.
    Commit,
    /// Nothing: the trip is over.
    Finish,
}

/// The reply to an action.
#[derive(Debug, PartialEq, Eq)]
pub enum TravelReply {
    /// It was done.
    Done,
    /// The database failed; this is what it said.
    Failed(String),
    /// Where the player is, if anywhere.
    Presence(Option<PresenceRecord>),
    /// The routes found.
    Routes(Vec<Route>),
    /// What the game said.
    Verdict(Result<(), TravelError>),
    /// Where the player is now.
    Moved(PresenceRecord),
    /// Whether the table is there.
    Table(bool),
    /// The entry, if the game wants one.
    Draft(Option<TravelEventDraft>),
    /// The number of the new entry.
    Appended(i64),
}

/// The action that a phase asks for.
pub open spec fn asked(request: TravelRequest, phase: Phase) -> TravelAction {
    match phase {
        Phase::Starting => TravelAction::Begin,
        Phase::Locating => TravelAction::ReadPresence { player_id: request.player_id },
        Phase::Routing { presence } => match request.route_id {
            Some(id) => TravelAction::ReadRoute {
                route_id: id,
                from_place_id: presence.place_id,
                to_place_id: request.dest_place_id,
            },
            None => TravelAction::ListRoutes {
                from_place_id: presence.place_id,
                to_place_id: request.dest_place_id,
            },
        },
        Phase::Validating { way } => TravelAction::Validate,
        Phase::Charging { way } => TravelAction::ChargeCost,
        Phase::Moving { way } => TravelAction::MovePresence {
            player_id: request.player_id,
            place_id: request.dest_place_id,
        },
        Phase::FindingRecall { arrival } => TravelAction::FindRecallTable,
        Phase::Recalling { arrival } => TravelAction::TouchRecall {
            player_id: request.player_id,
            place_id: request.dest_place_id,
        },
        Phase::FindingEvents { arrival } => TravelAction::FindEventTable,
        Phase::Drafting { arrival } => TravelAction::DraftEvent,
        Phase::Appending { arrival, draft } => TravelAction::AppendEvent {
            player_id: request.player_id,
        },
        Phase::Committing { result } => TravelAction::Commit,
        Phase::Finished { outcome } => TravelAction::Finish,
    }
}

/// Whether a reply can be the reply to an action. Only the game's own decisions
/// cannot fail in the database.
pub open spec fn fits(action: TravelAction, reply: TravelReply) -> bool {
    match action {
        TravelAction::Begin => reply is Done || reply is Failed,
        TravelAction::ReadPresence { .. } => reply is Presence || reply is Failed,
        TravelAction::ReadRoute { .. } => reply is Routes || reply is Failed,
        TravelAction::ListRoutes { .. } => reply is Routes || reply is Failed,
        TravelAction::Validate => reply is Verdict,
        TravelAction::ChargeCost => reply is Verdict,
        TravelAction::MovePresence { .. } => reply is Moved || reply is Failed,
        TravelAction::FindRecallTable => reply is Table || reply is Failed,
        TravelAction::TouchRecall { .. } => reply is Done || reply is Failed,
        TravelAction::FindEventTable => reply is Table || reply is Failed,
        TravelAction::DraftEvent => reply is Draft,
        TravelAction::AppendEvent { .. } => reply is Appended || reply is Failed,
        TravelAction::Commit => reply is Done || reply is Failed,
        TravelAction::Finish => false,
    }
}

/// What the database was doing in a phase.
pub open spec fn database_step(request: TravelRequest, phase: Phase) -> Seq<char> {
    match phase {
        Phase::Starting => "begin transaction"@,
        Phase::Locating => "read current presence"@,
        Phase::Routing { presence } => if request.route_id is Some {
            "resolve explicit route"@
        } else {
            "resolve unique route"@
        },
        Phase::Moving { way } => "move presence"@,
        Phase::FindingRecall { arrival } => "check optional table"@,
        Phase::Recalling { arrival } => "touch place recall"@,
        Phase::FindingEvents { arrival } => "check optional table"@,
        Phase::Appending { arrival, draft } => "append travel event"@,
        Phase::Committing { result } => "commit travel"@,
        _ => seq![],
    }
}

/// The result of a trip.
pub open spec fn trip_result(arrival: Arrival, event_id: Option<i64>) -> TravelResult {
    TravelResult {
        from_place_id: arrival.way.presence.place_id,
        to_place_id: arrival.moved.place_id,
        route_id: arrival.way.route.id,
        entered_at: arrival.moved.entered_at,
        event_id,
    }
}

/// The phase after the place was remembered, or need not be.
pub open spec fn after_recall(request: TravelRequest, arrival: Arrival) -> Phase {
    if request.append_event {
        Phase::FindingEvents { arrival }
    } else {
        Phase::Committing { result: trip_result(arrival, None) }
    }
}

/// Whether an error is what a trip fails with when the game does not allow it:
/// its own error where it says so, otherwise one that quotes it.
pub open spec fn refusal(
    request: TravelRequest,
    route: Route,
    given: TravelError,
    error: TravelError,
) -> bool {
    if given is ValidationFailed {
        error == given
    } else {
        match error {
            TravelError::ValidationFailed { player_id, route_id, reason } => player_id
                == request.player_id && route_id == route.id && reason@ == error_text(given),
            _ => false,
        }
    }
}

/// Whether an error is what a trip fails with when it cannot be paid for: the
/// game's own error where it speaks of costs or belongings, otherwise one that
/// quotes it.
pub open spec fn unpaid(
    request: TravelRequest,
    route: Route,
    given: TravelError,
    error: TravelError,
) -> bool {
    if given is CostFailed || given is InventoryError {
        error == given
    } else {
        match error {
            TravelError::CostFailed { player_id, route_id, reason } => player_id
                == request.player_id && route_id == route.id && reason@ == error_text(given),
            _ => false,
        }
    }
}

/// Whether an error names all of several routes.
pub open spec fn is_ambiguous(
    error: TravelError,
    player: i64,
    from: i64,
    to: i64,
    routes: Seq<Route>,
) -> bool {
    match error {
        TravelError::AmbiguousRoute { player_id, from_place_id, to_place_id, matching_route_ids } => {
            &&& player_id == player
            &&& from_place_id == from
            &&& to_place_id == to
            &&& matching_route_ids@ == routes.map_values(|route: Route| route.id)
        },
        _ => false,
    }
}

/// Whether a route, or an error, is what a list of routes between two places
/// comes to. A route asked for must be there; otherwise there must be exactly
/// one.
pub open spec fn chosen_route(
    request: TravelRequest,
    from: i64,
    routes: Seq<Route>,
    chosen: Result<Route, TravelError>,
) -> bool {
    match chosen {
        Ok(route) => routes.len() > 0 && route == routes[0] && (request.route_id is Some
            || routes.len() == 1),
        Err(error) => if routes.len() == 0 {
            is_no_route(error, request.player_id, from, request.dest_place_id, request.route_id)
        } else {
            &&& request.route_id is None
            &&& routes.len() > 1
            &&& is_ambiguous(error, request.player_id, from, request.dest_place_id, routes)
        },
    }
}

/// Whether a phase follows another on a reply.
pub open spec fn follows(
    request: TravelRequest,
    phase: Phase,
    reply: TravelReply,
    next: Phase,
) -> bool {
    match (phase, reply) {
        (_, TravelReply::Failed(said)) => next matches Phase::Finished { outcome: Err(error) }
            && is_database(error, database_step(request, phase), said),
        (Phase::Starting, TravelReply::Done) => next == Phase::Locating,
        (Phase::Locating, TravelReply::Presence(found)) => match found {
            Some(presence) => next == (Phase::Routing { presence }),
            None => next == (Phase::Finished {
                outcome: Err(TravelError::NoPresence { player_id: request.player_id }),
            }),
        },
        (Phase::Routing { presence }, TravelReply::Routes(routes)) => match next {
            Phase::Validating { way } => way.presence == presence && chosen_route(
                request,
                presence.place_id,
                routes@,
                Ok(way.route),
            ),
            Phase::Finished { outcome: Err(error) } => chosen_route(
                request,
                presence.place_id,
                routes@,
                Err(error),
            ),
            _ => false,
        },
        (Phase::Validating { way }, TravelReply::Verdict(verdict)) => match verdict {
            Ok(()) => next == (Phase::Charging { way }),
            Err(given) => next matches Phase::Finished { outcome: Err(error) } && refusal(
                request,
                way.route,
                given,
                error,
            ),
        },
        (Phase::Charging { way }, TravelReply::Verdict(verdict)) => match verdict {
            Ok(()) => next == (Phase::Moving { way }),
            Err(given) => next matches Phase::Finished { outcome: Err(error) } && unpaid(
                request,
                way.route,
                given,
                error,
            ),
        },
        (Phase::Moving { way }, TravelReply::Moved(moved)) => {
            let arrival = Arrival { way, moved };
            if request.touch_recall {
                next == (Phase::FindingRecall { arrival })
            } else {
                next == after_recall(request, arrival)
            }
        },
        (Phase::FindingRecall { arrival }, TravelReply::Table(there)) => if there {
            next == (Phase::Recalling { arrival })
        } else {
            next == after_recall(request, arrival)
        },
        (Phase::Recalling { arrival }, TravelReply::Done) => next == after_recall(
            request,
            arrival,
        ),
        (Phase::FindingEvents { arrival }, TravelReply::Table(there)) => if there {
            next == (Phase::Drafting { arrival })
        } else {
            next == (Phase::Committing { result: trip_result(arrival, None) })
        },
        (Phase::Drafting { arrival }, TravelReply::Draft(draft)) => match draft {
            Some(draft) => next == (Phase::Appending { arrival, draft }),
            None => next == (Phase::Committing { result: trip_result(arrival, None) }),
        },
        (Phase::Appending { arrival, draft }, TravelReply::Appended(id)) => next
            == (Phase::Committing { result: trip_result(arrival, Some(id)) }),
        (Phase::Committing { result }, TravelReply::Done) => next == (Phase::Finished {
            outcome: Ok(result),
        }),
        _ => false,
    }
}

/// Pick the route from the routes that the database found.
pub fn resolve_route(request: &TravelRequest, from_place_id: i64, routes: Vec<Route>) -> (r: Result<
    Route,
    TravelError,
>)
    ensures
        chosen_route(*request, from_place_id, routes@, r),
{
    match request.route_id {
        Some(_) => explicit_route(request, from_place_id, routes),
        None => unique_route(request, from_place_id, routes),
    }
}

/// The route asked for, which must be there.
fn explicit_route(request: &TravelRequest, from_place_id: i64, routes: Vec<Route>) -> (r: Result<
    Route,
    TravelError,
>)
    requires
        request.route_id is Some,
    ensures
        chosen_route(*request, from_place_id, routes@, r),
{
    let mut found: Vec<Route> = routes;
    if found.len() == 0 {
        Err(
            TravelError::no_route(
                request.player_id,
                from_place_id,
                request.dest_place_id,
                request.route_id,
            ),
        )
    } else {
        Ok(found.remove(0))
    }
}

/// The only route, which must be the only one.
fn unique_route(request: &TravelRequest, from_place_id: i64, routes: Vec<Route>) -> (r: Result<
    Route,
    TravelError,
>)
    requires
        request.route_id is None,
    ensures
        chosen_route(*request, from_place_id, routes@, r),
{
    let mut found: Vec<Route> = routes;
    if found.len() == 0 {
        return Err(
            TravelError::no_route(request.player_id, from_place_id, request.dest_place_id, None),
        );
    }
    if found.len() == 1 {
        return Ok(found.remove(0));
    }
    let mut ids: Vec<i64> = Vec::new();
    let mut i: usize = 0;
    while i < found.len()
        invariant
            i <= found@.len(),
            ids@.len() == i,
            forall|k: int| 0 <= k < i ==> #[trigger] ids@[k] == found@[k].id,
        decreases found@.len() - i,
    {
        ids.push(found[i].id);
        i = i + 1;
    }
    assert(ids@ =~= found@.map_values(|route: Route| route.id));
    Err(
        TravelError::AmbiguousRoute {
            player_id: request.player_id,
            from_place_id,
            to_place_id: request.dest_place_id,
            matching_route_ids: ids,
        },
    )
}

/// A trip under way.
#[derive(Debug, PartialEq, Eq)]
pub struct Travel {
    pub request: TravelRequest,
    pub phase: Phase,
}

/// A trip that failed in the database.
fn database_failure(request: TravelRequest, step: &'static str, source: String) -> (r: Travel)
    ensures
        r.request == request,
        r.phase matches Phase::Finished { outcome: Err(error) } && is_database(
            error,
            step@,
            source,
        ),
{
    failure(request, TravelError::Database { step, source })
}

/// A trip that failed.
fn failure(request: TravelRequest, error: TravelError) -> (r: Travel)
    ensures
        r == (Travel { request, phase: Phase::Finished { outcome: Err(error) } }),
{
    Travel { request, phase: Phase::Finished { outcome: Err(error) } }
}

/// A trip that only has to be committed.
fn committing(request: TravelRequest, arrival: Arrival, event_id: Option<i64>) -> (r: Travel)
    ensures
        r == (Travel { request, phase: Phase::Committing { result: trip_result(arrival, event_id) } }),
{
    let result = TravelResult {
        from_place_id: arrival.way.presence.place_id,
        to_place_id: arrival.moved.place_id,
        route_id: arrival.way.route.id,
        entered_at: arrival.moved.entered_at,
        event_id,
    };
    Travel { request, phase: Phase::Committing { result } }
}

/// A trip whose place was remembered, or need not be.
fn recalled(request: TravelRequest, arrival: Arrival) -> (r: Travel)
    ensures
        r == (Travel { request, phase: after_recall(request, arrival) }),
{
    if request.append_event {
        Travel { request, phase: Phase::FindingEvents { arrival } }
    } else {
        committing(request, arrival, None)
    }
}

impl Travel {
    /// A trip that has not begun.
    pub fn new(request: TravelRequest) -> (r: Travel)
        ensures
            r == (Travel { request, phase: Phase::Starting }),
    {
        Travel { request, phase: Phase::Starting }
    }

    /// What the trip needs next.
    pub fn action(&self) -> (r: TravelAction)
        ensures
            r == asked(self.request, self.phase),
    {
        match &self.phase {
            Phase::Starting => TravelAction::Begin,
            Phase::Locating => TravelAction::ReadPresence { player_id: self.request.player_id },
            Phase::Routing { presence } => match self.request.route_id {
                Some(id) => TravelAction::ReadRoute {
                    route_id: id,
                    from_place_id: presence.place_id,
                    to_place_id: self.request.dest_place_id,
                },
                None => TravelAction::ListRoutes {
                    from_place_id: presence.place_id,
                    to_place_id: self.request.dest_place_id,
                },
            },
            Phase::Validating { .. } => TravelAction::Validate,
            Phase::Charging { .. } => TravelAction::ChargeCost,
            Phase::Moving { .. } => TravelAction::MovePresence {
                player_id: self.request.player_id,
                place_id: self.request.dest_place_id,
            },
            Phase::FindingRecall { .. } => TravelAction::FindRecallTable,
            Phase::Recalling { .. } => TravelAction::TouchRecall {
                player_id: self.request.player_id,
                place_id: self.request.dest_place_id,
            },
            Phase::FindingEvents { .. } => TravelAction::FindEventTable,
            Phase::Drafting { .. } => TravelAction::DraftEvent,
            Phase::Appending { .. } => TravelAction::AppendEvent {
                player_id: self.request.player_id,
            },
            Phase::Committing { .. } => TravelAction::Commit,
            Phase::Finished { .. } => TravelAction::Finish,
        }
    }

    /// Go on with the reply to the action asked for.
    pub fn step(self, reply: TravelReply) -> (r: Travel)
        requires
            fits(asked(self.request, self.phase), reply),
        ensures
            r.request == self.request,
            follows(self.request, self.phase, reply, r.phase),
    {
        let request: TravelRequest = self.request;
        match (self.phase, reply) {
            (Phase::Starting, TravelReply::Failed(said)) => database_failure(
                request,
                "begin transaction",
                said,
            ),
            (Phase::Starting, _) => Travel { request, phase: Phase::Locating },
            (Phase::Locating, TravelReply::Presence(Some(presence))) => Travel {
                request,
                phase: Phase::Routing { presence },
            },
            (Phase::Locating, TravelReply::Presence(None)) => failure(
                request,
                TravelError::NoPresence { player_id: request.player_id },
            ),
            (Phase::Locating, TravelReply::Failed(said)) => database_failure(
                request,
                "read current presence",
                said,
            ),
            (Phase::Routing { presence }, TravelReply::Routes(routes)) => {
                let from: i64 = presence.place_id;
                match resolve_route(&request, from, routes) {
                    Ok(route) => Travel {
                        request,
                        phase: Phase::Validating { way: Way { presence, route } },
                    },
                    Err(error) => failure(request, error),
                }
            },
            (Phase::Routing { presence }, TravelReply::Failed(said)) => {
                if request.route_id.is_some() {
                    database_failure(request, "resolve explicit route", said)
                } else {
                    database_failure(request, "resolve unique route", said)
                }
            },
            (Phase::Validating { way }, TravelReply::Verdict(Ok(()))) => Travel {
                request,
                phase: Phase::Charging { way },
            },
            (Phase::Validating { way }, TravelReply::Verdict(Err(given))) => {
                let error: TravelError = match given {
                    TravelError::ValidationFailed { player_id, route_id, reason } => {
                        TravelError::ValidationFailed { player_id, route_id, reason }
                    },
                    other => TravelError::ValidationFailed {
                        player_id: request.player_id,
                        route_id: way.route.id,
                        reason: other.message(),
                    },
                };
                failure(request, error)
            },
            (Phase::Charging { way }, TravelReply::Verdict(Ok(()))) => Travel {
                request,
                phase: Phase::Moving { way },
            },
            (Phase::Charging { way }, TravelReply::Verdict(Err(given))) => {
                let error: TravelError = match given {
                    TravelError::CostFailed { player_id, route_id, reason } => {
                        TravelError::CostFailed { player_id, route_id, reason }
                    },
                    TravelError::InventoryError { source } => TravelError::InventoryError {
                        source,
                    },
                    other => TravelError::CostFailed {
                        player_id: request.player_id,
                        route_id: way.route.id,
                        reason: other.message(),
                    },
                };
                failure(request, error)
            },
            (Phase::Moving { way }, TravelReply::Moved(moved)) => {
                let arrival = Arrival { way, moved };
                if request.touch_recall {
                    Travel { request, phase: Phase::FindingRecall { arrival } }
                } else {
                    recalled(request, arrival)
                }
            },
            (Phase::Moving { way }, TravelReply::Failed(said)) => database_failure(
                request,
                "move presence",
                said,
            ),
            (Phase::FindingRecall { arrival }, TravelReply::Table(true)) => Travel {
                request,
                phase: Phase::Recalling { arrival },
            },
            (Phase::FindingRecall { arrival }, TravelReply::Failed(said)) => database_failure(
                request,
                "check optional table",
                said,
            ),
            (Phase::FindingRecall { arrival }, _) => recalled(request, arrival),
            (Phase::Recalling { arrival }, TravelReply::Failed(said)) => database_failure(
                request,
                "touch place recall",
                said,
            ),
            (Phase::Recalling { arrival }, _) => recalled(request, arrival),
            (Phase::FindingEvents { arrival }, TravelReply::Table(true)) => Travel {
                request,
                phase: Phase::Drafting { arrival },
            },
            (Phase::FindingEvents { arrival }, TravelReply::Failed(said)) => database_failure(
                request,
                "check optional table",
                said,
            ),
            (Phase::FindingEvents { arrival }, _) => committing(request, arrival, None),
            (Phase::Drafting { arrival }, TravelReply::Draft(Some(draft))) => Travel {
                request,
                phase: Phase::Appending { arrival, draft },
            },
            (Phase::Drafting { arrival }, _) => committing(request, arrival, None),
            (Phase::Appending { arrival, draft }, TravelReply::Appended(id)) => committing(
                request,
                arrival,
                Some(id),
            ),
            (Phase::Appending { arrival, draft }, TravelReply::Failed(said)) => database_failure(
                request,
                "append travel event",
                said,
            ),
            (Phase::Committing { result }, TravelReply::Failed(said)) => database_failure(
                request,
                "commit travel",
                said,
            ),
            (Phase::Committing { result }, _) => Travel {
                request,
                phase: Phase::Finished { outcome: Ok(result) },
            },
            (phase, _) => Travel { request, phase },
        }
    }
}

/// How far a phase lies from the start.
pub open spec fn rank(phase: Phase) -> int {
    match phase {
        Phase::Starting => 0,
        Phase::Locating => 1,
        Phase::Routing { .. } => 2,
        Phase::Validating { .. } => 3,
        Phase::Charging { .. } => 4,
        Phase::Moving { .. } => 5,
        Phase::FindingRecall { .. } => 6,
        Phase::Recalling { .. } => 7,
        Phase::FindingEvents { .. } => 8,
        Phase::Drafting { .. } => 9,
        Phase::Appending { .. } => 10,
        Phase::Committing { .. } => 11,
        Phase::Finished { .. } => 12,
    }
}

/// Every reply brings a trip forward, so that it ends after a dozen replies at
/// most.
pub proof fn every_step_advances(
    request: TravelRequest,
    phase: Phase,
    reply: TravelReply,
    next: Phase,
)
    requires
        fits(asked(request, phase), reply),
        follows(request, phase, reply, next),
    ensures
        rank(phase) < rank(next) <= 12,
{
}

/// Whether phases and replies alternate as on a trip from its start.
pub open spec fn is_run(
    request: TravelRequest,
    phases: Seq<Phase>,
    replies: Seq<TravelReply>,
) -> bool {
    &&& phases.len() == replies.len() + 1
    &&& phases[0] == Phase::Starting
    &&& forall|i: int|
        #![trigger replies[i]]
        0 <= i < replies.len() ==> fits(asked(request, phases[i]), replies[i]) && follows(
            request,
            phases[i],
            replies[i],
            phases[i + 1],
        )
}

/// Whether the player moved at step `m`, after the trip had been allowed and
/// paid for.
pub open spec fn moved_at(phases: Seq<Phase>, replies: Seq<TravelReply>, m: int) -> bool {
    &&& 2 <= m < replies.len()
    &&& phases[m - 2] is Validating
    &&& replies[m - 2] matches TravelReply::Verdict(Ok(_))
    &&& phases[m - 1] is Charging
    &&& replies[m - 1] matches TravelReply::Verdict(Ok(_))
    &&& phases[m] is Moving
    &&& replies[m] is Moved
}

/// Whether what a phase knows comes from the move at step `m`.
spec fn knows(phase: Phase, phases: Seq<Phase>, replies: Seq<TravelReply>, m: int) -> bool {
    let arrival = Arrival { way: phases[m]->Moving_way, moved: replies[m]->Moved_0 };
    match phase {
        Phase::FindingRecall { arrival: a } => a == arrival,
        Phase::Recalling { arrival: a } => a == arrival,
        Phase::FindingEvents { arrival: a } => a == arrival,
        Phase::Drafting { arrival: a } => a == arrival,
        Phase::Appending { arrival: a, draft } => a == arrival,
        Phase::Committing { result } => result == trip_result(arrival, result.event_id),
        _ => false,
    }
}

proof fn lemma_path(
    request: TravelRequest,
    phases: Seq<Phase>,
    replies: Seq<TravelReply>,
    n: int,
) -> (m: int)
    requires
        is_run(request, phases, replies),
        0 <= n < phases.len(),
        6 <= rank(phases[n]) <= 11,
    ensures
        m < n,
        moved_at(phases, replies, m),
        knows(phases[n], phases, replies, m),
    decreases n,
{
    let reply = replies[n - 1];
    assert(follows(request, phases[n - 1], reply, phases[n - 1 + 1]));
    if phases[n - 1] is Moving {
        assert(n - 1 >= 1);
        let paid = replies[n - 2];
        assert(follows(request, phases[n - 2], paid, phases[n - 2 + 1]));
        assert(phases[n - 2] is Charging);
        let allowed = replies[n - 3];
        assert(follows(request, phases[n - 3], allowed, phases[n - 3 + 1]));
        assert(phases[n - 3] is Validating);
        assert(fits(asked(request, phases[n - 1]), reply));
        n - 1
    } else {
        lemma_path(request, phases, replies, n - 1)
    }
}

/// A trip succeeds only if it was allowed, then paid for, then made, and at last
/// committed, and its result says where it led.
pub proof fn success_takes_every_step(
    request: TravelRequest,
    phases: Seq<Phase>,
    replies: Seq<TravelReply>,
    result: TravelResult,
)
    requires
        is_run(request, phases, replies),
        phases.last() == (Phase::Finished { outcome: Ok(result) }),
    ensures
        phases[replies.len() - 1] is Committing,
        replies.last() is Done,
        exists|m: int| #[trigger]
            moved_at(phases, replies, m) && m < replies.len() - 1 && result == trip_result(
                Arrival { way: phases[m]->Moving_way, moved: replies[m]->Moved_0 },
                result.event_id,
            ),
{
    let n = replies.len() - 1;
    assert(phases.last() == phases[n + 1]);
    assert(follows(request, phases[n], replies[n], phases[n + 1]));
    let m = lemma_path(request, phases, replies, n);
    assert(moved_at(phases, replies, m));
}

/// Within a trip that succeeds, no step fails.
proof fn lemma_no_step_fails(
    request: TravelRequest,
    phases: Seq<Phase>,
    replies: Seq<TravelReply>,
    i: int,
)
    requires
        is_run(request, phases, replies),
        phases.last() matches Phase::Finished { outcome: Ok(_) },
        0 <= i < phases.len(),
        !(phases[i] is Finished),
    ensures
        i < replies.len(),
        !(replies[i] is Failed),
        fits(asked(request, phases[i]), replies[i]),
        follows(request, phases[i], replies[i], phases[i + 1]),
{
    assert(i < replies.len());
    assert(follows(request, phases[i], replies[i], phases[i + 1]));
    if phases[i + 1] is Finished && i + 1 < replies.len() {
        assert(fits(asked(request, phases[i + 1]), replies[i + 1]));
    }
}

/// On a trip that succeeds, the place is remembered right after the move if that
/// was asked for and there is a table for it, and otherwise not.
pub proof fn success_remembers_the_place(
    request: TravelRequest,
    phases: Seq<Phase>,
    replies: Seq<TravelReply>,
    m: int,
    i: int,
)
    requires
        is_run(request, phases, replies),
        phases.last() matches Phase::Finished { outcome: Ok(_) },
        moved_at(phases, replies, m),
        0 <= i < phases.len(),
    ensures
        request.touch_recall ==> phases[m + 1] is FindingRecall && replies[m + 1] is Table && (
        replies[m + 1] == TravelReply::Table(true) ==> phases[m + 2] is Recalling && replies[m + 2]
            is Done),
        phases[i] is Recalling ==> request.touch_recall && i >= 1 && replies[i - 1]
            == TravelReply::Table(true),
{
    lemma_no_step_fails(request, phases, replies, m);
    if request.touch_recall {
        lemma_no_step_fails(request, phases, replies, m + 1);
        if replies[m + 1] == TravelReply::Table(true) {
            lemma_no_step_fails(request, phases, replies, m + 2);
        }
    }
    if phases[i] is Recalling {
        assert(follows(request, phases[i - 1], replies[i - 1], phases[i - 1 + 1]));
        assert(phases[i - 1] is FindingRecall);
        assert(follows(request, phases[i - 2], replies[i - 2], phases[i - 2 + 1]));
    }
}

/// A trip that succeeds names an entry of the event log exactly if it put one
/// there, just before the commit; and it does so only if that was asked for.
pub proof fn success_names_the_event(
    request: TravelRequest,
    phases: Seq<Phase>,
    replies: Seq<TravelReply>,
    result: TravelResult,
    i: int,
)
    requires
        is_run(request, phases, replies),
        phases.last() == (Phase::Finished { outcome: Ok(result) }),
        0 <= i < phases.len(),
    ensures
        phases[i] is Appending ==> i == replies.len() - 2 && replies[i] == TravelReply::Appended(
            result.event_id->0,
        ) && result.event_id is Some,
        result.event_id is Some ==> request.append_event && replies.len() >= 2
            && phases[replies.len() - 2] is Appending,
{
    let n = replies.len() - 1;
    assert(phases.last() == phases[n + 1]);
    assert(follows(request, phases[n], replies[n], phases[n + 1]));
    assert(phases[n] == (Phase::Committing { result }));
    if phases[i] is Appending {
        lemma_no_step_fails(request, phases, replies, i);
        assert(phases[i + 1] is Committing);
        lemma_no_step_fails(request, phases, replies, i + 1);
        assert(phases[i + 2] is Finished);
        if i + 2 < replies.len() {
            assert(fits(asked(request, phases[i + 2]), replies[i + 2]));
        }
        assert(i + 1 == n);
    }
    if result.event_id is Some {
        assert(follows(request, phases[n - 1], replies[n - 1], phases[n - 1 + 1]));
        assert(phases[n - 1] is Appending);
        assert(follows(request, phases[n - 2], replies[n - 2], phases[n - 2 + 1]));
        assert(phases[n - 2] is Drafting);
        assert(follows(request, phases[n - 3], replies[n - 3], phases[n - 3 + 1]));
        assert(phases[n - 3] is FindingEvents);
        assert(follows(request, phases[n - 4], replies[n - 4], phases[n - 4 + 1]));
    }
}

/// A trip that fails is not committed: the transaction was never asked to
/// commit, or the commit itself failed.
pub proof fn failure_commits_nothing(
    request: TravelRequest,
    phases: Seq<Phase>,
    replies: Seq<TravelReply>,
    i: int,
)
    requires
        is_run(request, phases, replies),
        phases.last() matches Phase::Finished { outcome: Err(_) },
        0 <= i < phases.len(),
        phases[i] is Committing,
    ensures
        i == replies.len() - 1,
        replies[i] is Failed,
{
    assert(follows(request, phases[i], replies[i], phases[i + 1]));
    if i + 1 < replies.len() {
        assert(fits(asked(request, phases[i + 1]), replies[i + 1]));
    }
    assert(phases[i + 1] == phases.last());
}

/// On a trip that succeeds and may leave an entry in the event log, the log is
/// looked for after the move, whether or not the place is remembered. Where the
/// log is there, the game is asked for an entry; where it gives one, the entry is
/// appended, and the result names it.
pub proof fn success_records_the_event(
    request: TravelRequest,
    phases: Seq<Phase>,
    replies: Seq<TravelReply>,
    result: TravelResult,
    m: int,
) -> (e: int)
    requires
        is_run(request, phases, replies),
        phases.last() == (Phase::Finished { outcome: Ok(result) }),
        moved_at(phases, replies, m),
        request.append_event,
    ensures
        m < e < replies.len(),
        phases[e] is FindingEvents,
        replies[e] is Table,
        replies[e] == TravelReply::Table(true) ==> phases[e + 1] is Drafting && replies[e + 1]
            is Draft,
        replies[e] == TravelReply::Table(true) && replies[e + 1]->Draft_0 is Some ==> {
            &&& phases[e + 2] matches Phase::Appending { draft, .. } && Some(draft)
                == replies[e + 1]->Draft_0
            &&& replies[e + 2] matches TravelReply::Appended(id) && result.event_id == Some(id)
        },
        replies[e] == TravelReply::Table(false) || replies[e + 1]->Draft_0 is None
            ==> result.event_id is None,
{
    lemma_no_step_fails(request, phases, replies, m);
    let mut e = m + 1;
    if request.touch_recall {
        lemma_no_step_fails(request, phases, replies, e);
        if replies[e] == TravelReply::Table(true) {
            lemma_no_step_fails(request, phases, replies, e + 1);
            e = e + 2;
        } else {
            e = e + 1;
        }
    }
    assert(phases[e] is FindingEvents);
    lemma_no_step_fails(request, phases, replies, e);
    let n = replies.len() - 1;
    assert(phases.last() == phases[n + 1]);
    if replies[e] == TravelReply::Table(true) {
        lemma_no_step_fails(request, phases, replies, e + 1);
        if replies[e + 1]->Draft_0 is Some {
            success_names_the_event(request, phases, replies, result, e + 2);
        } else {
            lemma_commits_with(request, phases, replies, result, e + 2);
        }
    } else {
        lemma_commits_with(request, phases, replies, result, e + 1);
    }
    e
}

/// A trip that is being committed and succeeds has the result that is committed.
proof fn lemma_commits_with(
    request: TravelRequest,
    phases: Seq<Phase>,
    replies: Seq<TravelReply>,
    result: TravelResult,
    c: int,
)
    requires
        is_run(request, phases, replies),
        phases.last() == (Phase::Finished { outcome: Ok(result) }),
        0 <= c < phases.len(),
        phases[c] is Committing,
    ensures
        phases[c] == (Phase::Committing { result }),
{
    lemma_no_step_fails(request, phases, replies, c);
    assert(phases[c + 1] is Finished);
    if c + 1 < replies.len() {
        assert(fits(asked(request, phases[c + 1]), replies[c + 1]));
    }
    assert(phases[c + 1] == phases.last());
}

/// A trip that does not want an entry in the event log neither looks for the log
/// nor asks for an entry, and names none.
pub proof fn no_event_unless_asked_for(
    request: TravelRequest,
    phases: Seq<Phase>,
    replies: Seq<TravelReply>,
    i: int,
)
    requires
        is_run(request, phases, replies),
        0 <= i < phases.len(),
        !request.append_event,
    ensures
        !(phases[i] is FindingEvents || phases[i] is Drafting || phases[i] is Appending),
        phases[i] matches Phase::Committing { result } ==> result.event_id is None,
    decreases i,
{
    if i > 0 {
        no_event_unless_asked_for(request, phases, replies, i - 1);
        assert(follows(request, phases[i - 1], replies[i - 1], phases[i - 1 + 1]));
    }
}

/// What a trip asks of the database is about its own player, and leads from where
/// the player is to where the player wants to go.
pub proof fn actions_are_about_the_request(request: TravelRequest, phase: Phase)
    ensures
        phase is Locating ==> asked(request, phase) == (TravelAction::ReadPresence {
            player_id: request.player_id,
        }),
        phase matches Phase::Routing { presence } ==> match asked(request, phase) {
            TravelAction::ReadRoute { route_id, from_place_id, to_place_id } => request.route_id
                == Some(route_id) && from_place_id == presence.place_id && to_place_id
                == request.dest_place_id,
            TravelAction::ListRoutes { from_place_id, to_place_id } => request.route_id is None
                && from_place_id == presence.place_id && to_place_id == request.dest_place_id,
            _ => false,
        },
        phase is Moving ==> asked(request, phase) == (TravelAction::MovePresence {
            player_id: request.player_id,
            place_id: request.dest_place_id,
        }),
        phase is Recalling ==> asked(request, phase) == (TravelAction::TouchRecall {
            player_id: request.player_id,
            place_id: request.dest_place_id,
        }),
        phase is Appending ==> asked(request, phase) == (TravelAction::AppendEvent {
            player_id: request.player_id,
        }),
        asked(request, phase) is Commit <==> phase is Committing,
        asked(request, phase) is Finish <==> phase is Finished,
{
}

/// Nothing but what goes wrong ends a trip early: it goes on where the player is
/// somewhere, where the route asked for is there or there is exactly one, where
/// the game allows the trip and it is paid for, and after everything that the
/// database did.
pub proof fn trips_go_on_unless_something_is_wrong(
    request: TravelRequest,
    phase: Phase,
    reply: TravelReply,
    next: Phase,
)
    requires
        fits(asked(request, phase), reply),
        follows(request, phase, reply, next),
        !(phase is Committing),
    ensures
        next is Finished <==> match reply {
            TravelReply::Failed(_) => true,
            TravelReply::Presence(found) => found is None,
            TravelReply::Routes(routes) => routes@.len() == 0 || (request.route_id is None
                && routes@.len() > 1),
            TravelReply::Verdict(verdict) => verdict is Err,
            _ => false,
        },
        next is Finished ==> next->outcome is Err,
{
}

/// A trip takes the route that was found, and carries it, with where the player
/// was, through to the move.
pub proof fn trips_take_the_route_found(
    request: TravelRequest,
    presence: PresenceRecord,
    routes: Vec<Route>,
    next: Phase,
)
    requires
        follows(request, Phase::Routing { presence }, TravelReply::Routes(routes), next),
        routes@.len() == 1,
    ensures
        next == (Phase::Validating { way: Way { presence, route: routes@[0] } }),
{
}

/// Why a trip was refused or not paid for is never lost: the game's own words
/// come back, unchanged or in a message that quotes them.
pub proof fn refusals_keep_the_reason(
    request: TravelRequest,
    way: Way,
    given: TravelError,
    next: Phase,
)
    ensures
        follows(
            request,
            Phase::Validating { way },
            TravelReply::Verdict(Err(given)),
            next,
        ) ==> match next {
            Phase::Finished { outcome: Err(error) } => (given is ValidationFailed && error == given)
                || (!(given is ValidationFailed) && (error matches TravelError::ValidationFailed {
                player_id,
                route_id,
                reason,
            } && player_id == request.player_id && route_id == way.route.id && reason@ == error_text(
                given,
            ))),
            _ => false,
        },
        follows(request, Phase::Charging { way }, TravelReply::Verdict(Err(given)), next)
            ==> match next {
            Phase::Finished { outcome: Err(error) } => ((given is CostFailed || given
                is InventoryError) && error == given) || (!(given is CostFailed || given
                is InventoryError) && (error matches TravelError::CostFailed {
                player_id,
                route_id,
                reason,
            } && player_id == request.player_id && route_id == way.route.id && reason@ == error_text(
                given,
            ))),
            _ => false,
        },
{
}

/// The result of a trip says where the player was, where the player is now and
/// since when, and by which route.
pub proof fn results_describe_the_trip(arrival: Arrival, event_id: Option<i64>)
    ensures
        trip_result(arrival, event_id).from_place_id == arrival.way.presence.place_id,
        trip_result(arrival, event_id).to_place_id == arrival.moved.place_id,
        trip_result(arrival, event_id).route_id == arrival.way.route.id,
        trip_result(arrival, event_id).entered_at == arrival.moved.entered_at,
        trip_result(arrival, event_id).event_id == event_id,
{
}

/// A route can be used exactly where it is the one asked for or the only one.
/// Otherwise the error says whether there was none or which there were.
pub proof fn routes_must_be_clear(
    request: TravelRequest,
    from: i64,
    routes: Seq<Route>,
    chosen: Result<Route, TravelError>,
)
    requires
        chosen_route(request, from, routes, chosen),
    ensures
        chosen is Ok <==> routes.len() == 1 || (request.route_id is Some && routes.len() > 0),
        chosen matches Ok(route) ==> routes.len() > 0 && route == routes[0],
        routes.len() == 0 ==> (chosen matches Err(TravelError::NoRoute {
            player_id,
            from_place_id,
            to_place_id,
            route_id,
            route_suffix,
        }) && player_id == request.player_id && from_place_id == from && to_place_id
            == request.dest_place_id && route_id == request.route_id && (request.route_id is None
            <==> route_suffix@.len() == 0)),
        routes.len() > 1 && request.route_id is None ==> (chosen matches Err(
            TravelError::AmbiguousRoute { player_id, from_place_id, to_place_id, matching_route_ids },
        ) && player_id == request.player_id && from_place_id == from && to_place_id
            == request.dest_place_id && matching_route_ids@.len() == routes.len() && forall|i: int|
            0 <= i < routes.len() ==> (#[trigger] matching_route_ids@[i]) == routes[i].id),
{
    reveal_strlit(" (requested route `");
}

/// Every action has its own kind of reply. The database may fail at any of its
/// actions, and at nothing else; what the game is asked, it answers either way.
pub proof fn every_action_takes_its_reply(action: TravelAction, reply: TravelReply)
    ensures
        reply is Failed ==> (fits(action, reply) <==> !(action is Validate || action is ChargeCost
            || action is DraftEvent || action is Finish)),
        reply is Done ==> (fits(action, reply) <==> action is Begin || action is TouchRecall
            || action is Commit),
        reply is Presence ==> (fits(action, reply) <==> action is ReadPresence),
        reply is Routes ==> (fits(action, reply) <==> action is ReadRoute || action is ListRoutes),
        reply is Verdict ==> (fits(action, reply) <==> action is Validate || action is ChargeCost),
        reply is Moved ==> (fits(action, reply) <==> action is MovePresence),
        reply is Table ==> (fits(action, reply) <==> action is FindRecallTable || action
            is FindEventTable),
        reply is Draft ==> (fits(action, reply) <==> action is DraftEvent),
        reply is Appended ==> (fits(action, reply) <==> action is AppendEvent),
{
}

/// What each phase asks for: the game is asked only for its verdicts and its entry,
/// and each table is looked for in its own phase.
pub proof fn every_phase_asks_for_its_action(request: TravelRequest, phase: Phase)
    ensures
        asked(request, phase) is Begin <==> phase is Starting,
        asked(request, phase) is Validate <==> phase is Validating,
        asked(request, phase) is ChargeCost <==> phase is Charging,
        asked(request, phase) is FindRecallTable <==> phase is FindingRecall,
        asked(request, phase) is FindEventTable <==> phase is FindingEvents,
        asked(request, phase) is DraftEvent <==> phase is Drafting,
{
}

/// A database that fails ends the trip with the name of what it was doing, and with
/// what it said.
pub proof fn database_failures_name_their_step(
    request: TravelRequest,
    phase: Phase,
    said: String,
    next: Phase,
)
    requires
        fits(asked(request, phase), TravelReply::Failed(said)),
        follows(request, phase, TravelReply::Failed(said), next),
    ensures
        match next {
            Phase::Finished { outcome: Err(TravelError::Database { step, source }) } => {
                &&& source == said
                &&& phase is Starting ==> step@ == "begin transaction"@
                &&& phase is Locating ==> step@ == "read current presence"@
                &&& phase is Routing && request.route_id is Some ==> step@
                    == "resolve explicit route"@
                &&& phase is Routing && request.route_id is None ==> step@
                    == "resolve unique route"@
                &&& phase is Moving ==> step@ == "move presence"@
                &&& phase is FindingRecall || phase is FindingEvents ==> step@
                    == "check optional table"@
                &&& phase is Recalling ==> step@ == "touch place recall"@
                &&& phase is Appending ==> step@ == "append travel event"@
                &&& phase is Committing ==> step@ == "commit travel"@
            },
            _ => false,
        },
{
}

/// A message names the player and the places or the route that it is about, and quotes
/// the reason.
pub proof fn travel_errors_say_what_failed(
    player: i64,
    from: i64,
    to: i64,
    route: i64,
    reason: String,
    step: &'static str,
    ids: Vec<i64>,
)
    ensures
        error_text(TravelError::NoPresence { player_id: player }) == "player `"@ + decimal(
            player as int,
        ) + "` has no presence row"@,
        error_text(
            TravelError::NoRoute {
                player_id: player,
                from_place_id: from,
                to_place_id: to,
                route_id: Some(route),
                route_suffix: reason,
            },
        ) == "no route for player `"@ + decimal(player as int) + "` from place `"@ + decimal(
            from as int,
        ) + "` to `"@ + decimal(to as int) + "`"@ + reason@,
        error_text(
            TravelError::AmbiguousRoute {
                player_id: player,
                from_place_id: from,
                to_place_id: to,
                matching_route_ids: ids,
            },
        ) == "ambiguous route for player `"@ + decimal(player as int) + "` from place `"@ + decimal(
            from as int,
        ) + "` to `"@ + decimal(to as int) + "`; matching route ids: ["@ + comma_list(ids@) + "]"@,
        error_text(
            TravelError::ValidationFailed { player_id: player, route_id: route, reason },
        ) == "travel validation rejected player `"@ + decimal(player as int) + "` on route `"@
            + decimal(route as int) + "`: "@ + reason@,
        error_text(TravelError::CostFailed { player_id: player, route_id: route, reason })
            == "travel cost charge failed for player `"@ + decimal(player as int)
            + "` on route `"@ + decimal(route as int) + "`: "@ + reason@,
        error_text(TravelError::Database { step, source: reason })
            == "travel database operation failed during "@ + step@ + ": "@ + reason@,
        route_suffix_text(Some(route)) == " (requested route `"@ + decimal(route as int) + "`)"@,
        route_suffix_text(None).len() == 0,
{
}

/// Numbers in a list keep their order, with a comma and a space between each two.
pub proof fn lists_keep_their_order(ids: Seq<i64>, id: i64)
    ensures
        comma_list(seq![]).len() == 0,
        comma_list(seq![id]) == decimal(id as int),
        ids.len() > 0 ==> comma_list(ids.push(id)) == comma_list(ids) + ", "@ + decimal(id as int),
{
    assert(ids.push(id).drop_last() =~= ids);
}

} // verus!
