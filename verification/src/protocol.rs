//! The messages exchanged between the arena services.

use vstd::prelude::*;
use crate::commands::MechCommand;
use crate::events::{EndCause, GameEvent};
use crate::state::MatchState;

verus! {

/// The operation that asks a mech to take its turn.
pub const OP_TAKE_TURN: &'static str = "wdTakeTurn";

/// The subject on which the events of a match (or, with no match, of the
/// arena) are published.
pub fn events_subject(match_id: Option<&str>) -> (r: String)
    ensures
        r@ == match match_id {
            Some(id) => "wasmdome.match."@ + id@ + ".events"@,
            None => "wasmdome.arena.events"@,
        },
{
    proof {
        reveal_strlit("wasmdome.match.");
        reveal_strlit(".events");
        reveal_strlit("wasmdome.arena.events");
    }
    match match_id {
        Some(id) => String::from_str("wasmdome.match.").concat(id).concat(".events"),
        None => String::from_str("wasmdome.arena.events"),
    }
}

/// The subject on which the arena is controlled.
pub fn arena_control_subject() -> (r: String)
    ensures
        r@ == "wasmdome.arena.control"@,
{
    String::from_str("wasmdome.arena.control")
}

/// Asks a mech to take its turn: the mech, the match, the turn and the
/// state of the match.
#[derive(Debug)]
pub struct TakeTurn {
    pub actor: String,
    pub match_id: String,
    pub turn: u32,
    pub state: MatchState,
}

/// A mech's answer to `TakeTurn`: the commands of its turn.
#[derive(Debug)]
pub struct TakeTurnResponse {
    pub commands: Vec<MechCommand>,
}

/// Asks for a new match.
#[derive(Debug)]
pub struct CreateMatch {
    pub match_id: String,
    pub actors: Vec<String>,
    pub board_height: u32,
    pub board_width: u32,
    pub max_turns: u32,
    pub aps_per_turn: u32,
}

/// Commands that control the arena.
#[derive(Debug)]
pub enum ArenaControlCommand {
    StartMatch(CreateMatch),
}

/// A point in time in UTC: whole seconds since the Unix epoch and the
/// nanoseconds past them.
#[derive(Debug, Clone, Copy, PartialEq, Eq, Structural)]
pub struct Timestamp {
    pub seconds: i64,
    pub nanos: u32,
}

/// The events of the arena as a whole.
#[derive(Debug)]
pub enum ArenaEvent {
    MechConnected { actor: String, time: Timestamp },
    MechDisconnected { actor: String, time: Timestamp },
    MatchStarted { match_id: String, actors: Vec<String>, board_height: u32, board_width: u32, start_time: Timestamp },
    MatchCompleted { match_id: String, cause: EndCause, time: Timestamp },
}

/// The events of a match.
#[derive(Debug)]
pub enum MatchEvent {
    /// Emitted by the core engine so that downstream listeners (e.g.
    /// historian, leaderboard) can process it.
    TurnEvent { actor: String, match_id: String, turn: u32, turn_event: GameEvent },
    /// A mech host started (or found running) a mech for the match.
    ActorStarted { match_id: String, actor: String, avatar: String, name: String, team: String },
    /// The match was created.
    MatchCreated { match_id: String, board_height: u32, board_width: u32, actors: Vec<String> },
    /// Every actor of the match has spawned and the turns begin.
    MatchStarted { match_id: String },
    /// A mech answered a turn request with its commands.
    TurnRequested { actor: String, match_id: String, turn: u32, commands: Vec<MechCommand> },
}

/// Asks a mech host to start a mech for a match.
#[derive(Debug)]
pub struct ScheduleActor {
    pub actor: String,
    pub match_id: String,
}

/// Acknowledges a request to create a match.
#[derive(Debug)]
pub struct StartMatchAck {
    pub match_id: String,
}

/// The subject on which matches are created.
pub const SUBJECT_CREATE_MATCH: &'static str = "wasmdome.matches.create";

/// The prefix of the subjects on which the events of each match travel.
pub const SUBJECT_MATCH_EVENTS_PREFIX: &'static str = "wasmdome.match_events";

/// The subject on which the events of match `match_id` travel.
pub fn match_events_subject(match_id: &str) -> (r: String)
    ensures
        r@ == "wasmdome.match_events."@ + match_id@,
{
    String::from_str("wasmdome.match_events.").concat(match_id)
}

/// The subject on which mech hosts are asked to start a mech for match
/// `match_id`.
pub fn schedule_actor_subject(match_id: &str) -> (r: String)
    ensures
        r@ == "wasmdome.matches."@ + match_id@ + ".scheduleactor"@,
{
    String::from_str("wasmdome.matches.").concat(match_id).concat(".scheduleactor")
}

/// The subject on which mech `actor` is asked to take its turns in match
/// `match_id`.
pub fn turns_subject(match_id: &str, actor: &str) -> (r: String)
    ensures
        r@ == "wasmdome.matches."@ + match_id@ + ".turns."@ + actor@,
{
    String::from_str("wasmdome.matches.").concat(match_id).concat(".turns.").concat(actor)
}

} // verus!
