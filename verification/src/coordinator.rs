//! The match coordinator: creates matches, spawns their mechs as the mech
//! hosts start them, and asks every actor for its turn.

use vstd::prelude::*;
use crate::commands::{MechCommand, MechCommandView};
use crate::engine::{command_defined, handled};
use crate::events::{clone_strings, strings_view, GameEvent};
use crate::geometry::{as_i32, GameBoard, Point};
use crate::laws::apply_all;
use crate::protocol::{match_events_subject, schedule_actor_subject, turns_subject, CreateMatch, MatchEvent, ScheduleActor, StartMatchAck, TakeTurn, SUBJECT_CREATE_MATCH, SUBJECT_MATCH_EVENTS_PREFIX};
use crate::state::{empty_match, well_formed, MatchParameters, MatchParametersView, MatchState};
use crate::text::has_prefix;
use crate::turns::{apply_command, command_ready, room_for_command};

verus! {

/// What a message delivered to the coordinator asks for.
#[derive(Debug, Clone, Copy, PartialEq, Eq, Structural)]
pub enum CoordinatorRoute {
    CreateMatch,
    MatchEvent,
    Ignore,
}

/// Routes a message by its subject: a request to create a match, an event
/// of a match, or nothing for the coordinator.
pub fn route(subject: &str) -> (r: CoordinatorRoute)
    ensures
        r == (if subject@ == SUBJECT_CREATE_MATCH@ {
            CoordinatorRoute::CreateMatch
        } else if has_prefix(subject@, SUBJECT_MATCH_EVENTS_PREFIX@) {
            CoordinatorRoute::MatchEvent
        } else {
            CoordinatorRoute::Ignore
        }),
{
    if crate::text::same_text(subject, SUBJECT_CREATE_MATCH) {
        CoordinatorRoute::CreateMatch
    } else if crate::text::starts_with(subject, SUBJECT_MATCH_EVENTS_PREFIX) {
        CoordinatorRoute::MatchEvent
    } else {
        CoordinatorRoute::Ignore
    }
}

/// Everything creating a match yields: its initial state, the
/// acknowledgement, the event announcing it (and its subject), and a
/// request to start each of its mechs (and their subject).
pub struct MatchCreation {
    pub state: MatchState,
    pub ack: StartMatchAck,
    pub created_subject: String,
    pub created: MatchEvent,
    pub schedules: Vec<(String, ScheduleActor)>,
}

/// The parameters of a match created by `cm`.
pub open spec fn created_parameters(cm: CreateMatch) -> MatchParametersView {
    MatchParametersView {
        match_id: cm.match_id@,
        width: cm.board_width,
        height: cm.board_height,
        actors: strings_view(cm.actors@),
        max_turns: cm.max_turns,
        aps_per_turn: cm.aps_per_turn,
    }
}

/// Creates a match: its state with no mech spawned yet, the acknowledgement
/// to the requester, the event announcing the match on the match's event
/// subject, and for each of its actors a request to a mech host to start
/// it.
pub fn create_match(cm: &CreateMatch) -> (r: MatchCreation)
    ensures
        r.state@ == empty_match(created_parameters(*cm), GameBoard { width: cm.board_width, height: cm.board_height }),
        r.ack.match_id@ == cm.match_id@,
        r.created_subject@ == "wasmdome.match_events."@ + cm.match_id@,
        r.created matches MatchEvent::MatchCreated { match_id, board_height, board_width, actors }
            && match_id@ == cm.match_id@ && board_height == cm.board_height && board_width == cm.board_width
            && strings_view(actors@) == strings_view(cm.actors@),
        r.schedules@.len() == cm.actors@.len(),
        forall|i: int| 0 <= i < cm.actors@.len() ==> {
            &&& (#[trigger] r.schedules@[i]).0@ == "wasmdome.matches."@ + cm.match_id@ + ".scheduleactor"@
            &&& r.schedules@[i].1.actor@ == cm.actors@[i]@
            &&& r.schedules@[i].1.match_id@ == cm.match_id@
        },
{
    let params = MatchParameters::new(
        cm.match_id.clone(),
        cm.board_width,
        cm.board_height,
        cm.max_turns,
        cm.aps_per_turn,
        clone_strings(&cm.actors),
    );
    let state = MatchState::new_with_parameters(params);
    let ack = StartMatchAck { match_id: cm.match_id.clone() };
    let created = MatchEvent::MatchCreated {
        match_id: cm.match_id.clone(),
        board_height: cm.board_height,
        board_width: cm.board_width,
        actors: clone_strings(&cm.actors),
    };
    let mut schedules: Vec<(String, ScheduleActor)> = Vec::new();
    let mut i: usize = 0;
    while i < cm.actors.len()
        invariant
            i <= cm.actors.len(),
            schedules@.len() == i,
            forall|k: int| 0 <= k < i ==> {
                &&& (#[trigger] schedules@[k]).0@ == "wasmdome.matches."@ + cm.match_id@ + ".scheduleactor"@
                &&& schedules@[k].1.actor@ == cm.actors@[k]@
                &&& schedules@[k].1.match_id@ == cm.match_id@
            },
        decreases cm.actors.len() - i,
    {
        let sched = ScheduleActor { actor: cm.actors[i].clone(), match_id: cm.match_id.clone() };
        schedules.push((schedule_actor_subject(cm.match_id.as_str()), sched));
        i = i + 1;
    }
    MatchCreation {
        state,
        ack,
        created_subject: match_events_subject(cm.match_id.as_str()),
        created,
        schedules,
    }
}

/// The key under which the state of match `match_id` is stored.
pub fn state_key(match_id: &str) -> (k: String)
    ensures
        k@ == "match:"@ + match_id@,
{
    String::from_str("match:").concat(match_id)
}

/// Whether the match (if it is stored) has as many spawned mechs as it has
/// actors, which is when it can start.
pub fn is_match_ready(state: &Option<MatchState>) -> (b: bool)
    ensures
        b == (match state {
            Some(s) => s.parameters.actors@.len() == s.mechs@.len(),
            None => false,
        }),
{
    match state {
        Some(s) => s.parameters.actors.len() == s.mechs.len(),
        None => false,
    }
}

/// The spawn point for two random numbers drawn below the board's width
/// and height.
pub fn spawn_point(x_roll: u32, y_roll: u32) -> (p: Point)
    ensures
        p.x == as_i32(x_roll),
        p.y == as_i32(y_roll),
{
    Point::new(crate::npc::tactics::i32_of(x_roll), crate::npc::tactics::i32_of(y_roll))
}

/// The command that spawns `actor` at the point two rolls name.
pub open spec fn spawn_command(actor: Seq<char>, avatar: Seq<char>, name: Seq<char>, team: Seq<char>, x_roll: u32, y_roll: u32) -> MechCommandView {
    MechCommandView::SpawnMech {
        mech: actor,
        avatar,
        name,
        team,
        position: Point { x: as_i32(x_roll) as i32, y: as_i32(y_roll) as i32 },
    }
}

/// Spawns `actor` into the match at (or, if that spot is taken, as near as
/// the search for a free spot finds to) the point two random numbers name.
/// `None` when the engine cannot handle the spawn: a state that is not
/// well formed, a generation counter near its end, or a search that never
/// reaches a free spot.
pub fn spawn_actor(
    state: &MatchState,
    actor: &str,
    avatar: String,
    name: String,
    team: String,
    x_roll: u32,
    y_roll: u32,
) -> (r: Option<MatchState>)
    ensures
        r is Some <==> (well_formed(state@) && room_for_command(state@)
            && command_defined(state@, spawn_command(actor@, avatar@, name@, team@, x_roll, y_roll))),
        r matches Some(t) ==> t@ == apply_all(
            state@,
            handled(state@, spawn_command(actor@, avatar@, name@, team@, x_roll, y_roll))->Ok_0,
        ),
{
    let spawnpoint = spawn_point(x_roll, y_roll);
    let cmd = MechCommand::SpawnMech { mech: String::from_str(actor), avatar, name, team, position: spawnpoint };
    assert(cmd@ == spawn_command(actor@, avatar@, name@, team@, x_roll, y_roll));
    if !command_ready(state, &cmd) {
        return None;
    }
    match apply_command(state, &cmd) {
        Ok((next, _events)) => Some(next),
        Err(_) => None,
    }
}

/// The turn requests of `turn`: one to each of `actors`, on its own turn
/// subject, carrying the state of the match.
pub fn take_turn_requests(match_id: &str, actors: &Vec<String>, turn: u32, state: &MatchState) -> (r: Vec<(String, TakeTurn)>)
    ensures
        r@.len() == actors@.len(),
        forall|i: int| 0 <= i < actors@.len() ==> {
            &&& (#[trigger] r@[i]).0@ == "wasmdome.matches."@ + match_id@ + ".turns."@ + actors@[i]@
            &&& r@[i].1.actor@ == actors@[i]@
            &&& r@[i].1.match_id@ == match_id@
            &&& r@[i].1.turn == turn
            &&& r@[i].1.state@ == state@
        },
{
    let mut out: Vec<(String, TakeTurn)> = Vec::new();
    let mut i: usize = 0;
    while i < actors.len()
        invariant
            i <= actors.len(),
            out@.len() == i,
            forall|k: int| 0 <= k < i ==> {
                &&& (#[trigger] out@[k]).0@ == "wasmdome.matches."@ + match_id@ + ".turns."@ + actors@[k]@
                &&& out@[k].1.actor@ == actors@[k]@
                &&& out@[k].1.match_id@ == match_id@
                &&& out@[k].1.turn == turn
                &&& out@[k].1.state@ == state@
            },
        decreases actors.len() - i,
    {
        let actor = &actors[i];
        let t = TakeTurn {
            actor: actor.clone(),
            match_id: String::from_str(match_id),
            turn,
            state: state.clone(),
        };
        out.push((turns_subject(match_id, actor.as_str()), t));
        i = i + 1;
    }
    out
}

/// What starting a match publishes: the event announcing the start (on
/// the match's event subject) and the requests for turn 0.
pub fn start_match(match_id: &str, state: &MatchState) -> (r: (String, MatchEvent, Vec<(String, TakeTurn)>))
    ensures
        r.0@ == "wasmdome.match_events."@ + match_id@,
        r.1 matches MatchEvent::MatchStarted { match_id: m } && m@ == match_id@,
        r.2@.len() == state.parameters.actors@.len(),
        forall|i: int| 0 <= i < state.parameters.actors@.len() ==> {
            &&& (#[trigger] r.2@[i]).0@ == "wasmdome.matches."@ + match_id@ + ".turns."@ + state.parameters.actors@[i]@
            &&& r.2@[i].1.actor@ == state.parameters.actors@[i]@
            &&& r.2@[i].1.match_id@ == match_id@
            &&& r.2@[i].1.turn == 0
            &&& r.2@[i].1.state@ == state@
        },
{
    let started = MatchEvent::MatchStarted { match_id: String::from_str(match_id) };
    (match_events_subject(match_id), started, take_turn_requests(match_id, &state.parameters.actors, 0, state))
}

/// The turn requests that follow a match event: when a match turn has
/// completed and the match is not over, every actor is asked for the new
/// turn; otherwise nothing.
pub fn next_turn_requests(match_id: &str, event: &GameEvent, state: &MatchState) -> (r: Vec<(String, TakeTurn)>)
    ensures
        match event {
            GameEvent::MatchTurnCompleted { new_turn } => if state.completed is None {
                &&& r@.len() == state.parameters.actors@.len()
                &&& forall|i: int| 0 <= i < state.parameters.actors@.len() ==> {
                    &&& (#[trigger] r@[i]).0@ == "wasmdome.matches."@ + match_id@ + ".turns."@ + state.parameters.actors@[i]@
                    &&& r@[i].1.actor@ == state.parameters.actors@[i]@
                    &&& r@[i].1.match_id@ == match_id@
                    &&& r@[i].1.turn == *new_turn
                    &&& r@[i].1.state@ == state@
                }
            } else {
                r@.len() == 0
            },
            _ => r@.len() == 0,
        },
{
    match event {
        GameEvent::MatchTurnCompleted { new_turn } => {
            if state.completed.is_none() {
                take_turn_requests(match_id, &state.parameters.actors, *new_turn, state)
            } else {
                Vec::new()
            }
        },
        _ => Vec::new(),
    }
}

} // verus!
