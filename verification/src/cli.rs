//! The offline test environment: what its commands ask of the lattice and
//! what they make of the answers.

use vstd::prelude::*;
use crate::events::{clone_strings, strings_view, EndCause};
use crate::protocol::{ArenaControlCommand, ArenaEvent, CreateMatch};
use crate::state::APS_PER_TURN;

verus! {

/// The subject on which the schedule is requested.
pub const SUBJECT_SCHEDULE: &'static str = "wasmdome.public.arena.schedule";
/// The subject on which the arena's events are published.
pub const SUBJECT_ARENA_EVENTS: &'static str = "wasmdome.public.arena.events";
/// The subject on which the arena is controlled.
pub const SUBJECT_ARENA_CONTROL: &'static str = "wasmdome.internal.arena.control";
/// What is said when no mech answers.
pub const NO_MECHS_MESSAGE: &'static str = "No mechs were found in the lattice. Ensure you have scheduled at least one mech.";
/// What is said when the engine provider does not answer.
pub const NO_ENGINE_MESSAGE: &'static str = "No response from engine-provider, please ensure you have an engine-provider running.";
/// What is said when the match result does not arrive in time.
pub const TIMEOUT_MESSAGE: &'static str = "Timeout occurred retrieving game results.";
/// What is said when the lattice cannot be reached.
pub const NO_LATTICE_MESSAGE: &'static str = "Couldn't connect to the lattice. Is NATS running?";
/// What is said when the schedule is empty.
pub const NO_SCHEDULE_MESSAGE: &'static str = "No schedule results available.";

/// The command that starts a local match between the mechs found, or the
/// message that says none were.
pub fn start_match_command(
    match_id: String,
    mech_ids: &Vec<String>,
    max_turns: u32,
    board_height: u32,
    board_width: u32,
) -> (r: Result<ArenaControlCommand, &'static str>)
    ensures
        mech_ids@.len() == 0 ==> r == Err::<ArenaControlCommand, &'static str>(NO_MECHS_MESSAGE),
        mech_ids@.len() > 0 ==> (r matches Ok(ArenaControlCommand::StartMatch(cm)) && {
            &&& cm.match_id@ == match_id@
            &&& strings_view(cm.actors@) == strings_view(mech_ids@)
            &&& cm.board_height == board_height
            &&& cm.board_width == board_width
            &&& cm.max_turns == max_turns
            &&& cm.aps_per_turn == APS_PER_TURN
        }),
{
    if mech_ids.len() < 1 {
        return Err(NO_MECHS_MESSAGE);
    }
    Ok(ArenaControlCommand::StartMatch(CreateMatch {
        match_id,
        actors: clone_strings(mech_ids),
        board_height,
        board_width,
        max_turns,
        aps_per_turn: APS_PER_TURN,
    }))
}

/// The match and the cause of its end, when the event says a match
/// completed.
pub fn completed_match(event: &ArenaEvent) -> (r: Option<(String, EndCause)>)
    ensures
        match event {
            ArenaEvent::MatchCompleted { match_id, cause, .. } => r matches Some((m, c)) && m@ == match_id@ && c@ == cause@,
            _ => r is None,
        },
{
    match event {
        ArenaEvent::MatchCompleted { match_id, cause, .. } => Some((match_id.clone(), cause.clone())),
        _ => None,
    }
}

} // verus!
