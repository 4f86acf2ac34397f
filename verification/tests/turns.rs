use wasmdome::commands::MechCommand;
use wasmdome::coordinator::{self, CoordinatorRoute};
use wasmdome::engine::{CommandError, Match};
use wasmdome::events::GameEvent;
use wasmdome::geometry::{GridDirection, Point};
use wasmdome::protocol::{CreateMatch, MatchEvent};
use wasmdome::state::{MatchParameters, MatchState, INITIAL_HEALTH, WALL_DAMAGE};
use wasmdome::registers::{RegisterValue, EAX, EBX};
use wasmdome::turns;

fn fresh(actors: &[&str], max_turns: u32) -> MatchState {
    MatchState::new_with_parameters(MatchParameters::new(
        "m".to_string(),
        24,
        24,
        max_turns,
        4,
        actors.iter().map(|a| a.to_string()).collect(),
    ))
}

fn spawn(state: MatchState, mech: &str, x: i32, y: i32) -> MatchState {
    let cmd = MechCommand::SpawnMech {
        mech: mech.to_string(),
        position: Point::new(x, y),
        team: "earth".to_string(),
        avatar: "none".to_string(),
        name: mech.to_string(),
    };
    assert!(turns::command_ready(&state, &cmd));
    turns::apply_command(&state, &cmd).unwrap().0
}

#[test]
fn a_command_yields_its_events_and_the_state_they_lead_to() {
    let state = spawn(fresh(&["al"], 5), "al", 0, 0);
    let cmd = MechCommand::Move { turn: 0, mech: "al".to_string(), direction: GridDirection::South };
    assert!(turns::command_ready(&state, &cmd));
    let (next, events) = turns::apply_command(&state, &cmd).unwrap();
    assert_eq!(events.len(), 2);
    assert!(matches!(events[0], GameEvent::DamageTaken { damage: WALL_DAMAGE, .. }));
    assert!(matches!(events[1], GameEvent::ActionPointsConsumed { points_consumed: 1, .. }));
    assert_eq!(next.mechs[0].health, INITIAL_HEALTH - WALL_DAMAGE);
    assert_eq!(next.mechs[0].remaining_aps, 3);
}

#[test]
fn a_refused_command_is_reported() {
    let state = spawn(fresh(&["al"], 5), "al", 3, 3);
    let cmd = MechCommand::FinishTurn { mech: "nobody".to_string(), turn: 0 };
    assert!(turns::command_ready(&state, &cmd));
    assert_eq!(turns::apply_command(&state, &cmd).err(), Some(CommandError::MechNotInMatch));
}

#[test]
fn a_turn_runs_its_commands_in_order() {
    let state = spawn(spawn(fresh(&["al", "bob"], 5), "al", 5, 5), "bob", 10, 10);
    let cmds = vec![
        MechCommand::Move { turn: 0, mech: "al".to_string(), direction: GridDirection::North },
        MechCommand::Move { turn: 0, mech: "al".to_string(), direction: GridDirection::North },
        MechCommand::FinishTurn { mech: "al".to_string(), turn: 0 },
    ];
    let (next, events) = turns::take_turn(state, &cmds).unwrap();
    assert_eq!(next.mechs[0].position, Point::new(5, 7));
    assert_eq!(next.turn_status.taken, vec!["al".to_string()]);
    assert_eq!(events.len(), 5);
}

#[test]
fn a_turn_stops_at_the_first_refusal() {
    let state = spawn(spawn(fresh(&["al", "bob"], 5), "al", 5, 5), "bob", 9, 9);
    let cmds = vec![
        MechCommand::FinishTurn { mech: "al".to_string(), turn: 0 },
        MechCommand::FinishTurn { mech: "al".to_string(), turn: 0 },
    ];
    assert_eq!(turns::take_turn(state, &cmds).err(), Some(CommandError::TurnAlreadyFinished));
}

#[test]
fn states_are_checked_for_shape() {
    let state = spawn(spawn(fresh(&["al", "bob"], 5), "al", 5, 5), "bob", 10, 10);
    assert!(turns::is_well_formed(&state));
    let mut twice = state;
    twice.turn_status.taken = vec!["al".to_string(), "al".to_string()];
    assert!(!turns::is_well_formed(&twice));
    let cmd = MechCommand::Move { turn: 0, mech: "al".to_string(), direction: GridDirection::North };
    assert!(!turns::command_ready(&twice, &cmd));
    let mut doubled = spawn(fresh(&["al"], 5), "al", 5, 5);
    doubled.mechs[0].registers = vec![(EAX, RegisterValue::Number(1)), (EAX, RegisterValue::Number(2))];
    assert!(!turns::is_well_formed(&doubled));
    doubled.mechs[0].registers = vec![(EAX, RegisterValue::Number(1)), (EBX, RegisterValue::Text("x".to_string()))];
    assert!(turns::is_well_formed(&doubled));
}

#[test]
fn a_spawn_search_that_runs_off_the_board_is_not_ready() {
    let mut state = MatchState::new_with_parameters(MatchParameters::new("m".to_string(), 0, 0, 5, 4, vec!["al".to_string()]));
    state = spawn(state, "al", 0, 0);
    assert!(!turns::spawn_settles(&state, Point::new(0, 0)));
    let cmd = MechCommand::SpawnMech {
        mech: "bob".to_string(),
        position: Point::new(0, 0),
        team: "earth".to_string(),
        avatar: "none".to_string(),
        name: "bob".to_string(),
    };
    assert!(!turns::command_ready(&state, &cmd));
}

#[test]
fn spawning_finds_the_nearest_free_spot() {
    let state = spawn(spawn(fresh(&["al", "bob", "cy"], 5), "al", 10, 6), "bob", 10, 7);
    assert!(turns::spawn_settles(&state, Point::new(10, 6)));
    let next = spawn(state, "cy", 10, 6);
    assert_eq!(next.mechs[2].position, Point::new(10, 8));
}

#[test]
fn events_apply_in_order() {
    let state = spawn(fresh(&["al"], 5), "al", 5, 5);
    let events = vec![
        GameEvent::PositionUpdated { mech: "al".to_string(), position: Point::new(6, 6) },
        GameEvent::PositionUpdated { mech: "al".to_string(), position: Point::new(7, 7) },
    ];
    let next = turns::apply_events(state, &events);
    assert_eq!(next.mechs[0].position, Point::new(7, 7));
}

fn create() -> CreateMatch {
    CreateMatch {
        match_id: "m1".to_string(),
        actors: vec!["al".to_string(), "bob".to_string()],
        board_height: 20,
        board_width: 30,
        max_turns: 9,
        aps_per_turn: 4,
    }
}

#[test]
fn creating_a_match_schedules_its_actors() {
    let c = coordinator::create_match(&create());
    assert!(c.state.mechs.is_empty());
    assert_eq!(c.state.parameters.actors, vec!["al".to_string(), "bob".to_string()]);
    assert_eq!((c.state.game_board.width, c.state.game_board.height), (30, 20));
    assert_eq!(c.ack.match_id, "m1");
    assert_eq!(c.created_subject, "wasmdome.match_events.m1");
    assert!(matches!(c.created, MatchEvent::MatchCreated { board_height: 20, board_width: 30, .. }));
    assert_eq!(c.schedules.len(), 2);
    assert_eq!(c.schedules[0].0, "wasmdome.matches.m1.scheduleactor");
    assert_eq!(c.schedules[1].1.actor, "bob");
    assert_eq!(c.schedules[1].1.match_id, "m1");
}

#[test]
fn a_match_is_ready_when_every_actor_has_spawned() {
    let c = coordinator::create_match(&create());
    assert!(!coordinator::is_match_ready(&None));
    assert!(!coordinator::is_match_ready(&Some(c.state.clone())));
    let one = coordinator::spawn_actor(&c.state, "al", "av".to_string(), "Al".to_string(), "earth".to_string(), 3, 4).unwrap();
    assert_eq!(one.mechs[0].position, Point::new(3, 4));
    assert_eq!(one.mechs[0].avatar, "av");
    assert!(!coordinator::is_match_ready(&Some(one.clone())));
    let two = coordinator::spawn_actor(&one, "bob", "bv".to_string(), "Bob".to_string(), "earth".to_string(), 3, 4).unwrap();
    assert_eq!(two.mechs[1].position, Point::new(3, 5));
    assert!(coordinator::is_match_ready(&Some(two)));
}

#[test]
fn turns_are_requested_of_every_actor() {
    let c = coordinator::create_match(&create());
    let (subject, started, requests) = coordinator::start_match("m1", &c.state);
    assert_eq!(subject, "wasmdome.match_events.m1");
    assert!(matches!(started, MatchEvent::MatchStarted { .. }));
    assert_eq!(requests.len(), 2);
    assert_eq!(requests[1].0, "wasmdome.matches.m1.turns.bob");
    assert_eq!(requests[1].1.turn, 0);
    let next = coordinator::next_turn_requests("m1", &GameEvent::MatchTurnCompleted { new_turn: 4 }, &c.state);
    assert_eq!(next.len(), 2);
    assert_eq!(next[0].1.turn, 4);
    assert_eq!(next[0].1.actor, "al");
    let other = coordinator::next_turn_requests("m1", &GameEvent::MechTurnCompleted { mech: "al".to_string(), turn: 4 }, &c.state);
    assert!(other.is_empty());
    let mut done = c.state.clone();
    done.completed = Some(wasmdome::events::EndCause::MechVictory("al".to_string()));
    assert!(coordinator::next_turn_requests("m1", &GameEvent::MatchTurnCompleted { new_turn: 4 }, &done).is_empty());
}

#[test]
fn coordinator_routes() {
    assert_eq!(coordinator::route("wasmdome.matches.create"), CoordinatorRoute::CreateMatch);
    assert_eq!(coordinator::route("wasmdome.match_events.m1"), CoordinatorRoute::MatchEvent);
    assert_eq!(coordinator::route("wasmdome.other"), CoordinatorRoute::Ignore);
}

#[test]
fn engine_spawn_matches_coordinator_spawn() {
    let c = coordinator::create_match(&create());
    let cmd = MechCommand::SpawnMech {
        mech: "al".to_string(),
        position: Point::new(3, 4),
        team: "earth".to_string(),
        avatar: "av".to_string(),
        name: "Al".to_string(),
    };
    let mut state = c.state.clone();
    for e in Match::handle_command(&state, &cmd).unwrap() {
        state = Match::apply_event(&state, &e).unwrap();
    }
    let spawned = coordinator::spawn_actor(&c.state, "al", "av".to_string(), "Al".to_string(), "earth".to_string(), 3, 4).unwrap();
    assert_eq!(format!("{:?}", state), format!("{:?}", spawned));
}

#[test]
fn replaying_a_turns_events_gives_its_state() {
    let start = spawn(spawn(fresh(&["al", "bob"], 5), "al", 5, 5), "bob", 6, 6);
    let cmds = vec![
        MechCommand::FirePrimary { turn: 0, mech: "al".to_string(), direction: GridDirection::NorthEast },
        MechCommand::Move { turn: 0, mech: "al".to_string(), direction: GridDirection::West },
        MechCommand::RequestRadarScan { turn: 0, mech: "al".to_string() },
        MechCommand::FinishTurn { mech: "al".to_string(), turn: 0 },
    ];
    let copy = turns::apply_events(start, &vec![]);
    let (end, events) = turns::take_turn(copy, &cmds).unwrap();
    let start = spawn(spawn(fresh(&["al", "bob"], 5), "al", 5, 5), "bob", 6, 6);
    let replayed = turns::apply_events(start, &events);
    assert_eq!(format!("{:?}", replayed), format!("{:?}", end));
    assert_eq!(end.mechs[1].health, INITIAL_HEALTH - wasmdome::state::PRIMARY_DAMAGE);
}

#[test]
fn events_are_checked_before_they_apply() {
    let state = spawn(fresh(&["al"], 5), "al", 5, 5);
    let spend = |points| GameEvent::ActionPointsConsumed { mech: "al".to_string(), points_consumed: points };
    assert!(turns::event_ready(&state, &spend(4)));
    assert!(!turns::event_ready(&state, &spend(5)));
    let stranger = GameEvent::ActionPointsConsumed { mech: "zed".to_string(), points_consumed: 1 };
    assert!(!turns::event_ready(&state, &stranger));
    assert!(turns::event_ready(&state, &GameEvent::MatchTurnCompleted { new_turn: 1 }));
}

#[test]
fn a_spawned_mech_gets_the_match_power() {
    let state = MatchState::new_with_parameters(MatchParameters::new(
        "m".to_string(),
        24,
        24,
        5,
        6,
        vec!["al".to_string()],
    ));
    let state = spawn(state, "al", 3, 3);
    assert_eq!(state.mechs[0].remaining_aps, 6);
}

#[test]
fn the_last_turn_ends_only_when_every_actor_has_finished_it() {
    let state = spawn(spawn(spawn(fresh(&["al", "bob", "cy"], 1), "al", 1, 1), "bob", 5, 5), "cy", 9, 9);
    let first = MechCommand::FinishTurn { mech: "al".to_string(), turn: 0 };
    let (state, events) = turns::apply_command(&state, &first).unwrap();
    assert_eq!(events.len(), 1);
    assert!(state.completed.is_none());
    let second = MechCommand::FinishTurn { mech: "bob".to_string(), turn: 0 };
    let (state, events) = turns::apply_command(&state, &second).unwrap();
    assert_eq!(events.len(), 1);
    assert!(state.completed.is_none());
    let last = MechCommand::FinishTurn { mech: "cy".to_string(), turn: 0 };
    let (state, events) = turns::apply_command(&state, &last).unwrap();
    assert_eq!(events.len(), 3);
    assert!(matches!(events[2], GameEvent::GameFinished { .. }));
    assert!(state.completed.is_some());
}
