use wasmdome::commands::MechCommand;
use wasmdome::engine::Match;
use wasmdome::geometry::{GameBoard, GridDirection, Point};
use wasmdome::npc::{boylur_plait, clippy, corner_turret, deploy_jenkins, kode_frieze, sir_emony, tactics};
use wasmdome::protocol::TakeTurn;
use wasmdome::radar::RadarPing;
use wasmdome::registers::{RegisterOperation, RegisterValue, EAX, EBX, ECX};
use wasmdome::sdk::WasmdomeMechInstruments;
use wasmdome::state::{MatchParameters, MatchState};

fn arena(mechs: &[(&str, i32, i32)]) -> MatchState {
    arena_with_power(mechs, 4)
}

fn arena_with_power(mechs: &[(&str, i32, i32)], aps: u32) -> MatchState {
    let mut state = MatchState::new_with_parameters(MatchParameters::new(
        "m".to_string(),
        24,
        24,
        10,
        aps,
        mechs.iter().map(|(a, _, _)| a.to_string()).collect(),
    ));
    for (mech, x, y) in mechs {
        let cmd = MechCommand::SpawnMech {
            mech: mech.to_string(),
            position: Point::new(*x, *y),
            team: "earth".to_string(),
            avatar: "none".to_string(),
            name: format!("{}'s Mech", mech),
        };
        for event in Match::handle_command(&state, &cmd).unwrap() {
            state = Match::apply_event(&state, &event).unwrap();
        }
    }
    state
}

fn ping(name: &str, foe: bool, x: i32, y: i32, distance: usize) -> RadarPing {
    RadarPing {
        id: name.to_string(),
        name: name.to_string(),
        avatar: "none".to_string(),
        foe,
        location: Point::new(x, y),
        distance,
    }
}

fn with_scan(mut state: MatchState, actor: &str, pings: Vec<RadarPing>) -> MatchState {
    state.radar_pings.push((actor.to_string(), pings));
    state
}

fn with_register(mut state: MatchState, actor: &str, reg: u32, val: RegisterValue) -> MatchState {
    let m = state.mechs.iter_mut().find(|m| m.id == actor).unwrap();
    m.registers.push((reg, val));
    state
}

fn instruments(state: MatchState, actor: &str) -> WasmdomeMechInstruments {
    WasmdomeMechInstruments::new(
        TakeTurn {
            actor: actor.to_string(),
            match_id: "m".to_string(),
            turn: 3,
            state,
        },
        actor.to_string(),
    )
}

fn mv(d: GridDirection) -> MechCommand {
    MechCommand::Move { turn: 3, mech: "me".to_string(), direction: d }
}

fn shoot(d: GridDirection) -> MechCommand {
    MechCommand::FirePrimary { turn: 3, mech: "me".to_string(), direction: d }
}

fn blast(d: GridDirection) -> MechCommand {
    MechCommand::FireSecondary { turn: 3, mech: "me".to_string(), direction: d }
}

fn scan() -> MechCommand {
    MechCommand::RequestRadarScan { turn: 3, mech: "me".to_string() }
}

fn set(reg: u32, val: RegisterValue) -> MechCommand {
    MechCommand::RegisterUpdate { mech: "me".to_string(), turn: 3, reg, op: RegisterOperation::Assign(val) }
}

fn same(actual: Vec<MechCommand>, expected: Vec<MechCommand>) {
    assert_eq!(format!("{:?}", actual), format!("{:?}", expected));
}

#[test]
fn distances_are_rounded_down() {
    assert_eq!(tactics::distance_to(&Point::new(0, 0), &Point::new(3, 4)), 5);
    assert_eq!(tactics::distance_to(&Point::new(0, 0), &Point::new(1, 1)), 1);
    assert_eq!(tactics::distance_to(&Point::new(2, 2), &Point::new(2, 2)), 0);
    assert_eq!(tactics::distance_to(&Point::new(-3, 0), &Point::new(5, 6)), 10);
    assert_eq!(tactics::distance_to(&Point::new(0, 0), &Point::new(2, 3)), 3);
    assert_eq!(tactics::distance_to(&Point::new(i32::MIN, 0), &Point::new(i32::MAX, 0)), u32::MAX);
    assert_eq!(tactics::quarter_of(25), 6);
}

#[test]
fn instruments_read_the_mech() {
    let state = with_register(arena(&[("me", 10, 10), ("you", 12, 12)]), "me", EAX, RegisterValue::Number(9));
    let m = instruments(state, "me");
    assert!(m.is_alive());
    assert_eq!(m.position(), Point::new(10, 10));
    assert_eq!(m.hull_integrity(), 1000);
    assert_eq!(m.power(), 4);
    assert_eq!((m.primary_range(), m.secondary_range()), (3, 6));
    assert_eq!(m.world_size(), GameBoard { width: 24, height: 24 });
    assert_eq!(m.direction_to(&Point::new(12, 12)), GridDirection::NorthEast);
    assert_eq!(m.register_get(EAX), Some(&RegisterValue::Number(9)));
    assert_eq!(m.register_get(EBX), None);
    assert!(m.last_radar_scan().is_none());
    same(
        vec![m.register_acc(ECX, 2), m.register_dec(ECX, 1), m.move_mech(GridDirection::West)],
        vec![
            MechCommand::RegisterUpdate { mech: "me".to_string(), turn: 3, reg: ECX, op: RegisterOperation::Accumulate(2) },
            MechCommand::RegisterUpdate { mech: "me".to_string(), turn: 3, reg: ECX, op: RegisterOperation::Decrement(1) },
            mv(GridDirection::West),
        ],
    );
}

#[test]
fn instruments_see_the_last_scan() {
    let state = with_scan(arena(&[("me", 10, 10)]), "me", vec![ping("you", true, 12, 12, 2)]);
    let m = instruments(state, "me");
    let seen = m.last_radar_scan().unwrap();
    assert_eq!(seen.len(), 1);
    assert_eq!(seen[0].id, "you");
    assert!(seen[0].foe);
    assert_eq!(seen[0].location, Point::new(12, 12));
    assert_eq!(seen[0].distance, 2);
}

#[test]
fn a_turn_ends_with_finishing_it() {
    let m = instruments(arena(&[("me", 10, 10)]), "me");
    let r = m.complete_turn(vec![scan()]);
    same(r.commands, vec![scan(), MechCommand::FinishTurn { mech: "me".to_string(), turn: 3 }]);
    let mut state = arena(&[("me", 10, 10)]);
    state.mechs[0].alive = false;
    let dead = instruments(state, "me");
    same(dead.complete_turn(vec![scan()]).commands, vec![MechCommand::FinishTurn { mech: "me".to_string(), turn: 3 }]);
}

#[test]
fn clippy_fires_at_the_first_foe() {
    let state = with_scan(
        arena(&[("me", 10, 10)]),
        "me",
        vec![ping("friend", false, 10, 14, 4), ping("foe", true, 14, 10, 4), ping("other", true, 10, 6, 4)],
    );
    same(clippy::handler(&instruments(state, "me")), vec![shoot(GridDirection::East), scan()]);
    same(clippy::handler(&instruments(arena(&[("me", 10, 10)]), "me")), vec![scan()]);
}

#[test]
fn boylur_plait_remembers_its_health_first() {
    let m = instruments(arena(&[("me", 10, 10)]), "me");
    same(
        boylur_plait::handler(&m, 3),
        vec![set(EAX, RegisterValue::Number(1000)), scan(), shoot(GridDirection::SouthEast)],
    );
    same(
        boylur_plait::handler(&m, 9),
        vec![set(EAX, RegisterValue::Number(1000)), scan(), shoot(GridDirection::NorthWest)],
    );
}

#[test]
fn boylur_plait_lurks() {
    let base = with_register(arena(&[("me", 10, 10)]), "me", EAX, RegisterValue::Number(1000));
    let near = with_scan(base, "me", vec![ping("friend", false, 10, 11, 1), ping("foe", true, 10, 15, 5)]);
    same(boylur_plait::handler(&instruments(near, "me"), 0), vec![blast(GridDirection::North)]);
    let alone = with_register(arena(&[("me", 10, 10)]), "me", EAX, RegisterValue::Number(1000));
    same(
        boylur_plait::handler(&instruments(alone, "me"), 0),
        vec![mv(GridDirection::West), mv(GridDirection::West), mv(GridDirection::North), scan()],
    );
}

#[test]
fn boylur_plait_wounded_and_final_phases() {
    let near = with_scan(arena(&[("me", 10, 10)]), "me", vec![ping("friend", false, 11, 10, 1), ping("foe", true, 10, 12, 2)]);
    let m = instruments(near, "me");
    same(
        boylur_plait::phase_2(&m),
        vec![shoot(GridDirection::North), mv(GridDirection::West), mv(GridDirection::West), mv(GridDirection::North)],
    );
    same(
        boylur_plait::final_phase(&m),
        vec![shoot(GridDirection::East), mv(GridDirection::West), mv(GridDirection::West), mv(GridDirection::North)],
    );
    let corner = instruments(arena(&[("me", 2, 2)]), "me");
    same(
        boylur_plait::evasive_maneuvers(&corner, GameBoard { width: 24, height: 24 }),
        vec![mv(GridDirection::North), mv(GridDirection::North), mv(GridDirection::East)],
    );
}

#[test]
fn corner_turret_heads_for_a_corner_then_fires() {
    same(corner_turret::handler(&instruments(arena(&[("me", 10, 10)]), "me"), 0, 0), vec![mv(GridDirection::NorthWest)]);
    same(corner_turret::handler(&instruments(arena(&[("me", 20, 10)]), "me"), 0, 0), vec![mv(GridDirection::NorthEast)]);
    let origin = instruments(arena(&[("me", 0, 0)]), "me");
    assert_eq!(corner_turret::fire_roll_range(&origin), (2, 4));
    same(corner_turret::handler(&origin, 2, 3), vec![shoot(GridDirection::East)]);
    let strong = instruments(arena_with_power(&[("me", 0, 0)], 6), "me");
    same(corner_turret::handler(&strong, 2, 3), vec![shoot(GridDirection::East), blast(GridDirection::SouthEast)]);
    let powerless = instruments(arena_with_power(&[("me", 0, 0), ("you", 10, 10)], 1), "me");
    same(corner_turret::handler(&powerless, 2, 3), vec![]);
    let far = instruments(arena(&[("me", 24, 24)]), "me");
    assert_eq!(corner_turret::closest_corner(&far), None);
    assert_eq!(corner_turret::fire_roll_range(&far), (6, 8));
    same(corner_turret::handler(&far, 8, 7), vec![shoot(GridDirection::North)]);
}

#[test]
fn deploy_jenkins_roams_then_charges() {
    same(
        deploy_jenkins::handler(&instruments(arena(&[("me", 10, 10)]), "me")),
        vec![mv(GridDirection::North), mv(GridDirection::North), mv(GridDirection::North), scan()],
    );
    let close = with_scan(arena(&[("me", 10, 10)]), "me", vec![ping("foe", true, 12, 10, 2)]);
    same(
        deploy_jenkins::handler(&instruments(close, "me")),
        vec![mv(GridDirection::East), mv(GridDirection::East), shoot(GridDirection::East), set(EBX, RegisterValue::Text("foe".to_string()))],
    );
    let far = with_scan(arena(&[("me", 10, 10)]), "me", vec![ping("foe", true, 10, 20, 10)]);
    same(
        deploy_jenkins::handler(&instruments(far, "me")),
        vec![mv(GridDirection::North), mv(GridDirection::North), mv(GridDirection::North), scan()],
    );
    assert_eq!(deploy_jenkins::move_direction(Point::new(2, 2), GameBoard { width: 24, height: 24 }), GridDirection::South);
}

#[test]
fn kode_frieze_holds_the_centre() {
    same(
        kode_frieze::handler(&instruments(arena(&[("me", 10, 10)]), "me")),
        vec![mv(GridDirection::NorthEast), mv(GridDirection::NorthEast), scan()],
    );
    same(
        kode_frieze::handler(&instruments(arena(&[("me", 12, 12)]), "me")),
        vec![scan(), MechCommand::RegisterUpdate { mech: "me".to_string(), turn: 3, reg: ECX, op: RegisterOperation::Accumulate(1) }],
    );
    let target = with_scan(arena(&[("me", 12, 12)]), "me", vec![ping("far", true, 20, 12, 8), ping("foe", true, 14, 12, 2)]);
    same(
        kode_frieze::handler(&instruments(target, "me")),
        vec![set(EBX, RegisterValue::Text("foe".to_string())), shoot(GridDirection::East), shoot(GridDirection::East)],
    );
    assert_eq!(kode_frieze::compute_center(GameBoard { width: 25, height: 10 }), Point::new(12, 5));
}

#[test]
fn sir_emony_sticks_with_a_friend() {
    let scan_friend = with_scan(arena(&[("me", 10, 10)]), "me", vec![ping("foe", true, 10, 20, 10), ping("pal", false, 15, 10, 5)]);
    same(
        sir_emony::handler(&instruments(scan_friend, "me")),
        vec![set(EBX, RegisterValue::Text("pal".to_string())), mv(GridDirection::East), mv(GridDirection::East), mv(GridDirection::East), scan()],
    );
    let close = with_register(
        with_scan(arena(&[("me", 10, 10)]), "me", vec![ping("pal", false, 11, 10, 1), ping("foe", true, 10, 12, 2)]),
        "me",
        EBX,
        RegisterValue::Text("pal".to_string()),
    );
    same(sir_emony::handler(&instruments(close, "me")), vec![shoot(GridDirection::North), shoot(GridDirection::North)]);
    let no_scan = with_register(arena(&[("me", 10, 10)]), "me", EBX, RegisterValue::Text("pal".to_string()));
    same(sir_emony::handler(&instruments(no_scan, "me")), vec![scan()]);
}

#[test]
fn pings_of_mechs_with_one_name_keep_their_ids() {
    let twin = |id: &str, x: i32| RadarPing {
        id: id.to_string(),
        name: "Twin".to_string(),
        avatar: "none".to_string(),
        foe: true,
        location: Point::new(x, 12),
        distance: 2,
    };
    let state = with_scan(arena(&[("me", 10, 10)]), "me", vec![twin("left", 8), twin("right", 12)]);
    let seen = instruments(state, "me").last_radar_scan().unwrap();
    assert_eq!(seen[0].id, "left");
    assert_eq!(seen[1].id, "right");
}

#[test]
fn sir_emony_knows_when_it_cannot_close_in() {
    let on_top = with_scan(arena(&[("me", 10, 10)]), "me", vec![ping("pal", false, 10, 10, 0)]);
    assert!(!sir_emony::turn_is_defined(&instruments(on_top, "me")));
    let near = with_scan(arena(&[("me", 10, 10)]), "me", vec![ping("pal", false, 11, 10, 1)]);
    assert!(sir_emony::turn_is_defined(&instruments(near, "me")));
    let foe_on_top = with_scan(arena(&[("me", 10, 10)]), "me", vec![ping("foe", true, 10, 10, 0), ping("pal", false, 12, 10, 2)]);
    assert!(sir_emony::turn_is_defined(&instruments(foe_on_top, "me")));
}
