use wasmdome::commands::MechCommand;
use wasmdome::engine::Match;
use wasmdome::events::EndCause;
use wasmdome::geometry::{GridDirection, Point};
use wasmdome::radar::{self, RadarPing};
use wasmdome::registers::{RegisterOperation, RegisterValue, EAX, EBX, ECX};
use wasmdome::state::{
    MatchParameters, MatchState, MechState, INITIAL_HEALTH, PRIMARY_DAMAGE, SECONDARY_DAMAGE,
    SECONDARY_SPLASH_DAMAGE, WALL_DAMAGE,
};

fn gen_root_state(mechs: Vec<(&str, Point)>, max_turns: u32) -> MatchState {
    let mut state = MatchState::new_with_parameters(MatchParameters {
        actors: mechs.iter().map(|(a, _p)| a.to_string()).collect(),
        match_id: "test_match".to_string(),
        max_turns: max_turns,
        aps_per_turn: 4,
        height: 24,
        width: 24,
    });

    for (mech, position) in mechs {
        let cmd = MechCommand::SpawnMech {
            mech: mech.to_string(),
            position: position.clone(),
            team: "earth".to_string(),
            avatar: "none".to_string(),
            name: format!("{}'s Mech", mech),
        };
        for event in Match::handle_command(&state, &cmd).unwrap() {
            state = Match::apply_event(&state, &event).unwrap();
        }
    }
    state
}

fn mech<'a>(state: &'a MatchState, id: &str) -> &'a MechState {
    state.mechs.iter().find(|m| m.id == id).unwrap()
}

fn register<'a>(state: &'a MatchState, id: &str, reg: u32) -> Option<&'a RegisterValue> {
    mech(state, id).registers.iter().find(|(r, _v)| *r == reg).map(|(_r, v)| v)
}

fn run(state: MatchState, cmds: &[MechCommand]) -> MatchState {
    cmds.iter().fold(state, |state, cmd| {
        Match::handle_command(&state, &cmd)
            .unwrap()
            .iter()
            .fold(state, |state, evt| Match::apply_event(&state, evt).unwrap())
    })
}

#[test]
fn basic_spawn() {
    let state = gen_root_state(
        vec![("bob", Point::new(10, 10)), ("alfred", Point::new(20, 20))],
        10,
    );

    assert_eq!(state.mechs.len(), 2);
    assert_eq!(mech(&state, "bob").position, Point::new(10, 10));
    assert_eq!(mech(&state, "alfred").position, Point::new(20, 20));
    assert_eq!(mech(&state, "alfred").alive, true);
}

#[test]
fn off_board_collision() {
    let state = gen_root_state(vec![("jeeves", Point::new(0, 0))], 10);
    let cmd = MechCommand::Move {
        turn: 0,
        mech: "jeeves".to_string(),
        direction: GridDirection::South,
    };
    let state = run(state, &[cmd]);
    assert_eq!(mech(&state, "jeeves").health, INITIAL_HEALTH - WALL_DAMAGE);
}

#[test]
fn safe_move() {
    let state = gen_root_state(vec![("jeeves", Point::new(5, 5))], 10);
    let cmd = MechCommand::Move {
        turn: 0,
        mech: "jeeves".to_string(),
        direction: GridDirection::NorthEast,
    };
    let state = run(state, &[cmd]);
    assert_eq!(mech(&state, "jeeves").position, Point::new(6, 6));
}

#[test]
fn primary_fire() {
    let state = gen_root_state(
        vec![("shooter", Point::new(10, 6)), ("victim", Point::new(12, 8))],
        10,
    );
    let cmd = MechCommand::FirePrimary {
        turn: 0,
        mech: "shooter".to_string(),
        direction: GridDirection::NorthEast,
    };
    let state = run(state, &[cmd]);
    assert_eq!(mech(&state, "victim").health, INITIAL_HEALTH - PRIMARY_DAMAGE);
}

#[test]
fn secondary_fire() {
    let state = gen_root_state(
        vec![("shooter", Point::new(10, 6)), ("victim", Point::new(12, 8))],
        10,
    );
    let cmd = MechCommand::FireSecondary {
        turn: 0,
        mech: "shooter".to_string(),
        direction: GridDirection::NorthEast,
    };
    let state = run(state, &[cmd]);
    assert_eq!(mech(&state, "victim").health, INITIAL_HEALTH - SECONDARY_DAMAGE);
}

#[test]
fn secondary_fire_with_splash() {
    let state = gen_root_state(
        vec![("shooter", Point::new(10, 6)), ("victim", Point::new(11, 7))],
        10,
    );
    let cmd = MechCommand::FireSecondary {
        turn: 0,
        mech: "shooter".to_string(),
        direction: GridDirection::NorthEast,
    };
    let state = run(state, &[cmd]);
    assert_eq!(mech(&state, "victim").health, INITIAL_HEALTH - SECONDARY_DAMAGE);
    assert_eq!(mech(&state, "shooter").health, INITIAL_HEALTH - SECONDARY_SPLASH_DAMAGE);
}

#[test]
fn take_turns() {
    let state = gen_root_state(
        vec![("al", Point::new(10, 6)), ("bob", Point::new(11, 7))],
        10,
    );

    let al1 = MechCommand::FirePrimary {
        turn: 0,
        mech: "al".to_string(),
        direction: GridDirection::South,
    };
    let al2 = MechCommand::FinishTurn { mech: "al".to_string(), turn: 0 };
    let bob1 = MechCommand::Move {
        turn: 0,
        mech: "bob".to_string(),
        direction: GridDirection::South,
    };
    let bob2 = MechCommand::FinishTurn { mech: "bob".to_string(), turn: 0 };

    let cmds = vec![al1.clone(), al2.clone(), bob1, bob2];
    let state = run(state, &cmds);
    assert_eq!(state.turn_status.current, 1);

    let cmds = vec![al1, al2.clone()];
    let state = gen_root_state(
        vec![("al", Point::new(10, 6)), ("bob", Point::new(11, 7))],
        10,
    );
    let state = run(state, &cmds);
    // this state should now not accept another turn from Al...
    let evt = Match::handle_command(&state, &al2);
    assert!(evt.is_err());
}

#[test]
fn game_finishes_on_turns() {
    let state = gen_root_state(
        vec![("al", Point::new(10, 6)), ("bob", Point::new(11, 7))],
        10,
    );

    // fill 10 turns of activity
    let mut cmds = Vec::new();
    for i in 0..10 {
        cmds.push(MechCommand::FirePrimary {
            turn: i,
            direction: GridDirection::West,
            mech: "al".to_string(),
        });
        cmds.push(MechCommand::FinishTurn { turn: i, mech: "al".to_string() });
        cmds.push(MechCommand::FirePrimary {
            turn: i,
            direction: GridDirection::East,
            mech: "bob".to_string(),
        });
        cmds.push(MechCommand::FinishTurn { mech: "bob".to_string(), turn: i })
    }

    let state = run(state, &cmds);

    if let EndCause::MaxTurnsCompleted { survivors } = state.completed.unwrap() {
        assert_eq!(survivors.len(), 2);
    } else {
        assert!(false);
    }
}

#[test]
fn game_finishes_on_victor() {
    let path_to_death = INITIAL_HEALTH / PRIMARY_DAMAGE;
    let state = gen_root_state(
        vec![("al", Point::new(10, 6)), ("bob", Point::new(11, 6))],
        path_to_death + 2,
    );

    let mut cmds = Vec::new();
    for i in 0..path_to_death + 1 {
        cmds.push(MechCommand::FirePrimary {
            turn: i,
            direction: GridDirection::East,
            mech: "al".to_string(),
        });
        cmds.push(MechCommand::FinishTurn { turn: i, mech: "al".to_string() });
        cmds.push(MechCommand::FinishTurn { mech: "bob".to_string(), turn: i })
    }

    let state = run(state, &cmds);

    assert_eq!(state.completed.unwrap(), EndCause::MechVictory("al".to_string()));
}

#[test]
fn death_by_splash() {
    let path_to_death = INITIAL_HEALTH / SECONDARY_SPLASH_DAMAGE;
    let state = gen_root_state(
        vec![("al", Point::new(10, 6)), ("bob", Point::new(16, 11))], // Bob should be within splash range
        path_to_death + 2,
    );

    let mut cmds = Vec::new();
    for i in 0..path_to_death + 1 {
        cmds.push(MechCommand::FireSecondary {
            turn: i,
            direction: GridDirection::NorthEast,
            mech: "al".to_string(),
        });
        cmds.push(MechCommand::FinishTurn { turn: i, mech: "al".to_string() });
        cmds.push(MechCommand::FinishTurn { mech: "bob".to_string(), turn: i })
    }

    let state = run(state, &cmds);

    assert_eq!(state.completed.unwrap(), EndCause::MechVictory("al".to_string()));
}

#[test]
fn radar_ping_basic() {
    let state = gen_root_state(
        vec![
            ("al", Point::new(10, 6)),
            ("bob", Point::new(13, 9)),
            ("steve", Point::new(14, 6)),
            ("nobody", Point::new(16, 9)),
        ],
        10,
    );
    let origin = Point::new(10, 6); // al's position
    let results = radar::collect_targets(&state, &origin);
    assert_eq!(results.len(), 2);
    assert_eq!(
        results.into_iter().map(|(m, _d)| m.id).collect::<Vec<_>>(),
        vec!["bob", "steve"]
    );
}

#[test]
fn radar_ping_full() {
    let mut state = gen_root_state(
        vec![
            ("al", Point::new(10, 6)),
            ("bob", Point::new(13, 9)),
            ("steve", Point::new(14, 6)),
            ("nobody", Point::new(16, 9)),
        ],
        10,
    );
    state.mechs.iter_mut().find(|m| m.id == "steve").unwrap().team = "boylur".to_string();
    let origin = Point::new(10, 6); // al's position
    let results = radar::radar_ping(&state, &origin, "earth");
    assert_eq!(
        results,
        vec![
            RadarPing {
                id: "bob".to_string(),
                name: "bob's Mech".to_string(),
                avatar: "none".to_string(),
                foe: false,
                distance: 3,
                location: Point::new(13, 9),
            },
            RadarPing {
                id: "steve".to_string(),
                name: "steve's Mech".to_string(),
                avatar: "none".to_string(),
                foe: true,
                distance: 4,
                location: Point::new(14, 6),
            }
        ]
    )
}

#[test]
fn move_into_occupied_spot_causes_collision_dmg() {
    let state: MatchState = gen_root_state(
        vec![("al", Point::new(10, 6)), ("bob", Point::new(11, 6))],
        10,
    );

    let cmds = vec![MechCommand::Move {
        direction: GridDirection::East,
        mech: "al".to_string(),
        turn: 0,
    }];

    let state = run(state, &cmds);

    assert_eq!(mech(&state, "al").health, INITIAL_HEALTH - WALL_DAMAGE);
    assert_eq!(
        mech(&state, "al").position,
        Point::new(10, 6) // he did not move to new location
    );
}

fn scan<'a>(state: &'a MatchState, actor: &str) -> &'a Vec<RadarPing> {
    &state.radar_pings.iter().find(|(a, _p)| a == actor).unwrap().1
}

#[test]
fn radar_ping_state() {
    let state = gen_root_state(
        vec![
            ("al", Point::new(10, 6)),
            ("bob", Point::new(13, 9)),
            ("steve", Point::new(14, 6)),
            ("nobody", Point::new(16, 9)),
        ],
        10,
    );

    let cmds = vec![
        MechCommand::RequestRadarScan { mech: "al".to_string(), turn: 0 },
        MechCommand::RequestRadarScan { mech: "nobody".to_string(), turn: 0 },
    ];

    let state = run(state, &cmds);

    assert_eq!(
        *scan(&state, "al"),
        vec![
            RadarPing {
                id: "bob".to_string(),
                name: "bob's Mech".to_string(),
                avatar: "none".to_string(),
                foe: false,
                distance: 3,
                location: Point::new(13, 9),
            },
            RadarPing {
                id: "steve".to_string(),
                name: "steve's Mech".to_string(),
                avatar: "none".to_string(),
                foe: false,
                distance: 4,
                location: Point::new(14, 6),
            }
        ]
    );

    assert_eq!(
        *scan(&state, "nobody"),
        vec![RadarPing {
            id: "bob".to_string(),
            name: "bob's Mech".to_string(),
            avatar: "none".to_string(),
            foe: false,
            distance: 3,
            location: Point::new(13, 9),
        },]
    )
}

#[test]
fn nearest_unoccupied() {
    let state = gen_root_state(
        vec![
            ("al", Point::new(10, 6)),
            ("bob", Point::new(10, 7)),
            ("steve", Point::new(10, 5)),
            ("nobody", Point::new(9, 6)),
        ],
        10,
    );

    assert_eq!(None, MatchState::nearest_unoccupied(&state, &None));
    assert_eq!(
        Some(Point::new(10, 8)),
        MatchState::nearest_unoccupied(&state, &Some(Point::new(10, 7)))
    );
    assert_eq!(
        Some(Point::new(9, 7)),
        MatchState::nearest_unoccupied(&state, &Some(Point::new(9, 6)))
    );
}

#[test]
fn cannot_spawn_on_occupied() {
    let state = gen_root_state(
        vec![
            ("al", Point::new(10, 6)),
            ("bob", Point::new(10, 7)),
            ("steve", Point::new(10, 5)),
            ("nobody", Point::new(9, 6)),
        ],
        10,
    );

    let cmds = vec![MechCommand::SpawnMech {
        position: Point::new(10, 6),
        avatar: "".to_string(),
        mech: "bounce".to_string(),
        name: "test".to_string(),
        team: "earth".to_string(),
    }];

    let state = run(state, &cmds);

    assert_eq!(Point::new(10, 8), mech(&state, "bounce").position); // Go north until we can't, then find adjacent
}

#[test]
fn action_points_limit() {
    let state = gen_root_state(
        vec![("al", Point::new(10, 6)), ("bob", Point::new(16, 11))], // Bob should be within splash range
        2,
    );

    let mut cmds = Vec::new();
    cmds.push(MechCommand::FireSecondary { turn: 0, direction: GridDirection::NorthEast, mech: "al".to_string() });
    cmds.push(MechCommand::FirePrimary { turn: 0, direction: GridDirection::NorthEast, mech: "al".to_string() });
    cmds.push(MechCommand::Move { turn: 0, direction: GridDirection::NorthEast, mech: "al".to_string() });
    cmds.push(MechCommand::Move { turn: 0, direction: GridDirection::NorthEast, mech: "bob".to_string() });
    cmds.push(MechCommand::Move { turn: 0, direction: GridDirection::NorthEast, mech: "bob".to_string() });
    cmds.push(MechCommand::FirePrimary { turn: 0, direction: GridDirection::NorthEast, mech: "bob".to_string() });
    cmds.push(MechCommand::Move { turn: 0, direction: GridDirection::SouthWest, mech: "bob".to_string() });
    cmds.push(MechCommand::FinishTurn { turn: 0, mech: "al".to_string() });
    cmds.push(MechCommand::FinishTurn { mech: "bob".to_string(), turn: 0 });

    let state = run(state, &cmds);

    assert_eq!(mech(&state, "bob").health, INITIAL_HEALTH - SECONDARY_SPLASH_DAMAGE);

    let al_position = Point::new(10, 6);
    let bob_position = Point::new(18, 13);
    assert_eq!(mech(&state, "al").position.x, al_position.x);
    assert_eq!(mech(&state, "al").position.y, al_position.y);
    assert_eq!(mech(&state, "bob").position.x, bob_position.x);
    assert_eq!(mech(&state, "bob").position.y, bob_position.y);
}

#[test]
fn action_points_limit_prevents_death() {
    let state = gen_root_state(
        vec![("al", Point::new(10, 6)), ("bob", Point::new(11, 6))], // Bob should be within splash range
        2,
    );

    let mut cmds = Vec::new();
    for i in 0..20 {
        cmds.push(MechCommand::FirePrimary { turn: i, direction: GridDirection::East, mech: "al".to_string() });
    }
    cmds.push(MechCommand::FinishTurn { turn: 0, mech: "al".to_string() });
    cmds.push(MechCommand::FinishTurn { mech: "bob".to_string(), turn: 0 });

    let state = run(state, &cmds);

    assert_eq!(mech(&state, "bob").health, INITIAL_HEALTH - (PRIMARY_DAMAGE * 2));
}

fn reg_cmd(mech: &str, reg: u32, op: RegisterOperation, turn: u32) -> MechCommand {
    MechCommand::RegisterUpdate { mech: mech.to_string(), reg, op, turn }
}

#[test]
fn register_acc_modifies_mech_state() {
    let mech1 = "johnny";
    let mech2 = "bob";
    let state = gen_root_state(vec![(mech1, Point::new(10, 6)), (mech2, Point::new(11, 6))], 2);
    let mut cmds = Vec::new();
    cmds.push(reg_cmd(mech1, EAX, RegisterOperation::Assign(RegisterValue::Number(100)), 0));
    cmds.push(reg_cmd(mech1, EAX, RegisterOperation::Assign(RegisterValue::Number(30)), 0));
    cmds.push(reg_cmd(mech1, EAX, RegisterOperation::Accumulate(25), 0));
    cmds.push(reg_cmd(mech1, EAX, RegisterOperation::Accumulate(10), 0));

    let state = run(state, &cmds);

    if let RegisterValue::Number(mech1eax) = register(&state, mech1, EAX).unwrap() {
        assert_eq!(*mech1eax, 65);
        assert_ne!(*mech1eax, 30);
        assert_ne!(*mech1eax, 55);
    } else {
        panic!("Mech 1 EAX register was not successfully incremented");
    };
}

#[test]
fn register_dec_modifies_mech_state() {
    let mech1 = "johnny";
    let mech2 = "bob";
    let state = gen_root_state(vec![(mech1, Point::new(10, 6)), (mech2, Point::new(11, 6))], 2);
    let mut cmds = Vec::new();
    cmds.push(reg_cmd(mech1, EAX, RegisterOperation::Assign(RegisterValue::Number(30)), 0));
    cmds.push(reg_cmd(mech1, EAX, RegisterOperation::Decrement(25), 0));
    cmds.push(reg_cmd(mech1, EAX, RegisterOperation::Decrement(2), 0));

    let state = run(state, &cmds);

    if let RegisterValue::Number(mech1eax) = register(&state, mech1, EAX).unwrap() {
        assert_eq!(*mech1eax, 3);
        assert_ne!(*mech1eax, 30);
        assert_ne!(*mech1eax, 25);
        assert_ne!(*mech1eax, 5);
    } else {
        panic!("Mech 1 EAX register was not successfully decremented");
    };
}

#[test]
fn register_dec_negative_overflow() {
    let mech1 = "johnny";
    let mech2 = "bob";
    let state = gen_root_state(vec![(mech1, Point::new(10, 6)), (mech2, Point::new(11, 6))], 2);
    let mut cmds = Vec::new();
    cmds.push(reg_cmd(mech1, EAX, RegisterOperation::Assign(RegisterValue::Number(30)), 0));
    for i in 0..10u32 {
        cmds.push(reg_cmd(mech1, EAX, RegisterOperation::Decrement((i * 10).into()), i));
    }

    let state = run(state, &cmds);

    if let RegisterValue::Number(mech1eax) = register(&state, mech1, EAX).unwrap() {
        assert_eq!(*mech1eax, 0);
        assert_ne!(*mech1eax, 30);
    } else {
        panic!("Mech 1 EAX register was not successfully decremented");
    };
}

#[test]
fn register_acc_positive_overflow() {
    let mech1 = "johnny";
    let mech2 = "bob";
    let state = gen_root_state(vec![(mech1, Point::new(10, 6)), (mech2, Point::new(11, 6))], 2);
    let mut cmds = Vec::new();
    cmds.push(reg_cmd(mech1, EAX, RegisterOperation::Assign(RegisterValue::Number(u64::MAX - 100)), 0));
    for i in 0..10u32 {
        cmds.push(reg_cmd(mech1, EAX, RegisterOperation::Accumulate((i * 10).into()), i));
    }

    let state = run(state, &cmds);

    if let RegisterValue::Number(mech1eax) = register(&state, mech1, EAX).unwrap() {
        assert_eq!(*mech1eax, u64::MAX);
        assert_ne!(*mech1eax, 0);
    } else {
        panic!("Mech 1 EAX register was not successfully incremented");
    };
}

#[test]
fn register_multiple_changes_test() {
    let mech1 = "johnny";
    let mech2 = "bob";
    let state = gen_root_state(vec![(mech1, Point::new(10, 6)), (mech2, Point::new(11, 6))], 2);
    let mut cmds = Vec::new();

    let mut register_val: u64 = 123;

    cmds.push(reg_cmd(mech1, EAX, RegisterOperation::Assign(RegisterValue::Number(register_val)), 0));

    for i in 0..10u32 {
        let modify_num: u64 = (i * 10).into();
        if i % 2 == 1 {
            register_val += modify_num;
            cmds.push(reg_cmd(mech1, EAX, RegisterOperation::Accumulate(modify_num), i));
        } else {
            register_val -= modify_num;
            cmds.push(reg_cmd(mech1, EAX, RegisterOperation::Decrement(modify_num), i));
        }
    }

    let state = run(state, &cmds);

    if let RegisterValue::Number(mech1eax) = register(&state, mech1, EAX).unwrap() {
        assert_eq!(*mech1eax, register_val);
    } else {
        panic!("Mech 1 EAX register was not successfully modified");
    };
}

#[test]
fn register_incorrect_operations_rejected() {
    let mech1 = "johnny";
    let mech2 = "bob";
    let state = gen_root_state(vec![(mech1, Point::new(10, 6)), (mech2, Point::new(11, 6))], 2);
    let mut cmds = Vec::new();

    let eaxval = 123098;
    let ecxval = 87948;
    let ebxval = "boylur_plait".to_string();

    // Valid commands
    cmds.push(reg_cmd(mech1, EAX, RegisterOperation::Assign(RegisterValue::Number(eaxval)), 0));
    cmds.push(reg_cmd(mech1, ECX, RegisterOperation::Assign(RegisterValue::Number(ecxval)), 0));
    cmds.push(reg_cmd(mech1, EBX, RegisterOperation::Assign(RegisterValue::Text(ebxval.clone())), 0));

    // Invalid Commands
    cmds.push(reg_cmd(mech1, EAX, RegisterOperation::Assign(RegisterValue::Text("goodhealth".to_string())), 0));
    cmds.push(reg_cmd(mech1, ECX, RegisterOperation::Assign(RegisterValue::Text("jane".to_string())), 0));
    cmds.push(reg_cmd(mech1, EBX, RegisterOperation::Assign(RegisterValue::Number(42)), 0));
    cmds.push(reg_cmd(mech1, EBX, RegisterOperation::Accumulate(42), 0));
    cmds.push(reg_cmd(mech1, EBX, RegisterOperation::Decrement(123), 0));

    let state = run(state, &cmds);

    if let RegisterValue::Number(mech1eax) = register(&state, mech1, EAX).unwrap() {
        assert_eq!(*mech1eax, eaxval);
        assert_ne!(*mech1eax, ecxval);
    } else {
        panic!("Mech 1 EAX register was modified by an invalid operation");
    };

    if let RegisterValue::Number(mech1ecx) = register(&state, mech1, ECX).unwrap() {
        assert_eq!(*mech1ecx, ecxval);
        assert_ne!(*mech1ecx, eaxval);
    } else {
        panic!("Mech 1 ECX register was modified by an invalid operation");
    };

    if let RegisterValue::Text(mech1ebx) = register(&state, mech1, EBX).unwrap() {
        assert_eq!(*mech1ebx, ebxval);
    } else {
        panic!("Mech 1 EBX register was modified by an invalid operation");
    };
}

#[test]
fn accumulate_on_uninitialised_register_starts_from_zero() {
    let state = gen_root_state(vec![("johnny", Point::new(10, 6)), ("bob", Point::new(11, 6))], 2);
    let state = run(state, &[reg_cmd("johnny", ECX, RegisterOperation::Accumulate(7), 0)]);
    assert_eq!(register(&state, "johnny", ECX), Some(&RegisterValue::Number(7)));
    let state = run(state, &[reg_cmd("johnny", EAX, RegisterOperation::Decrement(7), 0)]);
    assert_eq!(register(&state, "johnny", EAX), None);
}

#[test]
fn exceeding_action_points_changes_nothing() {
    let state = gen_root_state(vec![("al", Point::new(10, 6)), ("bob", Point::new(11, 6))], 5);
    let fire = MechCommand::FireSecondary { turn: 0, direction: GridDirection::West, mech: "al".to_string() };
    let state = run(state, &[fire.clone()]);
    assert_eq!(mech(&state, "al").remaining_aps, 0);
    let events = Match::handle_command(&state, &fire).unwrap();
    assert_eq!(events.len(), 1);
    assert!(matches!(events[0], wasmdome::events::GameEvent::ActionPointsExceeded { .. }));
    let after = Match::apply_event(&state, &events[0]).unwrap();
    assert_eq!(after.generation, state.generation);
    assert_eq!(mech(&after, "bob").health, mech(&state, "bob").health);
}

#[test]
fn unknown_mech_cannot_finish_a_turn() {
    let state = gen_root_state(vec![("al", Point::new(10, 6))], 5);
    let r = Match::handle_command(&state, &MechCommand::FinishTurn { mech: "zed".to_string(), turn: 0 });
    assert_eq!(r.unwrap_err(), wasmdome::engine::CommandError::MechNotInMatch);
    let r = Match::handle_command(&state, &MechCommand::Move { mech: "zed".to_string(), turn: 0, direction: GridDirection::North });
    assert_eq!(r.unwrap().len(), 1);
}

#[test]
fn turn_advances_and_resets_action_points() {
    let state = gen_root_state(vec![("al", Point::new(10, 6)), ("bob", Point::new(15, 6))], 5);
    let state = run(
        state,
        &[
            MechCommand::Move { turn: 0, direction: GridDirection::North, mech: "al".to_string() },
            MechCommand::FinishTurn { mech: "al".to_string(), turn: 0 },
        ],
    );
    assert_eq!(mech(&state, "al").remaining_aps, 3);
    assert_eq!(state.turn_status.current, 0);
    let state = run(state, &[MechCommand::FinishTurn { mech: "bob".to_string(), turn: 0 }]);
    assert_eq!(state.turn_status.current, 1);
    assert!(state.turn_status.taken.is_empty());
    assert_eq!(mech(&state, "al").remaining_aps, 4);
}
