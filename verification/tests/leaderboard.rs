use wasmdome::events::{DamageSource, EndCause, GameEvent};
use wasmdome::geometry::Point;
use wasmdome::leaderboard::{
    Leaderboard, LeaderboardData, MechSummary, PlayerStats, POINTS_DESTROY, POINTS_MATCH_SURVIVE,
    POINTS_MATCH_WIN,
};

fn fold(evts: &[GameEvent]) -> LeaderboardData {
    let state = LeaderboardData::default();
    evts.iter()
        .fold(state, |state, evt| Leaderboard::apply_event(&state, evt).unwrap())
}

fn stats<'a>(state: &'a LeaderboardData, player: &str) -> &'a PlayerStats {
    &state.stats.iter().find(|(p, _s)| p == player).unwrap().1
}

fn summary<'a>(state: &'a LeaderboardData, mech: &str) -> Option<&'a MechSummary> {
    state.mechs.iter().find(|m| m.id == mech)
}

#[test]
fn award_points_for_kill() {
    let evts = vec![
        GameEvent::MechDestroyed {
            damage_source: DamageSource::MechWeapon("al".to_string()),
            damage_target: "bob".to_string(),
        },
        GameEvent::MechDestroyed {
            damage_source: DamageSource::MechWeapon("al".to_string()),
            damage_target: "steve".to_string(),
        },
    ];
    let state = fold(&evts);
    assert_eq!(stats(&state, "al").score, 2 * POINTS_DESTROY);
    assert_eq!(stats(&state, "al").kills, 2);
    assert_eq!(stats(&state, "bob").deaths, 1);
    assert_eq!(stats(&state, "steve").deaths, 1);
}

#[test]
fn spawn_updates_map() {
    let evts = vec![
        GameEvent::MechSpawned {
            avatar: "av".to_string(),
            mech: "al".to_string(),
            name: "Al Allerson".to_string(),
            team: "earth".to_string(),
            position: Point::new(1, 1),
        },
        GameEvent::MechSpawned {
            avatar: "av2".to_string(),
            mech: "bob".to_string(),
            name: "Bob Bobberson".to_string(),
            team: "earth".to_string(),
            position: Point::new(2, 2),
        },
    ];
    let state = fold(&evts);
    assert_eq!(summary(&state, "al").unwrap().name, "Al Allerson");
    assert_eq!(summary(&state, "bob").unwrap().avatar, "av2");
    assert_eq!(summary(&state, "al").unwrap().avatar, "av");
}

#[test]
fn award_points_for_win() {
    let evts = vec![
        GameEvent::GameFinished {
            cause: EndCause::MechVictory("al".to_string()),
        },
        GameEvent::GameFinished {
            cause: EndCause::MechVictory("bob".to_string()),
        },
    ];
    let state = fold(&evts);
    assert_eq!(stats(&state, "al").score, POINTS_MATCH_WIN);
    assert_eq!(stats(&state, "bob").score, POINTS_MATCH_WIN);
    assert_eq!(stats(&state, "al").wins, 1);
    assert_eq!(stats(&state, "bob").wins, 1);
}

#[test]
fn award_points_for_draw() {
    let evts = vec![
        GameEvent::GameFinished {
            cause: EndCause::MaxTurnsCompleted {
                survivors: vec!["al".to_string(), "bob".to_string()],
            },
        },
        GameEvent::GameFinished {
            cause: EndCause::MechVictory("al".to_string()),
        },
    ];
    let state = fold(&evts);
    assert_eq!(stats(&state, "al").score, POINTS_MATCH_WIN + POINTS_MATCH_SURVIVE);
    assert_eq!(stats(&state, "bob").score, POINTS_MATCH_SURVIVE);
    assert_eq!(stats(&state, "al").draws, 1);
    assert_eq!(stats(&state, "bob").draws, 1);
    assert_eq!(stats(&state, "al").wins, 1);
}

#[test]
fn respawn_replaces_summary() {
    let spawn = |name: &str| GameEvent::MechSpawned {
        avatar: "av".to_string(),
        mech: "al".to_string(),
        name: name.to_string(),
        team: "earth".to_string(),
        position: Point::new(1, 1),
    };
    let state = fold(&[spawn("first"), spawn("second")]);
    assert_eq!(state.mechs.len(), 1);
    assert_eq!(summary(&state, "al").unwrap().name, "second");
}

#[test]
fn wall_death_scores_nothing() {
    let evts = vec![GameEvent::MechDestroyed {
        damage_source: DamageSource::Wall,
        damage_target: "bob".to_string(),
    }];
    let state = fold(&evts);
    assert!(state.stats.is_empty());
}

#[test]
fn score_is_sum_of_achievements() {
    let evts = vec![
        GameEvent::MechDestroyed {
            damage_source: DamageSource::MechWeapon("al".to_string()),
            damage_target: "bob".to_string(),
        },
        GameEvent::GameFinished {
            cause: EndCause::MechVictory("al".to_string()),
        },
        GameEvent::GameFinished {
            cause: EndCause::MaxTurnsCompleted {
                survivors: vec!["al".to_string()],
            },
        },
    ];
    let state = fold(&evts);
    let al = stats(&state, "al");
    assert_eq!(
        al.score,
        al.kills * POINTS_DESTROY + al.wins * POINTS_MATCH_WIN + al.draws * POINTS_MATCH_SURVIVE
    );
    assert_eq!(al.score, 12100);
    assert_eq!(stats(&state, "bob").score, 0);
}

#[test]
fn leaderboard_handles_no_commands() {
    let state = LeaderboardData::default();
    let cmd = wasmdome::commands::MechCommand::FinishTurn {
        mech: "al".to_string(),
        turn: 0,
    };
    assert!(Leaderboard::handle_command(&state, &cmd).unwrap().is_empty());
}
