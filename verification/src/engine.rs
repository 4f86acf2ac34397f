//! The match aggregate: commands from the mechs become events, and events
//! applied to a match state yield the next state.

use vstd::prelude::*;
use crate::geometry::{GameBoard, GridDirection, Point, relative, adjacent, gather};
use crate::commands::{MechCommand, MechCommandView, command_cost};
use crate::events::{DamageSource, DamageSourceView, EndCause, EndCauseView, GameEvent, GameEventView, events_view, strings_view};
use crate::radar::{radar_ping, radar_pings_of, targets_on, targets_in, targets_view};
use crate::registers::{RegisterOperation, RegisterOperationView, RegisterValue, RegisterValueView, EAX, EBX, ECX, register_get, find_register, registers_view};
use crate::state::{MatchState, MatchStateView, MechState, MechStateView, alive_ids, advance_match_turn, advance_mech_turn, deduct_action_points, find_mech, finish_game, has_mech, insert_mech, mech_at, modify_mech, occupied, position_to, damaged_by, destroyed, update_radar, update_register, mechs_view, WALL_DAMAGE, PRIMARY_DAMAGE, SECONDARY_DAMAGE, SECONDARY_SPLASH_DAMAGE, PRIMARY_RANGE, SECONDARY_RANGE};

verus! {

/// Why a command was refused.
#[derive(Debug, Clone, Copy, PartialEq, Eq, Structural)]
pub enum CommandError {
    /// The command names a mech that is not in the match.
    MechNotInMatch,
    /// The mech already finished this turn.
    TurnAlreadyFinished,
    /// The mech has too few action points left for the command.
    ActionsExceeded,
}

impl CommandError {
    /// The message that describes the refusal.
    pub fn message(&self) -> (m: &'static str)
        ensures
            *self == CommandError::MechNotInMatch ==> m@ == "Command received for mech not in match"@,
            *self == CommandError::TurnAlreadyFinished ==> m@
                == "Cannot mark the same turn completed multiple times for the same mech"@,
            *self == CommandError::ActionsExceeded ==> m@
                == "Command received for mech would exceed mech's remaining actions"@,
    {
        proof {
            reveal_strlit("Command received for mech not in match");
            reveal_strlit("Cannot mark the same turn completed multiple times for the same mech");
            reveal_strlit("Command received for mech would exceed mech's remaining actions");
        }
        match self {
            CommandError::MechNotInMatch => "Command received for mech not in match",
            CommandError::TurnAlreadyFinished => "Cannot mark the same turn completed multiple times for the same mech",
            CommandError::ActionsExceeded => "Command received for mech would exceed mech's remaining actions",
        }
    }
}

// ---------------------------------------------------------------- events

/// Whether applying `e` to `s` is defined: the events that name a mech's
/// action points or registers need that mech, the events that count a
/// generation need room for one more.
pub open spec fn event_applicable(s: MatchStateView, e: GameEventView) -> bool {
    match e {
        GameEventView::PositionUpdated { .. } => s.generation < u64::MAX,
        GameEventView::DamageTaken { .. } => s.generation < u64::MAX,
        GameEventView::MechDestroyed { .. } => s.generation < u64::MAX,
        GameEventView::ActionPointsConsumed { mech, points_consumed } => has_mech(s, mech)
            && find_mech(s, mech).unwrap().remaining_aps >= points_consumed,
        GameEventView::RegisterUpdate { mech, .. } => has_mech(s, mech),
        _ => true,
    }
}

/// The state that results from applying `e` to `s`.
pub open spec fn applied(s: MatchStateView, e: GameEventView) -> MatchStateView {
    match e {
        GameEventView::MechSpawned { mech, position, team, avatar, name } => insert_mech(
            s,
            mech,
            position,
            team,
            avatar,
            name,
        ),
        GameEventView::RadarScanCompleted { actor, results } => update_radar(s, actor, results),
        GameEventView::PositionUpdated { mech, position } => modify_mech(s, mech, position_to(position)),
        GameEventView::ActionPointsConsumed { mech, points_consumed } => deduct_action_points(
            s,
            mech,
            points_consumed,
        ),
        GameEventView::ActionPointsExceeded { .. } => s,
        GameEventView::DamageTaken { damage_target, damage, .. } => modify_mech(s, damage_target, damaged_by(damage)),
        GameEventView::MechDestroyed { damage_target, .. } => modify_mech(s, damage_target, destroyed()),
        GameEventView::MatchTurnCompleted { new_turn } => advance_match_turn(s, new_turn),
        GameEventView::MechTurnCompleted { mech, .. } => advance_mech_turn(s, mech),
        GameEventView::GameFinished { cause } => finish_game(s, cause),
        GameEventView::RegisterUpdate { mech, reg, val } => update_register(s, mech, reg, val),
    }
}

// ---------------------------------------------------------------- spawning

/// The first on-board neighbour of `q`, clockwise from North.
pub open spec fn first_neighbor(board: GameBoard, q: Point) -> Option<Point> {
    let a = adjacent(q, board);
    if a.len() > 0 {
        Some(a[0])
    } else {
        None
    }
}

/// The walk that looks for a free spot: from an occupied point it moves to
/// the first on-board neighbour; it stays where it is once the spot is free
/// (or once it has left the board).
pub open spec fn spawn_walk(s: MatchStateView, p: Point, k: nat) -> Option<Point>
    decreases k,
{
    if k == 0 {
        Some(p)
    } else {
        match spawn_walk(s, p, (k - 1) as nat) {
            None => None,
            Some(q) => if occupied(s, q) {
                first_neighbor(s.game_board, q)
            } else {
                Some(q)
            },
        }
    }
}

/// Whether the walk has stopped at `o`.
pub open spec fn settled(s: MatchStateView, o: Option<Point>) -> bool {
    match o {
        None => true,
        Some(q) => !occupied(s, q),
    }
}

/// Whether the walk from `p` stops.
pub open spec fn walk_stops(s: MatchStateView, p: Point) -> bool {
    exists|k: nat| settled(s, #[trigger] spawn_walk(s, p, k))
}

/// Where the walk from `p` stops.
pub open spec fn walk_end(s: MatchStateView, p: Point) -> Option<Point> {
    spawn_walk(s, p, choose|k: nat| settled(s, #[trigger] spawn_walk(s, p, k)))
}

/// The nearest unoccupied point found from `position`.
pub open spec fn nearest_unoccupied(s: MatchStateView, position: Option<Point>) -> Option<Point> {
    match position {
        None => None,
        Some(p) => walk_end(s, p),
    }
}

/// Where the walk stops is where it first stops.
pub proof fn lemma_walk_end(s: MatchStateView, p: Point, i: nat)
    requires
        walk_stops(s, p),
        settled(s, spawn_walk(s, p, i)),
    ensures
        walk_end(s, p) == spawn_walk(s, p, i),
{
    let k0 = choose|k: nat| settled(s, #[trigger] spawn_walk(s, p, k));
    if i <= k0 {
        lemma_walk_stays(s, p, i, k0);
    } else {
        lemma_walk_stays(s, p, k0, i);
    }
}

/// Once the walk has stopped it stays where it stopped.
pub proof fn lemma_walk_stays(s: MatchStateView, p: Point, k: nat, m: nat)
    requires
        settled(s, spawn_walk(s, p, k)),
        k <= m,
    ensures
        spawn_walk(s, p, m) == spawn_walk(s, p, k),
    decreases m - k,
{
    if k < m {
        lemma_walk_stays(s, p, k, (m - 1) as nat);
    }
}

// ---------------------------------------------------------------- damage

/// The ids in `ids` other than `to`.
pub open spec fn ids_except(ids: Seq<Seq<char>>, to: Seq<char>) -> Seq<Seq<char>>
    decreases ids.len(),
{
    if ids.len() == 0 {
        Seq::empty()
    } else if ids.last() != to {
        ids_except(ids.drop_last(), to).push(ids.last())
    } else {
        ids_except(ids.drop_last(), to)
    }
}

/// The events of `amt` damage from `from` to the mech `to` that has
/// `health` hit points: it takes the damage; if the damage is at least its
/// health it is destroyed, and if exactly one other mech is alive that mech
/// wins the match.
pub open spec fn damage_events(
    s: MatchStateView,
    from: DamageSourceView,
    to: Seq<char>,
    amt: u32,
    health: u32,
) -> Seq<GameEventView> {
    let taken = seq![GameEventView::DamageTaken { damage: amt, damage_source: from, damage_target: to }];
    if amt >= health {
        let rest = ids_except(alive_ids(s.mechs), to);
        let destroyed = taken.push(GameEventView::MechDestroyed { damage_target: to, damage_source: from });
        if rest.len() == 1 {
            destroyed.push(GameEventView::GameFinished { cause: EndCauseView::MechVictory(rest[0]) })
        } else {
            destroyed
        }
    } else {
        taken
    }
}

// ---------------------------------------------------------------- commands

/// Whether `mech` can pay for command `c`: it must be in the match and have
/// the command's action points left.
pub open spec fn can_take_action(s: MatchStateView, mech: Seq<char>, c: MechCommandView) -> bool {
    has_mech(s, mech) && find_mech(s, mech).unwrap().remaining_aps >= command_cost(c)
}

pub open spec fn consumed(mech: Seq<char>, c: MechCommandView) -> GameEventView {
    GameEventView::ActionPointsConsumed { mech, points_consumed: command_cost(c) }
}

/// A move: onto a free spot the mech moves; into another mech or off the
/// board it takes collision damage and stays.
pub open spec fn move_events(s: MatchStateView, mech: Seq<char>, dir: GridDirection, c: MechCommandView) -> Seq<GameEventView> {
    let me = find_mech(s, mech).unwrap();
    let first = match relative(me.position, s.game_board, dir, 1) {
        Some(p) => match mech_at(s, p) {
            Some(m) => GameEventView::DamageTaken {
                damage: WALL_DAMAGE,
                damage_source: DamageSourceView::MechCollision(m.name),
                damage_target: mech,
            },
            None => GameEventView::PositionUpdated { mech, position: p },
        },
        None => GameEventView::DamageTaken {
            damage_target: mech,
            damage: WALL_DAMAGE,
            damage_source: DamageSourceView::Wall,
        },
    };
    seq![first, consumed(mech, c)]
}

/// The mechs in the line of fire of `mech` in direction `dir`, up to `range`.
pub open spec fn line_of_fire(s: MatchStateView, mech: Seq<char>, dir: GridDirection, range: nat) -> Seq<(MechStateView, usize)> {
    targets_on(s, gather(find_mech(s, mech).unwrap().position, s.game_board, dir, range))
}

/// The primary weapon damages the first mech in its line of fire.
pub open spec fn fire_primary_events(s: MatchStateView, mech: Seq<char>, dir: GridDirection, c: MechCommandView) -> Seq<GameEventView> {
    let targets = line_of_fire(s, mech, dir, PRIMARY_RANGE as nat);
    let hit = if targets.len() > 0 {
        damage_events(s, DamageSourceView::MechWeapon(mech), targets[0].0.id, PRIMARY_DAMAGE, targets[0].0.health)
    } else {
        Seq::empty()
    };
    hit.push(consumed(mech, c))
}

/// The mechs standing on the given points.
pub open spec fn mechs_on(s: MatchStateView, pts: Seq<Point>) -> Seq<MechStateView>
    decreases pts.len(),
{
    if pts.len() == 0 {
        Seq::empty()
    } else {
        let rest = mechs_on(s, pts.drop_last());
        match mech_at(s, pts.last()) {
            Some(m) => rest.push(m),
            None => rest,
        }
    }
}

/// Splash damage from `mech`'s weapon to each of `ms`.
pub open spec fn splash_events(s: MatchStateView, mech: Seq<char>, ms: Seq<MechStateView>) -> Seq<GameEventView>
    decreases ms.len(),
{
    if ms.len() == 0 {
        Seq::empty()
    } else {
        splash_events(s, mech, ms.drop_last()) + damage_events(
            s,
            DamageSourceView::MechWeapon(mech),
            ms.last().id,
            SECONDARY_SPLASH_DAMAGE,
            ms.last().health,
        )
    }
}

/// The secondary weapon damages the first mech in its line of fire, or else
/// lands at full range (which may be off the board); around the landing
/// point every mech takes splash damage.
pub open spec fn fire_secondary_events(s: MatchStateView, mech: Seq<char>, dir: GridDirection, c: MechCommandView) -> Seq<GameEventView> {
    let targets = line_of_fire(s, mech, dir, SECONDARY_RANGE as nat);
    let hit = if targets.len() > 0 {
        damage_events(s, DamageSourceView::MechWeapon(mech), targets[0].0.id, SECONDARY_DAMAGE, targets[0].0.health)
    } else {
        Seq::empty()
    };
    let landing = if targets.len() > 0 {
        Some(targets[0].0.position)
    } else {
        relative(find_mech(s, mech).unwrap().position, s.game_board, dir, SECONDARY_RANGE as int)
    };
    let splash = match landing {
        Some(o) => splash_events(s, mech, mechs_on(s, adjacent(o, s.game_board))),
        None => Seq::empty(),
    };
    (hit + splash).push(consumed(mech, c))
}

/// A radar scan records what the mech's radar sees.
pub open spec fn radar_events(s: MatchStateView, mech: Seq<char>, c: MechCommandView) -> Seq<GameEventView> {
    let me = find_mech(s, mech).unwrap();
    seq![
        GameEventView::RadarScanCompleted { actor: mech, results: radar_pings_of(s, me.position, me.team) },
        consumed(mech, c),
    ]
}

/// Whether finishing turn `turn` of `mech` is refused, and why.
pub open spec fn finish_turn_error(s: MatchStateView, mech: Seq<char>, turn: u32) -> Option<CommandError> {
    if !has_mech(s, mech) {
        Some(CommandError::MechNotInMatch)
    } else if s.turn_status.taken.contains(mech) && s.turn_status.current == turn {
        Some(CommandError::TurnAlreadyFinished)
    } else {
        None
    }
}

/// Finishing a turn: when every actor has finished it the match turn
/// advances, and when that completes the last turn the match ends with the
/// survivors.
pub open spec fn finish_turn_events(s: MatchStateView, mech: Seq<char>, turn: u32) -> Seq<GameEventView> {
    let done = seq![GameEventView::MechTurnCompleted { mech, turn }];
    if s.turn_status.taken.len() == s.parameters.actors.len() - 1 {
        let advanced = done.push(GameEventView::MatchTurnCompleted { new_turn: (s.turn_status.current + 1) as u32 });
        if s.turn_status.current == s.parameters.max_turns - 1 {
            advanced.push(GameEventView::GameFinished {
                cause: EndCauseView::MaxTurnsCompleted { survivors: alive_ids(s.mechs) },
            })
        } else {
            advanced
        }
    } else {
        done
    }
}

/// Whether `reg` holds numbers.
pub open spec fn numeric_register(reg: u32) -> bool {
    reg == EAX || reg == ECX
}

/// The register update a register command asks for, if it is a valid one:
/// the numeric registers (EAX, ECX) accumulate, saturating at the largest
/// number, and decrement, stopping at zero, and take numbers; an
/// uninitialised register accumulates from zero; the text register (EBX)
/// takes text. Every other request changes nothing.
pub open spec fn register_events(s: MatchStateView, mech: Seq<char>, reg: u32, op: RegisterOperationView) -> Seq<GameEventView> {
    let current = register_get(find_mech(s, mech).unwrap().registers, reg);
    let update = |v: RegisterValueView| seq![GameEventView::RegisterUpdate { mech, reg, val: v }];
    match op {
        RegisterOperationView::Accumulate(acc) => if numeric_register(reg) {
            match current {
                Some(RegisterValueView::Number(n)) => update(
                    RegisterValueView::Number(if u64::MAX - n < acc { u64::MAX } else { (n + acc) as u64 }),
                ),
                None => update(RegisterValueView::Number(acc)),
                _ => Seq::empty(),
            }
        } else {
            Seq::empty()
        },
        RegisterOperationView::Decrement(dec) => if numeric_register(reg) {
            match current {
                Some(RegisterValueView::Number(n)) => update(
                    RegisterValueView::Number(if n < dec { 0 } else { (n - dec) as u64 }),
                ),
                _ => Seq::empty(),
            }
        } else {
            Seq::empty()
        },
        RegisterOperationView::Assign(v) => match v {
            RegisterValueView::Number(_) => if numeric_register(reg) { update(v) } else { Seq::empty() },
            RegisterValueView::Text(_) => if reg == EBX { update(v) } else { Seq::empty() },
        },
    }
}

/// What handling command `c` yields on `s`.
pub open spec fn handled(s: MatchStateView, c: MechCommandView) -> Result<Seq<GameEventView>, CommandError> {
    match c {
        MechCommandView::Move { mech, direction, .. } => if !can_take_action(s, mech, c) {
            Ok(seq![GameEventView::ActionPointsExceeded { mech, cmd: c }])
        } else {
            Ok(move_events(s, mech, direction, c))
        },
        MechCommandView::FirePrimary { mech, direction, .. } => if !can_take_action(s, mech, c) {
            Ok(seq![GameEventView::ActionPointsExceeded { mech, cmd: c }])
        } else {
            Ok(fire_primary_events(s, mech, direction, c))
        },
        MechCommandView::FireSecondary { mech, direction, .. } => if !can_take_action(s, mech, c) {
            Ok(seq![GameEventView::ActionPointsExceeded { mech, cmd: c }])
        } else {
            Ok(fire_secondary_events(s, mech, direction, c))
        },
        MechCommandView::RequestRadarScan { mech, .. } => if !can_take_action(s, mech, c) {
            Ok(seq![GameEventView::ActionPointsExceeded { mech, cmd: c }])
        } else {
            Ok(radar_events(s, mech, c))
        },
        MechCommandView::SpawnMech { mech, position, team, avatar, name } => Ok(
            seq![
                GameEventView::MechSpawned {
                    mech,
                    position: walk_end(s, position).unwrap(),
                    team,
                    avatar,
                    name,
                },
            ],
        ),
        MechCommandView::FinishTurn { mech, turn } => match finish_turn_error(s, mech, turn) {
            Some(e) => Err(e),
            None => Ok(finish_turn_events(s, mech, turn)),
        },
        MechCommandView::RegisterUpdate { mech, reg, op, .. } => Ok(register_events(s, mech, reg, op)),
    }
}

/// The inputs on which handling a command is defined: a spawn needs a free
/// spot that the walk from the requested position reaches; a register
/// update needs its mech; finishing a turn needs a match with actors and
/// turns, and a turn counter that can advance.
pub open spec fn command_defined(s: MatchStateView, c: MechCommandView) -> bool {
    match c {
        MechCommandView::SpawnMech { position, .. } => walk_stops(s, position) && walk_end(s, position) is Some,
        MechCommandView::RegisterUpdate { mech, .. } => has_mech(s, mech),
        MechCommandView::FinishTurn { mech, turn } => finish_turn_error(s, mech, turn) is None ==> {
            &&& s.parameters.actors.len() >= 1
            &&& s.parameters.max_turns >= 1
            &&& (s.turn_status.taken.len() == s.parameters.actors.len() - 1 ==> s.turn_status.current < u32::MAX)
        },
        _ => true,
    }
}

pub open spec fn result_view(r: Result<Vec<GameEvent>, CommandError>) -> Result<Seq<GameEventView>, CommandError> {
    match r {
        Ok(v) => Ok(events_view(v@)),
        Err(e) => Err(e),
    }
}

/// The match aggregate.
pub struct Match;

impl MatchState {
    /// The nearest unoccupied point from `position`: the point itself when it
    /// is free, else the walk through first on-board neighbours until a free
    /// point is found (none when the walk leaves the board).
    pub fn nearest_unoccupied(state: &MatchState, position: &Option<Point>) -> (r: Option<Point>)
        requires
            position matches Some(p) ==> walk_stops(state@, *p),
        ensures
            r == nearest_unoccupied(state@, *position),
    {
        match position {
            None => None,
            Some(p) => {
                let ghost s = state@;
                let ghost k0 = choose|k: nat| settled(s, #[trigger] spawn_walk(s, *p, k));
                let mut cur = *p;
                let ghost mut i: nat = 0;
                loop
                    invariant
                        s == state@,
                        *position == Some(*p),
                        walk_stops(s, *p),
                        settled(s, spawn_walk(s, *p, k0)),
                        k0 == choose|k: nat| settled(s, #[trigger] spawn_walk(s, *p, k)),
                        spawn_walk(s, *p, i) == Some(cur),
                        i <= k0,
                    decreases k0 - i,
                {
                    match MatchState::mech_at(state, &cur) {
                        None => {
                            proof {
                                lemma_walk_end(s, *p, i);
                            }
                            return Some(cur);
                        },
                        Some(_) => {
                            proof {
                                if k0 <= i {
                                    lemma_walk_stays(s, *p, k0, i);
                                }
                            }
                            let adj = cur.adjacent_points(&state.game_board);
                            if adj.len() == 0 {
                                proof {
                                    assert(spawn_walk(s, *p, i + 1) is None);
                                    lemma_walk_end(s, *p, i + 1);
                                }
                                return None;
                            }
                            cur = adj[0];
                            proof {
                                i = i + 1;
                            }
                        },
                    }
                }
            },
        }
    }

    /// Fails unless the mech `mech` is in the match.
    pub fn validate_has_mech(state: &MatchState, mech: &String) -> (r: Result<(), CommandError>)
        ensures
            r is Ok <==> has_mech(state@, mech@),
            r is Err ==> r == Err::<(), CommandError>(CommandError::MechNotInMatch),
    {
        if !state.contains_mech(mech) {
            Err(CommandError::MechNotInMatch)
        } else {
            Ok(())
        }
    }

    /// Fails unless the mech `mech` is in the match and can pay for `cmd`.
    pub fn validate_can_take_action(state: &MatchState, mech: &String, cmd: &MechCommand) -> (r: Result<(), CommandError>)
        ensures
            r is Ok <==> can_take_action(state@, mech@, cmd@),
            !has_mech(state@, mech@) ==> r == Err::<(), CommandError>(CommandError::MechNotInMatch),
            has_mech(state@, mech@) && r is Err ==> r == Err::<(), CommandError>(CommandError::ActionsExceeded),
    {
        match state.index_of_mech(mech) {
            None => Err(CommandError::MechNotInMatch),
            Some(i) => {
                assert(state@.mechs[i as int] == state.mechs@[i as int]@);
                if state.mechs[i].remaining_aps >= cmd.action_points() {
                    Ok(())
                } else {
                    Err(CommandError::ActionsExceeded)
                }
            },
        }
    }
}

impl Match {
    /// Applies an event to a match state. Spawning adds (or replaces) a mech;
    /// moves, damage and destruction change one mech and count a generation;
    /// action points are deducted; turns advance; radar scans, the end of the
    /// match and register values are recorded.
    pub fn apply_event(state: &MatchState, evt: &GameEvent) -> (r: Result<MatchState, CommandError>)
        requires
            event_applicable(state@, evt@),
        ensures
            r matches Ok(n) && n@ == applied(state@, evt@),
    {
        let mut s = state.clone();
        match evt {
            GameEvent::MechSpawned { mech, position, team, avatar, name } => {
                s.insert_mech(mech, *position, team, avatar, name);
            },
            GameEvent::RadarScanCompleted { actor, results } => {
                s.update_radar(actor, results);
            },
            GameEvent::PositionUpdated { mech, position } => {
                s.set_position(mech, *position);
            },
            GameEvent::ActionPointsConsumed { mech, points_consumed } => {
                s.deduct_mech_action_points(mech, *points_consumed);
            },
            GameEvent::ActionPointsExceeded { .. } => {},
            GameEvent::DamageTaken { damage_target, damage, .. } => {
                s.take_damage(damage_target, *damage);
            },
            GameEvent::MechDestroyed { damage_target, .. } => {
                s.destroy_mech(damage_target);
            },
            GameEvent::MatchTurnCompleted { new_turn } => {
                s.advance_match_turn(*new_turn);
            },
            GameEvent::MechTurnCompleted { mech, .. } => {
                s.advance_mech_turn(mech);
            },
            GameEvent::GameFinished { cause } => {
                s.finish_game(cause);
            },
            GameEvent::RegisterUpdate { mech, reg, val } => {
                s.update_register(mech, *reg, val);
            },
        }
        Ok(s)
    }

    /// The ids of the mechs still alive.
    fn living_mechs(state: &MatchState) -> (ids: Vec<String>)
        ensures
            strings_view(ids@) == alive_ids(state@.mechs),
    {
        MatchState::remaining_alive(state)
    }

    /// The events of `amt` damage from `from` to the mech `to` that has
    /// `remaining_health` hit points.
    fn do_damage(state: &MatchState, from: DamageSource, to: &String, amt: u32, remaining_health: u32) -> (evts: Vec<GameEvent>)
        ensures
            events_view(evts@) == damage_events(state@, from@, to@, amt, remaining_health),
    {
        let mut evts: Vec<GameEvent> = Vec::new();
        let e = GameEvent::DamageTaken { damage: amt, damage_source: from.clone(), damage_target: to.clone() };
        let ghost ev = e@;
        evts.push(e);
        assert(events_view(evts@) =~= seq![ev]);
        if amt >= remaining_health {
            let e2 = GameEvent::MechDestroyed { damage_target: to.clone(), damage_source: from.clone() };
            let ghost before = evts@;
            let ghost ev2 = e2@;
            evts.push(e2);
            assert(events_view(evts@) =~= events_view(before).push(ev2));
            let living = Self::living_mechs(state);
            let ghost lv = strings_view(living@);
            let mut remaining: Vec<String> = Vec::new();
            let mut j: usize = 0;
            while j < living.len()
                invariant
                    j <= living.len(),
                    lv == strings_view(living@),
                    strings_view(remaining@) == ids_except(lv.subrange(0, j as int), to@),
                decreases living.len() - j,
            {
                proof {
                    assert(lv.subrange(0, j + 1).drop_last() =~= lv.subrange(0, j as int));
                }
                if !(living[j] == *to) {
                    let id = living[j].clone();
                    let ghost b = remaining@;
                    remaining.push(id);
                    assert(strings_view(remaining@) =~= strings_view(b).push(id@));
                }
                j = j + 1;
            }
            assert(lv.subrange(0, j as int) =~= lv);
            if remaining.len() == 1 {
                let winner = remaining[0].clone();
                let e3 = GameEvent::GameFinished { cause: EndCause::MechVictory(winner) };
                let ghost before = evts@;
                let ghost ev3 = e3@;
                evts.push(e3);
                assert(events_view(evts@) =~= events_view(before).push(ev3));
            }
        }
        evts
    }

    /// Moves the mech one unit in direction `dir`.
    fn handle_move(state: &MatchState, mech: &String, dir: &GridDirection, cmd: &MechCommand) -> (r: Result<Vec<GameEvent>, CommandError>)
        ensures
            !has_mech(state@, mech@) ==> r == Err::<Vec<GameEvent>, CommandError>(CommandError::MechNotInMatch),
            has_mech(state@, mech@) ==> result_view(r) == Ok::<Seq<GameEventView>, CommandError>(move_events(state@, mech@, *dir, cmd@)),
    {
        if let Err(e) = MatchState::validate_has_mech(state, mech) {
            return Err(e);
        }
        let i = state.index_of_mech(mech).unwrap();
        assert(state@.mechs[i as int] == state.mechs@[i as int]@);
        let first = match state.mechs[i].position.relative_point(&state.game_board, dir, 1) {
            Some(p) => {
                match MatchState::mech_at(state, &p) {
                    Some(m) => GameEvent::DamageTaken {
                        damage: WALL_DAMAGE,
                        damage_source: DamageSource::MechCollision(m.name),
                        damage_target: mech.clone(),
                    },
                    None => GameEvent::PositionUpdated { mech: mech.clone(), position: p },
                }
            },
            None => GameEvent::DamageTaken {
                damage_target: mech.clone(),
                damage: WALL_DAMAGE,
                damage_source: DamageSource::Wall,
            },
        };
        let second = GameEvent::ActionPointsConsumed { mech: mech.clone(), points_consumed: cmd.action_points() };
        let ghost v1 = first@;
        let ghost v2 = second@;
        let mut evts: Vec<GameEvent> = Vec::new();
        evts.push(first);
        evts.push(second);
        assert(events_view(evts@) =~= seq![v1, v2]);
        Ok(evts)
    }

    /// The mechs in the line of fire of the mech at index `i`.
    fn targets_from(state: &MatchState, i: usize, mech: &String, dir: &GridDirection, range: usize) -> (r: Vec<(MechState, usize)>)
        requires
            has_mech(state@, mech@),
            i as int == crate::state::mech_index(state@, mech@),
            i < state.mechs.len(),
        ensures
            targets_view(r@) == line_of_fire(state@, mech@, *dir, range as nat),
    {
        assert(state@.mechs[i as int] == state.mechs@[i as int]@);
        let points = state.mechs[i].position.gather_points(&state.game_board, dir, range);
        targets_in(state, &points)
    }

    /// Fires the primary weapon in direction `dir`.
    fn handle_fire_primary(state: &MatchState, mech: &String, dir: &GridDirection, cmd: &MechCommand) -> (r: Result<Vec<GameEvent>, CommandError>)
        requires
            has_mech(state@, mech@),
        ensures
            result_view(r) == Ok::<Seq<GameEventView>, CommandError>(fire_primary_events(state@, mech@, *dir, cmd@)),
    {
        let i = state.index_of_mech(mech).unwrap();
        let targets = Self::targets_from(state, i, mech, dir, PRIMARY_RANGE);
        let ghost line = line_of_fire(state@, mech@, *dir, PRIMARY_RANGE as nat);
        assert(targets_view(targets@).len() == targets@.len());
        let mut evts: Vec<GameEvent> = Vec::new();
        if targets.len() > 0 {
            assert(targets_view(targets@)[0] == (targets@[0].0@, targets@[0].1));
            let mut hit = Self::do_damage(
                state,
                DamageSource::MechWeapon(mech.clone()),
                &targets[0].0.id,
                PRIMARY_DAMAGE,
                targets[0].0.health,
            );
            let ghost hv = events_view(hit@);
            evts.append(&mut hit);
            assert(events_view(evts@) =~= hv);
            assert(hv == damage_events(state@, DamageSourceView::MechWeapon(mech@), line[0].0.id, PRIMARY_DAMAGE, line[0].0.health));
        } else {
            assert(events_view(evts@) =~= Seq::<GameEventView>::empty());
        }
        let last = GameEvent::ActionPointsConsumed { mech: mech.clone(), points_consumed: cmd.action_points() };
        let ghost before = evts@;
        let ghost lv = last@;
        evts.push(last);
        assert(events_view(evts@) =~= events_view(before).push(lv));
        Ok(evts)
    }

    /// The mechs standing on the given points.
    fn mechs_on_points(state: &MatchState, pts: &Vec<Point>) -> (r: Vec<MechState>)
        ensures
            mechs_view(r@) == mechs_on(state@, pts@),
    {
        let mut out: Vec<MechState> = Vec::new();
        let mut i: usize = 0;
        while i < pts.len()
            invariant
                i <= pts.len(),
                mechs_view(out@) == mechs_on(state@, pts@.subrange(0, i as int)),
            decreases pts.len() - i,
        {
            proof {
                assert(pts@.subrange(0, i + 1).drop_last() =~= pts@.subrange(0, i as int));
            }
            match MatchState::mech_at(state, &pts[i]) {
                Some(m) => {
                    let ghost before = out@;
                    let ghost mv = m@;
                    out.push(m);
                    assert(mechs_view(out@) =~= mechs_view(before).push(mv));
                },
                None => {},
            }
            i = i + 1;
        }
        assert(pts@.subrange(0, i as int) =~= pts@);
        out
    }

    /// Fires the secondary weapon in direction `dir`.
    fn handle_fire_secondary(state: &MatchState, mech: &String, dir: &GridDirection, cmd: &MechCommand) -> (r: Result<Vec<GameEvent>, CommandError>)
        requires
            has_mech(state@, mech@),
        ensures
            result_view(r) == Ok::<Seq<GameEventView>, CommandError>(fire_secondary_events(state@, mech@, *dir, cmd@)),
    {
        let i = state.index_of_mech(mech).unwrap();
        let targets = Self::targets_from(state, i, mech, dir, SECONDARY_RANGE);
        let ghost line = line_of_fire(state@, mech@, *dir, SECONDARY_RANGE as nat);
        assert(targets_view(targets@).len() == targets@.len());
        let mut evts: Vec<GameEvent> = Vec::new();
        let splash_origin: Option<Point> = if targets.len() > 0 {
            assert(targets_view(targets@)[0] == (targets@[0].0@, targets@[0].1));
            let mut hit = Self::do_damage(
                state,
                DamageSource::MechWeapon(mech.clone()),
                &targets[0].0.id,
                SECONDARY_DAMAGE,
                targets[0].0.health,
            );
            let ghost hv = events_view(hit@);
            evts.append(&mut hit);
            assert(events_view(evts@) =~= hv);
            assert(hv == damage_events(state@, DamageSourceView::MechWeapon(mech@), line[0].0.id, SECONDARY_DAMAGE, line[0].0.health));
            Some(targets[0].0.position)
        } else {
            assert(events_view(evts@) =~= Seq::<GameEventView>::empty());
            assert(state@.mechs[i as int] == state.mechs@[i as int]@);
            state.mechs[i].position.relative_point(&state.game_board, dir, SECONDARY_RANGE as i32)
        };
        let ghost hitv = events_view(evts@);
        if let Some(o) = splash_origin {
            let adj = o.adjacent_points(&state.game_board);
            let ms = Self::mechs_on_points(state, &adj);
            let ghost msv = mechs_view(ms@);
            let ghost base = evts@;
            let mut j: usize = 0;
            while j < ms.len()
                invariant
                    j <= ms.len(),
                    msv == mechs_view(ms@),
                    events_view(evts@) == events_view(base) + splash_events(state@, mech@, msv.subrange(0, j as int)),
                decreases ms.len() - j,
            {
                proof {
                    assert(msv.subrange(0, j + 1).drop_last() =~= msv.subrange(0, j as int));
                    assert(msv[j as int] == ms@[j as int]@);
                }
                let ghost before = evts@;
                let mut d = Self::do_damage(
                    state,
                    DamageSource::MechWeapon(mech.clone()),
                    &ms[j].id,
                    SECONDARY_SPLASH_DAMAGE,
                    ms[j].health,
                );
                let ghost dv = d@;
                evts.append(&mut d);
                assert(events_view(evts@) =~= events_view(before) + events_view(dv));
                j = j + 1;
            }
            assert(msv.subrange(0, j as int) =~= msv);
        } else {
            assert(hitv + Seq::<GameEventView>::empty() =~= hitv);
        }
        let last = GameEvent::ActionPointsConsumed { mech: mech.clone(), points_consumed: cmd.action_points() };
        let ghost before = evts@;
        let ghost lv = last@;
        evts.push(last);
        assert(events_view(evts@) =~= events_view(before).push(lv));
        Ok(evts)
    }

    /// Performs a radar scan for the mech.
    fn handle_radar(state: &MatchState, mech: &String, cmd: &MechCommand) -> (r: Result<Vec<GameEvent>, CommandError>)
        requires
            has_mech(state@, mech@),
        ensures
            result_view(r) == Ok::<Seq<GameEventView>, CommandError>(radar_events(state@, mech@, cmd@)),
    {
        let i = state.index_of_mech(mech).unwrap();
        assert(state@.mechs[i as int] == state.mechs@[i as int]@);
        let pings = radar_ping(state, &state.mechs[i].position, state.mechs[i].team.as_str());
        let first = GameEvent::RadarScanCompleted { actor: mech.clone(), results: pings };
        let second = GameEvent::ActionPointsConsumed { mech: mech.clone(), points_consumed: cmd.action_points() };
        let ghost v1 = first@;
        let ghost v2 = second@;
        let mut evts: Vec<GameEvent> = Vec::new();
        evts.push(first);
        evts.push(second);
        assert(events_view(evts@) =~= seq![v1, v2]);
        Ok(evts)
    }

    /// Marks turn `turn` of the mech finished.
    fn handle_turn_finish(state: &MatchState, mech: &String, turn: u32) -> (r: Result<Vec<GameEvent>, CommandError>)
        requires
            command_defined(state@, MechCommandView::FinishTurn { mech: mech@, turn }),
        ensures
            result_view(r) == handled(state@, MechCommandView::FinishTurn { mech: mech@, turn }),
    {
        match MatchState::validate_has_mech(state, mech) {
            Err(e) => {
                return Err(e);
            },
            Ok(()) => {},
        }
        if crate::events::contains_string(&state.turn_status.taken, mech) && state.turn_status.current == turn {
            Err(CommandError::TurnAlreadyFinished)
        } else {
            let mut evts: Vec<GameEvent> = Vec::new();
            let e1 = GameEvent::MechTurnCompleted { mech: mech.clone(), turn };
            let ghost v1 = e1@;
            evts.push(e1);
            assert(events_view(evts@) =~= seq![v1]);
            if state.turn_status.taken.len() == state.parameters.actors.len() - 1 {
                let e2 = GameEvent::MatchTurnCompleted { new_turn: state.turn_status.current + 1 };
                let ghost before = evts@;
                let ghost v2 = e2@;
                evts.push(e2);
                assert(events_view(evts@) =~= events_view(before).push(v2));
                if state.turn_status.current == state.parameters.max_turns - 1 {
                    let survivors = MatchState::remaining_alive(state);
                    let e3 = GameEvent::GameFinished { cause: EndCause::MaxTurnsCompleted { survivors } };
                    let ghost before = evts@;
                    let ghost v3 = e3@;
                    evts.push(e3);
                    assert(events_view(evts@) =~= events_view(before).push(v3));
                }
            }
            Ok(evts)
        }
    }

    /// Updates a register of the mech when the operation is a valid one.
    fn handle_register_update(state: &MatchState, cmd: &MechCommand) -> (r: Result<Vec<GameEvent>, CommandError>)
        requires
            cmd is RegisterUpdate,
            command_defined(state@, cmd@),
        ensures
            result_view(r) == handled(state@, cmd@),
    {
        let mut evts: Vec<GameEvent> = Vec::new();
        if let MechCommand::RegisterUpdate { mech, reg, op, .. } = cmd {
            let i = state.index_of_mech(mech).unwrap();
            assert(state@.mechs[i as int] == state.mechs@[i as int]@);
            let regs = &state.mechs[i].registers;
            let current: Option<&RegisterValue> = match find_register(regs, *reg) {
                Some(k) => {
                    assert(registers_view(regs@)[k as int] == (regs@[k as int].0, regs@[k as int].1@));
                    Some(&regs[k].1)
                },
                None => None,
            };
            let numeric = *reg == EAX || *reg == ECX;
            let val: Option<RegisterValue> = match op {
                RegisterOperation::Accumulate(acc) => {
                    if numeric {
                        match current {
                            Some(RegisterValue::Number(n)) => {
                                let v = if u64::MAX - *n < *acc { u64::MAX } else { *n + *acc };
                                Some(RegisterValue::Number(v))
                            },
                            None => Some(RegisterValue::Number(*acc)),
                            _ => None,
                        }
                    } else {
                        None
                    }
                },
                RegisterOperation::Decrement(dec) => {
                    if numeric {
                        match current {
                            Some(RegisterValue::Number(n)) => {
                                let v = if *n < *dec { 0 } else { *n - *dec };
                                Some(RegisterValue::Number(v))
                            },
                            _ => None,
                        }
                    } else {
                        None
                    }
                },
                RegisterOperation::Assign(v) => {
                    match v {
                        RegisterValue::Number(_) => if numeric { Some(v.clone()) } else { None },
                        RegisterValue::Text(_) => if *reg == EBX { Some(v.clone()) } else { None },
                    }
                },
            };
            if let Some(v) = val {
                let e = GameEvent::RegisterUpdate { mech: mech.clone(), reg: *reg, val: v };
                let ghost ev = e@;
                evts.push(e);
                assert(events_view(evts@) =~= seq![ev]);
            } else {
                assert(events_view(evts@) =~= Seq::<GameEventView>::empty());
            }
        }
        Ok(evts)
    }

    /// Handles a command: actions the mech cannot pay for become an
    /// `ActionPointsExceeded` event; moves, weapons and radar scans produce
    /// their events; spawning places the mech at the nearest free spot;
    /// finishing a turn may advance or end the match; register commands
    /// update a register when valid.
    pub fn handle_command(state: &MatchState, cmd: &MechCommand) -> (r: Result<Vec<GameEvent>, CommandError>)
        requires
            command_defined(state@, cmd@),
        ensures
            result_view(r) == handled(state@, cmd@),
    {
        match cmd {
            MechCommand::Move { mech, direction, .. } => {
                if MatchState::validate_can_take_action(state, mech, cmd).is_err() {
                    Self::exceeded(mech, cmd)
                } else {
                    Self::handle_move(state, mech, direction, cmd)
                }
            },
            MechCommand::FirePrimary { mech, direction, .. } => {
                if MatchState::validate_can_take_action(state, mech, cmd).is_err() {
                    Self::exceeded(mech, cmd)
                } else {
                    Self::handle_fire_primary(state, mech, direction, cmd)
                }
            },
            MechCommand::FireSecondary { mech, direction, .. } => {
                if MatchState::validate_can_take_action(state, mech, cmd).is_err() {
                    Self::exceeded(mech, cmd)
                } else {
                    Self::handle_fire_secondary(state, mech, direction, cmd)
                }
            },
            MechCommand::RequestRadarScan { mech, .. } => {
                if MatchState::validate_can_take_action(state, mech, cmd).is_err() {
                    Self::exceeded(mech, cmd)
                } else {
                    Self::handle_radar(state, mech, cmd)
                }
            },
            MechCommand::SpawnMech { mech, position, team, avatar, name } => {
                let p = MatchState::nearest_unoccupied(state, &Some(*position));
                let e = GameEvent::MechSpawned {
                    mech: mech.clone(),
                    position: p.unwrap(),
                    team: team.clone(),
                    avatar: avatar.clone(),
                    name: name.clone(),
                };
                let ghost ev = e@;
                let mut evts: Vec<GameEvent> = Vec::new();
                evts.push(e);
                assert(events_view(evts@) =~= seq![ev]);
                Ok(evts)
            },
            MechCommand::FinishTurn { mech, turn } => Self::handle_turn_finish(state, mech, *turn),
            MechCommand::RegisterUpdate { .. } => Self::handle_register_update(state, cmd),
        }
    }

    /// The single event of a command the mech cannot pay for.
    fn exceeded(mech: &String, cmd: &MechCommand) -> (r: Result<Vec<GameEvent>, CommandError>)
        ensures
            result_view(r) == Ok::<Seq<GameEventView>, CommandError>(
                seq![GameEventView::ActionPointsExceeded { mech: mech@, cmd: cmd@ }],
            ),
    {
        let e = GameEvent::ActionPointsExceeded { mech: mech.clone(), cmd: cmd.clone() };
        let ghost ev = e@;
        let mut evts: Vec<GameEvent> = Vec::new();
        evts.push(e);
        assert(events_view(evts@) =~= seq![ev]);
        Ok(evts)
    }
}

} // verus!
