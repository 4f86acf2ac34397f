//! Processing a mech's turn: each command is handled against the state the
//! earlier ones left, and its events are applied in order.

use vstd::prelude::*;
use crate::commands::{MechCommand, MechCommandView};
use crate::engine::{event_applicable, command_defined, handled, settled, spawn_walk, walk_end, walk_stops, lemma_walk_end, Match, CommandError};
use crate::events::{events_view, strings_view, GameEvent, GameEventView};
use crate::geometry::Point;
use crate::laws::{all_applicable, apply_all, lemma_command_events_apply};
use crate::state::{occupied, distinct_ids, distinct_scans, mechs_view, radar_view, well_formed, registers_keyed, MatchState, MatchStateView, MechState};
use crate::registers::{distinct_registers, registers_view, RegisterValue};

verus! {

/// The largest generation a state may have for a command to be handled:
/// a command yields at most this many events short of the counter's end.
pub open spec fn room_for_command(s: MatchStateView) -> bool {
    s.generation + 28 <= u64::MAX
}

/// Whether the mechs of a list have pairwise distinct ids.
fn mech_ids_distinct(mechs: &Vec<MechState>) -> (b: bool)
    ensures
        b == distinct_ids(mechs_view(mechs@)),
{
    let ghost v = mechs_view(mechs@);
    let mut i: usize = 0;
    while i < mechs.len()
        invariant
            i <= mechs.len(),
            v == mechs_view(mechs@),
            forall|a: int, b: int| 0 <= a < b < mechs@.len() && a < i ==> v[a].id != v[b].id,
        decreases mechs.len() - i,
    {
        let mut j: usize = i + 1;
        while j < mechs.len()
            invariant
                i < mechs.len(),
                i + 1 <= j <= mechs.len(),
                v == mechs_view(mechs@),
                forall|a: int, b: int| 0 <= a < b < mechs@.len() && a < i ==> v[a].id != v[b].id,
                forall|b: int| i < b < j ==> v[i as int].id != v[b].id,
            decreases mechs.len() - j,
        {
            if mechs[i].id == mechs[j].id {
                assert(v[i as int].id == v[j as int].id);
                return false;
            }
            j = j + 1;
        }
        i = i + 1;
    }
    true
}

/// Whether the scans of a list belong to pairwise distinct actors.
fn scan_actors_distinct(scans: &Vec<(String, Vec<crate::radar::RadarPing>)>) -> (b: bool)
    ensures
        b == distinct_scans(radar_view(scans@)),
{
    let ghost v = radar_view(scans@);
    let mut i: usize = 0;
    while i < scans.len()
        invariant
            i <= scans.len(),
            v == radar_view(scans@),
            forall|a: int, b: int| 0 <= a < b < scans@.len() && a < i ==> v[a].0 != v[b].0,
        decreases scans.len() - i,
    {
        let mut j: usize = i + 1;
        while j < scans.len()
            invariant
                i < scans.len(),
                i + 1 <= j <= scans.len(),
                v == radar_view(scans@),
                forall|a: int, b: int| 0 <= a < b < scans@.len() && a < i ==> v[a].0 != v[b].0,
                forall|b: int| i < b < j ==> v[i as int].0 != v[b].0,
            decreases scans.len() - j,
        {
            if scans[i].0 == scans[j].0 {
                assert(v[i as int].0 == v[j as int].0);
                return false;
            }
            j = j + 1;
        }
        i = i + 1;
    }
    true
}

/// Whether a list of strings holds each string once.
fn strings_distinct(v: &Vec<String>) -> (b: bool)
    ensures
        b == strings_view(v@).no_duplicates(),
{
    let ghost sv = strings_view(v@);
    let mut i: usize = 0;
    while i < v.len()
        invariant
            i <= v.len(),
            sv == strings_view(v@),
            forall|a: int, b: int| 0 <= a < b < v@.len() && a < i ==> sv[a] != sv[b],
        decreases v.len() - i,
    {
        let mut j: usize = i + 1;
        while j < v.len()
            invariant
                i < v.len(),
                i + 1 <= j <= v.len(),
                sv == strings_view(v@),
                forall|a: int, b: int| 0 <= a < b < v@.len() && a < i ==> sv[a] != sv[b],
                forall|b: int| i < b < j ==> sv[i as int] != sv[b],
            decreases v.len() - j,
        {
            if v[i] == v[j] {
                assert(sv[i as int] == sv[j as int]);
                return false;
            }
            j = j + 1;
        }
        i = i + 1;
    }
    assert forall|a: int, b: int| 0 <= a < sv.len() && 0 <= b < sv.len() && a != b implies sv[a] != sv[b] by {
        if a > b {
            assert(sv[b] != sv[a]);
        }
    }
    true
}

/// Whether register entries name each register once.
fn register_entries_distinct(regs: &Vec<(u32, RegisterValue)>) -> (b: bool)
    ensures
        b == distinct_registers(registers_view(regs@)),
{
    let ghost v = registers_view(regs@);
    let mut i: usize = 0;
    while i < regs.len()
        invariant
            i <= regs.len(),
            v == registers_view(regs@),
            forall|a: int, b: int| 0 <= a < b < regs@.len() && a < i ==> v[a].0 != v[b].0,
        decreases regs.len() - i,
    {
        let mut j: usize = i + 1;
        while j < regs.len()
            invariant
                i < regs.len(),
                i + 1 <= j <= regs.len(),
                v == registers_view(regs@),
                forall|a: int, b: int| 0 <= a < b < regs@.len() && a < i ==> v[a].0 != v[b].0,
                forall|b: int| i < b < j ==> v[i as int].0 != v[b].0,
            decreases regs.len() - j,
        {
            if regs[i].0 == regs[j].0 {
                assert(v[i as int].0 == v[j as int].0);
                return false;
            }
            j = j + 1;
        }
        i = i + 1;
    }
    true
}

/// Whether every mech of a list names each of its registers once.
fn mech_registers_distinct(mechs: &Vec<MechState>) -> (b: bool)
    ensures
        b == registers_keyed(mechs_view(mechs@)),
{
    let ghost v = mechs_view(mechs@);
    let mut i: usize = 0;
    while i < mechs.len()
        invariant
            i <= mechs.len(),
            v == mechs_view(mechs@),
            forall|k: int| 0 <= k < i ==> distinct_registers(#[trigger] v[k].registers),
        decreases mechs.len() - i,
    {
        assert(v[i as int].registers == registers_view(mechs@[i as int].registers@));
        if !register_entries_distinct(&mechs[i].registers) {
            return false;
        }
        i = i + 1;
    }
    true
}

/// Whether a match state has the shape every state the engine builds has.
pub fn is_well_formed(state: &MatchState) -> (b: bool)
    ensures
        b == well_formed(state@),
{
    mech_ids_distinct(&state.mechs) && scan_actors_distinct(&state.radar_pings) && strings_distinct(&state.turn_status.taken)
        && mech_registers_distinct(&state.mechs)
}

/// Whether the walk that looks for a free spot, started at `p`, reaches a
/// free point within `n` steps.
pub open spec fn settles_within(s: MatchStateView, p: Point, n: nat) -> bool {
    exists|k: nat| k <= n && free_at(s, #[trigger] spawn_walk(s, p, k))
}

/// Whether the walk is on a free point.
pub open spec fn free_at(s: MatchStateView, o: Option<Point>) -> bool {
    match o {
        Some(q) => !occupied(s, q),
        None => false,
    }
}

/// Whether the walk is on an occupied point.
pub open spec fn blocked_at(s: MatchStateView, o: Option<Point>) -> bool {
    match o {
        Some(q) => occupied(s, q),
        None => false,
    }
}

/// Once the walk has left the board it stays off it.
proof fn lemma_walk_stays_off(s: MatchStateView, p: Point, k: nat, m: nat)
    requires
        spawn_walk(s, p, k) is None,
        k <= m,
    ensures
        spawn_walk(s, p, m) is None,
    decreases m - k,
{
    if k < m {
        lemma_walk_stays_off(s, p, k, (m - 1) as nat);
    }
}

/// Among `n + 1` values below `n`, two are equal.
proof fn lemma_pigeonhole(f: spec_fn(int) -> int, n: int)
    requires
        n >= 0,
        forall|j: int| 0 <= j <= n ==> 0 <= #[trigger] f(j) < n,
    ensures
        exists|i: int, j: int| 0 <= i < j <= n && #[trigger] f(i) == #[trigger] f(j),
    decreases n,
{
    if n == 0 {
        let z: int = 0;
        assert(0 <= z <= n);
        assert(0 <= f(z) < n);
    } else if exists|j: int| 0 <= j < n && #[trigger] f(j) == f(n) {
        let j = choose|j: int| 0 <= j < n && #[trigger] f(j) == f(n);
        assert(0 <= j < n && f(j) == f(n));
    } else {
        let g = |j: int| if f(j) == n - 1 { f(n) } else { f(j) };
        assert forall|j: int| 0 <= j <= n - 1 implies 0 <= #[trigger] g(j) < n - 1 by {
            assert(f(j) != f(n));
        }
        lemma_pigeonhole(g, n - 1);
        let (i, j) = choose|i: int, j: int| 0 <= i < j <= n - 1 && #[trigger] g(i) == #[trigger] g(j);
        assert(f(i) == f(j)) by {
            assert(f(i) != f(n) && f(j) != f(n));
        }
    }
}

/// The walk is determined by where it is: two steps at the same point are
/// followed by the same steps.
proof fn lemma_walk_shift(s: MatchStateView, p: Point, i: nat, j: nat, t: nat)
    requires
        spawn_walk(s, p, i) == spawn_walk(s, p, j),
    ensures
        spawn_walk(s, p, i + t) == spawn_walk(s, p, j + t),
    decreases t,
{
    if t > 0 {
        lemma_walk_shift(s, p, i, j, (t - 1) as nat);
        assert(spawn_walk(s, p, i + t) == spawn_walk(s, p, j + t)) by {
            assert((i + t - 1) as nat + 1 == i + t);
            assert((j + t - 1) as nat + 1 == j + t);
        }
    }
}

/// The first step at which the walk stops, given one at which it has.
proof fn lemma_first_settled(s: MatchStateView, p: Point, k: nat) -> (k0: nat)
    requires
        settled(s, spawn_walk(s, p, k)),
    ensures
        k0 <= k,
        settled(s, spawn_walk(s, p, k0)),
        forall|j: nat| j < k0 ==> !settled(s, #[trigger] spawn_walk(s, p, j)),
    decreases k,
{
    if exists|j: nat| j < k && settled(s, #[trigger] spawn_walk(s, p, j)) {
        let j = choose|j: nat| j < k && settled(s, #[trigger] spawn_walk(s, p, j));
        lemma_first_settled(s, p, j)
    } else {
        k
    }
}

/// The search for a free spot finds one, if it finds one at all, within as
/// many steps as the match has mechs: each step before it stands on a
/// mech, and a search that came back to a point would go round forever.
pub proof fn lemma_spawn_search_bounded(s: MatchStateView, p: Point)
    ensures
        (walk_stops(s, p) && walk_end(s, p) is Some) <==> settles_within(s, p, s.mechs.len()),
{
    let n = s.mechs.len();
    if settles_within(s, p, n) {
        let k = choose|k: nat| k <= n && free_at(s, #[trigger] spawn_walk(s, p, k));
        assert(settled(s, spawn_walk(s, p, k)));
        lemma_walk_end(s, p, k);
    }
    if walk_stops(s, p) && walk_end(s, p) is Some {
        let k = choose|k: nat| settled(s, #[trigger] spawn_walk(s, p, k));
        let k0 = lemma_first_settled(s, p, k);
        lemma_walk_end(s, p, k0);
        assert(free_at(s, spawn_walk(s, p, k0)));
        if k0 > n {
            let idx = |j: int| crate::seqs::first_index(s.mechs, crate::state::at_position(spawn_walk(s, p, j as nat)->Some_0));
            assert forall|j: int| 0 <= j <= n implies 0 <= #[trigger] idx(j) < n by {
                assert(!settled(s, spawn_walk(s, p, j as nat)));
                crate::seqs::lemma_first_index(s.mechs, crate::state::at_position(spawn_walk(s, p, j as nat)->Some_0));
            }
            lemma_pigeonhole(idx, n as int);
            let (i, j) = choose|i: int, j: int| 0 <= i < j <= n && #[trigger] idx(i) == #[trigger] idx(j);
            assert(spawn_walk(s, p, i as nat) == spawn_walk(s, p, j as nat)) by {
                assert(!settled(s, spawn_walk(s, p, i as nat)));
                assert(!settled(s, spawn_walk(s, p, j as nat)));
                crate::seqs::lemma_first_index(s.mechs, crate::state::at_position(spawn_walk(s, p, i as nat)->Some_0));
                crate::seqs::lemma_first_index(s.mechs, crate::state::at_position(spawn_walk(s, p, j as nat)->Some_0));
            }
            lemma_walk_shift(s, p, i as nat, j as nat, (k0 - j) as nat);
            assert(((i + (k0 - j)) as nat) < k0);
            assert(!settled(s, spawn_walk(s, p, (i + (k0 - j)) as nat)));
            assert(j as nat + (k0 - j) as nat == k0);
        }
    }
}

/// Whether the walk that looks for a free spot, started at `p`, reaches a
/// free point within as many steps as the match has mechs.
pub fn spawn_settles(state: &MatchState, p: Point) -> (b: bool)
    ensures
        b == settles_within(state@, p, state@.mechs.len()),
        b ==> walk_stops(state@, p) && walk_end(state@, p) is Some,
{
    let ghost s = state@;
    let fuel = state.mechs.len();
    let mut cur = p;
    let mut k: usize = 0;
    loop
        invariant
            s == state@,
            fuel == state.mechs.len(),
            fuel == s.mechs.len(),
            k <= fuel,
            spawn_walk(s, p, k as nat) == Some(cur),
            forall|j: nat| j < k ==> blocked_at(s, #[trigger] spawn_walk(s, p, j)),
        decreases fuel - k,
    {
        if MatchState::mech_at(state, &cur).is_none() {
            proof {
                assert(settled(s, spawn_walk(s, p, k as nat)));
                lemma_walk_end(s, p, k as nat);
            }
            return true;
        }
        if k >= fuel {
            proof {
                assert forall|j: nat| j <= fuel implies !free_at(s, #[trigger] spawn_walk(s, p, j)) by {
                    if j < k {
                    }
                }
            }
            return false;
        }
        let adj = cur.adjacent_points(&state.game_board);
        if adj.len() == 0 {
            proof {
                assert(spawn_walk(s, p, (k + 1) as nat) is None);
                assert forall|j: nat| j <= fuel implies !free_at(s, #[trigger] spawn_walk(s, p, j)) by {
                    if j > k {
                        lemma_walk_stays_off(s, p, (k + 1) as nat, j);
                    }
                }
            }
            return false;
        }
        assert(spawn_walk(s, p, (k + 1) as nat) == Some(adj@[0]));
        cur = adj[0];
        k = k + 1;
    }
}

/// Whether the engine can handle `cmd` on `state`: a well-formed state
/// with room for the command's events, on which handling the command is
/// defined (for a spawn: the search for a free spot ends on one).
pub fn command_ready(state: &MatchState, cmd: &MechCommand) -> (b: bool)
    ensures
        b == (well_formed(state@) && room_for_command(state@) && command_defined(state@, cmd@)),
{
    if !is_well_formed(state) || state.generation > u64::MAX - 28 {
        return false;
    }
    match cmd {
        MechCommand::SpawnMech { position, .. } => {
            proof {
                lemma_spawn_search_bounded(state@, *position);
            }
            spawn_settles(state, *position)
        },
        MechCommand::RegisterUpdate { mech, .. } => state.contains_mech(mech),
        MechCommand::FinishTurn { mech, turn } => {
            if !state.contains_mech(mech) {
                true
            } else if crate::events::contains_string(&state.turn_status.taken, mech) && state.turn_status.current == *turn {
                true
            } else {
                state.parameters.actors.len() >= 1 && state.parameters.max_turns >= 1 && (
                state.turn_status.taken.len() != state.parameters.actors.len() - 1 || state.turn_status.current < u32::MAX)
            }
        },
        _ => true,
    }
}

/// Whether `evt` can be applied to `state`: an event that names a mech's
/// action points or registers needs that mech (and the points), an event
/// that counts a generation needs room for one more.
pub fn event_ready(state: &MatchState, evt: &GameEvent) -> (b: bool)
    ensures
        b == event_applicable(state@, evt@),
{
    match evt {
        GameEvent::PositionUpdated { .. } | GameEvent::DamageTaken { .. } | GameEvent::MechDestroyed { .. } => {
            state.generation < u64::MAX
        },
        GameEvent::ActionPointsConsumed { mech, points_consumed } => match state.index_of_mech(mech) {
            Some(i) => {
                proof {
                    crate::seqs::lemma_first_index(state@.mechs, crate::state::has_id(mech@));
                }
                assert(state@.mechs[i as int] == state.mechs@[i as int]@);
                state.mechs[i].remaining_aps >= *points_consumed
            },
            None => false,
        },
        GameEvent::RegisterUpdate { mech, .. } => state.contains_mech(mech),
        _ => true,
    }
}

/// Applies the events in order.
pub fn apply_events(state: MatchState, events: &Vec<GameEvent>) -> (r: MatchState)
    requires
        all_applicable(state@, events_view(events@)),
    ensures
        r@ == apply_all(state@, events_view(events@)),
{
    let ghost ev = events_view(events@);
    let ghost target = apply_all(state@, ev);
    let mut cur = state;
    let mut i: usize = 0;
    assert(ev.subrange(0, ev.len() as int) =~= ev);
    while i < events.len()
        invariant
            i <= events.len(),
            ev == events_view(events@),
            ev.len() == events@.len(),
            all_applicable(cur@, ev.subrange(i as int, ev.len() as int)),
            apply_all(cur@, ev.subrange(i as int, ev.len() as int)) == target,
        decreases events.len() - i,
    {
        let ghost rest = ev.subrange(i as int, ev.len() as int);
        assert(rest[0] == events@[i as int]@);
        assert(rest.drop_first() =~= ev.subrange(i + 1, ev.len() as int));
        cur = Match::apply_event(&cur, &events[i]).unwrap();
        i = i + 1;
    }
    assert(ev.subrange(i as int, ev.len() as int) =~= Seq::<GameEventView>::empty());
    cur
}

/// What handling `c` on `s` and applying its events leads to: the next
/// state and the events, or why the command was refused.
pub open spec fn command_outcome(s: MatchStateView, c: MechCommandView) -> Result<(MatchStateView, Seq<GameEventView>), CommandError> {
    match handled(s, c) {
        Ok(evts) => Ok((apply_all(s, evts), evts)),
        Err(e) => Err(e),
    }
}

/// Handles one command of a turn and applies the events it yields: the
/// next state and the events to publish, or why the command was refused.
pub fn apply_command(state: &MatchState, cmd: &MechCommand) -> (r: Result<(MatchState, Vec<GameEvent>), CommandError>)
    requires
        well_formed(state@),
        room_for_command(state@),
        command_defined(state@, cmd@),
    ensures
        match command_outcome(state@, cmd@) {
            Ok((t, evts)) => r matches Ok((n, v)) && n@ == t && events_view(v@) == evts && well_formed(t),
            Err(e) => r == Err::<(MatchState, Vec<GameEvent>), CommandError>(e),
        },
{
    let r = Match::handle_command(state, cmd);
    match r {
        Ok(events) => {
            proof {
                lemma_command_events_apply(state@, cmd@);
            }
            let next = apply_events(state.clone(), &events);
            Ok((next, events))
        },
        Err(e) => Err(e),
    }
}

/// What a whole turn leads to: the commands handled in order, each on the
/// state the earlier ones left; the final state and all the events, or the
/// first refusal.
pub open spec fn turn_outcome(s: MatchStateView, cmds: Seq<MechCommandView>) -> Result<(MatchStateView, Seq<GameEventView>), CommandError>
    decreases cmds.len(),
{
    if cmds.len() == 0 {
        Ok((s, Seq::empty()))
    } else {
        match command_outcome(s, cmds[0]) {
            Err(e) => Err(e),
            Ok((t, evts)) => match turn_outcome(t, cmds.drop_first()) {
                Err(e) => Err(e),
                Ok((u, more)) => Ok((u, evts + more)),
            },
        }
    }
}

/// Whether every command of the turn can be handled on the state the
/// earlier ones leave, up to the first refusal.
pub open spec fn turn_defined(s: MatchStateView, cmds: Seq<MechCommandView>) -> bool
    decreases cmds.len(),
{
    if cmds.len() == 0 {
        true
    } else {
        &&& well_formed(s)
        &&& room_for_command(s)
        &&& command_defined(s, cmds[0])
        &&& match command_outcome(s, cmds[0]) {
            Err(_) => true,
            Ok((t, _)) => turn_defined(t, cmds.drop_first()),
        }
    }
}

/// Replaying the events a turn published, in order, from the state the
/// turn started on, gives the state the turn ended on: every event can be
/// applied where it comes, and the last one leaves the final state.
pub proof fn lemma_turn_replays(s: MatchStateView, cmds: Seq<MechCommandView>)
    requires
        turn_defined(s, cmds),
    ensures
        turn_outcome(s, cmds) matches Ok((u, evts)) ==> all_applicable(s, evts) && apply_all(s, evts) == u,
    decreases cmds.len(),
{
    if cmds.len() > 0 {
        match handled(s, cmds[0]) {
            Ok(evts) => {
                lemma_command_events_apply(s, cmds[0]);
                let t = apply_all(s, evts);
                lemma_turn_replays(t, cmds.drop_first());
                match turn_outcome(t, cmds.drop_first()) {
                    Ok((u, more)) => {
                        crate::laws::lemma_apply_all_concat(s, evts, more);
                    },
                    Err(_) => {},
                }
            },
            Err(_) => {},
        }
    } else {
        assert(apply_all(s, Seq::<GameEventView>::empty()) == s);
    }
}

pub open spec fn commands_view(v: Seq<MechCommand>) -> Seq<MechCommandView> {
    v.map_values(|c: MechCommand| c@)
}

/// A mech's turn: its commands handled in order, each on the state the
/// earlier ones left. The final state and all the events, or the first
/// refusal.
pub fn take_turn(state: MatchState, commands: &Vec<MechCommand>) -> (r: Result<(MatchState, Vec<GameEvent>), CommandError>)
    requires
        turn_defined(state@, commands_view(commands@)),
    ensures
        match turn_outcome(state@, commands_view(commands@)) {
            Ok((t, evts)) => r matches Ok((n, v)) && n@ == t && events_view(v@) == evts,
            Err(e) => r == Err::<(MatchState, Vec<GameEvent>), CommandError>(e),
        },
{
    let ghost cv = commands_view(commands@);
    let ghost start = state@;
    let mut cur = state;
    let mut all: Vec<GameEvent> = Vec::new();
    let mut i: usize = 0;
    assert(cv.subrange(0, cv.len() as int) =~= cv);
    assert(events_view(all@) =~= Seq::<GameEventView>::empty());
    proof {
        match turn_outcome(start, cv) {
            Ok((u, more)) => {
                assert(Seq::<GameEventView>::empty() + more =~= more);
            },
            Err(_) => {},
        }
    }
    while i < commands.len()
        invariant
            i <= commands.len(),
            cv == commands_view(commands@),
            cv.len() == commands@.len(),
            start == state@,
            turn_defined(cur@, cv.subrange(i as int, cv.len() as int)),
            turn_outcome(start, cv) == (match turn_outcome(cur@, cv.subrange(i as int, cv.len() as int)) {
                Err(e) => Err(e),
                Ok((u, more)) => Ok((u, events_view(all@) + more)),
            }),
        decreases commands.len() - i,
    {
        let ghost rest = cv.subrange(i as int, cv.len() as int);
        assert(rest[0] == commands@[i as int]@);
        assert(rest.drop_first() =~= cv.subrange(i + 1, cv.len() as int));
        match apply_command(&cur, &commands[i]) {
            Ok((next, events)) => {
                let ghost before = events_view(all@);
                let ghost ev = events_view(events@);
                let mut events = events;
                all.append(&mut events);
                proof {
                    assert(events_view(all@) =~= before + ev);
                    let tail = turn_outcome(next@, rest.drop_first());
                    match tail {
                        Ok((u, more)) => {
                            assert(before + (ev + more) =~= (before + ev) + more);
                        },
                        Err(_) => {},
                    }
                }
                cur = next;
            },
            Err(e) => {
                assert(command_outcome(cur@, rest[0]) == Err::<(MatchStateView, Seq<GameEventView>), CommandError>(e));
                assert(turn_outcome(cur@, rest) == Err::<(MatchStateView, Seq<GameEventView>), CommandError>(e));
                assert(turn_outcome(start, cv) == Err::<(MatchStateView, Seq<GameEventView>), CommandError>(e));
                return Err(e);
            },
        }
        i = i + 1;
    }
    assert(cv.subrange(i as int, cv.len() as int) =~= Seq::<MechCommandView>::empty());
    assert(events_view(all@) + Seq::<GameEventView>::empty() =~= events_view(all@));
    Ok((cur, all))
}

} // verus!
