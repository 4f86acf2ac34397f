//! Properties of the match aggregate that span several functions: what every
//! event keeps, and that the events a command yields can always be applied.

use vstd::prelude::*;
use crate::commands::{MechCommandView, command_cost};
use crate::engine::{applied, event_applicable, handled, command_defined, damage_events, splash_events, mechs_on, move_events, radar_events, finish_turn_events, register_events, can_take_action, consumed, line_of_fire, finish_turn_error, walk_end};
use crate::events::{GameEventView, DamageSourceView};
use crate::geometry::{adjacent, somes, relative, direction_at, Point};
use crate::state::{MatchStateView, MechStateView, well_formed, registers_keyed, distinct_scans, has_mech, find_mech, mech_index, has_id, modify_mech, update_radar, is_scan_of, update_register, position_to, damaged_by, destroyed, alive_ids};
use crate::seqs::{first_index, lemma_first_index, lemma_first_index_preserved};
use crate::registers::{distinct_registers, lemma_register_put_distinct, RegisterValueView};

verus! {

/// The state after applying the events in order.
pub open spec fn apply_all(s: MatchStateView, evts: Seq<GameEventView>) -> MatchStateView
    decreases evts.len(),
{
    if evts.len() == 0 {
        s
    } else {
        apply_all(applied(s, evts[0]), evts.drop_first())
    }
}

/// Whether each event can be applied to the state the earlier ones lead to.
pub open spec fn all_applicable(s: MatchStateView, evts: Seq<GameEventView>) -> bool
    decreases evts.len(),
{
    if evts.len() == 0 {
        true
    } else {
        event_applicable(s, evts[0]) && all_applicable(applied(s, evts[0]), evts.drop_first())
    }
}

/// Applying a concatenation applies its parts in turn.
pub proof fn lemma_apply_all_concat(s: MatchStateView, a: Seq<GameEventView>, b: Seq<GameEventView>)
    ensures
        apply_all(s, a + b) == apply_all(apply_all(s, a), b),
        all_applicable(s, a + b) == (all_applicable(s, a) && all_applicable(apply_all(s, a), b)),
    decreases a.len(),
{
    if a.len() == 0 {
        assert(a + b =~= b);
    } else {
        assert((a + b)[0] == a[0]);
        assert((a + b).drop_first() =~= a.drop_first() + b);
        lemma_apply_all_concat(applied(s, a[0]), a.drop_first(), b);
    }
}

/// A single applicable event is an applicable run.
pub proof fn lemma_single_applicable(s: MatchStateView, e: GameEventView)
    requires
        event_applicable(s, e),
    ensures
        all_applicable(s, seq![e]),
        apply_all(s, seq![e]) == applied(s, e),
{
    let one = seq![e];
    assert(one.drop_first() =~= Seq::<GameEventView>::empty());
    assert(all_applicable(applied(s, e), one.drop_first()));
    assert(apply_all(applied(s, e), one.drop_first()) == applied(s, e));
}

/// The events that touch neither the set of mechs nor their action points
/// nor the finished-turn list.
pub open spec fn harmless(e: GameEventView) -> bool {
    ||| e is DamageTaken
    ||| e is MechDestroyed
    ||| e is GameFinished
    ||| e is PositionUpdated
    ||| e is RadarScanCompleted
}

/// Whether two states have the same mechs (by id, in the same order) with
/// the same action points, and the same finished-turn list.
pub open spec fn same_roster(s: MatchStateView, t: MatchStateView) -> bool {
    &&& s.mechs.len() == t.mechs.len()
    &&& forall|i: int| 0 <= i < s.mechs.len() ==> #[trigger] s.mechs[i].id == t.mechs[i].id
        && s.mechs[i].remaining_aps == t.mechs[i].remaining_aps
    &&& s.turn_status == t.turn_status
}

proof fn lemma_same_roster_index(s: MatchStateView, t: MatchStateView, id: Seq<char>)
    requires
        same_roster(s, t),
    ensures
        mech_index(s, id) == mech_index(t, id),
        has_mech(s, id) == has_mech(t, id),
        has_mech(s, id) ==> find_mech(s, id).unwrap().remaining_aps == find_mech(t, id).unwrap().remaining_aps,
{
    assert forall|j: int| 0 <= j < s.mechs.len() implies has_id(id)(#[trigger] s.mechs[j]) == has_id(id)(t.mechs[j]) by {
        assert(s.mechs[j].id == t.mechs[j].id);
    }
    lemma_first_index_preserved(s.mechs, t.mechs, has_id(id));
    lemma_first_index(s.mechs, has_id(id));
}

proof fn lemma_same_roster_trans(s: MatchStateView, t: MatchStateView, u: MatchStateView)
    requires
        same_roster(s, t),
        same_roster(t, u),
    ensures
        same_roster(s, u),
{
    assert forall|i: int| 0 <= i < s.mechs.len() implies #[trigger] s.mechs[i].id == u.mechs[i].id
        && s.mechs[i].remaining_aps == u.mechs[i].remaining_aps by {
        assert(s.mechs[i].id == t.mechs[i].id);
        assert(t.mechs[i].id == u.mechs[i].id);
    }
}

proof fn lemma_modify_roster(s: MatchStateView, id: Seq<char>, f: spec_fn(MechStateView) -> MechStateView)
    requires
        forall|m: MechStateView| #[trigger] f(m).id == m.id && f(m).remaining_aps == m.remaining_aps,
    ensures
        same_roster(s, modify_mech(s, id, f)),
        modify_mech(s, id, f).radar_pings == s.radar_pings,
{
    let t = modify_mech(s, id, f);
    let i = mech_index(s, id);
    lemma_first_index(s.mechs, has_id(id));
    assert forall|j: int| 0 <= j < s.mechs.len() implies #[trigger] s.mechs[j].id == t.mechs[j].id
        && s.mechs[j].remaining_aps == t.mechs[j].remaining_aps by {
        if j == i {
            assert(t.mechs[j] == f(s.mechs[j]));
        }
    }
}

/// A harmless event keeps the roster, grows the generation by at most one
/// and keeps the radar scans keyed uniquely.
proof fn lemma_harmless_step(s: MatchStateView, e: GameEventView)
    requires
        harmless(e),
        s.generation < u64::MAX,
        distinct_scans(s.radar_pings),
    ensures
        event_applicable(s, e),
        same_roster(s, applied(s, e)),
        applied(s, e).generation <= s.generation + 1,
        distinct_scans(applied(s, e).radar_pings),
{
    match e {
        GameEventView::DamageTaken { damage_target, damage, .. } => {
            lemma_modify_roster(s, damage_target, damaged_by(damage));
        },
        GameEventView::MechDestroyed { damage_target, .. } => {
            lemma_modify_roster(s, damage_target, destroyed());
        },
        GameEventView::PositionUpdated { mech, position } => {
            lemma_modify_roster(s, mech, position_to(position));
        },
        GameEventView::RadarScanCompleted { actor, results } => {
            lemma_update_radar_distinct(s, actor, results);
        },
        _ => {},
    }
}

proof fn lemma_update_radar_distinct(s: MatchStateView, actor: Seq<char>, results: Seq<crate::radar::RadarPingView>)
    requires
        distinct_scans(s.radar_pings),
    ensures
        distinct_scans(update_radar(s, actor, results).radar_pings),
{
    let t = update_radar(s, actor, results);
    let i = first_index(s.radar_pings, is_scan_of(actor));
    lemma_first_index(s.radar_pings, is_scan_of(actor));
    if i < 0 {
        assert forall|a: int, b: int| 0 <= a < b < t.radar_pings.len() implies t.radar_pings[a].0 != t.radar_pings[b].0 by {
            if b == s.radar_pings.len() {
                assert(!is_scan_of(actor)(s.radar_pings[a]));
            }
        }
    }
}

/// A run of harmless events with room for its generations can be applied,
/// and keeps the roster.
pub proof fn lemma_harmless_run(s: MatchStateView, evts: Seq<GameEventView>)
    requires
        forall|i: int| 0 <= i < evts.len() ==> harmless(#[trigger] evts[i]),
        s.generation + evts.len() <= u64::MAX,
        distinct_scans(s.radar_pings),
    ensures
        all_applicable(s, evts),
        same_roster(s, apply_all(s, evts)),
        apply_all(s, evts).generation <= s.generation + evts.len(),
        distinct_scans(apply_all(s, evts).radar_pings),
    decreases evts.len(),
{
    if evts.len() > 0 {
        assert(harmless(evts[0]));
        lemma_harmless_step(s, evts[0]);
        let t = applied(s, evts[0]);
        let rest = evts.drop_first();
        assert forall|i: int| 0 <= i < rest.len() implies harmless(#[trigger] rest[i]) by {
            assert(rest[i] == evts[i + 1]);
        }
        lemma_harmless_run(t, rest);
        lemma_same_roster_trans(s, t, apply_all(t, rest));
    }
}

/// The events of a hit are harmless, at most three of them.
proof fn lemma_damage_events(s: MatchStateView, from: DamageSourceView, to: Seq<char>, amt: u32, health: u32)
    ensures
        damage_events(s, from, to, amt, health).len() <= 3,
        forall|i: int| 0 <= i < damage_events(s, from, to, amt, health).len()
            ==> harmless(#[trigger] damage_events(s, from, to, amt, health)[i])
                && keeps_positions(damage_events(s, from, to, amt, health)[i]),
{
}

/// The events that move no mech and place none.
pub open spec fn keeps_positions(e: GameEventView) -> bool {
    !(e is PositionUpdated) && !(e is MechSpawned)
}

proof fn lemma_splash_events(s: MatchStateView, mech: Seq<char>, ms: Seq<MechStateView>)
    ensures
        splash_events(s, mech, ms).len() <= 3 * ms.len(),
        forall|i: int| 0 <= i < splash_events(s, mech, ms).len() ==> harmless(#[trigger] splash_events(s, mech, ms)[i])
            && keeps_positions(splash_events(s, mech, ms)[i]),
    decreases ms.len(),
{
    if ms.len() > 0 {
        lemma_splash_events(s, mech, ms.drop_last());
        let a = splash_events(s, mech, ms.drop_last());
        let b = damage_events(s, DamageSourceView::MechWeapon(mech), ms.last().id, crate::state::SECONDARY_SPLASH_DAMAGE, ms.last().health);
        lemma_damage_events(s, DamageSourceView::MechWeapon(mech), ms.last().id, crate::state::SECONDARY_SPLASH_DAMAGE, ms.last().health);
        assert forall|i: int| 0 <= i < (a + b).len() implies harmless(#[trigger] (a + b)[i]) && keeps_positions((a + b)[i]) by {
            if i < a.len() {
                assert((a + b)[i] == a[i]);
            } else {
                assert((a + b)[i] == b[i - a.len()]);
            }
        }
    }
}

proof fn lemma_somes_len(s: Seq<Option<Point>>)
    ensures
        somes(s).len() <= s.len(),
    decreases s.len(),
{
    if s.len() > 0 {
        lemma_somes_len(s.drop_last());
    }
}

proof fn lemma_mechs_on_len(s: MatchStateView, pts: Seq<Point>)
    ensures
        mechs_on(s, pts).len() <= pts.len(),
    decreases pts.len(),
{
    if pts.len() > 0 {
        lemma_mechs_on_len(s, pts.drop_last());
    }
}

/// The mech a command is issued for.
pub open spec fn actor_of(c: MechCommandView) -> Seq<char> {
    match c {
        MechCommandView::Move { mech, .. } => mech,
        MechCommandView::FirePrimary { mech, .. } => mech,
        MechCommandView::FireSecondary { mech, .. } => mech,
        MechCommandView::RequestRadarScan { mech, .. } => mech,
        MechCommandView::SpawnMech { mech, .. } => mech,
        MechCommandView::FinishTurn { mech, .. } => mech,
        MechCommandView::RegisterUpdate { mech, .. } => mech,
    }
}

/// The events of a command the mech pays for are a harmless run followed
/// by the payment: the run has at most 27 events.
proof fn lemma_paid_command_shape(s: MatchStateView, c: MechCommandView) -> (run: Seq<GameEventView>)
    requires
        c is Move || c is FirePrimary || c is FireSecondary || c is RequestRadarScan,
        can_take_action(s, actor_of(c), c),
    ensures
        handled(s, c) == Ok::<Seq<GameEventView>, crate::engine::CommandError>(run.push(consumed(actor_of(c), c))),
        run.len() <= 27,
        forall|i: int| 0 <= i < run.len() ==> harmless(#[trigger] run[i]),
        !(c is Move) ==> forall|i: int| 0 <= i < run.len() ==> keeps_positions(#[trigger] run[i]),
        c is Move ==> run == seq![move_events(s, actor_of(c), c->Move_direction, c)[0]],
{
    match c {
        MechCommandView::Move { mech, direction, .. } => {
            let evts = move_events(s, mech, direction, c);
            let run = seq![evts[0]];
            assert(evts =~= run.push(consumed(mech, c)));
            run
        },
        MechCommandView::FirePrimary { mech, direction, .. } => {
            let targets = line_of_fire(s, mech, direction, crate::state::PRIMARY_RANGE as nat);
            let run = if targets.len() > 0 {
                let r = damage_events(s, DamageSourceView::MechWeapon(mech), targets[0].0.id, crate::state::PRIMARY_DAMAGE, targets[0].0.health);
                lemma_damage_events(s, DamageSourceView::MechWeapon(mech), targets[0].0.id, crate::state::PRIMARY_DAMAGE, targets[0].0.health);
                r
            } else {
                Seq::empty()
            };
            run
        },
        MechCommandView::FireSecondary { mech, direction, .. } => {
            let targets = line_of_fire(s, mech, direction, crate::state::SECONDARY_RANGE as nat);
            let hit = if targets.len() > 0 {
                lemma_damage_events(s, DamageSourceView::MechWeapon(mech), targets[0].0.id, crate::state::SECONDARY_DAMAGE, targets[0].0.health);
                damage_events(s, DamageSourceView::MechWeapon(mech), targets[0].0.id, crate::state::SECONDARY_DAMAGE, targets[0].0.health)
            } else {
                Seq::empty()
            };
            let landing = if targets.len() > 0 {
                Some(targets[0].0.position)
            } else {
                relative(find_mech(s, mech).unwrap().position, s.game_board, direction, crate::state::SECONDARY_RANGE as int)
            };
            let splash = match landing {
                Some(o) => {
                    let pts = adjacent(o, s.game_board);
                    lemma_somes_len(Seq::new(8, |i: int| relative(o, s.game_board, direction_at(i), 1)));
                    lemma_mechs_on_len(s, pts);
                    lemma_splash_events(s, mech, mechs_on(s, pts));
                    splash_events(s, mech, mechs_on(s, pts))
                },
                None => Seq::empty(),
            };
            let run = hit + splash;
            assert forall|i: int| 0 <= i < run.len() implies harmless(#[trigger] run[i]) && keeps_positions(run[i]) by {
                if i < hit.len() {
                    assert(run[i] == hit[i]);
                } else {
                    assert(run[i] == splash[i - hit.len()]);
                }
            }
            run
        },
        MechCommandView::RequestRadarScan { mech, .. } => {
            let evts = radar_events(s, mech, c);
            let run = seq![evts[0]];
            assert(evts =~= run.push(consumed(mech, c)));
            run
        },
        _ => Seq::empty(),
    }
}

/// Every applicable event keeps each mech's registers keyed uniquely.
proof fn lemma_applied_registers_keyed(s: MatchStateView, e: GameEventView)
    requires
        well_formed(s),
        event_applicable(s, e),
    ensures
        registers_keyed(applied(s, e).mechs),
{
    let t = applied(s, e);
    match e {
        GameEventView::MechSpawned { mech, .. } => {
            let i = mech_index(s, mech);
            lemma_first_index(s.mechs, has_id(mech));
            assert forall|k: int| 0 <= k < t.mechs.len() implies distinct_registers(#[trigger] t.mechs[k].registers) by {
                if (i >= 0 && k == i) || (i < 0 && k == s.mechs.len()) {
                    assert(t.mechs[k].registers =~= Seq::<(u32, RegisterValueView)>::empty());
                } else {
                    assert(t.mechs[k] == s.mechs[k]);
                }
            }
        },
        GameEventView::PositionUpdated { mech, position } => {
            lemma_modify_registers(s, mech, position_to(position));
        },
        GameEventView::DamageTaken { damage_target, damage, .. } => {
            lemma_modify_registers(s, damage_target, damaged_by(damage));
        },
        GameEventView::MechDestroyed { damage_target, .. } => {
            lemma_modify_registers(s, damage_target, destroyed());
        },
        GameEventView::ActionPointsConsumed { mech, .. } => {
            let i = mech_index(s, mech);
            lemma_first_index(s.mechs, has_id(mech));
            assert forall|k: int| 0 <= k < t.mechs.len() implies distinct_registers(#[trigger] t.mechs[k].registers) by {
                assert(t.mechs[k].registers == s.mechs[k].registers);
                assert(distinct_registers(s.mechs[k].registers));
            }
        },
        GameEventView::MatchTurnCompleted { .. } => {
            assert forall|k: int| 0 <= k < t.mechs.len() implies distinct_registers(#[trigger] t.mechs[k].registers) by {
                assert(t.mechs[k].registers == s.mechs[k].registers);
                assert(distinct_registers(s.mechs[k].registers));
            }
        },
        GameEventView::RegisterUpdate { mech, reg, val } => {
            let i = mech_index(s, mech);
            lemma_first_index(s.mechs, has_id(mech));
            assert forall|k: int| 0 <= k < t.mechs.len() implies distinct_registers(#[trigger] t.mechs[k].registers) by {
                if k == i {
                    assert(distinct_registers(s.mechs[k].registers));
                    lemma_register_put_distinct(s.mechs[k].registers, reg, val);
                } else {
                    assert(t.mechs[k] == s.mechs[k]);
                }
            }
        },
        _ => {
            assert(t.mechs == s.mechs);
        },
    }
}

/// A change of one mech that keeps its registers keeps every mech's
/// registers keyed uniquely.
proof fn lemma_modify_registers(s: MatchStateView, id: Seq<char>, f: spec_fn(MechStateView) -> MechStateView)
    requires
        registers_keyed(s.mechs),
        forall|m: MechStateView| #[trigger] f(m).registers == m.registers,
    ensures
        registers_keyed(modify_mech(s, id, f).mechs),
{
    let t = modify_mech(s, id, f);
    let i = mech_index(s, id);
    lemma_first_index(s.mechs, has_id(id));
    assert forall|k: int| 0 <= k < t.mechs.len() implies distinct_registers(#[trigger] t.mechs[k].registers) by {
        if i >= 0 && k == i {
            assert(t.mechs[k] == f(s.mechs[k]));
        }
        assert(t.mechs[k].registers == s.mechs[k].registers);
        assert(distinct_registers(s.mechs[k].registers));
    }
}

/// Every applicable event keeps a match state well formed: mech ids, radar
/// scans and each mech's registers stay keyed uniquely and no mech
/// finishes a turn twice.
pub proof fn lemma_applied_well_formed(s: MatchStateView, e: GameEventView)
    requires
        well_formed(s),
        event_applicable(s, e),
    ensures
        well_formed(applied(s, e)),
{
    let t = applied(s, e);
    lemma_applied_registers_keyed(s, e);
    match e {
        GameEventView::MechSpawned { mech, position, team, avatar, name } => {
            let i = mech_index(s, mech);
            lemma_first_index(s.mechs, has_id(mech));
            assert forall|a: int, b: int| 0 <= a < b < t.mechs.len() implies t.mechs[a].id != t.mechs[b].id by {
                if i < 0 && b == s.mechs.len() {
                    assert(!has_id(mech)(s.mechs[a]));
                } else if i >= 0 && (a == i || b == i) {
                    if a == i {
                        assert(s.mechs[a].id == mech);
                        assert(s.mechs[b].id != s.mechs[a].id);
                    } else {
                        assert(s.mechs[b].id == mech);
                        assert(s.mechs[a].id != s.mechs[b].id);
                    }
                }
            }
        },
        GameEventView::RadarScanCompleted { actor, results } => {
            lemma_update_radar_distinct(s, actor, results);
        },
        GameEventView::PositionUpdated { mech, position } => {
            lemma_modify_roster(s, mech, position_to(position));
            assert forall|a: int, b: int| 0 <= a < b < t.mechs.len() implies t.mechs[a].id != t.mechs[b].id by {
                assert(t.mechs[a].id == s.mechs[a].id);
                assert(t.mechs[b].id == s.mechs[b].id);
            }
        },
        GameEventView::DamageTaken { damage_target, damage, .. } => {
            lemma_modify_roster(s, damage_target, damaged_by(damage));
            assert forall|a: int, b: int| 0 <= a < b < t.mechs.len() implies t.mechs[a].id != t.mechs[b].id by {
                assert(t.mechs[a].id == s.mechs[a].id);
                assert(t.mechs[b].id == s.mechs[b].id);
            }
        },
        GameEventView::MechDestroyed { damage_target, .. } => {
            lemma_modify_roster(s, damage_target, destroyed());
            assert forall|a: int, b: int| 0 <= a < b < t.mechs.len() implies t.mechs[a].id != t.mechs[b].id by {
                assert(t.mechs[a].id == s.mechs[a].id);
                assert(t.mechs[b].id == s.mechs[b].id);
            }
        },
        GameEventView::ActionPointsConsumed { mech, points_consumed } => {
            lemma_first_index(s.mechs, has_id(mech));
            assert forall|a: int, b: int| 0 <= a < b < t.mechs.len() implies t.mechs[a].id != t.mechs[b].id by {
                assert(t.mechs[a].id == s.mechs[a].id);
                assert(t.mechs[b].id == s.mechs[b].id);
            }
        },
        GameEventView::RegisterUpdate { mech, reg, val } => {
            lemma_first_index(s.mechs, has_id(mech));
            assert forall|a: int, b: int| 0 <= a < b < t.mechs.len() implies t.mechs[a].id != t.mechs[b].id by {
                assert(t.mechs[a].id == s.mechs[a].id);
                assert(t.mechs[b].id == s.mechs[b].id);
            }
        },
        GameEventView::MatchTurnCompleted { new_turn } => {
            assert forall|a: int, b: int| 0 <= a < b < t.mechs.len() implies t.mechs[a].id != t.mechs[b].id by {
                assert(t.mechs[a].id == s.mechs[a].id);
                assert(t.mechs[b].id == s.mechs[b].id);
            }
            assert(t.turn_status.taken =~= Seq::<Seq<char>>::empty());
        },
        GameEventView::MechTurnCompleted { mech, .. } => {
            let taken = s.turn_status.taken;
            if !taken.contains(mech) {
                assert forall|a: int, b: int| 0 <= a < b < taken.push(mech).len() implies taken.push(mech)[a] != taken.push(mech)[b] by {
                    if b == taken.len() {
                        assert(taken[a] != mech);
                    }
                }
            }
        },
        _ => {},
    }
}

/// A run of applicable events keeps a match state well formed.
pub proof fn lemma_apply_all_well_formed(s: MatchStateView, evts: Seq<GameEventView>)
    requires
        well_formed(s),
        all_applicable(s, evts),
    ensures
        well_formed(apply_all(s, evts)),
    decreases evts.len(),
{
    if evts.len() > 0 {
        lemma_applied_well_formed(s, evts[0]);
        lemma_apply_all_well_formed(applied(s, evts[0]), evts.drop_first());
    }
}

/// The events a command yields can always be applied, one after the other,
/// to the state the command was handled on; the result is again a well
/// formed match state. (A state needs room for the generations the events
/// count: at most 28 per command.)
pub proof fn lemma_command_events_apply(s: MatchStateView, c: MechCommandView)
    requires
        well_formed(s),
        s.generation + 28 <= u64::MAX,
        command_defined(s, c),
        handled(s, c) is Ok,
    ensures
        all_applicable(s, handled(s, c)->Ok_0),
        well_formed(apply_all(s, handled(s, c)->Ok_0)),
{
    let evts = handled(s, c)->Ok_0;
    match c {
        MechCommandView::Move { mech, .. } | MechCommandView::FirePrimary { mech, .. }
        | MechCommandView::FireSecondary { mech, .. } | MechCommandView::RequestRadarScan { mech, .. } => {
            assert(actor_of(c) == mech);
            if can_take_action(s, mech, c) {
                let run = lemma_paid_command_shape(s, c);
                lemma_harmless_run(s, run);
                let t = apply_all(s, run);
                lemma_same_roster_index(s, t, mech);
                let last = seq![consumed(mech, c)];
                assert(run.push(consumed(mech, c)) =~= run + last);
                lemma_apply_all_concat(s, run, last);
                assert(last.drop_first() =~= Seq::<GameEventView>::empty());
                assert(last[0] == consumed(mech, c));
                assert(event_applicable(t, consumed(mech, c)));
                assert(all_applicable(applied(t, last[0]), last.drop_first()));
                assert(all_applicable(t, last));
                assert(all_applicable(s, evts));
            } else {
                lemma_single_applicable(s, evts[0]);
                assert(evts =~= seq![evts[0]]);
            }
        },
        MechCommandView::SpawnMech { .. } => {
            lemma_single_applicable(s, evts[0]);
            assert(evts =~= seq![evts[0]]);
        },
        MechCommandView::FinishTurn { mech, turn } => {
            lemma_finish_turn_applicable(s, finish_turn_events(s, mech, turn));
            assert(all_applicable(s, evts));
        },
        MechCommandView::RegisterUpdate { mech, reg, op, .. } => {
            let r = register_events(s, mech, reg, op);
            if r.len() > 0 {
                lemma_single_applicable(s, r[0]);
                assert(r =~= seq![r[0]]);
            }
        },
    }
    lemma_apply_all_well_formed(s, evts);
}

proof fn lemma_finish_turn_applicable(s: MatchStateView, evts: Seq<GameEventView>)
    requires
        forall|i: int| 0 <= i < evts.len() ==> (#[trigger] evts[i] is MechTurnCompleted || evts[i] is MatchTurnCompleted || evts[i] is GameFinished),
    ensures
        all_applicable(s, evts),
    decreases evts.len(),
{
    if evts.len() > 0 {
        let rest = evts.drop_first();
        assert forall|i: int| 0 <= i < rest.len() implies (#[trigger] rest[i] is MechTurnCompleted || rest[i] is MatchTurnCompleted || rest[i] is GameFinished) by {
            assert(rest[i] == evts[i + 1]);
        }
        assert(evts[0] is MechTurnCompleted || evts[0] is MatchTurnCompleted || evts[0] is GameFinished);
        lemma_finish_turn_applicable(applied(s, evts[0]), rest);
    }
}

/// A move, a shot or a scan the mech cannot pay for (or a command for a mech
/// not in the match) changes nothing: its events leave the state as it was.
pub proof fn lemma_unpaid_command_changes_nothing(s: MatchStateView, c: MechCommandView)
    requires
        c is Move || c is FirePrimary || c is FireSecondary || c is RequestRadarScan,
        !can_take_action(s, actor_of(c), c),
    ensures
        handled(s, c) is Ok,
        all_applicable(s, handled(s, c)->Ok_0),
        apply_all(s, handled(s, c)->Ok_0) == s,
{
    let e = GameEventView::ActionPointsExceeded { mech: actor_of(c), cmd: c };
    lemma_single_applicable(s, e);
}

/// A move, a shot or a scan the mech pays for takes exactly its cost from
/// the mech's action points and leaves every other mech's points alone.
pub proof fn lemma_paid_command_costs(s: MatchStateView, c: MechCommandView)
    requires
        c is Move || c is FirePrimary || c is FireSecondary || c is RequestRadarScan,
        well_formed(s),
        s.generation + 28 <= u64::MAX,
        can_take_action(s, actor_of(c), c),
    ensures
        handled(s, c) is Ok,
        ({
            let t = apply_all(s, handled(s, c)->Ok_0);
            &&& t.mechs.len() == s.mechs.len()
            &&& forall|i: int| 0 <= i < s.mechs.len() ==> #[trigger] t.mechs[i].id == s.mechs[i].id
            &&& find_mech(t, actor_of(c)).unwrap().remaining_aps == find_mech(s, actor_of(c)).unwrap().remaining_aps
                - command_cost(c)
            &&& forall|i: int| 0 <= i < s.mechs.len() && s.mechs[i].id != actor_of(c)
                ==> #[trigger] t.mechs[i].remaining_aps == s.mechs[i].remaining_aps
        }),
{
    let mech = actor_of(c);
    let run = lemma_paid_command_shape(s, c);
    lemma_harmless_run(s, run);
    let t = apply_all(s, run);
    lemma_same_roster_index(s, t, mech);
    let last = seq![consumed(mech, c)];
    assert(run.push(consumed(mech, c)) =~= run + last);
    lemma_apply_all_concat(s, run, last);
    lemma_single_applicable(t, consumed(mech, c));
    let u = applied(t, consumed(mech, c));
    let i = mech_index(t, mech);
    lemma_first_index(t.mechs, has_id(mech));
    lemma_first_index(u.mechs, has_id(mech));
    assert forall|j: int| 0 <= j < u.mechs.len() implies #[trigger] u.mechs[j].id == t.mechs[j].id by {}
    lemma_first_index_preserved(t.mechs, u.mechs, has_id(mech));
    assert forall|j: int| 0 <= j < s.mechs.len() && s.mechs[j].id != mech implies #[trigger] u.mechs[j].remaining_aps
        == s.mechs[j].remaining_aps by {
        assert(s.mechs[j].id == t.mechs[j].id);
        if j == i {
            assert(t.mechs[j].id == mech);
        }
    }
    assert forall|j: int| 0 <= j < s.mechs.len() implies #[trigger] u.mechs[j].id == s.mechs[j].id by {
        assert(s.mechs[j].id == t.mechs[j].id);
    }
}

/// When the last actor finishes the current turn the match moves on to the
/// next turn: nobody has finished it yet and every mech has the match's
/// action points per turn again.
pub proof fn lemma_last_finish_advances_turn(s: MatchStateView, mech: Seq<char>, turn: u32)
    requires
        command_defined(s, MechCommandView::FinishTurn { mech, turn }),
        finish_turn_error(s, mech, turn) is None,
        s.turn_status.taken.len() == s.parameters.actors.len() - 1,
    ensures
        ({
            let t = apply_all(s, handled(s, MechCommandView::FinishTurn { mech, turn })->Ok_0);
            &&& t.turn_status.current == s.turn_status.current + 1
            &&& t.turn_status.taken.len() == 0
            &&& t.mechs.len() == s.mechs.len()
            &&& forall|i: int| 0 <= i < t.mechs.len() ==> #[trigger] t.mechs[i].remaining_aps == s.parameters.aps_per_turn
        }),
{
    let evts = finish_turn_events(s, mech, turn);
    let a = seq![evts[0], evts[1]];
    let b = evts.subrange(2, evts.len() as int);
    assert(evts =~= a + b);
    lemma_apply_all_concat(s, a, b);
    let s1 = applied(s, evts[0]);
    let s2 = applied(s1, evts[1]);
    assert(a.drop_first() =~= seq![evts[1]]);
    lemma_single_applicable(s1, evts[1]);
    assert(apply_all(s, a) == s2);
    if b.len() > 0 {
        lemma_single_applicable(s2, b[0]);
        assert(b =~= seq![b[0]]);
    }
}

/// A radar scan, once recorded, is what the match gives back for that actor.
pub proof fn lemma_radar_scan_recorded(s: MatchStateView, actor: Seq<char>, results: Seq<crate::radar::RadarPingView>)
    ensures
        crate::state::radar_of(applied(s, GameEventView::RadarScanCompleted { actor, results }), actor) == Some(results),
{
    let t = update_radar(s, actor, results);
    let i = first_index(s.radar_pings, is_scan_of(actor));
    lemma_first_index(s.radar_pings, is_scan_of(actor));
    if i >= 0 {
        assert forall|j: int| 0 <= j < s.radar_pings.len() implies is_scan_of(actor)(#[trigger] s.radar_pings[j])
            == is_scan_of(actor)(t.radar_pings[j]) by {}
        lemma_first_index_preserved(s.radar_pings, t.radar_pings, is_scan_of(actor));
    } else {
        crate::seqs::lemma_first_index_push(s.radar_pings, (actor, results), is_scan_of(actor));
    }
}

/// A register update stores its value: reading the register back gives it,
/// and the mech's other registers keep theirs.
pub proof fn lemma_register_update_recorded(s: MatchStateView, mech: Seq<char>, reg: u32, val: crate::registers::RegisterValueView, other: u32)
    requires
        has_mech(s, mech),
        other != reg,
    ensures
        crate::registers::register_get(find_mech(applied(s, GameEventView::RegisterUpdate { mech, reg, val }), mech).unwrap().registers, reg) == Some(val),
        crate::registers::register_get(find_mech(applied(s, GameEventView::RegisterUpdate { mech, reg, val }), mech).unwrap().registers, other)
            == crate::registers::register_get(find_mech(s, mech).unwrap().registers, other),
{
    let t = update_register(s, mech, reg, val);
    let i = mech_index(s, mech);
    lemma_first_index(s.mechs, has_id(mech));
    assert forall|j: int| 0 <= j < s.mechs.len() implies has_id(mech)(#[trigger] s.mechs[j]) == has_id(mech)(t.mechs[j]) by {}
    lemma_first_index_preserved(s.mechs, t.mechs, has_id(mech));
    let regs = s.mechs[i].registers;
    crate::registers::lemma_register_put(regs, reg, val, other);
}

/// Whether no two mechs stand on the same spot.
pub open spec fn distinct_positions(mechs: Seq<MechStateView>) -> bool {
    forall|i: int, j: int| 0 <= i < j < mechs.len() ==> mechs[i].position != mechs[j].position
}

pub open spec fn same_positions(s: MatchStateView, t: MatchStateView) -> bool {
    &&& s.mechs.len() == t.mechs.len()
    &&& forall|i: int| 0 <= i < s.mechs.len() ==> #[trigger] s.mechs[i].position == t.mechs[i].position
}

proof fn lemma_keeps_positions_step(s: MatchStateView, e: GameEventView)
    requires
        event_applicable(s, e),
        keeps_positions(e),
    ensures
        same_positions(s, applied(s, e)),
{
    let t = applied(s, e);
    match e {
        GameEventView::DamageTaken { damage_target, .. } => {
            lemma_first_index(s.mechs, has_id(damage_target));
        },
        GameEventView::MechDestroyed { damage_target, .. } => {
            lemma_first_index(s.mechs, has_id(damage_target));
        },
        GameEventView::ActionPointsConsumed { mech, .. } => {
            lemma_first_index(s.mechs, has_id(mech));
        },
        GameEventView::RegisterUpdate { mech, .. } => {
            lemma_first_index(s.mechs, has_id(mech));
        },
        GameEventView::MatchTurnCompleted { .. } => {
            assert forall|i: int| 0 <= i < s.mechs.len() implies #[trigger] s.mechs[i].position == t.mechs[i].position by {}
        },
        _ => {},
    }
}

proof fn lemma_keeps_positions_run(s: MatchStateView, evts: Seq<GameEventView>)
    requires
        all_applicable(s, evts),
        forall|i: int| 0 <= i < evts.len() ==> keeps_positions(#[trigger] evts[i]),
    ensures
        same_positions(s, apply_all(s, evts)),
    decreases evts.len(),
{
    if evts.len() > 0 {
        assert(keeps_positions(evts[0]));
        lemma_keeps_positions_step(s, evts[0]);
        let rest = evts.drop_first();
        assert forall|i: int| 0 <= i < rest.len() implies keeps_positions(#[trigger] rest[i]) by {
            assert(rest[i] == evts[i + 1]);
        }
        lemma_keeps_positions_run(applied(s, evts[0]), rest);
    }
}

proof fn lemma_same_positions_distinct(s: MatchStateView, t: MatchStateView)
    requires
        same_positions(s, t),
        distinct_positions(s.mechs),
    ensures
        distinct_positions(t.mechs),
{
    assert forall|i: int, j: int| 0 <= i < j < t.mechs.len() implies t.mechs[i].position != t.mechs[j].position by {
        assert(s.mechs[i].position == t.mechs[i].position);
        assert(s.mechs[j].position == t.mechs[j].position);
    }
}

/// No two mechs ever share a spot: a spawn places the mech on a free spot,
/// a move onto an occupied spot is a collision instead, and no other event
/// moves a mech. So a command keeps the positions of the mechs distinct.
pub proof fn lemma_command_keeps_positions_distinct(s: MatchStateView, c: MechCommandView)
    requires
        well_formed(s),
        s.generation + 28 <= u64::MAX,
        command_defined(s, c),
        handled(s, c) is Ok,
        distinct_positions(s.mechs),
    ensures
        distinct_positions(apply_all(s, handled(s, c)->Ok_0).mechs),
{
    let evts = handled(s, c)->Ok_0;
    lemma_command_events_apply(s, c);
    match c {
        MechCommandView::SpawnMech { mech, position, team, avatar, name } => {
            let k0 = choose|k: nat| crate::engine::settled(s, #[trigger] crate::engine::spawn_walk(s, position, k));
            let q = walk_end(s, position).unwrap();
            assert(!crate::state::occupied(s, q));
            lemma_first_index(s.mechs, crate::state::at_position(q));
            lemma_single_applicable(s, evts[0]);
            assert(evts =~= seq![evts[0]]);
            let t = applied(s, evts[0]);
            let i = mech_index(s, mech);
            lemma_first_index(s.mechs, has_id(mech));
            assert forall|a: int, b: int| 0 <= a < b < t.mechs.len() implies t.mechs[a].position != t.mechs[b].position by {
                if a == i || b == i || b == s.mechs.len() {
                    assert(!crate::state::at_position(q)(s.mechs[a]));
                    assert(b < s.mechs.len() ==> !crate::state::at_position(q)(s.mechs[b]));
                }
            }
        },
        MechCommandView::Move { mech, direction, .. } => {
            assert(actor_of(c) == mech);
            if can_take_action(s, mech, c) {
                let run = lemma_paid_command_shape(s, c);
                let last = seq![consumed(mech, c)];
                assert(run.push(consumed(mech, c)) =~= run + last);
                lemma_apply_all_concat(s, run, last);
                let t = apply_all(s, run);
                lemma_single_applicable(s, run[0]);
                assert(run =~= seq![run[0]]);
                let me = find_mech(s, mech).unwrap();
                let i = mech_index(s, mech);
                lemma_first_index(s.mechs, has_id(mech));
                match relative(me.position, s.game_board, direction, 1) {
                    Some(p) => {
                        match crate::state::mech_at(s, p) {
                            Some(_) => {
                                lemma_keeps_positions_step(s, run[0]);
                                lemma_same_positions_distinct(s, t);
                            },
                            None => {
                                lemma_first_index(s.mechs, crate::state::at_position(p));
                                assert forall|a: int, b: int| 0 <= a < b < t.mechs.len() implies t.mechs[a].position != t.mechs[b].position by {
                                    if a == i || b == i {
                                        assert(!crate::state::at_position(p)(s.mechs[a]));
                                        assert(!crate::state::at_position(p)(s.mechs[b]));
                                    }
                                }
                            },
                        }
                    },
                    None => {
                        lemma_keeps_positions_step(s, run[0]);
                        lemma_same_positions_distinct(s, t);
                    },
                }
                lemma_keeps_positions_step(t, consumed(mech, c));
                lemma_single_applicable(t, consumed(mech, c));
                lemma_same_positions_distinct(t, applied(t, consumed(mech, c)));
            } else {
                assert(evts =~= seq![evts[0]]);
                lemma_keeps_positions_run(s, evts);
                lemma_same_positions_distinct(s, apply_all(s, evts));
            }
        },
        MechCommandView::FirePrimary { mech, .. } | MechCommandView::FireSecondary { mech, .. }
        | MechCommandView::RequestRadarScan { mech, .. } => {
            assert(actor_of(c) == mech);
            if can_take_action(s, mech, c) {
                let run = lemma_paid_command_shape(s, c);
                assert(evts == run.push(consumed(mech, c)));
                assert forall|i: int| 0 <= i < evts.len() implies keeps_positions(#[trigger] evts[i]) by {
                    if i < run.len() {
                        assert(evts[i] == run[i]);
                    }
                }
            } else {
                assert(evts =~= seq![evts[0]]);
            }
            lemma_keeps_positions_run(s, evts);
            lemma_same_positions_distinct(s, apply_all(s, evts));
        },
        _ => {
            lemma_keeps_positions_run(s, evts);
            lemma_same_positions_distinct(s, apply_all(s, evts));
        },
    }
}

/// Every command the engine accepts, other than a register update, yields
/// at least one event: a refused action still records that the mech's
/// points were exceeded.
pub proof fn lemma_commands_yield_events(s: MatchStateView, c: MechCommandView)
    requires
        handled(s, c) is Ok,
        !(c is RegisterUpdate),
    ensures
        handled(s, c)->Ok_0.len() >= 1,
{
}

/// Handling a command is deterministic: it depends on the match state and
/// the command alone, so equal states and commands give equal results (what
/// `Match::handle_command` returns is `handled` of its inputs).
pub proof fn lemma_handling_is_deterministic(s1: MatchStateView, s2: MatchStateView, c1: MechCommandView, c2: MechCommandView)
    requires
        s1 == s2,
        c1 == c2,
    ensures
        handled(s1, c1) == handled(s2, c2),
        command_defined(s1, c1) == command_defined(s2, c2),
{
}

/// A mech among the alive ids is a mech of the list that is alive.
proof fn lemma_alive_ids_are_alive(mechs: Seq<MechStateView>, id: Seq<char>)
    requires
        alive_ids(mechs).contains(id),
    ensures
        exists|j: int| 0 <= j < mechs.len() && mechs[j].id == id && #[trigger] mechs[j].alive,
    decreases mechs.len(),
{
    let rest = alive_ids(mechs.drop_last());
    if mechs.last().alive && mechs.last().id == id {
        assert(mechs[mechs.len() - 1].alive);
    } else {
        if mechs.last().alive {
            let k = choose|k: int| 0 <= k < alive_ids(mechs).len() && alive_ids(mechs)[k] == id;
            assert(alive_ids(mechs) == rest.push(mechs.last().id));
            assert(k < rest.len());
            assert(rest[k] == id);
        }
        assert(rest.contains(id));
        lemma_alive_ids_are_alive(mechs.drop_last(), id);
        let j = choose|j: int| 0 <= j < mechs.drop_last().len() && mechs.drop_last()[j].id == id && #[trigger] mechs.drop_last()[j].alive;
        assert(mechs[j] == mechs.drop_last()[j]);
    }
}

/// A destroyed mech is dead: once `MechDestroyed` is applied to a mech of
/// the match, that mech is no longer alive and has no hit points left, so
/// it is not among the living; every other mech is as it was.
pub proof fn lemma_destroyed_mech_is_dead(s: MatchStateView, target: Seq<char>, source: DamageSourceView)
    requires
        well_formed(s),
        has_mech(s, target),
    ensures
        ({
            let r = applied(s, GameEventView::MechDestroyed { damage_target: target, damage_source: source });
            &&& find_mech(r, target) matches Some(m) && !m.alive && m.health == 0
            &&& !alive_ids(r.mechs).contains(target)
            &&& forall|id: Seq<char>| id != target ==> #[trigger] find_mech(r, id) == find_mech(s, id)
        }),
{
    let r = applied(s, GameEventView::MechDestroyed { damage_target: target, damage_source: source });
    let i = mech_index(s, target);
    lemma_first_index(s.mechs, has_id(target));
    assert(r.mechs.len() == s.mechs.len());
    assert forall|j: int| 0 <= j < s.mechs.len() implies #[trigger] r.mechs[j].id == s.mechs[j].id by {}
    assert forall|id: Seq<char>| id != target implies #[trigger] find_mech(r, id) == find_mech(s, id) by {
        assert forall|j: int| 0 <= j < s.mechs.len() implies has_id(id)(#[trigger] s.mechs[j]) == has_id(id)(r.mechs[j]) by {
            assert(r.mechs[j].id == s.mechs[j].id);
        }
        lemma_first_index_preserved(s.mechs, r.mechs, has_id(id));
        lemma_first_index(s.mechs, has_id(id));
        let k = mech_index(s, id);
        if k >= 0 {
            assert(s.mechs[k].id == id);
            assert(k != i);
        }
    }
    assert forall|j: int| 0 <= j < s.mechs.len() implies has_id(target)(#[trigger] s.mechs[j]) == has_id(target)(r.mechs[j]) by {
        assert(r.mechs[j].id == s.mechs[j].id);
    }
    lemma_first_index_preserved(s.mechs, r.mechs, has_id(target));
    assert(r.mechs[i] == destroyed()(s.mechs[i]));
    if alive_ids(r.mechs).contains(target) {
        lemma_alive_ids_are_alive(r.mechs, target);
        let j = choose|j: int| 0 <= j < r.mechs.len() && r.mechs[j].id == target && #[trigger] r.mechs[j].alive;
        if j != i {
            assert(s.mechs[j].id == s.mechs[i].id);
            if j < i {
                assert(s.mechs[j].id != s.mechs[i].id);
            } else {
                assert(s.mechs[i].id != s.mechs[j].id);
            }
        }
    }
}

} // verus!
