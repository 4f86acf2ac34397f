//! Boylur Plait, the demon: remembers its starting health, then lurks,
//! fires at what comes into range and keeps moving.

use vstd::prelude::*;
use crate::commands::{MechCommand, MechCommandView};
use crate::geometry::{as_i32, GameBoard, GridDirection};
use crate::npc::tactics::{append_commands, board, blast, closest, closest_in_range, commands_view, first_in_range, first_ping, in_range, mv, push_command, quarter, quarter_of, register, scan_cmd, scan_or_empty, set_cmd, shoot, toward};
use crate::registers::{RegisterValue, RegisterValueView, EAX};
use crate::sdk::{ping_views, WasmdomeMechInstruments};
use crate::state::{PRIMARY_RANGE, SECONDARY_RANGE};

verus! {

/// Three moves round the board, clockwise by quadrant.
pub open spec fn evasive(m: WasmdomeMechInstruments, gb: GameBoard) -> Seq<MechCommandView> {
    let qh = quarter(as_i32(gb.height));
    let qw = quarter(as_i32(gb.width));
    let pos = m.current().position;
    if pos.x <= qw && pos.y < 3 * qh {
        seq![mv(m, GridDirection::North), mv(m, GridDirection::North), mv(m, GridDirection::East)]
    } else if pos.x < 3 * qw && pos.y >= 3 * qh {
        seq![mv(m, GridDirection::East), mv(m, GridDirection::East), mv(m, GridDirection::South)]
    } else if pos.x >= 3 * qw && pos.y >= qh {
        seq![mv(m, GridDirection::South), mv(m, GridDirection::South), mv(m, GridDirection::West)]
    } else {
        seq![mv(m, GridDirection::West), mv(m, GridDirection::West), mv(m, GridDirection::North)]
    }
}

/// The first foe of the last scan within secondary range.
pub open spec fn foe_in_secondary(m: WasmdomeMechInstruments) -> Option<crate::sdk::PingView> {
    first_ping(scan_or_empty(m), in_range(m.current().position, SECONDARY_RANGE as u32, SECONDARY_RANGE as u32, true))
}

/// The first foe of the last scan within primary range.
pub open spec fn foe_in_primary(m: WasmdomeMechInstruments) -> Option<crate::sdk::PingView> {
    first_ping(scan_or_empty(m), in_range(m.current().position, SECONDARY_RANGE as u32, PRIMARY_RANGE as u32, true))
}

/// Lurking: the secondary weapon at a foe in its range, else the primary
/// weapon and a scan at a foe in its range, else evasion and a scan.
pub open spec fn phase_1_plan(m: WasmdomeMechInstruments) -> Seq<MechCommandView> {
    match foe_in_secondary(m) {
        Some(e) => seq![blast(m, toward(m, e.location))],
        None => match foe_in_primary(m) {
            Some(e) => seq![shoot(m, toward(m, e.location)), scan_cmd(m)],
            None => evasive(m, board(m)).push(scan_cmd(m)),
        },
    }
}

/// Wounded: the primary weapon and evasion at a foe in its range, else the
/// secondary weapon at a foe in its range, else evasion and a scan.
pub open spec fn phase_2_plan(m: WasmdomeMechInstruments) -> Seq<MechCommandView> {
    match foe_in_primary(m) {
        Some(e) => seq![shoot(m, toward(m, e.location))] + evasive(m, board(m)),
        None => match foe_in_secondary(m) {
            Some(e) => seq![blast(m, toward(m, e.location))],
            None => evasive(m, board(m)).push(scan_cmd(m)),
        },
    }
}

/// Fighting for its life: as when wounded, but at the closest mech in
/// range.
pub open spec fn final_phase_plan(m: WasmdomeMechInstruments) -> Seq<MechCommandView> {
    let pos = m.current().position;
    match closest(scan_or_empty(m), pos, SECONDARY_RANGE as u32, PRIMARY_RANGE as u32) {
        Some(e) => seq![shoot(m, toward(m, e.location))] + evasive(m, board(m)),
        None => match closest(scan_or_empty(m), pos, SECONDARY_RANGE as u32, SECONDARY_RANGE as u32) {
            Some(e) => seq![blast(m, toward(m, e.location))],
            None => evasive(m, board(m)).push(scan_cmd(m)),
        },
    }
}

/// The direction that a roll of 0 to 7 names, clockwise from North.
pub open spec fn roll_direction(roll: u32) -> GridDirection {
    if roll == 0 {
        GridDirection::North
    } else if roll == 1 {
        GridDirection::NorthEast
    } else if roll == 2 {
        GridDirection::East
    } else if roll == 3 {
        GridDirection::SouthEast
    } else if roll == 4 {
        GridDirection::South
    } else if roll == 5 {
        GridDirection::SouthWest
    } else if roll == 6 {
        GridDirection::West
    } else {
        GridDirection::NorthWest
    }
}

/// The turn: the first turn stores the starting health in EAX, scans and
/// fires in the direction `roll` names; later turns choose a phase by the
/// health left against that stored number.
pub open spec fn plan(m: WasmdomeMechInstruments, roll: u32) -> Seq<MechCommandView> {
    match register(m, EAX) {
        Some(RegisterValueView::Number(n)) => {
            let health = m.current().health as int;
            if health >= n * (2u64 / 3u64) {
                phase_1_plan(m)
            } else if health >= n / 3 {
                phase_2_plan(m)
            } else {
                final_phase_plan(m)
            }
        },
        _ => seq![
            set_cmd(m, EAX, RegisterValueView::Number(m.current().health as u64)),
            scan_cmd(m),
            shoot(m, roll_direction(roll)),
        ],
    }
}

fn last_scan_or_empty(mech: &WasmdomeMechInstruments) -> (r: Vec<crate::sdk::RadarPing>)
    requires
        mech.ready(),
    ensures
        ping_views(r@) == scan_or_empty(*mech),
{
    match mech.last_radar_scan() {
        Some(v) => v,
        None => {
            let v: Vec<crate::sdk::RadarPing> = Vec::new();
            assert(ping_views(v@) =~= Seq::<crate::sdk::PingView>::empty());
            v
        },
    }
}

/// Moves round the board, clockwise by quadrant.
pub fn evasive_maneuvers(mech: &WasmdomeMechInstruments, gb: GameBoard) -> (r: Vec<MechCommand>)
    requires
        mech.ready(),
    ensures
        commands_view(r@) == evasive(*mech, gb),
{
    let quarter_height = quarter_of(gb.height);
    let quarter_width = quarter_of(gb.width);
    let pos = mech.position();
    let v = if pos.x <= quarter_width && pos.y < 3 * quarter_height {
        vec![
            mech.move_mech(GridDirection::North),
            mech.move_mech(GridDirection::North),
            mech.move_mech(GridDirection::East),
        ]
    } else if pos.x < 3 * quarter_width && pos.y >= 3 * quarter_height {
        vec![
            mech.move_mech(GridDirection::East),
            mech.move_mech(GridDirection::East),
            mech.move_mech(GridDirection::South),
        ]
    } else if pos.x >= 3 * quarter_width && pos.y >= quarter_height {
        vec![
            mech.move_mech(GridDirection::South),
            mech.move_mech(GridDirection::South),
            mech.move_mech(GridDirection::West),
        ]
    } else {
        vec![
            mech.move_mech(GridDirection::West),
            mech.move_mech(GridDirection::West),
            mech.move_mech(GridDirection::North),
        ]
    };
    assert(commands_view(v@) =~= evasive(*mech, gb));
    v
}

fn evade_and_scan(mech: &WasmdomeMechInstruments) -> (r: Vec<MechCommand>)
    requires
        mech.ready(),
    ensures
        commands_view(r@) == evasive(*mech, board(*mech)).push(scan_cmd(*mech)),
{
    let mut v = evasive_maneuvers(mech, mech.world_size());
    push_command(&mut v, mech.request_radar());
    v
}

fn shoot_and_evade(mech: &WasmdomeMechInstruments, target: crate::geometry::Point) -> (r: Vec<MechCommand>)
    requires
        mech.ready(),
    ensures
        commands_view(r@) == seq![shoot(*mech, toward(*mech, target))] + evasive(*mech, board(*mech)),
{
    let mut v = vec![mech.fire_primary(mech.direction_to(&target))];
    assert(commands_view(v@) =~= seq![shoot(*mech, toward(*mech, target))]);
    append_commands(&mut v, evasive_maneuvers(mech, mech.world_size()));
    v
}

/// Lurks: fires at a foe in range, else moves on.
pub fn phase_1(mech: &WasmdomeMechInstruments) -> (r: Vec<MechCommand>)
    requires
        mech.ready(),
    ensures
        commands_view(r@) == phase_1_plan(*mech),
{
    let scan = last_scan_or_empty(mech);
    let pos = mech.position();
    let sec = mech.secondary_range();
    let prim = mech.primary_range();
    if let Some(i) = first_in_range(&scan, pos, sec, sec, true) {
        assert(ping_views(scan@)[i as int].location == scan@[i as int].location);
        let v = vec![mech.fire_secondary(mech.direction_to(&scan[i].location))];
        assert(commands_view(v@) =~= phase_1_plan(*mech));
        v
    } else if let Some(i) = first_in_range(&scan, pos, sec, prim, true) {
        assert(ping_views(scan@)[i as int].location == scan@[i as int].location);
        let v = vec![mech.fire_primary(mech.direction_to(&scan[i].location)), mech.request_radar()];
        assert(commands_view(v@) =~= phase_1_plan(*mech));
        v
    } else {
        evade_and_scan(mech)
    }
}

/// Wounded: fires and evades, else fires the secondary weapon, else moves
/// on.
pub fn phase_2(mech: &WasmdomeMechInstruments) -> (r: Vec<MechCommand>)
    requires
        mech.ready(),
    ensures
        commands_view(r@) == phase_2_plan(*mech),
{
    let scan = last_scan_or_empty(mech);
    let pos = mech.position();
    let sec = mech.secondary_range();
    let prim = mech.primary_range();
    if let Some(i) = first_in_range(&scan, pos, sec, prim, true) {
        assert(ping_views(scan@)[i as int].location == scan@[i as int].location);
        shoot_and_evade(mech, scan[i].location)
    } else if let Some(i) = first_in_range(&scan, pos, sec, sec, true) {
        assert(ping_views(scan@)[i as int].location == scan@[i as int].location);
        let v = vec![mech.fire_secondary(mech.direction_to(&scan[i].location))];
        assert(commands_view(v@) =~= phase_2_plan(*mech));
        v
    } else {
        evade_and_scan(mech)
    }
}

/// Fights for its life against the closest mech in range.
pub fn final_phase(mech: &WasmdomeMechInstruments) -> (r: Vec<MechCommand>)
    requires
        mech.ready(),
    ensures
        commands_view(r@) == final_phase_plan(*mech),
{
    let scan = last_scan_or_empty(mech);
    let pos = mech.position();
    let sec = mech.secondary_range();
    let prim = mech.primary_range();
    if let Some(i) = closest_in_range(&scan, pos, sec, prim) {
        assert(ping_views(scan@)[i as int].location == scan@[i as int].location);
        shoot_and_evade(mech, scan[i].location)
    } else if let Some(i) = closest_in_range(&scan, pos, sec, sec) {
        assert(ping_views(scan@)[i as int].location == scan@[i as int].location);
        let v = vec![mech.fire_secondary(mech.direction_to(&scan[i].location))];
        assert(commands_view(v@) =~= final_phase_plan(*mech));
        v
    } else {
        evade_and_scan(mech)
    }
}

/// Fires the primary weapon in the direction a roll of 0 to 7 names.
pub fn intimidate(mech: &WasmdomeMechInstruments, roll: u32) -> (c: MechCommand)
    ensures
        c@ == shoot(*mech, roll_direction(roll)),
{
    let d = match roll {
        0 => GridDirection::North,
        1 => GridDirection::NorthEast,
        2 => GridDirection::East,
        3 => GridDirection::SouthEast,
        4 => GridDirection::South,
        5 => GridDirection::SouthWest,
        6 => GridDirection::West,
        _ => GridDirection::NorthWest,
    };
    mech.fire_primary(d)
}

/// Boylur Plait's turn; `roll` is a random number from 0 to 7.
pub fn handler(mech: &WasmdomeMechInstruments, roll: u32) -> (r: Vec<MechCommand>)
    requires
        mech.ready(),
    ensures
        commands_view(r@) == plan(*mech, roll),
{
    match mech.register_get(EAX) {
        Some(RegisterValue::Number(n)) => {
            let curr_health = mech.hull_integrity() as u64;
            if curr_health >= *n * (2 / 3) {
                phase_1(mech)
            } else if curr_health >= *n / 3 {
                phase_2(mech)
            } else {
                final_phase(mech)
            }
        },
        _ => {
            let v = vec![
                mech.register_set(EAX, RegisterValue::Number(mech.hull_integrity() as u64)),
                mech.request_radar(),
                intimidate(mech, roll),
            ];
            assert(commands_view(v@) =~= plan(*mech, roll));
            v
        },
    }
}

} // verus!
