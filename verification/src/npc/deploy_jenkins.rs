//! Deploy Jenkins: roams the board until a foe shows up on the radar, then
//! runs and guns straight at it, remembering its target in EBX.

use vstd::prelude::*;
use crate::commands::{MechCommand, MechCommandView};
use crate::geometry::{as_i32, GameBoard, GridDirection, Point};
use crate::npc::tactics::{
    board, commands_view, distance, distance_to, first_foe, first_in_range, first_ping, first_with_id, has_ping_id, in_range,
    is_foe, last_scan, mv, quarter, quarter_of, register, scan_cmd, set_cmd, shoot, toward,
};
use crate::registers::{RegisterValue, RegisterValueView, EBX};
use crate::sdk::{ping_views, PingView, RadarPing, WasmdomeMechInstruments};
use crate::state::PRIMARY_RANGE;

verus! {

/// The roaming heading: North down to the lower quarter, then West to the
/// left quarter, then South, else East.
pub open spec fn heading(pos: Point, gb: GameBoard) -> GridDirection {
    let qh = quarter(as_i32(gb.height));
    let qw = quarter(as_i32(gb.width));
    if pos.y >= qh {
        GridDirection::North
    } else if pos.x >= qw {
        GridDirection::West
    } else if pos.y < qh {
        GridDirection::South
    } else {
        GridDirection::East
    }
}

/// One roaming move.
pub open spec fn roam(m: WasmdomeMechInstruments) -> MechCommandView {
    mv(m, heading(m.current().position, board(m)))
}

/// Three roaming moves and a scan.
pub open spec fn roam_and_scan(m: WasmdomeMechInstruments) -> Seq<MechCommandView> {
    seq![roam(m), roam(m), roam(m), scan_cmd(m)]
}

/// The charge at `e`: close in and fire when it is two units away, fire
/// twice when closer, else run at it and scan.
pub open spec fn charge_plan(m: WasmdomeMechInstruments, e: PingView) -> Seq<MechCommandView> {
    let d = distance(m.current().position, e.location);
    let dir = toward(m, e.location);
    if d >= 2 && d <= PRIMARY_RANGE - 1 {
        seq![mv(m, dir), mv(m, dir), shoot(m, dir), set_cmd(m, EBX, RegisterValueView::Text(e.id))]
    } else if d <= PRIMARY_RANGE {
        seq![shoot(m, dir), shoot(m, dir), set_cmd(m, EBX, RegisterValueView::Text(e.id))]
    } else {
        seq![mv(m, dir), mv(m, dir), mv(m, dir), scan_cmd(m)]
    }
}

/// The raid: charge the remembered target if the scan shows it, else fire
/// at a foe within primary range and remember it, else roam.
pub open spec fn raid_plan(m: WasmdomeMechInstruments) -> Seq<MechCommandView> {
    let pos = m.current().position;
    match last_scan(m) {
        Some(s) => match register(m, EBX) {
            Some(RegisterValueView::Text(id)) => match first_ping(s, has_ping_id(id, false)) {
                Some(e) => charge_plan(m, e),
                None => roam_and_scan(m),
            },
            _ => match first_ping(s, in_range(pos, PRIMARY_RANGE as u32, PRIMARY_RANGE as u32, true)) {
                Some(e) => {
                    let dir = toward(m, e.location);
                    seq![shoot(m, dir), mv(m, dir), mv(m, dir), set_cmd(m, EBX, RegisterValueView::Text(e.id))]
                },
                None => roam_and_scan(m),
            },
        },
        None => roam_and_scan(m),
    }
}

/// The turn: charge the remembered target when it is a foe on the scan,
/// else the first foe when no target is remembered, else raid.
pub open spec fn plan(m: WasmdomeMechInstruments) -> Seq<MechCommandView> {
    match last_scan(m) {
        Some(s) => match register(m, EBX) {
            Some(RegisterValueView::Text(id)) => match first_ping(s, has_ping_id(id, true)) {
                Some(e) => charge_plan(m, e),
                None => raid_plan(m),
            },
            _ => match first_ping(s, is_foe()) {
                Some(e) => charge_plan(m, e),
                None => raid_plan(m),
            },
        },
        None => raid_plan(m),
    }
}

/// The roaming heading from `pos`.
pub fn move_direction(pos: Point, gb: GameBoard) -> (d: GridDirection)
    ensures
        d == heading(pos, gb),
{
    let qh = quarter_of(gb.height);
    let qw = quarter_of(gb.width);
    if pos.y >= qh {
        GridDirection::North
    } else if pos.x >= qw {
        GridDirection::West
    } else if pos.y < qh {
        GridDirection::South
    } else {
        GridDirection::East
    }
}

/// One roaming move.
pub fn move_mech(mech: &WasmdomeMechInstruments) -> (c: MechCommand)
    requires
        mech.ready(),
    ensures
        c@ == roam(*mech),
{
    mech.move_mech(move_direction(mech.position(), mech.world_size()))
}

fn roam_and_scan_cmds(mech: &WasmdomeMechInstruments) -> (r: Vec<MechCommand>)
    requires
        mech.ready(),
    ensures
        commands_view(r@) == roam_and_scan(*mech),
{
    let v = vec![move_mech(mech), move_mech(mech), move_mech(mech), mech.request_radar()];
    assert(commands_view(v@) =~= roam_and_scan(*mech));
    v
}

/// Charges `enemy`.
pub fn times_up_lets_do_this(mech: &WasmdomeMechInstruments, enemy: &RadarPing) -> (r: Vec<MechCommand>)
    requires
        mech.ready(),
    ensures
        commands_view(r@) == charge_plan(*mech, enemy@),
{
    let distance = distance_to(&mech.position(), &enemy.location);
    let v = if distance >= 2 && distance <= mech.primary_range() - 1 {
        vec![
            mech.move_mech(mech.direction_to(&enemy.location)),
            mech.move_mech(mech.direction_to(&enemy.location)),
            mech.fire_primary(mech.direction_to(&enemy.location)),
            mech.register_set(EBX, RegisterValue::Text(enemy.id.clone())),
        ]
    } else if distance <= mech.primary_range() {
        vec![
            mech.fire_primary(mech.direction_to(&enemy.location)),
            mech.fire_primary(mech.direction_to(&enemy.location)),
            mech.register_set(EBX, RegisterValue::Text(enemy.id.clone())),
        ]
    } else {
        vec![
            mech.move_mech(mech.direction_to(&enemy.location)),
            mech.move_mech(mech.direction_to(&enemy.location)),
            mech.move_mech(mech.direction_to(&enemy.location)),
            mech.request_radar(),
        ]
    };
    assert(commands_view(v@) =~= charge_plan(*mech, enemy@));
    v
}

/// Raids: charges the remembered target, or fires at a foe in range and
/// remembers it, or roams.
pub fn find_raid(mech: &WasmdomeMechInstruments) -> (r: Vec<MechCommand>)
    requires
        mech.ready(),
    ensures
        commands_view(r@) == raid_plan(*mech),
{
    match mech.last_radar_scan() {
        Some(scan) => {
            if let Some(RegisterValue::Text(enemy_id)) = mech.register_get(EBX) {
                if let Some(i) = first_with_id(&scan, enemy_id.as_str(), false) {
                    assert(ping_views(scan@)[i as int] == scan@[i as int]@);
                    times_up_lets_do_this(mech, &scan[i])
                } else {
                    roam_and_scan_cmds(mech)
                }
            } else if let Some(i) = first_in_range(&scan, mech.position(), mech.primary_range(), mech.primary_range(), true) {
                let enemy = &scan[i];
                assert(ping_views(scan@)[i as int] == enemy@);
                let v = vec![
                    mech.fire_primary(mech.direction_to(&enemy.location)),
                    mech.move_mech(mech.direction_to(&enemy.location)),
                    mech.move_mech(mech.direction_to(&enemy.location)),
                    mech.register_set(EBX, RegisterValue::Text(enemy.id.clone())),
                ];
                assert(commands_view(v@) =~= raid_plan(*mech));
                v
            } else {
                roam_and_scan_cmds(mech)
            }
        },
        None => roam_and_scan_cmds(mech),
    }
}

/// Deploy Jenkins' turn.
pub fn handler(mech: &WasmdomeMechInstruments) -> (r: Vec<MechCommand>)
    requires
        mech.ready(),
    ensures
        commands_view(r@) == plan(*mech),
{
    if let Some(scan) = mech.last_radar_scan() {
        if let Some(RegisterValue::Text(enemy_id)) = mech.register_get(EBX) {
            if let Some(i) = first_with_id(&scan, enemy_id.as_str(), true) {
                assert(ping_views(scan@)[i as int] == scan@[i as int]@);
                times_up_lets_do_this(mech, &scan[i])
            } else {
                find_raid(mech)
            }
        } else if let Some(i) = first_foe(&scan) {
            assert(ping_views(scan@)[i as int] == scan@[i as int]@);
            times_up_lets_do_this(mech, &scan[i])
        } else {
            find_raid(mech)
        }
    } else {
        find_raid(mech)
    }
}

} // verus!
