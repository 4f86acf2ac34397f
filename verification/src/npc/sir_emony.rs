//! Sir Emony: finds a friendly mech, remembers it in EBX, keeps close to
//! it and gives it supporting fire.

use vstd::prelude::*;
use crate::commands::{MechCommand, MechCommandView};
use crate::geometry::{as_i32, GameBoard, GridDirection, Point};
use crate::npc::tactics::{
    append_commands, blast, board, commands_view, first_ping, first_with_id, has_ping_id, last_scan, mv, push_command,
    quarter, quarter_of, register, scan_cmd, scan_or_empty, set_cmd, shoot, toward,
};
use crate::registers::{RegisterValue, RegisterValueView, EBX};
use crate::sdk::{ping_views, PingView, RadarPing, WasmdomeMechInstruments};
use crate::seqs::{first_index, lemma_first_index, lemma_first_index_unique};
use crate::state::{PRIMARY_RANGE, SECONDARY_RANGE};

verus! {

/// The roaming heading, round the board clockwise by quadrant.
pub open spec fn heading(pos: Point, gb: GameBoard) -> GridDirection {
    let qh = quarter(as_i32(gb.height));
    let qw = quarter(as_i32(gb.width));
    if pos.x <= qw && pos.y < 3 * qh {
        GridDirection::North
    } else if pos.x < 3 * qw && pos.y >= 3 * qh {
        GridDirection::East
    } else if pos.x >= 3 * qw && pos.y >= qh {
        GridDirection::South
    } else {
        GridDirection::West
    }
}

/// One roaming move.
pub open spec fn roam(m: WasmdomeMechInstruments) -> MechCommandView {
    mv(m, heading(m.current().position, board(m)))
}

/// Whether a ping is a friend.
pub open spec fn is_friend() -> spec_fn(PingView) -> bool {
    |p: PingView| !p.foe
}

/// Whether looking for a friend can close in on the one it finds: the
/// first friend of the last scan, if any, is at least a unit away.
pub open spec fn locate_defined(m: WasmdomeMechInstruments) -> bool {
    match first_ping(scan_or_empty(m), is_friend()) {
        Some(f) => f.distance >= 1,
        None => true,
    }
}

/// Whether supporting the friend `f` can fall back on closing in on it:
/// `f` is at least a unit away, or a clear shot (or a missing scan) makes
/// closing in unneeded.
pub open spec fn support_defined(m: WasmdomeMechInstruments, f: PingView) -> bool {
    f.distance >= 1 || match last_scan(m) {
        Some(s) => first_ping(s, clear_shot(m, f)) is Some,
        None => true,
    }
}

/// Whether the turn never closes in on a friend that is no unit away.
pub open spec fn turn_defined(m: WasmdomeMechInstruments) -> bool {
    match register(m, EBX) {
        Some(RegisterValueView::Text(id)) => match last_scan(m) {
            Some(s) => match first_ping(s, has_ping_id(id, false)) {
                Some(f) => f.distance > 2 || support_defined(m, f),
                None => locate_defined(m),
            },
            None => true,
        },
        _ => locate_defined(m),
    }
}

/// Up to three moves toward the friend, stopping a unit short, then a scan.
pub open spec fn stay_plan(m: WasmdomeMechInstruments, f: PingView) -> Seq<MechCommandView> {
    let amt: nat = if f.distance >= 3 { 3 } else { (f.distance - 1) as nat };
    Seq::new(amt, |i: int| mv(m, toward(m, f.location))).push(scan_cmd(m))
}

/// A foe in secondary range that is not in the friend's direction.
pub open spec fn clear_shot(m: WasmdomeMechInstruments, f: PingView) -> spec_fn(PingView) -> bool {
    |p: PingView| p.foe && toward(m, p.location) != toward(m, f.location) && p.distance <= SECONDARY_RANGE
}

/// Supporting fire: two primary shots at the first clear foe in primary
/// range, or the secondary weapon at one further out, else staying close.
pub open spec fn support_plan(m: WasmdomeMechInstruments, f: PingView) -> Seq<MechCommandView> {
    match last_scan(m) {
        Some(s) => match first_ping(s, clear_shot(m, f)) {
            Some(t) => if t.distance <= PRIMARY_RANGE {
                seq![shoot(m, toward(m, t.location)), shoot(m, toward(m, t.location))]
            } else {
                seq![blast(m, toward(m, t.location))]
            },
            None => stay_plan(m, f),
        },
        None => seq![scan_cmd(m)],
    }
}

/// Finding a friend: remember the first friend of the scan and close in,
/// else roam and scan.
pub open spec fn locate_plan(m: WasmdomeMechInstruments) -> Seq<MechCommandView> {
    let roaming = seq![roam(m), roam(m), roam(m), scan_cmd(m)];
    match last_scan(m) {
        Some(s) => match first_ping(s, is_friend()) {
            Some(f) => seq![set_cmd(m, EBX, RegisterValueView::Text(f.id))] + stay_plan(m, f),
            None => roaming,
        },
        None => roaming,
    }
}

/// The turn: with a remembered friend on the scan, close in when it is
/// more than two units away, else give supporting fire; with a remembered
/// friend and no scan, scan; otherwise look for a friend.
pub open spec fn plan(m: WasmdomeMechInstruments) -> Seq<MechCommandView> {
    match register(m, EBX) {
        Some(RegisterValueView::Text(id)) => match last_scan(m) {
            Some(s) => match first_ping(s, has_ping_id(id, false)) {
                Some(f) => if f.distance > 2 {
                    stay_plan(m, f)
                } else {
                    support_plan(m, f)
                },
                None => locate_plan(m),
            },
            None => seq![scan_cmd(m)],
        },
        _ => locate_plan(m),
    }
}

/// The roaming heading from `pos`.
pub fn move_direction(pos: Point, gb: GameBoard) -> (d: GridDirection)
    ensures
        d == heading(pos, gb),
{
    let quarter_height = quarter_of(gb.height);
    let quarter_width = quarter_of(gb.width);
    if pos.x <= quarter_width && pos.y < 3 * quarter_height {
        GridDirection::North
    } else if pos.x < 3 * quarter_width && pos.y >= 3 * quarter_height {
        GridDirection::East
    } else if pos.x >= 3 * quarter_width && pos.y >= quarter_height {
        GridDirection::South
    } else {
        GridDirection::West
    }
}

/// One roaming move.
pub fn move_mech(mech: &WasmdomeMechInstruments) -> (c: MechCommand)
    requires
        mech.ready(),
    ensures
        c@ == roam(*mech),
{
    mech.move_mech(move_direction(mech.position(), mech.world_size()))
}

/// Closes in on the friend, then scans.
pub fn stay_with_friendly(mech: &WasmdomeMechInstruments, friendly: &RadarPing) -> (r: Vec<MechCommand>)
    requires
        mech.ready(),
        friendly.distance >= 1,
    ensures
        commands_view(r@) == stay_plan(*mech, friendly@),
{
    let mut moves: Vec<MechCommand> = Vec::new();
    let amt: usize = if friendly.distance >= 3 { 3 } else { friendly.distance - 1 };
    let ghost step = mv(*mech, toward(*mech, friendly.location));
    let mut i: usize = 0;
    while i < amt
        invariant
            mech.ready(),
            step == mv(*mech, toward(*mech, friendly.location)),
            i <= amt,
            commands_view(moves@) == Seq::new(i as nat, |k: int| step),
        decreases amt - i,
    {
        push_command(&mut moves, mech.move_mech(mech.direction_to(&friendly.location)));
        assert(Seq::new((i + 1) as nat, |k: int| step) =~= Seq::new(i as nat, |k: int| step).push(step));
        i = i + 1;
    }
    push_command(&mut moves, mech.request_radar());
    moves
}

fn first_clear_shot(mech: &WasmdomeMechInstruments, scan: &Vec<RadarPing>, friendly: &RadarPing) -> (r: Option<usize>)
    requires
        mech.ready(),
    ensures
        match r {
            Some(i) => i < scan@.len() && i == first_index(ping_views(scan@), clear_shot(*mech, friendly@)),
            None => first_index(ping_views(scan@), clear_shot(*mech, friendly@)) == -1,
        },
{
    let ghost v = ping_views(scan@);
    let ghost pred = clear_shot(*mech, friendly@);
    let friend_dir = mech.direction_to(&friendly.location);
    let mut i: usize = 0;
    while i < scan.len()
        invariant
            mech.ready(),
            i <= scan.len(),
            v == ping_views(scan@),
            pred == clear_shot(*mech, friendly@),
            friend_dir == toward(*mech, friendly.location),
            forall|j: int| 0 <= j < i ==> !pred(#[trigger] v[j]),
        decreases scan.len() - i,
    {
        if scan[i].foe && mech.direction_to(&scan[i].location) != friend_dir && scan[i].distance <= SECONDARY_RANGE {
            proof {
                lemma_first_index_unique(v, pred, i as int);
            }
            return Some(i);
        }
        i = i + 1;
    }
    proof {
        lemma_first_index(v, pred);
        let k = first_index(v, pred);
        if k >= 0 {
            assert(pred(v[k]));
        }
    }
    None
}

/// Fires at the first clear foe in range, else keeps close to the friend.
pub fn supporting_fire(mech: &WasmdomeMechInstruments, friendly: RadarPing) -> (r: Vec<MechCommand>)
    requires
        mech.ready(),
        support_defined(*mech, friendly@),
    ensures
        commands_view(r@) == support_plan(*mech, friendly@),
{
    if let Some(scan) = mech.last_radar_scan() {
        match first_clear_shot(mech, &scan, &friendly) {
            Some(i) => {
                let target = &scan[i];
                assert(ping_views(scan@)[i as int] == target@);
                let v = if target.distance <= PRIMARY_RANGE {
                    vec![
                        mech.fire_primary(mech.direction_to(&target.location)),
                        mech.fire_primary(mech.direction_to(&target.location)),
                    ]
                } else {
                    vec![mech.fire_secondary(mech.direction_to(&target.location))]
                };
                assert(commands_view(v@) =~= support_plan(*mech, friendly@));
                v
            },
            None => stay_with_friendly(mech, &friendly),
        }
    } else {
        let v = vec![mech.request_radar()];
        assert(commands_view(v@) =~= support_plan(*mech, friendly@));
        v
    }
}

fn first_friend(scan: &Vec<RadarPing>) -> (r: Option<usize>)
    ensures
        match r {
            Some(i) => i < scan@.len() && i == first_index(ping_views(scan@), is_friend()),
            None => first_index(ping_views(scan@), is_friend()) == -1,
        },
{
    let ghost v = ping_views(scan@);
    let mut i: usize = 0;
    while i < scan.len()
        invariant
            i <= scan.len(),
            v == ping_views(scan@),
            forall|j: int| 0 <= j < i ==> !is_friend()(#[trigger] v[j]),
        decreases scan.len() - i,
    {
        if !scan[i].foe {
            proof {
                lemma_first_index_unique(v, is_friend(), i as int);
            }
            return Some(i);
        }
        i = i + 1;
    }
    proof {
        lemma_first_index(v, is_friend());
        let k = first_index(v, is_friend());
        if k >= 0 {
            assert(is_friend()(v[k]));
        }
    }
    None
}

/// Looks for a friend: remembers the first one on the scan and closes in,
/// else roams and scans.
pub fn locate_friendly(mech: &WasmdomeMechInstruments) -> (r: Vec<MechCommand>)
    requires
        mech.ready(),
        locate_defined(*mech),
    ensures
        commands_view(r@) == locate_plan(*mech),
{
    if let Some(scan) = mech.last_radar_scan() {
        if let Some(i) = first_friend(&scan) {
            let friendly = &scan[i];
            assert(ping_views(scan@)[i as int] == friendly@);
            let mut catch_up = vec![mech.register_set(EBX, RegisterValue::Text(friendly.id.clone()))];
            assert(commands_view(catch_up@) =~= seq![set_cmd(*mech, EBX, RegisterValueView::Text(friendly.id@))]);
            append_commands(&mut catch_up, stay_with_friendly(mech, friendly));
            return catch_up;
        }
    }
    let v = vec![move_mech(mech), move_mech(mech), move_mech(mech), mech.request_radar()];
    assert(commands_view(v@) =~= locate_plan(*mech));
    v
}

/// The ping with the given id, if the scan has one.
pub fn radar_ping_for_id(scan: Vec<RadarPing>, id: String) -> (r: Option<RadarPing>)
    ensures
        match first_ping(ping_views(scan@), has_ping_id(id@, false)) {
            Some(p) => r matches Some(q) && q@ == p,
            None => r is None,
        },
{
    match first_with_id(&scan, id.as_str(), false) {
        Some(i) => {
            let enemy = &scan[i];
            assert(ping_views(scan@)[i as int] == enemy@);
            Some(RadarPing {
                id: enemy.id.clone(),
                location: Point::new(enemy.location.x, enemy.location.y),
                foe: enemy.foe,
                distance: enemy.distance,
            })
        },
        None => None,
    }
}

/// Whether looking for a friend is defined on the mech's last scan (see
/// `locate_defined`).
pub fn locate_is_defined(mech: &WasmdomeMechInstruments) -> (b: bool)
    requires
        mech.ready(),
    ensures
        b == locate_defined(*mech),
{
    match mech.last_radar_scan() {
        Some(scan) => match first_friend(&scan) {
            Some(i) => {
                assert(ping_views(scan@)[i as int] == scan@[i as int]@);
                scan[i].distance >= 1
            },
            None => true,
        },
        None => true,
    }
}

/// Whether Sir Emony's turn is defined on what the mech knows (see
/// `turn_defined`).
pub fn turn_is_defined(mech: &WasmdomeMechInstruments) -> (b: bool)
    requires
        mech.ready(),
    ensures
        b == turn_defined(*mech),
{
    if let Some(RegisterValue::Text(id)) = mech.register_get(EBX) {
        match mech.last_radar_scan() {
            Some(scan) => match first_with_id(&scan, id.as_str(), false) {
                Some(i) => {
                    let friendly = &scan[i];
                    assert(ping_views(scan@)[i as int] == friendly@);
                    friendly.distance > 2 || friendly.distance >= 1 || first_clear_shot(mech, &scan, friendly).is_some()
                },
                None => locate_is_defined(mech),
            },
            None => true,
        }
    } else {
        locate_is_defined(mech)
    }
}

/// Sir Emony's turn.
pub fn handler(mech: &WasmdomeMechInstruments) -> (r: Vec<MechCommand>)
    requires
        mech.ready(),
        turn_defined(*mech),
    ensures
        commands_view(r@) == plan(*mech),
{
    if let Some(RegisterValue::Text(friendly_id)) = mech.register_get(EBX) {
        if let Some(scan) = mech.last_radar_scan() {
            let ghost s = ping_views(scan@);
            let ghost k = first_index(s, has_ping_id(friendly_id@, false));
            proof {
                lemma_first_index(s, has_ping_id(friendly_id@, false));
            }
            if let Some(friendly) = radar_ping_for_id(scan, friendly_id.clone()) {
                if friendly.distance > 2 {
                    stay_with_friendly(mech, &friendly)
                } else {
                    supporting_fire(mech, friendly)
                }
            } else {
                locate_friendly(mech)
            }
        } else {
            let v = vec![mech.request_radar()];
            assert(commands_view(v@) =~= plan(*mech));
            v
        }
    } else {
        locate_friendly(mech)
    }
}

} // verus!
