//! Kode Frieze: holds the centre of the board and shoots the foes that come
//! within range of its primary weapon, remembering its target in EBX and
//! counting idle turns in ECX.

use vstd::prelude::*;
use crate::commands::{MechCommand, MechCommandView};
use crate::geometry::{GameBoard, Point};
use crate::npc::tactics::{
    acc_cmd, board, commands_view, distance, distance_to, first_in_range, first_ping, in_range, last_scan, push_command,
    register, scan_cmd, set_cmd, shoot, toward,
};
use crate::registers::{RegisterValue, RegisterValueView, EBX, ECX};
use crate::sdk::{ping_views, PingView, RadarPing, WasmdomeMechInstruments};
use crate::seqs::{first_index, lemma_first_index, lemma_first_index_unique};
use crate::state::PRIMARY_RANGE;

verus! {

/// The centre of the board.
pub open spec fn center_of(gb: GameBoard) -> Point {
    Point { x: (gb.width / 2) as i32, y: (gb.height / 2) as i32 }
}

/// Whether the mech is at the centre, give or take a unit (for boards of
/// even width or height).
pub open spec fn in_center(m: WasmdomeMechInstruments) -> bool {
    distance(m.current().position, center_of(board(m))) <= 1
}

/// Up to three moves toward the centre, one per unit of distance.
pub open spec fn approach(m: WasmdomeMechInstruments) -> Seq<MechCommandView> {
    let c = center_of(board(m));
    let d = distance(m.current().position, c);
    let n: nat = if d < 3 { d as nat } else { 3 };
    Seq::new(n, |i: int| crate::npc::tactics::mv(m, toward(m, c)))
}

/// A foe within primary range.
pub open spec fn near_foe(pos: Point) -> spec_fn(PingView) -> bool {
    in_range(pos, PRIMARY_RANGE as u32, PRIMARY_RANGE as u32, true)
}

/// The foe `id` within primary range.
pub open spec fn near_target(pos: Point, id: Seq<char>) -> spec_fn(PingView) -> bool {
    |p: PingView| near_foe(pos)(p) && p.id == id
}

/// Nothing to shoot: a scan, and one more idle turn counted in ECX.
pub open spec fn idle(m: WasmdomeMechInstruments) -> Seq<MechCommandView> {
    seq![scan_cmd(m), acc_cmd(m, ECX, 1)]
}

/// Two shots at the remembered target when it is near, else two shots at
/// the first foe near, remembering it, else idling.
pub open spec fn seek_plan(m: WasmdomeMechInstruments, s: Seq<PingView>) -> Seq<MechCommandView> {
    let pos = m.current().position;
    let fresh = match first_ping(s, near_foe(pos)) {
        Some(t) => seq![
            set_cmd(m, EBX, RegisterValueView::Text(t.id)),
            shoot(m, toward(m, t.location)),
            shoot(m, toward(m, t.location)),
        ],
        None => idle(m),
    };
    match register(m, EBX) {
        Some(RegisterValueView::Text(target)) => match first_ping(s, near_target(pos, target)) {
            Some(t) => seq![shoot(m, toward(m, t.location)), shoot(m, toward(m, t.location))],
            None => fresh,
        },
        _ => fresh,
    }
}

/// The turn: make for the centre and scan, else fight from the last scan,
/// else idle.
pub open spec fn plan(m: WasmdomeMechInstruments) -> Seq<MechCommandView> {
    if !in_center(m) {
        approach(m).push(scan_cmd(m))
    } else {
        match last_scan(m) {
            Some(s) => seek_plan(m, s),
            None => idle(m),
        }
    }
}

/// The centre of the board.
pub fn compute_center(gameboard: GameBoard) -> (p: Point)
    ensures
        p == center_of(gameboard),
{
    Point { x: (gameboard.width / 2) as i32, y: (gameboard.height / 2) as i32 }
}

/// Whether the mech is at the centre, give or take a unit.
pub fn is_in_center(mech: &WasmdomeMechInstruments) -> (b: bool)
    requires
        mech.ready(),
    ensures
        b == in_center(*mech),
{
    distance_to(&mech.position(), &compute_center(mech.world_size())) <= 1
}

/// Up to three moves toward the centre.
pub fn move_to_center(mech: &WasmdomeMechInstruments) -> (r: Vec<MechCommand>)
    requires
        mech.ready(),
    ensures
        commands_view(r@) == approach(*mech),
{
    let mut cmds: Vec<MechCommand> = Vec::new();
    let center = compute_center(mech.world_size());
    let steps = distance_to(&mech.position(), &center);
    let ghost step = crate::npc::tactics::mv(*mech, toward(*mech, center));
    let mut i: u32 = 0;
    while i < steps && cmds.len() < 3
        invariant
            mech.ready(),
            center == center_of(board(*mech)),
            steps == distance(mech.current().position, center),
            step == crate::npc::tactics::mv(*mech, toward(*mech, center)),
            i <= steps,
            i <= 3,
            cmds@.len() == i,
            commands_view(cmds@) == Seq::new(i as nat, |k: int| step),
        decreases steps - i,
    {
        push_command(&mut cmds, mech.move_mech(mech.direction_to(&center)));
        assert(Seq::new((i + 1) as nat, |k: int| step) =~= Seq::new(i as nat, |k: int| step).push(step));
        i = i + 1;
    }
    assert(commands_view(cmds@) =~= approach(*mech));
    cmds
}

fn idle_cmds(mech: &WasmdomeMechInstruments) -> (r: Vec<MechCommand>)
    requires
        mech.ready(),
    ensures
        commands_view(r@) == idle(*mech),
{
    let v = vec![mech.request_radar(), mech.register_acc(ECX, 1)];
    assert(commands_view(v@) =~= idle(*mech));
    v
}

fn first_near_target(scan: &Vec<RadarPing>, pos: Point, target: &str) -> (r: Option<usize>)
    ensures
        match r {
            Some(i) => i < scan@.len() && i == first_index(ping_views(scan@), near_target(pos, target@)),
            None => first_index(ping_views(scan@), near_target(pos, target@)) == -1,
        },
{
    let ghost v = ping_views(scan@);
    let ghost pred = near_target(pos, target@);
    let mut i: usize = 0;
    while i < scan.len()
        invariant
            i <= scan.len(),
            v == ping_views(scan@),
            pred == near_target(pos, target@),
            forall|j: int| 0 <= j < i ==> !pred(#[trigger] v[j]),
        decreases scan.len() - i,
    {
        let d = distance_to(&pos, &scan[i].location);
        if d <= PRIMARY_RANGE as u32 && scan[i].foe && crate::text::same_text(scan[i].id.as_str(), target) {
            proof {
                lemma_first_index_unique(v, pred, i as int);
            }
            return Some(i);
        }
        i = i + 1;
    }
    proof {
        lemma_first_index(v, pred);
        let k = first_index(v, pred);
        if k >= 0 {
            assert(pred(v[k]));
        }
    }
    None
}

fn fresh_target(mech: &WasmdomeMechInstruments, scan: &Vec<RadarPing>) -> (r: Vec<MechCommand>)
    requires
        mech.ready(),
    ensures
        commands_view(r@) == (match first_ping(ping_views(scan@), near_foe(mech.current().position)) {
            Some(t) => seq![
                set_cmd(*mech, EBX, RegisterValueView::Text(t.id)),
                shoot(*mech, toward(*mech, t.location)),
                shoot(*mech, toward(*mech, t.location)),
            ],
            None => idle(*mech),
        }),
{
    let range = mech.primary_range();
    if let Some(i) = first_in_range(scan, mech.position(), range, range, true) {
        let target = &scan[i];
        assert(ping_views(scan@)[i as int] == target@);
        let v = vec![
            mech.register_set(EBX, RegisterValue::Text(target.id.clone())),
            mech.fire_primary(mech.direction_to(&target.location)),
            mech.fire_primary(mech.direction_to(&target.location)),
        ];
        assert(commands_view(v@) =~= seq![
            set_cmd(*mech, EBX, RegisterValueView::Text(target.id@)),
            shoot(*mech, toward(*mech, target.location)),
            shoot(*mech, toward(*mech, target.location)),
        ]);
        v
    } else {
        idle_cmds(mech)
    }
}

/// Fights from the scan: the remembered target if near, else the first
/// foe near, else idles.
pub fn seek_and_destroy_target(mech: &WasmdomeMechInstruments, scan: Vec<RadarPing>) -> (r: Vec<MechCommand>)
    requires
        mech.ready(),
    ensures
        commands_view(r@) == seek_plan(*mech, ping_views(scan@)),
{
    match mech.register_get(EBX) {
        Some(RegisterValue::Text(target)) => {
            if let Some(i) = first_near_target(&scan, mech.position(), target.as_str()) {
                let t = &scan[i];
                assert(ping_views(scan@)[i as int] == t@);
                let v = vec![
                    mech.fire_primary(mech.direction_to(&t.location)),
                    mech.fire_primary(mech.direction_to(&t.location)),
                ];
                assert(commands_view(v@) =~= seek_plan(*mech, ping_views(scan@)));
                v
            } else {
                fresh_target(mech, &scan)
            }
        },
        _ => fresh_target(mech, &scan),
    }
}

/// Kode Frieze's turn.
pub fn handler(mech: &WasmdomeMechInstruments) -> (r: Vec<MechCommand>)
    requires
        mech.ready(),
    ensures
        commands_view(r@) == plan(*mech),
{
    if !is_in_center(mech) {
        let mut cmds = move_to_center(mech);
        push_command(&mut cmds, mech.request_radar());
        cmds
    } else if let Some(scan) = mech.last_radar_scan() {
        seek_and_destroy_target(mech, scan)
    } else {
        idle_cmds(mech)
    }
}

} // verus!
