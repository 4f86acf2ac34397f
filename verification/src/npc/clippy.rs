//! Clippy: a turret that scans every turn and fires its primary weapon at
//! the first foe of its last scan.

use vstd::prelude::*;
use crate::commands::{MechCommand, MechCommandView};
use crate::npc::tactics::{commands_view, first_foe, first_ping, is_foe, last_scan, push_command, scan_cmd, shoot, toward};
use crate::sdk::{ping_views, WasmdomeMechInstruments};

verus! {

/// The turn: a shot at the first foe of the last scan, if any, then a scan.
pub open spec fn plan(m: WasmdomeMechInstruments) -> Seq<MechCommandView> {
    let shots = match last_scan(m) {
        Some(s) => match first_ping(s, is_foe()) {
            Some(p) => seq![shoot(m, toward(m, p.location))],
            None => Seq::empty(),
        },
        None => Seq::empty(),
    };
    shots.push(scan_cmd(m))
}

/// Clippy's turn.
pub fn handler(mech: &WasmdomeMechInstruments) -> (r: Vec<MechCommand>)
    requires
        mech.ready(),
    ensures
        commands_view(r@) == plan(*mech),
{
    let mut cmds: Vec<MechCommand> = Vec::new();
    assert(commands_view(cmds@) =~= Seq::<MechCommandView>::empty());
    if let Some(scan) = mech.last_radar_scan() {
        if let Some(i) = first_foe(&scan) {
            assert(ping_views(scan@)[i as int].location == scan@[i as int].location);
            push_command(&mut cmds, mech.fire_primary(mech.direction_to(&scan[i].location)));
        }
    }
    push_command(&mut cmds, mech.request_radar());
    cmds
}

} // verus!
