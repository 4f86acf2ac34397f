//! The commands a mech issues during its turn.

use vstd::prelude::*;
use crate::geometry::{GridDirection, Point};
use crate::registers::{RegisterOperation, RegisterOperationView};

verus! {

#[derive(Debug)]
pub enum MechCommand {
    Move { turn: u32, mech: String, direction: GridDirection },
    FirePrimary { turn: u32, mech: String, direction: GridDirection },
    FireSecondary { turn: u32, mech: String, direction: GridDirection },
    RequestRadarScan { turn: u32, mech: String },
    SpawnMech { mech: String, position: Point, team: String, avatar: String, name: String },
    /// Marks a turn as complete. One of these must be at the end of every
    /// array that comes out of an actor's turn (the SDK appends it).
    FinishTurn { mech: String, turn: u32 },
    /// Updates one of the mech's registers.
    RegisterUpdate { mech: String, turn: u32, reg: u32, op: RegisterOperation },
}

pub enum MechCommandView {
    Move { turn: u32, mech: Seq<char>, direction: GridDirection },
    FirePrimary { turn: u32, mech: Seq<char>, direction: GridDirection },
    FireSecondary { turn: u32, mech: Seq<char>, direction: GridDirection },
    RequestRadarScan { turn: u32, mech: Seq<char> },
    SpawnMech { mech: Seq<char>, position: Point, team: Seq<char>, avatar: Seq<char>, name: Seq<char> },
    FinishTurn { mech: Seq<char>, turn: u32 },
    RegisterUpdate { mech: Seq<char>, turn: u32, reg: u32, op: RegisterOperationView },
}

impl View for MechCommand {
    type V = MechCommandView;

    open spec fn view(&self) -> MechCommandView {
        match self {
            MechCommand::Move { turn, mech, direction } => MechCommandView::Move {
                turn: *turn,
                mech: mech@,
                direction: *direction,
            },
            MechCommand::FirePrimary { turn, mech, direction } => MechCommandView::FirePrimary {
                turn: *turn,
                mech: mech@,
                direction: *direction,
            },
            MechCommand::FireSecondary { turn, mech, direction } => MechCommandView::FireSecondary {
                turn: *turn,
                mech: mech@,
                direction: *direction,
            },
            MechCommand::RequestRadarScan { turn, mech } => MechCommandView::RequestRadarScan {
                turn: *turn,
                mech: mech@,
            },
            MechCommand::SpawnMech { mech, position, team, avatar, name } => MechCommandView::SpawnMech {
                mech: mech@,
                position: *position,
                team: team@,
                avatar: avatar@,
                name: name@,
            },
            MechCommand::FinishTurn { mech, turn } => MechCommandView::FinishTurn { mech: mech@, turn: *turn },
            MechCommand::RegisterUpdate { mech, turn, reg, op } => MechCommandView::RegisterUpdate {
                mech: mech@,
                turn: *turn,
                reg: *reg,
                op: op@,
            },
        }
    }
}

impl Clone for MechCommand {
    fn clone(&self) -> (r: Self)
        ensures
            r@ == self@,
    {
        match self {
            MechCommand::Move { turn, mech, direction } => MechCommand::Move {
                turn: *turn,
                mech: mech.clone(),
                direction: *direction,
            },
            MechCommand::FirePrimary { turn, mech, direction } => MechCommand::FirePrimary {
                turn: *turn,
                mech: mech.clone(),
                direction: *direction,
            },
            MechCommand::FireSecondary { turn, mech, direction } => MechCommand::FireSecondary {
                turn: *turn,
                mech: mech.clone(),
                direction: *direction,
            },
            MechCommand::RequestRadarScan { turn, mech } => MechCommand::RequestRadarScan {
                turn: *turn,
                mech: mech.clone(),
            },
            MechCommand::SpawnMech { mech, position, team, avatar, name } => MechCommand::SpawnMech {
                mech: mech.clone(),
                position: *position,
                team: team.clone(),
                avatar: avatar.clone(),
                name: name.clone(),
            },
            MechCommand::FinishTurn { mech, turn } => MechCommand::FinishTurn { mech: mech.clone(), turn: *turn },
            MechCommand::RegisterUpdate { mech, turn, reg, op } => MechCommand::RegisterUpdate {
                mech: mech.clone(),
                turn: *turn,
                reg: *reg,
                op: op.clone(),
            },
        }
    }
}

/// The action points a command costs.
pub open spec fn command_cost(c: MechCommandView) -> u32 {
    match c {
        MechCommandView::Move { .. } => 1,
        MechCommandView::FirePrimary { .. } => 2,
        MechCommandView::FireSecondary { .. } => 4,
        MechCommandView::RequestRadarScan { .. } => 1,
        MechCommandView::SpawnMech { .. } => 0,
        MechCommandView::FinishTurn { .. } => 0,
        MechCommandView::RegisterUpdate { .. } => 0,
    }
}

/// The action points a list of commands costs in all.
pub open spec fn total_cost(cmds: Seq<MechCommandView>) -> int
    decreases cmds.len(),
{
    if cmds.len() == 0 {
        0
    } else {
        total_cost(cmds.drop_last()) + command_cost(cmds.last())
    }
}

impl MechCommand {
    /// The action points this command costs: moving and radar scans cost 1,
    /// the primary weapon 2, the secondary weapon 4, everything else nothing.
    pub fn action_points(&self) -> (points: u32)
        ensures
            points == command_cost(self@),
    {
        match self {
            MechCommand::Move { .. } => 1,
            MechCommand::FirePrimary { .. } => 2,
            MechCommand::FireSecondary { .. } => 4,
            MechCommand::RequestRadarScan { .. } => 1,
            MechCommand::SpawnMech { .. } => 0,
            MechCommand::FinishTurn { .. } => 0,
            MechCommand::RegisterUpdate { .. } => 0,
        }
    }
}

} // verus!
