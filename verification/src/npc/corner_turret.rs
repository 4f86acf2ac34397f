//! The corner turret: heads for the nearest corner of the board, then fires
//! out of it in random directions, within its power per turn.

use vstd::prelude::*;
use crate::commands::{total_cost, MechCommand, MechCommandView};
use crate::geometry::{as_i32, GridDirection};
use crate::npc::tactics::{blast, board, commands_view, i32_of, mv, shoot};
use crate::sdk::WasmdomeMechInstruments;

verus! {

/// Whether to head West or East: toward the nearer side, not at all on an
/// edge.
pub open spec fn horizontal(x: int, width: int) -> Option<GridDirection> {
    if x == 0 || x == width {
        None
    } else if x < width - x {
        Some(GridDirection::West)
    } else {
        Some(GridDirection::East)
    }
}

/// Whether to head North or South: toward the nearer side, not at all on
/// an edge.
pub open spec fn vertical(y: int, height: int) -> Option<GridDirection> {
    if y == 0 || y == height {
        None
    } else if y < height - y {
        Some(GridDirection::North)
    } else {
        Some(GridDirection::South)
    }
}

/// The two headings combined into one direction.
pub open spec fn combined(v: Option<GridDirection>, h: Option<GridDirection>) -> Option<GridDirection> {
    match (v, h) {
        (Some(GridDirection::North), Some(GridDirection::West)) => Some(GridDirection::NorthWest),
        (Some(GridDirection::North), Some(GridDirection::East)) => Some(GridDirection::NorthEast),
        (Some(GridDirection::South), Some(GridDirection::East)) => Some(GridDirection::SouthEast),
        (Some(GridDirection::South), Some(GridDirection::West)) => Some(GridDirection::SouthWest),
        (Some(GridDirection::North), None) => Some(GridDirection::North),
        (Some(GridDirection::South), None) => Some(GridDirection::South),
        (None, Some(GridDirection::West)) => Some(GridDirection::West),
        (None, Some(GridDirection::East)) => Some(GridDirection::East),
        _ => None,
    }
}

/// The direction of the nearest corner, or none once in a corner.
pub open spec fn corner_heading(m: WasmdomeMechInstruments) -> Option<GridDirection> {
    let pos = m.current().position;
    combined(
        vertical(pos.y as int, as_i32(board(m).height)),
        horizontal(pos.x as int, as_i32(board(m).width)),
    )
}

/// The range of the random number that picks the firing direction: the
/// corner at the origin, then anywhere on the West edge, then anywhere on
/// the South edge, then anywhere else.
pub open spec fn roll_range(x: i32, y: i32) -> (u32, u32) {
    if x == 0 && y == 0 {
        (2, 4)
    } else if x == 0 {
        (0, 2)
    } else if y == 0 {
        (4, 6)
    } else {
        (6, 8)
    }
}

/// The direction a roll names: 0 to 7 clockwise from North, anything else
/// North.
pub open spec fn compass(d: u32) -> GridDirection {
    if d == 0 {
        GridDirection::North
    } else if d == 1 {
        GridDirection::NorthEast
    } else if d == 2 {
        GridDirection::East
    } else if d == 3 {
        GridDirection::SouthEast
    } else if d == 4 {
        GridDirection::South
    } else if d == 5 {
        GridDirection::SouthWest
    } else if d == 6 {
        GridDirection::West
    } else if d == 7 {
        GridDirection::NorthWest
    } else {
        GridDirection::North
    }
}

/// The firing direction for a roll: off the origin's edges the roll is
/// taken modulo 8.
pub open spec fn firing(x: i32, y: i32, roll: u32) -> GridDirection {
    if x == 0 || y == 0 {
        compass(roll)
    } else {
        compass(roll % 8)
    }
}

/// The turn: a move toward the nearest corner, or, in a corner, a shot of
/// the primary weapon and then one of the secondary weapon, in the
/// directions the two rolls name; a command is left out where the mech's
/// power per turn does not cover it.
pub open spec fn plan(m: WasmdomeMechInstruments, roll1: u32, roll2: u32) -> Seq<MechCommandView> {
    let pos = m.current().position;
    let power = m.state().parameters.aps_per_turn;
    match corner_heading(m) {
        Some(d) => if power >= 1 { seq![mv(m, d)] } else { seq![] },
        None => if power >= 6 {
            seq![shoot(m, firing(pos.x, pos.y, roll1)), blast(m, firing(pos.x, pos.y, roll2))]
        } else if power >= 2 {
            seq![shoot(m, firing(pos.x, pos.y, roll1))]
        } else {
            seq![]
        },
    }
}

/// The direction of the nearest corner, if not in one.
pub fn closest_corner(mech: &WasmdomeMechInstruments) -> (r: Option<GridDirection>)
    requires
        mech.ready(),
    ensures
        r == corner_heading(*mech),
{
    let width = i32_of(mech.world_size().width);
    let height = i32_of(mech.world_size().height);
    let position = mech.position();
    let x = position.x as i64;
    let y = position.y as i64;
    let w = width as i64;
    let h = height as i64;
    let horizontal = if x == 0 || x == w {
        None
    } else if x < w - x {
        Some(GridDirection::West)
    } else {
        Some(GridDirection::East)
    };
    let vertical = if y == 0 || y == h {
        None
    } else if y < h - y {
        Some(GridDirection::North)
    } else {
        Some(GridDirection::South)
    };
    match (vertical, horizontal) {
        (Some(GridDirection::North), Some(GridDirection::West)) => Some(GridDirection::NorthWest),
        (Some(GridDirection::North), Some(GridDirection::East)) => Some(GridDirection::NorthEast),
        (Some(GridDirection::South), Some(GridDirection::East)) => Some(GridDirection::SouthEast),
        (Some(GridDirection::South), Some(GridDirection::West)) => Some(GridDirection::SouthWest),
        (Some(GridDirection::North), None) => Some(GridDirection::North),
        (Some(GridDirection::South), None) => Some(GridDirection::South),
        (None, Some(GridDirection::West)) => Some(GridDirection::West),
        (None, Some(GridDirection::East)) => Some(GridDirection::East),
        _ => None,
    }
}

/// The range, smallest and largest, from which the random number that
/// picks the firing direction is drawn.
pub fn fire_roll_range(mech: &WasmdomeMechInstruments) -> (r: (u32, u32))
    requires
        mech.ready(),
    ensures
        r == roll_range(mech.current().position.x, mech.current().position.y),
{
    let position = mech.position();
    if position.x == 0 && position.y == 0 {
        (2, 4)
    } else if position.x == 0 {
        (0, 2)
    } else if position.y == 0 {
        (4, 6)
    } else {
        (6, 8)
    }
}

/// The firing direction for a random number drawn from `fire_roll_range`.
pub fn fire_direction(mech: &WasmdomeMechInstruments, roll: u32) -> (d: GridDirection)
    requires
        mech.ready(),
    ensures
        d == firing(mech.current().position.x, mech.current().position.y, roll),
{
    let position = mech.position();
    let direction = if position.x == 0 || position.y == 0 {
        roll
    } else {
        roll % 8
    };
    match direction {
        0 => GridDirection::North,
        1 => GridDirection::NorthEast,
        2 => GridDirection::East,
        3 => GridDirection::SouthEast,
        4 => GridDirection::South,
        5 => GridDirection::SouthWest,
        6 => GridDirection::West,
        7 => GridDirection::NorthWest,
        _ => GridDirection::North,
    }
}

/// The corner turret's turn; `roll1` and `roll2` are random numbers drawn
/// from `fire_roll_range`.
pub fn handler(mech: &WasmdomeMechInstruments, roll1: u32, roll2: u32) -> (r: Vec<MechCommand>)
    requires
        mech.ready(),
    ensures
        commands_view(r@) == plan(*mech, roll1, roll2),
        total_cost(commands_view(r@)) <= mech.state().parameters.aps_per_turn,
{
    let power = mech.power();
    let mut v: Vec<MechCommand> = Vec::new();
    if let Some(direction) = closest_corner(mech) {
        if power >= 1 {
            v.push(mech.move_mech(direction));
        }
    } else if power >= 2 {
        v.push(mech.fire_primary(fire_direction(mech, roll1)));
        if power >= 6 {
            v.push(mech.fire_secondary(fire_direction(mech, roll2)));
        }
    }
    let ghost p = plan(*mech, roll1, roll2);
    assert(commands_view(v@) =~= p);
    proof {
        reveal_with_fuel(total_cost, 3);
        if p.len() == 2 {
            assert(p.drop_last().drop_last() =~= Seq::<MechCommandView>::empty());
        } else if p.len() == 1 {
            assert(p.drop_last() =~= Seq::<MechCommandView>::empty());
        }
    }
    v
}

} // verus!
