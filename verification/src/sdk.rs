//! The instrument panel through which a mech reads its sensors and issues
//! its commands during a turn.

use vstd::prelude::*;
use crate::commands::{MechCommand, MechCommandView};
use crate::geometry::{bearing_of, GameBoard, GridDirection, Point};
use crate::protocol::{TakeTurn, TakeTurnResponse};
use crate::radar::RadarPingView;
use crate::registers::{find_register, register_get, RegisterOperation, RegisterOperationView, RegisterValue};
use crate::seqs::{first_index, lemma_first_index, lemma_first_index_unique};
use crate::state::{find_mech, has_mech, is_scan_of, radar_of, MatchStateView, MechState, MechStateView, PRIMARY_RANGE, SECONDARY_RANGE};

verus! {

/// A single result of a radar scan as a mech sees it.
#[derive(Debug)]
pub struct RadarPing {
    /// An opaque identifier that tells one target from another.
    pub id: String,
    /// Whether the target is a foe.
    pub foe: bool,
    /// Where the radar response came from.
    pub location: Point,
    /// The whole-number distance to the target.
    pub distance: usize,
}

pub struct PingView {
    pub id: Seq<char>,
    pub foe: bool,
    pub location: Point,
    pub distance: usize,
}

impl View for RadarPing {
    type V = PingView;

    open spec fn view(&self) -> PingView {
        PingView { id: self.id@, foe: self.foe, location: self.location, distance: self.distance }
    }
}

impl Clone for RadarPing {
    fn clone(&self) -> (r: Self)
        ensures
            r@ == self@,
    {
        RadarPing { id: self.id.clone(), foe: self.foe, location: self.location, distance: self.distance }
    }
}

pub open spec fn ping_views(s: Seq<RadarPing>) -> Seq<PingView> {
    s.map_values(|p: RadarPing| p@)
}

/// What a mech sees of an engine radar ping.
pub open spec fn seen(p: RadarPingView) -> PingView {
    PingView { id: p.id, foe: p.foe, location: p.location, distance: p.distance }
}

pub open spec fn seen_all(s: Seq<RadarPingView>) -> Seq<PingView> {
    s.map_values(|p: RadarPingView| seen(p))
}

/// The instruments of one mech for one turn: the mech and the turn it was
/// asked to take.
pub struct WasmdomeMechInstruments {
    actor: String,
    turn: TakeTurn,
}

impl WasmdomeMechInstruments {
    /// The mech these instruments belong to.
    pub closed spec fn actor(&self) -> Seq<char> {
        self.actor@
    }

    /// The state of the match the turn was asked in.
    pub closed spec fn state(&self) -> MatchStateView {
        self.turn.state@
    }

    /// The number of the turn.
    pub closed spec fn turn_number(&self) -> u32 {
        self.turn.turn
    }

    /// The mech the turn request was addressed to.
    pub closed spec fn turn_actor(&self) -> Seq<char> {
        self.turn.actor@
    }

    /// Whether the mech is in the match.
    pub open spec fn ready(&self) -> bool {
        has_mech(self.state(), self.actor())
    }

    /// The state of the mech.
    pub open spec fn current(&self) -> MechStateView {
        find_mech(self.state(), self.actor())->Some_0
    }

    pub fn new(turn: TakeTurn, actor: String) -> (r: Self)
        ensures
            r.actor() == actor@,
            r.state() == turn.state@,
            r.turn_number() == turn.turn,
            r.turn_actor() == turn.actor@,
    {
        WasmdomeMechInstruments { turn, actor }
    }

    fn current_mech(&self) -> (m: &MechState)
        requires
            self.ready(),
        ensures
            m@ == self.current(),
            m@.id == self.actor(),
    {
        let i = self.turn.state.index_of_mech(&self.actor).unwrap();
        proof {
            crate::seqs::lemma_first_index(self.state().mechs, crate::state::has_id(self.actor()));
        }
        &self.turn.state.mechs[i]
    }

    /// Whether the mech is still alive.
    pub fn is_alive(&self) -> (b: bool)
        requires
            self.ready(),
        ensures
            b == self.current().alive,
    {
        self.current_mech().alive
    }

    /// The current position of the mech.
    pub fn position(&self) -> (p: Point)
        requires
            self.ready(),
        ensures
            p == self.current().position,
    {
        self.current_mech().position
    }

    /// The hull integrity of the mech, in remaining hit points.
    pub fn hull_integrity(&self) -> (h: u32)
        requires
            self.ready(),
        ensures
            h == self.current().health,
    {
        self.current_mech().health
    }

    /// The action points the mech may spend per turn.
    pub fn power(&self) -> (p: u32)
        ensures
            p == self.state().parameters.aps_per_turn,
    {
        self.turn.state.parameters.aps_per_turn
    }

    /// The range of the primary weapon.
    pub fn primary_range(&self) -> (r: u32)
        ensures
            r == PRIMARY_RANGE,
    {
        PRIMARY_RANGE as u32
    }

    /// The range of the secondary weapon.
    pub fn secondary_range(&self) -> (r: u32)
        ensures
            r == SECONDARY_RANGE,
    {
        SECONDARY_RANGE as u32
    }

    /// The direction from the mech to `target`.
    pub fn direction_to(&self, target: &Point) -> (d: GridDirection)
        requires
            self.ready(),
        ensures
            d == bearing_of(target.x - self.current().position.x, target.y - self.current().position.y),
    {
        self.current_mech().position.bearing(target)
    }

    /// The dimensions of the arena.
    pub fn world_size(&self) -> (b: GameBoard)
        ensures
            b == (GameBoard { height: self.state().parameters.height, width: self.state().parameters.width }),
    {
        GameBoard { height: self.turn.state.parameters.height, width: self.turn.state.parameters.width }
    }

    /// Adds `val` to register `reg` (an empty register counts as 0).
    pub fn register_acc(&self, reg: u32, val: u64) -> (c: MechCommand)
        requires
            self.ready(),
        ensures
            c@ == (MechCommandView::RegisterUpdate {
                mech: self.actor(),
                reg,
                op: RegisterOperationView::Accumulate(val),
                turn: self.turn_number(),
            }),
    {
        MechCommand::RegisterUpdate {
            mech: self.current_mech().id.clone(),
            reg,
            op: RegisterOperation::Accumulate(val),
            turn: self.turn.turn,
        }
    }

    /// Subtracts `val` from register `reg`, with a floor of 0.
    pub fn register_dec(&self, reg: u32, val: u64) -> (c: MechCommand)
        requires
            self.ready(),
        ensures
            c@ == (MechCommandView::RegisterUpdate {
                mech: self.actor(),
                reg,
                op: RegisterOperationView::Decrement(val),
                turn: self.turn_number(),
            }),
    {
        MechCommand::RegisterUpdate {
            mech: self.current_mech().id.clone(),
            reg,
            op: RegisterOperation::Decrement(val),
            turn: self.turn.turn,
        }
    }

    /// Stores `val` in register `reg`.
    pub fn register_set(&self, reg: u32, val: RegisterValue) -> (c: MechCommand)
        requires
            self.ready(),
        ensures
            c@ == (MechCommandView::RegisterUpdate {
                mech: self.actor(),
                reg,
                op: RegisterOperationView::Assign(val@),
                turn: self.turn_number(),
            }),
    {
        MechCommand::RegisterUpdate {
            mech: self.current_mech().id.clone(),
            reg,
            op: RegisterOperation::Assign(val),
            turn: self.turn.turn,
        }
    }

    /// The value held in register `reg`, if any.
    pub fn register_get(&self, reg: u32) -> (r: Option<&RegisterValue>)
        requires
            self.ready(),
        ensures
            match r {
                Some(v) => register_get(self.current().registers, reg) == Some(v@),
                None => register_get(self.current().registers, reg) is None,
            },
    {
        let m = self.current_mech();
        match find_register(&m.registers, reg) {
            Some(i) => {
                assert(crate::registers::registers_view(m.registers@)[i as int].1 == m.registers@[i as int].1@);
                Some(&m.registers[i].1)
            },
            None => None,
        }
    }

    /// A radar scan, processed at the end of the turn.
    pub fn request_radar(&self) -> (c: MechCommand)
        ensures
            c@ == (MechCommandView::RequestRadarScan { turn: self.turn_number(), mech: self.actor() }),
    {
        MechCommand::RequestRadarScan { turn: self.turn.turn, mech: self.actor.clone() }
    }

    /// Fires the primary weapon in direction `dir`.
    pub fn fire_primary(&self, dir: GridDirection) -> (c: MechCommand)
        ensures
            c@ == (MechCommandView::FirePrimary { turn: self.turn_number(), mech: self.actor(), direction: dir }),
    {
        MechCommand::FirePrimary { turn: self.turn.turn, mech: self.actor.clone(), direction: dir }
    }

    /// Fires the secondary weapon in direction `dir`.
    pub fn fire_secondary(&self, dir: GridDirection) -> (c: MechCommand)
        ensures
            c@ == (MechCommandView::FireSecondary { turn: self.turn_number(), mech: self.actor(), direction: dir }),
    {
        MechCommand::FireSecondary { turn: self.turn.turn, mech: self.actor.clone(), direction: dir }
    }

    /// Moves the mech one unit in direction `dir`.
    pub fn move_mech(&self, dir: GridDirection) -> (c: MechCommand)
        ensures
            c@ == (MechCommandView::Move { turn: self.turn_number(), mech: self.actor(), direction: dir }),
    {
        MechCommand::Move { turn: self.turn.turn, mech: self.actor.clone(), direction: dir }
    }

    /// The results of the mech's last radar scan, if it made one.
    pub fn last_radar_scan(&self) -> (r: Option<Vec<RadarPing>>)
        ensures
            match radar_of(self.state(), self.actor()) {
                Some(pings) => r matches Some(v) && ping_views(v@) == seen_all(pings),
                None => r is None,
            },
    {
        let ghost scans = self.state().radar_pings;
        let mut i: usize = 0;
        while i < self.turn.state.radar_pings.len()
            invariant
                i <= self.turn.state.radar_pings.len(),
                scans == self.state().radar_pings,
                scans.len() == self.turn.state.radar_pings.len(),
                forall|j: int| 0 <= j < i ==> !is_scan_of(self.actor())(#[trigger] scans[j]),
            decreases self.turn.state.radar_pings.len() - i,
        {
            if crate::text::same_text(self.turn.state.radar_pings[i].0.as_str(), self.actor.as_str()) {
                proof {
                    lemma_first_index_unique(scans, is_scan_of(self.actor()), i as int);
                }
                let pings = &self.turn.state.radar_pings[i].1;
                let ghost pv = scans[i as int].1;
                assert(pv == crate::radar::pings_view(pings@));
                let mut out: Vec<RadarPing> = Vec::new();
                let mut k: usize = 0;
                while k < pings.len()
                    invariant
                        k <= pings.len(),
                        pv == crate::radar::pings_view(pings@),
                        ping_views(out@) == seen_all(pv).subrange(0, k as int),
                    decreases pings.len() - k,
                {
                    let p = RadarPing {
                        id: pings[k].id.clone(),
                        distance: pings[k].distance,
                        foe: pings[k].foe,
                        location: pings[k].location,
                    };
                    let ghost before = out@;
                    out.push(p);
                    assert(ping_views(out@) =~= ping_views(before).push(p@));
                    assert(seen_all(pv).subrange(0, k + 1) =~= seen_all(pv).subrange(0, k as int).push(p@));
                    k = k + 1;
                }
                assert(seen_all(pv).subrange(0, k as int) =~= seen_all(pv));
                return Some(out);
            }
            i = i + 1;
        }
        proof {
            lemma_first_index(scans, is_scan_of(self.actor()));
            let k = first_index(scans, is_scan_of(self.actor()));
            if k >= 0 {
                assert(is_scan_of(self.actor())(scans[k]));
            }
        }
        None
    }

    /// The answer to a turn request: the commands of a mech that is alive
    /// (none for a dead one), closed by the command that finishes the turn.
    pub fn complete_turn(&self, commands: Vec<MechCommand>) -> (r: TakeTurnResponse)
        requires
            self.ready(),
        ensures
            r.commands@.len() == (if self.current().alive { commands@.len() } else { 0 }) + 1,
            self.current().alive ==> forall|i: int| 0 <= i < commands@.len() ==> r.commands@[i] == commands@[i],
            r.commands@.last()@ == (MechCommandView::FinishTurn { mech: self.turn_actor(), turn: self.turn_number() }),
    {
        let mut v = if self.is_alive() { commands } else { Vec::new() };
        v.push(MechCommand::FinishTurn { mech: self.turn.actor.clone(), turn: self.turn.turn });
        TakeTurnResponse { commands: v }
    }
}

} // verus!
