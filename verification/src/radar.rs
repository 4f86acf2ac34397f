//! Radar scans: what a mech sees of the mechs around it.

use vstd::prelude::*;
use crate::geometry::{gather, GridDirection, Point};
use crate::state::{mech_at, MatchState, MatchStateView, MechState, MechStateView};
use crate::text::{lowercase_of, to_lowercase};

verus! {

/// One mech found by a radar scan.
#[derive(Debug, PartialEq, Eq)]
pub struct RadarPing {
    /// The id of the mech found.
    pub id: String,
    pub name: String,
    pub avatar: String,
    pub foe: bool,
    pub location: Point,
    pub distance: usize,
}

pub struct RadarPingView {
    pub id: Seq<char>,
    pub name: Seq<char>,
    pub avatar: Seq<char>,
    pub foe: bool,
    pub location: Point,
    pub distance: usize,
}

impl View for RadarPing {
    type V = RadarPingView;

    open spec fn view(&self) -> RadarPingView {
        RadarPingView {
            id: self.id@,
            name: self.name@,
            avatar: self.avatar@,
            foe: self.foe,
            location: self.location,
            distance: self.distance,
        }
    }
}

impl Clone for RadarPing {
    fn clone(&self) -> (r: Self)
        ensures
            r@ == self@,
    {
        RadarPing {
            id: self.id.clone(),
            name: self.name.clone(),
            avatar: self.avatar.clone(),
            foe: self.foe,
            location: self.location,
            distance: self.distance,
        }
    }
}

pub open spec fn pings_view(s: Seq<RadarPing>) -> Seq<RadarPingView> {
    s.map_values(|p: RadarPing| p@)
}

/// Clones a list of pings.
pub fn clone_pings(pings: &Vec<RadarPing>) -> (r: Vec<RadarPing>)
    ensures
        pings_view(r@) == pings_view(pings@),
{
    let mut out: Vec<RadarPing> = Vec::new();
    let mut i: usize = 0;
    while i < pings.len()
        invariant
            i <= pings.len(),
            pings_view(out@) == pings_view(pings@).subrange(0, i as int),
        decreases pings.len() - i,
    {
        let p = pings[i].clone();
        let ghost before = out@;
        out.push(p);
        assert(pings_view(out@) =~= pings_view(before).push(p@));
        assert(pings_view(pings@).subrange(0, i + 1) =~= pings_view(pings@).subrange(0, i as int).push(p@));
        i = i + 1;
    }
    assert(pings_view(pings@).subrange(0, i as int) =~= pings_view(pings@));
    out
}


/// The direction of the `k`-th line of the radar grid.
pub open spec fn radar_direction(k: int) -> GridDirection {
    if k == 0 {
        GridDirection::NorthWest
    } else if k == 1 {
        GridDirection::North
    } else if k == 2 {
        GridDirection::NorthEast
    } else if k == 3 {
        GridDirection::West
    } else if k == 4 {
        GridDirection::East
    } else if k == 5 {
        GridDirection::SouthWest
    } else if k == 6 {
        GridDirection::South
    } else {
        GridDirection::SouthEast
    }
}

/// How far the `k`-th line of the radar grid reaches: 3 on the diagonals,
/// 4 along the axes.
pub open spec fn radar_reach(k: int) -> nat {
    if k == 0 || k == 2 || k == 5 || k == 7 {
        3
    } else {
        4
    }
}

/// The `k`-th line of the radar grid: its direction and its reach.
pub fn radar_grid(k: usize) -> (r: (GridDirection, i32))
    requires
        k < 8,
    ensures
        r.0 == radar_direction(k as int),
        r.1 as int == radar_reach(k as int),
{
    if k == 0 {
        (GridDirection::NorthWest, 3)
    } else if k == 1 {
        (GridDirection::North, 4)
    } else if k == 2 {
        (GridDirection::NorthEast, 3)
    } else if k == 3 {
        (GridDirection::West, 4)
    } else if k == 4 {
        (GridDirection::East, 4)
    } else if k == 5 {
        (GridDirection::SouthWest, 3)
    } else if k == 6 {
        (GridDirection::South, 4)
    } else {
        (GridDirection::SouthEast, 3)
    }
}

/// The mechs standing on the given points, each with the point's distance label.
pub open spec fn targets_on(s: MatchStateView, pts: Seq<(crate::geometry::Point, usize)>) -> Seq<(MechStateView, usize)>
    decreases pts.len(),
{
    if pts.len() == 0 {
        Seq::empty()
    } else {
        let rest = targets_on(s, pts.drop_last());
        match mech_at(s, pts.last().0) {
            Some(m) => rest.push((m, pts.last().1)),
            None => rest,
        }
    }
}

/// The mechs found along the first `k` lines of the radar grid around `origin`.
pub open spec fn radar_targets_upto(s: MatchStateView, origin: crate::geometry::Point, k: nat) -> Seq<(MechStateView, usize)>
    decreases k,
{
    if k == 0 {
        Seq::empty()
    } else {
        radar_targets_upto(s, origin, (k - 1) as nat) + targets_on(
            s,
            gather(origin, s.game_board, radar_direction(k - 1), radar_reach(k - 1)),
        )
    }
}

/// The mechs a radar scan from `origin` finds, with their distances.
pub open spec fn radar_targets(s: MatchStateView, origin: crate::geometry::Point) -> Seq<(MechStateView, usize)> {
    radar_targets_upto(s, origin, 8)
}

/// The ping of a mech found at `distance` by a scan of team `scanning_team`:
/// a foe when the teams differ, ignoring case.
pub open spec fn ping_of(m: MechStateView, scanning_team: Seq<char>, distance: usize) -> RadarPingView {
    RadarPingView {
        id: m.id,
        name: m.name,
        avatar: m.avatar,
        location: m.position,
        distance,
        foe: lowercase_of(m.team) != lowercase_of(scanning_team),
    }
}

/// The pings of a radar scan from `origin` by team `scanning_team`.
pub open spec fn radar_pings_of(s: MatchStateView, origin: crate::geometry::Point, scanning_team: Seq<char>) -> Seq<RadarPingView> {
    radar_targets(s, origin).map_values(|t: (MechStateView, usize)| ping_of(t.0, scanning_team, t.1))
}

pub open spec fn targets_view(v: Seq<(MechState, usize)>) -> Seq<(MechStateView, usize)> {
    v.map_values(|t: (MechState, usize)| (t.0@, t.1))
}

/// The mechs standing on the given points, each with the point's label.
pub fn targets_in(state: &MatchState, points: &Vec<(crate::geometry::Point, usize)>) -> (r: Vec<(MechState, usize)>)
    ensures
        targets_view(r@) == targets_on(state@, points@),
{
    let mut out: Vec<(MechState, usize)> = Vec::new();
    let mut i: usize = 0;
    while i < points.len()
        invariant
            i <= points.len(),
            targets_view(out@) == targets_on(state@, points@.subrange(0, i as int)),
        decreases points.len() - i,
    {
        let (p, d) = points[i];
        proof {
            assert(points@.subrange(0, i + 1).drop_last() =~= points@.subrange(0, i as int));
        }
        match MatchState::mech_at(state, &p) {
            Some(m) => {
                let ghost before = out@;
                let ghost mv = m@;
                out.push((m, d));
                assert(targets_view(out@) =~= targets_view(before).push((mv, d)));
            },
            None => {},
        }
        i = i + 1;
    }
    assert(points@.subrange(0, i as int) =~= points@);
    out
}

/// The mechs found by a radar scan from `origin`, with their distances.
pub fn collect_targets(state: &MatchState, origin: &crate::geometry::Point) -> (r: Vec<(MechState, usize)>)
    ensures
        targets_view(r@) == radar_targets(state@, *origin),
{
    let mut out: Vec<(MechState, usize)> = Vec::new();
    let mut k: usize = 0;
    while k < 8
        invariant
            k <= 8,
            targets_view(out@) == radar_targets_upto(state@, *origin, k as nat),
        decreases 8 - k,
    {
        let (dir, length) = radar_grid(k);
        let points = origin.gather_points(&state.game_board, &dir, length as usize);
        let ghost before = out@;
        let mut found = targets_in(state, &points);
        out.append(&mut found);
        assert(targets_view(out@) =~= targets_view(before) + targets_on(state@, points@));
        k = k + 1;
    }
    out
}

/// The ping of mech `mech` found at `distance` by a scan of team `scanning_team`.
pub fn mech_to_ping(mech: MechState, scanning_team: &str, distance: usize) -> (p: RadarPing)
    ensures
        p@ == ping_of(mech@, scanning_team@, distance),
{
    let a = to_lowercase(mech.team.as_str());
    let b = to_lowercase(scanning_team);
    let foe = !(a == b);
    RadarPing { id: mech.id, name: mech.name, avatar: mech.avatar, location: mech.position, distance, foe }
}

/// The pings of a radar scan from `origin` by team `scanning_team`.
pub fn radar_ping(state: &MatchState, origin: &crate::geometry::Point, scanning_team: &str) -> (r: Vec<RadarPing>)
    ensures
        pings_view(r@) == radar_pings_of(state@, *origin, scanning_team@),
{
    let targets = collect_targets(state, origin);
    let ghost tv = targets_view(targets@);
    let mut out: Vec<RadarPing> = Vec::new();
    let mut i: usize = 0;
    while i < targets.len()
        invariant
            i <= targets.len(),
            tv == targets_view(targets@),
            tv == radar_targets(state@, *origin),
            pings_view(out@) == tv.subrange(0, i as int).map_values(
                |t: (MechStateView, usize)| ping_of(t.0, scanning_team@, t.1),
            ),
        decreases targets.len() - i,
    {
        let m = targets[i].0.clone();
        let d = targets[i].1;
        let ping = mech_to_ping(m, scanning_team, d);
        let ghost before = out@;
        out.push(ping);
        proof {
            let f = |t: (MechStateView, usize)| ping_of(t.0, scanning_team@, t.1);
            assert(pings_view(out@) =~= pings_view(before).push(ping@));
            assert(tv.subrange(0, i + 1).map_values(f) =~= tv.subrange(0, i as int).map_values(f).push(f(tv[i as int])));
        }
        i = i + 1;
    }
    assert(tv.subrange(0, i as int) =~= tv);
    out
}

} // verus!
