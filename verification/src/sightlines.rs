//! What a line of fire and a radar scan find along their rays: the primary
//! weapon hits the nearest mech in its line, and a scan reports every mech
//! within reach of its rays exactly once, at its distance.

use vstd::prelude::*;
use crate::commands::MechCommandView;
use crate::engine::{can_take_action, handled};
use crate::events::{DamageSourceView, GameEventView};
use crate::geometry::{gather, lemma_gather_points, moved_x, moved_y, on_board, relative, step_x, step_y, GameBoard, GridDirection, Point};
use crate::radar::{ping_of, radar_direction, radar_pings_of, radar_reach, radar_targets, radar_targets_upto, targets_on};
use crate::seqs::lemma_first_index;
use crate::state::{at_position, distinct_ids, find_mech, mech_at, MatchStateView, MechStateView, PRIMARY_DAMAGE, PRIMARY_RANGE};

verus! {

/// Scanning points none of which holds a mech finds nothing.
proof fn lemma_targets_none(s: MatchStateView, pts: Seq<(Point, usize)>)
    requires
        forall|i: int| 0 <= i < pts.len() ==> #[trigger] mech_at(s, pts[i].0) is None,
    ensures
        targets_on(s, pts) == Seq::<(MechStateView, usize)>::empty(),
    decreases pts.len(),
{
    if pts.len() > 0 {
        assert(mech_at(s, pts[pts.len() - 1].0) is None);
        assert forall|i: int| 0 <= i < pts.drop_last().len() implies #[trigger] mech_at(s, pts.drop_last()[i].0) is None by {
            assert(pts.drop_last()[i] == pts[i]);
        }
        lemma_targets_none(s, pts.drop_last());
    }
}

/// The first mech a scan of points finds is the one on the first point
/// that holds a mech, with that point's label.
proof fn lemma_first_target(s: MatchStateView, pts: Seq<(Point, usize)>, j: int, m: MechStateView)
    requires
        0 <= j < pts.len(),
        mech_at(s, pts[j].0) == Some(m),
        forall|i: int| 0 <= i < j ==> #[trigger] mech_at(s, pts[i].0) is None,
    ensures
        targets_on(s, pts).len() > 0,
        targets_on(s, pts)[0] == (m, pts[j].1),
    decreases pts.len(),
{
    let init = pts.drop_last();
    if j == pts.len() - 1 {
        assert forall|i: int| 0 <= i < init.len() implies #[trigger] mech_at(s, init[i].0) is None by {
            assert(init[i] == pts[i]);
        }
        lemma_targets_none(s, init);
    } else {
        assert(init[j] == pts[j]);
        assert forall|i: int| 0 <= i < j implies #[trigger] mech_at(s, init[i].0) is None by {
            assert(init[i] == pts[i]);
        }
        lemma_first_target(s, init, j, m);
    }
}

/// The entries of a ray: the `t`-th is the point `t + 1` units out,
/// labelled `t + 1`.
proof fn lemma_ray_entry(p: Point, board: GameBoard, d: GridDirection, count: nat, t: int)
    requires
        count <= usize::MAX,
        0 <= t < gather(p, board, d, count).len(),
    ensures
        relative(p, board, d, t + 1) == Some(gather(p, board, d, count)[t].0),
        gather(p, board, d, count)[t].1 == t + 1,
{
    lemma_gather_points(p, board, d, count);
    let e = gather(p, board, d, count)[t];
    assert(e.0.x == moved_x(p.x as int, d, t + 1));
    assert(e.0.y == moved_y(p.y as int, d, t + 1));
}

/// A ray reaches as far as the board lets it: when the points `1` to `k`
/// out all lie on the board, a ray of at least `k` points has them all.
proof fn lemma_ray_reaches(p: Point, board: GameBoard, d: GridDirection, count: nat, k: int)
    requires
        count <= usize::MAX,
        1 <= k <= count,
        forall|j: int| 1 <= j <= k ==> #[trigger] relative(p, board, d, j) is Some,
    ensures
        gather(p, board, d, count).len() >= k,
{
    lemma_gather_points(p, board, d, count);
    let n = gather(p, board, d, count).len();
    if n < k {
        assert(relative(p, board, d, (n + 1) as int) is Some);
    }
}

/// The primary weapon hits the nearest mech in its line of fire: when the
/// shooter can pay for the shot and the first mech along the ray, within
/// the weapon's range, stands `k` units away (every point before it on the
/// board and empty), the shot's first event damages that mech.
pub proof fn lemma_primary_hits_nearest(s: MatchStateView, mech: Seq<char>, dir: GridDirection, turn: u32, k: int)
    requires
        can_take_action(s, mech, MechCommandView::FirePrimary { turn, mech, direction: dir }),
        1 <= k <= PRIMARY_RANGE,
        (relative(find_mech(s, mech).unwrap().position, s.game_board, dir, k) matches Some(q) && mech_at(s, q) is Some),
        forall|j: int|
            1 <= j < k ==> (#[trigger] relative(find_mech(s, mech).unwrap().position, s.game_board, dir, j) matches Some(q)
                && mech_at(s, q) is None),
    ensures
        ({
            let target = mech_at(s, relative(find_mech(s, mech).unwrap().position, s.game_board, dir, k).unwrap()).unwrap();
            &&& handled(s, MechCommandView::FirePrimary { turn, mech, direction: dir }) is Ok
            &&& handled(s, MechCommandView::FirePrimary { turn, mech, direction: dir })->Ok_0.len() > 0
            &&& handled(s, MechCommandView::FirePrimary { turn, mech, direction: dir })->Ok_0[0] == GameEventView::DamageTaken {
                damage: PRIMARY_DAMAGE,
                damage_source: DamageSourceView::MechWeapon(mech),
                damage_target: target.id,
            }
        }),
{
    let pos = find_mech(s, mech).unwrap().position;
    let board = s.game_board;
    let pts = gather(pos, board, dir, PRIMARY_RANGE as nat);
    let q = relative(pos, board, dir, k).unwrap();
    let target = mech_at(s, q).unwrap();
    assert forall|j: int| 1 <= j <= k implies #[trigger] relative(pos, board, dir, j) is Some by {
        if j < k {
            assert(relative(pos, board, dir, j) matches Some(q2) && (mech_at(s, q2) is None));
        }
    }
    lemma_ray_reaches(pos, board, dir, PRIMARY_RANGE as nat, k);
    lemma_ray_entry(pos, board, dir, PRIMARY_RANGE as nat, k - 1);
    assert forall|i: int| 0 <= i < k - 1 implies #[trigger] mech_at(s, pts[i].0) is None by {
        lemma_ray_entry(pos, board, dir, PRIMARY_RANGE as nat, i);
        assert(relative(pos, board, dir, i + 1) matches Some(q2) && (mech_at(s, q2) is None));
    }
    lemma_first_target(s, pts, k - 1, target);
}

/// Scanning one list of points after another finds what each finds, in
/// turn.
proof fn lemma_targets_on_concat(s: MatchStateView, a: Seq<(Point, usize)>, b: Seq<(Point, usize)>)
    ensures
        targets_on(s, a + b) == targets_on(s, a) + targets_on(s, b),
    decreases b.len(),
{
    if b.len() == 0 {
        assert(a + b =~= a);
        assert(targets_on(s, a) + targets_on(s, b) =~= targets_on(s, a));
    } else {
        lemma_targets_on_concat(s, a, b.drop_last());
        assert((a + b).drop_last() =~= a + b.drop_last());
        assert((a + b).last() == b.last());
        let x = targets_on(s, a);
        let y = targets_on(s, b.drop_last());
        match mech_at(s, b.last().0) {
            Some(m) => {
                assert((x + y).push((m, b.last().1)) =~= x + y.push((m, b.last().1)));
            },
            None => {},
        }
    }
}

/// A mech found at a point stands there and is one of the match's mechs.
proof fn lemma_mech_at(s: MatchStateView, p: Point)
    requires
        mech_at(s, p) is Some,
    ensures
        mech_at(s, p).unwrap().position == p,
        exists|k: int| 0 <= k < s.mechs.len() && #[trigger] s.mechs[k] == mech_at(s, p).unwrap(),
{
    lemma_first_index(s.mechs, at_position(p));
    let k = crate::seqs::first_index(s.mechs, at_position(p));
    assert(s.mechs[k] == mech_at(s, p).unwrap());
}

/// With distinct ids, two points whose mechs share an id are one point.
proof fn lemma_same_id_same_point(s: MatchStateView, p1: Point, p2: Point)
    requires
        distinct_ids(s.mechs),
        mech_at(s, p1) is Some,
        mech_at(s, p2) is Some,
        mech_at(s, p1).unwrap().id == mech_at(s, p2).unwrap().id,
    ensures
        p1 == p2,
{
    lemma_mech_at(s, p1);
    lemma_mech_at(s, p2);
    let k1 = choose|k: int| 0 <= k < s.mechs.len() && #[trigger] s.mechs[k] == mech_at(s, p1).unwrap();
    let k2 = choose|k: int| 0 <= k < s.mechs.len() && #[trigger] s.mechs[k] == mech_at(s, p2).unwrap();
    if k1 < k2 {
        assert(s.mechs[k1].id != s.mechs[k2].id);
    } else if k2 < k1 {
        assert(s.mechs[k2].id != s.mechs[k1].id);
    }
}

/// Every target a scan finds is the mech on one of the scanned points,
/// with that point's label; and the mech on any scanned point is found,
/// with that point's label.
proof fn lemma_targets_from_points(s: MatchStateView, pts: Seq<(Point, usize)>)
    ensures
        forall|i: int| #![trigger targets_on(s, pts)[i]] 0 <= i < targets_on(s, pts).len() ==> exists|j: int| 0 <= j < pts.len()
            && mech_at(s, #[trigger] pts[j].0) == Some(targets_on(s, pts)[i].0) && targets_on(s, pts)[i].1 == pts[j].1,
        forall|j: int| 0 <= j < pts.len() && #[trigger] mech_at(s, pts[j].0) is Some ==> exists|i: int|
            0 <= i < targets_on(s, pts).len() && #[trigger] targets_on(s, pts)[i] == (mech_at(s, pts[j].0).unwrap(), pts[j].1),
    decreases pts.len(),
{
    if pts.len() > 0 {
        let init = pts.drop_last();
        lemma_targets_from_points(s, init);
        let t0 = targets_on(s, init);
        let t = targets_on(s, pts);
        assert forall|i: int| #![trigger t[i]] 0 <= i < t.len() implies exists|j: int| 0 <= j < pts.len()
            && mech_at(s, #[trigger] pts[j].0) == Some(t[i].0) && t[i].1 == pts[j].1 by {
            if i < t0.len() {
                assert(t[i] == t0[i]);
                let j = choose|j: int| 0 <= j < init.len() && mech_at(s, #[trigger] init[j].0) == Some(t0[i].0) && t0[i].1 == init[j].1;
                assert(pts[j] == init[j]);
            } else {
                assert(mech_at(s, pts[pts.len() - 1].0) == Some(t[i].0));
            }
        }
        assert forall|j: int| 0 <= j < pts.len() && #[trigger] mech_at(s, pts[j].0) is Some implies exists|i: int|
            0 <= i < t.len() && #[trigger] t[i] == (mech_at(s, pts[j].0).unwrap(), pts[j].1) by {
            if j < init.len() {
                assert(init[j] == pts[j]);
                let i = choose|i: int| 0 <= i < t0.len() && #[trigger] t0[i] == (mech_at(s, init[j].0).unwrap(), init[j].1);
                assert(t[i] == t0[i]);
            } else {
                assert(t[t0.len() as int] == (mech_at(s, pts[j].0).unwrap(), pts[j].1));
            }
        }
    }
}

/// Scanning points that are pairwise apart finds each mech at most once:
/// with distinct ids, no two targets share an id.
proof fn lemma_targets_once(s: MatchStateView, pts: Seq<(Point, usize)>)
    requires
        distinct_ids(s.mechs),
        forall|a: int, b: int| 0 <= a < b < pts.len() ==> #[trigger] pts[a].0 != #[trigger] pts[b].0,
    ensures
        forall|i1: int, i2: int|
            0 <= i1 < targets_on(s, pts).len() && 0 <= i2 < targets_on(s, pts).len()
                && (#[trigger] targets_on(s, pts)[i1]).0.id == (#[trigger] targets_on(s, pts)[i2]).0.id ==> i1 == i2,
    decreases pts.len(),
{
    if pts.len() > 0 {
        let init = pts.drop_last();
        let last = pts[pts.len() - 1];
        assert forall|a: int, b: int| 0 <= a < b < init.len() implies #[trigger] init[a].0 != #[trigger] init[b].0 by {
            assert(init[a] == pts[a] && init[b] == pts[b]);
        }
        lemma_targets_once(s, init);
        lemma_targets_from_points(s, init);
        let t0 = targets_on(s, init);
        let t = targets_on(s, pts);
        if mech_at(s, last.0) is Some {
            assert forall|i: int| 0 <= i < t0.len() implies (#[trigger] t0[i]).0.id != mech_at(s, last.0).unwrap().id by {
                let j = choose|j: int| 0 <= j < init.len() && mech_at(s, #[trigger] init[j].0) == Some(t0[i].0) && t0[i].1 == init[j].1;
                if t0[i].0.id == mech_at(s, last.0).unwrap().id {
                    lemma_same_id_same_point(s, init[j].0, last.0);
                    assert(pts[j] == init[j]);
                }
            }
            assert forall|i1: int, i2: int|
                0 <= i1 < t.len() && 0 <= i2 < t.len() && (#[trigger] t[i1]).0.id == (#[trigger] t[i2]).0.id implies i1 == i2 by {
                if i1 < t0.len() && i2 < t0.len() {
                    assert(t[i1] == t0[i1] && t[i2] == t0[i2]);
                } else if i1 < t0.len() {
                    assert(t[i1] == t0[i1]);
                } else if i2 < t0.len() {
                    assert(t[i2] == t0[i2]);
                }
            }
        }
    }
}

/// How far a scan looks along a direction: 3 units on the diagonals, 4 on
/// the axes.
pub open spec fn scan_reach(d: GridDirection) -> int {
    if step_x(d) != 0 && step_y(d) != 0 {
        3
    } else {
        4
    }
}

/// The points a scan from `o` looks at along the first `n` lines of the
/// radar grid, one line after another, each labelled with its distance.
pub open spec fn scan_points(o: Point, b: GameBoard, n: nat) -> Seq<(Point, usize)>
    decreases n,
{
    if n == 0 {
        Seq::empty()
    } else {
        scan_points(o, b, (n - 1) as nat) + gather(o, b, radar_direction(n - 1), radar_reach(n - 1))
    }
}

proof fn lemma_scan_targets(s: MatchStateView, o: Point, n: nat)
    ensures
        radar_targets_upto(s, o, n) == targets_on(s, scan_points(o, s.game_board, n)),
    decreases n,
{
    if n > 0 {
        lemma_scan_targets(s, o, (n - 1) as nat);
        lemma_targets_on_concat(
            s,
            scan_points(o, s.game_board, (n - 1) as nat),
            gather(o, s.game_board, radar_direction(n - 1), radar_reach(n - 1)),
        );
    }
}

/// Two points out along rays from one origin coincide only when they lie
/// on one ray at one distance.
proof fn lemma_rays_apart(o: Point, b: GameBoard, d1: GridDirection, d2: GridDirection, u1: int, u2: int)
    requires
        u1 >= 1,
        u2 >= 1,
        relative(o, b, d1, u1) is Some,
        relative(o, b, d1, u1) == relative(o, b, d2, u2),
    ensures
        d1 == d2,
        u1 == u2,
{
    let x1 = moved_x(o.x as int, d1, u1);
    let y1 = moved_y(o.y as int, d1, u1);
    let x2 = moved_x(o.x as int, d2, u2);
    let y2 = moved_y(o.y as int, d2, u2);
    assert(on_board(x1, y1, b) && on_board(x2, y2, b));
    assert(x1 == x2 && y1 == y2) by {
        assert(0 <= x1 <= 0x7fff_ffff && 0 <= x2 <= 0x7fff_ffff);
        assert(0 <= y1 <= 0x7fff_ffff && 0 <= y2 <= 0x7fff_ffff);
        assert((x1 as i32) as int == x1);
        assert((x2 as i32) as int == x2);
        assert((y1 as i32) as int == y1);
        assert((y2 as i32) as int == y2);
    }
}

proof fn lemma_radar_direction_apart(t1: int, t2: int)
    requires
        0 <= t1 < 8,
        0 <= t2 < 8,
        radar_direction(t1) == radar_direction(t2),
    ensures
        t1 == t2,
{
}

/// The points of a scan lie along its lines, each at its labelled
/// distance, and no point is looked at twice.
proof fn lemma_scan_points(o: Point, b: GameBoard, n: nat)
    requires
        n <= 8,
    ensures
        forall|i: int| #![trigger scan_points(o, b, n)[i]] 0 <= i < scan_points(o, b, n).len() ==> exists|t: int, u: int|
            0 <= t < n && 1 <= u && #[trigger] relative(o, b, radar_direction(t), u) == Some(scan_points(o, b, n)[i].0)
                && scan_points(o, b, n)[i].1 == u,
        forall|a: int, c: int|
            0 <= a < c < scan_points(o, b, n).len() ==> #[trigger] scan_points(o, b, n)[a].0 != #[trigger] scan_points(o, b, n)[c].0,
    decreases n,
{
    if n > 0 {
        let m = (n - 1) as nat;
        lemma_scan_points(o, b, m);
        let pre = scan_points(o, b, m);
        let d = radar_direction(m as int);
        let g = gather(o, b, d, radar_reach(m as int));
        let all = scan_points(o, b, n);
        assert(all == pre + g);
        assert forall|i: int| #![trigger all[i]] 0 <= i < all.len() implies exists|t: int, u: int|
            0 <= t < n && 1 <= u && #[trigger] relative(o, b, radar_direction(t), u) == Some(all[i].0) && all[i].1 == u by {
            if i < pre.len() {
                assert(all[i] == pre[i]);
                let (t, u) = choose|t: int, u: int|
                    0 <= t < m && 1 <= u && #[trigger] relative(o, b, radar_direction(t), u) == Some(pre[i].0) && pre[i].1 == u;
                assert(relative(o, b, radar_direction(t), u) == Some(all[i].0));
            } else {
                let e = i - pre.len();
                assert(all[i] == g[e]);
                lemma_ray_entry(o, b, d, radar_reach(m as int), e);
                assert(relative(o, b, radar_direction(m as int), e + 1) == Some(all[i].0));
            }
        }
        assert forall|a: int, c: int| 0 <= a < c < all.len() implies #[trigger] all[a].0 != #[trigger] all[c].0 by {
            if c < pre.len() {
                assert(all[a] == pre[a] && all[c] == pre[c]);
            } else {
                let ec = c - pre.len();
                assert(all[c] == g[ec]);
                lemma_ray_entry(o, b, d, radar_reach(m as int), ec);
                if a < pre.len() {
                    assert(all[a] == pre[a]);
                    let (t, u) = choose|t: int, u: int|
                        0 <= t < m && 1 <= u && #[trigger] relative(o, b, radar_direction(t), u) == Some(pre[a].0) && pre[a].1 == u;
                    if all[a].0 == all[c].0 {
                        lemma_rays_apart(o, b, radar_direction(t), d, u, ec + 1);
                        lemma_radar_direction_apart(t, m as int);
                    }
                } else {
                    let ea = a - pre.len();
                    assert(all[a] == g[ea]);
                    lemma_ray_entry(o, b, d, radar_reach(m as int), ea);
                    if all[a].0 == all[c].0 {
                        lemma_rays_apart(o, b, d, d, ea + 1, ec + 1);
                    }
                }
            }
        }
    }
}

/// A scan looks at every point of its lines that the board holds, up to
/// each line's reach.
proof fn lemma_scan_points_hold(o: Point, b: GameBoard, n: nat, t: int, u: int)
    requires
        0 <= t < n <= 8,
        1 <= u <= radar_reach(t),
        forall|j: int| 1 <= j <= u ==> #[trigger] relative(o, b, radar_direction(t), j) is Some,
    ensures
        exists|i: int| 0 <= i < scan_points(o, b, n).len()
            && #[trigger] scan_points(o, b, n)[i] == (relative(o, b, radar_direction(t), u).unwrap(), u as usize),
    decreases n,
{
    let m = (n - 1) as nat;
    let pre = scan_points(o, b, m);
    let d = radar_direction(m as int);
    let g = gather(o, b, d, radar_reach(m as int));
    let all = scan_points(o, b, n);
    assert(all == pre + g);
    if t == m {
        lemma_ray_reaches(o, b, d, radar_reach(m as int), u);
        lemma_ray_entry(o, b, d, radar_reach(m as int), u - 1);
        assert(all[pre.len() + u - 1] == g[u - 1]);
    } else {
        lemma_scan_points_hold(o, b, m, t, u);
        let i = choose|i: int| 0 <= i < pre.len() && #[trigger] pre[i] == (relative(o, b, radar_direction(t), u).unwrap(), u as usize);
        assert(all[i] == pre[i]);
    }
}

/// From a point on the board, every point on the way to an on-board point
/// is on the board.
proof fn lemma_ray_convex(o: Point, b: GameBoard, d: GridDirection, k: int)
    requires
        on_board(o.x as int, o.y as int, b),
        k >= 1,
        relative(o, b, d, k) is Some,
    ensures
        forall|j: int| 1 <= j <= k ==> #[trigger] relative(o, b, d, j) is Some,
{
}

/// The line of the radar grid that looks along `d`.
spec fn radar_line_of(d: GridDirection) -> int {
    match d {
        GridDirection::NorthWest => 0,
        GridDirection::North => 1,
        GridDirection::NorthEast => 2,
        GridDirection::West => 3,
        GridDirection::East => 4,
        GridDirection::SouthWest => 5,
        GridDirection::South => 6,
        GridDirection::SouthEast => 7,
    }
}

/// A radar scan from a point on the board reports every mech within reach
/// of it (up to 3 units along a diagonal, 4 along an axis, on any of the
/// eight directions) exactly once, at its distance.
pub proof fn lemma_scan_finds_each_mech_once(s: MatchStateView, origin: Point, team: Seq<char>, d: GridDirection, k: int)
    requires
        distinct_ids(s.mechs),
        on_board(origin.x as int, origin.y as int, s.game_board),
        1 <= k <= scan_reach(d),
        (relative(origin, s.game_board, d, k) matches Some(q) && mech_at(s, q) is Some),
    ensures
        ({
            let m = mech_at(s, relative(origin, s.game_board, d, k).unwrap()).unwrap();
            let pings = radar_pings_of(s, origin, team);
            &&& exists|i: int| 0 <= i < pings.len() && (#[trigger] pings[i]).id == m.id && pings[i].distance == k
            &&& forall|i: int, j: int|
                0 <= i < pings.len() && 0 <= j < pings.len() && (#[trigger] pings[i]).id == m.id && (#[trigger] pings[j]).id
                    == m.id ==> i == j
        }),
{
    let b = s.game_board;
    let q = relative(origin, b, d, k).unwrap();
    let m = mech_at(s, q).unwrap();
    let g = scan_points(origin, b, 8);
    let ts = targets_on(s, g);
    assert(radar_targets(s, origin) == ts) by {
        lemma_scan_targets(s, origin, 8);
    }
    let pings = radar_pings_of(s, origin, team);
    assert(pings.len() == ts.len());
    let i = lemma_scan_target_found(s, origin, d, k);
    assert(pings[i] == ping_of(ts[i].0, team, ts[i].1));
    assert forall|i1: int, i2: int|
        0 <= i1 < pings.len() && 0 <= i2 < pings.len() && (#[trigger] pings[i1]).id == m.id && (#[trigger] pings[i2]).id
            == m.id implies i1 == i2 by {
        assert(pings[i1] == ping_of(ts[i1].0, team, ts[i1].1));
        assert(pings[i2] == ping_of(ts[i2].0, team, ts[i2].1));
        lemma_scan_targets_once(s, origin, i1, i2);
    }
}

/// The mech within reach is among the targets of the scan, at its distance.
proof fn lemma_scan_target_found(s: MatchStateView, origin: Point, d: GridDirection, k: int) -> (i: int)
    requires
        on_board(origin.x as int, origin.y as int, s.game_board),
        1 <= k <= scan_reach(d),
        (relative(origin, s.game_board, d, k) matches Some(q) && mech_at(s, q) is Some),
    ensures
        0 <= i < targets_on(s, scan_points(origin, s.game_board, 8)).len(),
        targets_on(s, scan_points(origin, s.game_board, 8))[i] == (
            mech_at(s, relative(origin, s.game_board, d, k).unwrap()).unwrap(),
            k as usize,
        ),
{
    let b = s.game_board;
    let g = scan_points(origin, b, 8);
    let t = radar_line_of(d);
    assert(radar_direction(t) == d && radar_reach(t) == scan_reach(d));
    lemma_ray_convex(origin, b, d, k);
    lemma_scan_points_hold(origin, b, 8, t, k);
    let jg = choose|i: int| 0 <= i < g.len() && #[trigger] g[i] == (relative(origin, b, radar_direction(t), k).unwrap(), k as usize);
    lemma_targets_from_points(s, g);
    assert(mech_at(s, g[jg].0) is Some);
    let ts = targets_on(s, g);
    choose|i: int| 0 <= i < ts.len() && #[trigger] ts[i] == (mech_at(s, g[jg].0).unwrap(), g[jg].1)
}

/// No two targets of a scan share an id.
proof fn lemma_scan_targets_once(s: MatchStateView, origin: Point, i1: int, i2: int)
    requires
        distinct_ids(s.mechs),
        0 <= i1 < targets_on(s, scan_points(origin, s.game_board, 8)).len(),
        0 <= i2 < targets_on(s, scan_points(origin, s.game_board, 8)).len(),
        targets_on(s, scan_points(origin, s.game_board, 8))[i1].0.id == targets_on(s, scan_points(origin, s.game_board, 8))[i2].0.id,
    ensures
        i1 == i2,
{
    lemma_scan_points(origin, s.game_board, 8);
    lemma_targets_once(s, scan_points(origin, s.game_board, 8));
}

} // verus!
