//! What the built-in mechs share: distances, the commands they issue and
//! the ways they pick targets out of a radar scan.

use vstd::prelude::*;
use crate::commands::{MechCommand, MechCommandView};
use crate::geometry::{as_i32, bearing_of, GameBoard, GridDirection, Point};
use crate::registers::{register_get, RegisterOperationView, RegisterValueView};
use crate::sdk::{ping_views, seen_all, PingView, RadarPing, WasmdomeMechInstruments};
use crate::seqs::{first_index, lemma_first_index, lemma_first_index_unique};
use crate::state::radar_of;

verus! {

// ---------------------------------------------------------------- distance

/// Whether `r` is the integer square root of `n`.
pub open spec fn is_root(n: int, r: int) -> bool {
    0 <= r && r * r <= n && n < (r + 1) * (r + 1)
}

/// The integer square root of `n`.
pub open spec fn root(n: int) -> int {
    choose|r: int| is_root(n, r)
}

/// The squared Euclidean distance between two points.
pub open spec fn sq_dist(a: Point, b: Point) -> int {
    (b.x - a.x) * (b.x - a.x) + (b.y - a.y) * (b.y - a.y)
}

/// The Euclidean distance between two points, rounded down to a whole
/// number (and capped at the largest `u32`).
pub open spec fn distance(a: Point, b: Point) -> u32 {
    let r = root(sq_dist(a, b));
    if r > u32::MAX {
        u32::MAX
    } else {
        r as u32
    }
}

/// A number has one integer square root.
pub proof fn lemma_root_unique(n: int, r: int, q: int)
    requires
        is_root(n, r),
        is_root(n, q),
    ensures
        r == q,
{
    if r < q {
        assert((r + 1) * (r + 1) <= q * q) by (nonlinear_arith)
            requires
                0 <= r,
                r + 1 <= q,
        ;
    } else if q < r {
        assert((q + 1) * (q + 1) <= r * r) by (nonlinear_arith)
            requires
                0 <= q,
                q + 1 <= r,
        ;
    }
}

fn isqrt(n: u128) -> (r: u128)
    requires
        n < 0x4_0000_0000_0000_0000,
    ensures
        is_root(n as int, r as int),
{
    let mut lo: u128 = 0;
    let mut hi: u128 = 0x2_0000_0000;
    assert(hi * hi == 0x4_0000_0000_0000_0000) by (nonlinear_arith)
        requires
            hi == 0x2_0000_0000,
    ;
    while lo + 1 < hi
        invariant
            lo < hi <= 0x2_0000_0000,
            lo * lo <= n,
            n < hi * hi,
        decreases hi - lo,
    {
        let mid = lo + (hi - lo) / 2;
        assert(mid * mid < 0x4_0000_0000_0000_0000) by (nonlinear_arith)
            requires
                mid < 0x2_0000_0000,
        ;
        if mid * mid <= n {
            lo = mid;
        } else {
            hi = mid;
        }
    }
    lo
}

fn abs_diff(a: i32, b: i32) -> (d: u64)
    ensures
        d == (if b >= a { b - a } else { a - b }),
        d <= 0xffff_ffff,
{
    let delta = b as i64 - a as i64;
    if delta < 0 {
        (-delta) as u64
    } else {
        delta as u64
    }
}

/// The distance between two points, rounded down to a whole number.
pub fn distance_to(a: &Point, b: &Point) -> (d: u32)
    ensures
        d == distance(*a, *b),
{
    let dx = abs_diff(a.x, b.x);
    let dy = abs_diff(a.y, b.y);
    proof {
        assert(dx * dx == (b.x - a.x) * (b.x - a.x)) by (nonlinear_arith)
            requires
                dx == (if b.x >= a.x { b.x - a.x } else { a.x - b.x }),
        ;
        assert(dy * dy == (b.y - a.y) * (b.y - a.y)) by (nonlinear_arith)
            requires
                dy == (if b.y >= a.y { b.y - a.y } else { a.y - b.y }),
        ;
        assert(dx * dx <= 0xffff_ffff * 0xffff_ffff) by (nonlinear_arith)
            requires
                dx <= 0xffff_ffff,
        ;
        assert(dy * dy <= 0xffff_ffff * 0xffff_ffff) by (nonlinear_arith)
            requires
                dy <= 0xffff_ffff,
        ;
    }
    let n = (dx as u128) * (dx as u128) + (dy as u128) * (dy as u128);
    let r = isqrt(n);
    proof {
        lemma_root_unique(n as int, r as int, root(n as int));
    }
    if r > 0xffff_ffff {
        u32::MAX
    } else {
        r as u32
    }
}

/// An `i32` divided by 4, rounded toward zero.
pub open spec fn quarter(v: int) -> int {
    if v >= 0 {
        v / 4
    } else {
        -((-v) / 4)
    }
}

/// A board dimension read as an `i32`.
pub fn i32_of(v: u32) -> (r: i32)
    ensures
        r == as_i32(v),
{
    let h = v as i32;
    assert(h == (if v <= 0x7fff_ffff { v as int } else { v as int - 0x1_0000_0000 })) by (bit_vector)
        requires
            h == v as i32,
    ;
    h
}

/// A board dimension read as an `i32`, divided by 4 as Rust divides.
pub fn quarter_of(v: u32) -> (q: i32)
    ensures
        q == quarter(as_i32(v)),
{
    i32_of(v) / 4
}

// ---------------------------------------------------------------- commands

pub open spec fn commands_view(v: Seq<MechCommand>) -> Seq<MechCommandView> {
    v.map_values(|c: MechCommand| c@)
}

/// A move one unit in direction `d`.
pub open spec fn mv(m: WasmdomeMechInstruments, d: GridDirection) -> MechCommandView {
    MechCommandView::Move { turn: m.turn_number(), mech: m.actor(), direction: d }
}

/// A shot of the primary weapon in direction `d`.
pub open spec fn shoot(m: WasmdomeMechInstruments, d: GridDirection) -> MechCommandView {
    MechCommandView::FirePrimary { turn: m.turn_number(), mech: m.actor(), direction: d }
}

/// A shot of the secondary weapon in direction `d`.
pub open spec fn blast(m: WasmdomeMechInstruments, d: GridDirection) -> MechCommandView {
    MechCommandView::FireSecondary { turn: m.turn_number(), mech: m.actor(), direction: d }
}

/// A radar scan.
pub open spec fn scan_cmd(m: WasmdomeMechInstruments) -> MechCommandView {
    MechCommandView::RequestRadarScan { turn: m.turn_number(), mech: m.actor() }
}

/// Stores `v` in register `reg`.
pub open spec fn set_cmd(m: WasmdomeMechInstruments, reg: u32, v: RegisterValueView) -> MechCommandView {
    MechCommandView::RegisterUpdate { mech: m.actor(), reg, op: RegisterOperationView::Assign(v), turn: m.turn_number() }
}

/// Adds `v` to register `reg`.
pub open spec fn acc_cmd(m: WasmdomeMechInstruments, reg: u32, v: u64) -> MechCommandView {
    MechCommandView::RegisterUpdate { mech: m.actor(), reg, op: RegisterOperationView::Accumulate(v), turn: m.turn_number() }
}

/// The direction from the mech to `p`.
pub open spec fn toward(m: WasmdomeMechInstruments, p: Point) -> GridDirection {
    bearing_of(p.x - m.current().position.x, p.y - m.current().position.y)
}

/// The mech's last radar scan, if any.
pub open spec fn last_scan(m: WasmdomeMechInstruments) -> Option<Seq<PingView>> {
    match radar_of(m.state(), m.actor()) {
        Some(p) => Some(seen_all(p)),
        None => None,
    }
}

/// The mech's last radar scan, or nothing.
pub open spec fn scan_or_empty(m: WasmdomeMechInstruments) -> Seq<PingView> {
    match last_scan(m) {
        Some(s) => s,
        None => Seq::empty(),
    }
}

/// The value in the mech's register `reg`, if any.
pub open spec fn register(m: WasmdomeMechInstruments, reg: u32) -> Option<RegisterValueView> {
    register_get(m.current().registers, reg)
}

/// The dimensions of the arena.
pub open spec fn board(m: WasmdomeMechInstruments) -> GameBoard {
    GameBoard { height: m.state().parameters.height, width: m.state().parameters.width }
}

// ---------------------------------------------------------------- targets

/// Whether a ping lies within both ranges of `pos` (and is a foe, when
/// only foes count).
pub open spec fn in_range(pos: Point, r1: u32, r2: u32, foe_only: bool) -> spec_fn(PingView) -> bool {
    |p: PingView| (!foe_only || p.foe) && distance(pos, p.location) <= r1 && distance(pos, p.location) <= r2
}

/// The first element of `s` that satisfies `pred`.
pub open spec fn first_of<T>(s: Seq<T>, pred: spec_fn(T) -> bool) -> Option<T> {
    let i = first_index(s, pred);
    if i >= 0 {
        Some(s[i])
    } else {
        None
    }
}

/// The first ping of `s` that satisfies `pred`.
pub open spec fn first_ping(s: Seq<PingView>, pred: spec_fn(PingView) -> bool) -> Option<PingView> {
    let i = first_index(s, pred);
    if i >= 0 {
        Some(s[i])
    } else {
        None
    }
}

/// Among the first `n` pings, the index of the earliest one within range
/// whose distance from `pos` is least, or -1.
pub open spec fn closest_upto(s: Seq<PingView>, pos: Point, r1: u32, r2: u32, n: nat) -> int
    decreases n,
{
    if n == 0 {
        -1
    } else {
        let b = closest_upto(s, pos, r1, r2, (n - 1) as nat);
        let p = s[n - 1];
        if !in_range(pos, r1, r2, false)(p) {
            b
        } else if b < 0 || distance(pos, p.location) < distance(pos, s[b].location) {
            n - 1
        } else {
            b
        }
    }
}

/// The ping within range that is closest to `pos` (the earliest of the
/// closest ones), if any.
pub open spec fn closest(s: Seq<PingView>, pos: Point, r1: u32, r2: u32) -> Option<PingView> {
    let i = closest_upto(s, pos, r1, r2, s.len());
    if i >= 0 {
        Some(s[i])
    } else {
        None
    }
}

/// The index of the first ping within both ranges of `pos` (and a foe,
/// when only foes count).
pub fn first_in_range(scan: &Vec<RadarPing>, pos: Point, r1: u32, r2: u32, foe_only: bool) -> (r: Option<usize>)
    ensures
        match r {
            Some(i) => i < scan@.len() && i == first_index(ping_views(scan@), in_range(pos, r1, r2, foe_only)),
            None => first_index(ping_views(scan@), in_range(pos, r1, r2, foe_only)) == -1,
        },
{
    let ghost v = ping_views(scan@);
    let ghost pred = in_range(pos, r1, r2, foe_only);
    let mut i: usize = 0;
    while i < scan.len()
        invariant
            i <= scan.len(),
            v == ping_views(scan@),
            pred == in_range(pos, r1, r2, foe_only),
            forall|j: int| 0 <= j < i ==> !pred(#[trigger] v[j]),
        decreases scan.len() - i,
    {
        let d = distance_to(&pos, &scan[i].location);
        if (!foe_only || scan[i].foe) && d <= r1 && d <= r2 {
            proof {
                assert(pred(v[i as int]));
                lemma_first_index_unique(v, pred, i as int);
            }
            return Some(i);
        }
        assert(!pred(v[i as int]));
        i = i + 1;
    }
    proof {
        lemma_first_index(v, pred);
        let k = first_index(v, pred);
        if k >= 0 {
            assert(pred(v[k]));
        }
    }
    None
}

/// Whether a ping is a foe.
pub open spec fn is_foe() -> spec_fn(PingView) -> bool {
    |p: PingView| p.foe
}

/// Whether a ping has the given id (and is a foe, when only foes count).
pub open spec fn has_ping_id(id: Seq<char>, foe_only: bool) -> spec_fn(PingView) -> bool {
    |p: PingView| (!foe_only || p.foe) && p.id == id
}

/// The index of the first foe of the scan.
pub fn first_foe(scan: &Vec<RadarPing>) -> (r: Option<usize>)
    ensures
        match r {
            Some(i) => i < scan@.len() && i == first_index(ping_views(scan@), is_foe()),
            None => first_index(ping_views(scan@), is_foe()) == -1,
        },
{
    let ghost v = ping_views(scan@);
    let mut i: usize = 0;
    while i < scan.len()
        invariant
            i <= scan.len(),
            v == ping_views(scan@),
            forall|j: int| 0 <= j < i ==> !is_foe()(#[trigger] v[j]),
        decreases scan.len() - i,
    {
        if scan[i].foe {
            proof {
                lemma_first_index_unique(v, is_foe(), i as int);
            }
            return Some(i);
        }
        i = i + 1;
    }
    proof {
        lemma_first_index(v, is_foe());
        let k = first_index(v, is_foe());
        if k >= 0 {
            assert(is_foe()(v[k]));
        }
    }
    None
}

/// The index of the first ping with the given id (and a foe, when only
/// foes count).
pub fn first_with_id(scan: &Vec<RadarPing>, id: &str, foe_only: bool) -> (r: Option<usize>)
    ensures
        match r {
            Some(i) => i < scan@.len() && i == first_index(ping_views(scan@), has_ping_id(id@, foe_only)),
            None => first_index(ping_views(scan@), has_ping_id(id@, foe_only)) == -1,
        },
{
    let ghost v = ping_views(scan@);
    let ghost pred = has_ping_id(id@, foe_only);
    let mut i: usize = 0;
    while i < scan.len()
        invariant
            i <= scan.len(),
            v == ping_views(scan@),
            pred == has_ping_id(id@, foe_only),
            forall|j: int| 0 <= j < i ==> !pred(#[trigger] v[j]),
        decreases scan.len() - i,
    {
        if (!foe_only || scan[i].foe) && crate::text::same_text(scan[i].id.as_str(), id) {
            proof {
                lemma_first_index_unique(v, pred, i as int);
            }
            return Some(i);
        }
        i = i + 1;
    }
    proof {
        lemma_first_index(v, pred);
        let k = first_index(v, pred);
        if k >= 0 {
            assert(pred(v[k]));
        }
    }
    None
}

/// The index of the ping within range closest to `pos` (the earliest of
/// the closest ones).
pub fn closest_in_range(scan: &Vec<RadarPing>, pos: Point, r1: u32, r2: u32) -> (r: Option<usize>)
    ensures
        match r {
            Some(i) => i < scan@.len() && i == closest_upto(ping_views(scan@), pos, r1, r2, scan@.len()),
            None => closest_upto(ping_views(scan@), pos, r1, r2, scan@.len()) == -1,
        },
{
    let ghost v = ping_views(scan@);
    let mut best: Option<usize> = None;
    let mut best_d: u32 = 0;
    let mut i: usize = 0;
    while i < scan.len()
        invariant
            i <= scan.len(),
            v == ping_views(scan@),
            v.len() == scan@.len(),
            match best {
                Some(b) => b < i && b as int == closest_upto(v, pos, r1, r2, i as nat) && best_d == distance(pos, v[b as int].location),
                None => closest_upto(v, pos, r1, r2, i as nat) == -1,
            },
        decreases scan.len() - i,
    {
        let d = distance_to(&pos, &scan[i].location);
        assert(v[i as int].location == scan@[i as int].location);
        if d <= r1 && d <= r2 {
            match best {
                None => {
                    best = Some(i);
                    best_d = d;
                },
                Some(_) => {
                    if d < best_d {
                        best = Some(i);
                        best_d = d;
                    }
                },
            }
        }
        i = i + 1;
    }
    best
}

/// Adds `c` at the end of the list of commands.
pub fn push_command(v: &mut Vec<MechCommand>, c: MechCommand)
    ensures
        commands_view(final(v)@) == commands_view(old(v)@).push(c@),
{
    v.push(c);
    assert(commands_view(v@) =~= commands_view(old(v)@).push(c@));
}

/// Appends the commands of `b` to `a`.
pub fn append_commands(a: &mut Vec<MechCommand>, b: Vec<MechCommand>)
    ensures
        commands_view(final(a)@) == commands_view(old(a)@) + commands_view(b@),
{
    let ghost bv = b@;
    let mut b = b;
    a.append(&mut b);
    assert(commands_view(a@) =~= commands_view(old(a)@) + commands_view(bv));
}

} // verus!
