//! The game board and the grid geometry of the arena.

use vstd::prelude::*;

verus! {

/// Default dimensions of a board.
pub const DEFAULT_BOARD_HEIGHT: u32 = 100;
pub const DEFAULT_BOARD_WIDTH: u32 = 100;

/// A grid position. The origin is the most south-western point of the board.
#[derive(Debug, Clone, Copy, PartialEq, Eq, Structural)]
pub struct Point {
    pub x: i32,
    pub y: i32,
}

/// The dimensions of a game board. All boards have their origin (0,0) in
/// the bottom left (south-west) corner.
#[derive(Debug, Clone, Copy, PartialEq, Eq, Structural)]
pub struct GameBoard {
    pub width: u32,
    pub height: u32,
}

impl Default for GameBoard {
    fn default() -> (b: Self)
        ensures
            b.width == DEFAULT_BOARD_WIDTH,
            b.height == DEFAULT_BOARD_HEIGHT,
    {
        GameBoard { width: DEFAULT_BOARD_WIDTH, height: DEFAULT_BOARD_HEIGHT }
    }
}

#[derive(Debug, Clone, Copy, PartialEq, Eq, Structural)]
pub enum WeaponType {
    Primary,
    Secondary,
}

/// The eight compass directions of the grid.
#[derive(Debug, Clone, Copy, PartialEq, Eq, Structural)]
pub enum GridDirection {
    North,
    NorthEast,
    East,
    SouthEast,
    South,
    SouthWest,
    West,
    NorthWest,
}

/// The directions in clockwise order starting at North.
pub open spec fn direction_at(i: int) -> GridDirection {
    if i == 0 {
        GridDirection::North
    } else if i == 1 {
        GridDirection::NorthEast
    } else if i == 2 {
        GridDirection::East
    } else if i == 3 {
        GridDirection::SouthEast
    } else if i == 4 {
        GridDirection::South
    } else if i == 5 {
        GridDirection::SouthWest
    } else if i == 6 {
        GridDirection::West
    } else {
        GridDirection::NorthWest
    }
}

/// The `i`-th of all eight directions, clockwise from North.
pub fn all_directions(i: usize) -> (d: GridDirection)
    requires
        i < 8,
    ensures
        d == direction_at(i as int),
{
    if i == 0 {
        GridDirection::North
    } else if i == 1 {
        GridDirection::NorthEast
    } else if i == 2 {
        GridDirection::East
    } else if i == 3 {
        GridDirection::SouthEast
    } else if i == 4 {
        GridDirection::South
    } else if i == 5 {
        GridDirection::SouthWest
    } else if i == 6 {
        GridDirection::West
    } else {
        GridDirection::NorthWest
    }
}

/// The value a board dimension takes when it is read as an `i32`
/// (the two's complement reinterpretation of the `u32`).
pub open spec fn as_i32(v: u32) -> int {
    if v <= 0x7fff_ffff {
        v as int
    } else {
        v as int - 0x1_0000_0000
    }
}

/// Whether the integer coordinates lie on the board.
pub open spec fn on_board(x: int, y: int, board: GameBoard) -> bool {
    x <= as_i32(board.width) && y <= as_i32(board.height) && x >= 0 && y >= 0
}

/// The horizontal step of a direction.
pub open spec fn step_x(d: GridDirection) -> int {
    match d {
        GridDirection::North | GridDirection::South => 0,
        GridDirection::NorthEast | GridDirection::East | GridDirection::SouthEast => 1,
        _ => -1,
    }
}

/// The vertical step of a direction.
pub open spec fn step_y(d: GridDirection) -> int {
    match d {
        GridDirection::East | GridDirection::West => 0,
        GridDirection::North | GridDirection::NorthEast | GridDirection::NorthWest => 1,
        _ => -1,
    }
}

/// Moves `len` units from `(x, y)` in direction `d`.
pub open spec fn moved_x(x: int, d: GridDirection, len: int) -> int {
    if step_x(d) == 0 {
        x
    } else if step_x(d) == 1 {
        x + len
    } else {
        x - len
    }
}

pub open spec fn moved_y(y: int, d: GridDirection, len: int) -> int {
    if step_y(d) == 0 {
        y
    } else if step_y(d) == 1 {
        y + len
    } else {
        y - len
    }
}

/// The point `len` units away from `p` in direction `d`, if it lies on the board.
pub open spec fn relative(p: Point, board: GameBoard, d: GridDirection, len: int) -> Option<Point> {
    let nx = moved_x(p.x as int, d, len);
    let ny = moved_y(p.y as int, d, len);
    if on_board(nx, ny, board) {
        Some(Point { x: nx as i32, y: ny as i32 })
    } else {
        None
    }
}

/// The points that are `Some` in `s`, in order.
pub open spec fn somes(s: Seq<Option<Point>>) -> Seq<Point>
    decreases s.len(),
{
    if s.len() == 0 {
        Seq::empty()
    } else {
        let rest = somes(s.drop_last());
        match s.last() {
            Some(p) => rest.push(p),
            None => rest,
        }
    }
}

/// The on-board neighbours of `p`, clockwise from North.
pub open spec fn adjacent(p: Point, board: GameBoard) -> Seq<Point> {
    somes(Seq::new(8, |i: int| relative(p, board, direction_at(i), 1)))
}

/// The points met walking from `cur` in direction `d`, at most `remaining`
/// of them, each labelled with its distance from the start; the walk ends at
/// the edge of the board. `walked` is the distance already covered.
pub open spec fn ray_from(
    cur: Option<Point>,
    board: GameBoard,
    d: GridDirection,
    remaining: nat,
    walked: nat,
) -> Seq<(Point, usize)>
    decreases remaining,
{
    if remaining == 0 {
        Seq::empty()
    } else {
        match cur {
            None => Seq::empty(),
            Some(q) => seq![(q, (walked + 1) as usize)] + ray_from(
                relative(q, board, d, 1),
                board,
                d,
                (remaining - 1) as nat,
                walked + 1,
            ),
        }
    }
}

/// The points from `p` outward in direction `d`, up to `count` of them.
pub open spec fn gather(p: Point, board: GameBoard, d: GridDirection, count: nat) -> Seq<(Point, usize)> {
    ray_from(relative(p, board, d, 1), board, d, count, 0)
}

/// The 45-degree sector, clockwise from North, in which `to` lies as seen
/// from `from`; a point on a sector's first edge belongs to that sector, and
/// a point seen from itself lies East.
pub open spec fn bearing_of(dx: int, dy: int) -> GridDirection {
    if dx == 0 && dy == 0 {
        GridDirection::East
    } else if dx >= 0 && dy > 0 && dx < dy {
        GridDirection::North
    } else if dx > 0 && dy > 0 && dx >= dy {
        GridDirection::NorthEast
    } else if dx > 0 && dy <= 0 && dx > -dy {
        GridDirection::East
    } else if dx > 0 && dy < 0 && dx <= -dy {
        GridDirection::SouthEast
    } else if dx <= 0 && dy < 0 && -dx < -dy {
        GridDirection::South
    } else if dx < 0 && dy < 0 && -dx >= -dy {
        GridDirection::SouthWest
    } else if dx < 0 && dy >= 0 && dy < -dx {
        GridDirection::West
    } else {
        GridDirection::NorthWest
    }
}

/// The value of a board dimension read as an `i32`, widened.
fn dimension_as_i64(v: u32) -> (r: i64)
    ensures
        r == as_i32(v),
{
    if v <= 0x7fff_ffff {
        v as i64
    } else {
        v as i64 - 0x1_0000_0000
    }
}

impl Point {
    pub fn new(x: i32, y: i32) -> (p: Point)
        ensures
            p.x == x,
            p.y == y,
    {
        Point { x, y }
    }

    /// Whether the point lies on the board.
    pub fn is_on_board(&self, board: &GameBoard) -> (b: bool)
        ensures
            b == on_board(self.x as int, self.y as int, *board),
    {
        let w = dimension_as_i64(board.width);
        let h = dimension_as_i64(board.height);
        (self.x as i64) <= w && (self.y as i64) <= h && self.x >= 0 && self.y >= 0
    }

    /// Returns the point `length` units away in the direction indicated, if it
    /// lies on the board. Grid origin is the most south-western point.
    pub fn relative_point(&self, board: &GameBoard, direction: &GridDirection, length: i32) -> (r:
        Option<Point>)
        ensures
            r == relative(*self, *board, *direction, length as int),
    {
        let x = self.x as i64;
        let y = self.y as i64;
        let len = length as i64;
        let (nx, ny): (i64, i64) = match direction {
            GridDirection::North => (x, y + len),
            GridDirection::NorthEast => (x + len, y + len),
            GridDirection::East => (x + len, y),
            GridDirection::SouthEast => (x + len, y - len),
            GridDirection::South => (x, y - len),
            GridDirection::SouthWest => (x - len, y - len),
            GridDirection::West => (x - len, y),
            GridDirection::NorthWest => (x - len, y + len),
        };
        let w = dimension_as_i64(board.width);
        let h = dimension_as_i64(board.height);
        if nx <= w && ny <= h && nx >= 0 && ny >= 0 {
            Some(Point { x: nx as i32, y: ny as i32 })
        } else {
            None
        }
    }

    /// The on-board neighbours of this point, clockwise from North.
    pub fn adjacent_points(&self, board: &GameBoard) -> (points: Vec<Point>)
        ensures
            points@ == adjacent(*self, *board),
    {
        let mut points: Vec<Point> = Vec::new();
        let ghost all = Seq::new(8, |i: int| relative(*self, *board, direction_at(i), 1));
        let mut i: usize = 0;
        while i < 8
            invariant
                i <= 8,
                all == Seq::new(8, |i: int| relative(*self, *board, direction_at(i), 1)),
                points@ == somes(all.subrange(0, i as int)),
            decreases 8 - i,
        {
            let direction = all_directions(i);
            let target = self.relative_point(board, &direction, 1);
            proof {
                assert(all.subrange(0, i + 1).drop_last() =~= all.subrange(0, i as int));
            }
            if let Some(t) = target {
                points.push(t);
            }
            i = i + 1;
        }
        proof {
            assert(all.subrange(0, 8) =~= all);
        }
        points
    }

    /// The points walking outward from this one in `direction`, up to
    /// `count` of them, each with its distance; stops at the board's edge.
    pub fn gather_points(&self, board: &GameBoard, direction: &GridDirection, count: usize) -> (points:
        Vec<(Point, usize)>)
        ensures
            points@ == gather(*self, *board, *direction, count as nat),
    {
        let mut points: Vec<(Point, usize)> = Vec::new();
        let mut p = self.relative_point(board, direction, 1);
        let mut i: usize = 0;
        while i < count
            invariant
                i <= count,
                points@ + ray_from(p, *board, *direction, (count - i) as nat, i as nat) == gather(
                    *self,
                    *board,
                    *direction,
                    count as nat,
                ),
            decreases count - i,
        {
            match p {
                Some(point) => {
                    let ghost before = points@;
                    points.push((point, i + 1));
                    p = point.relative_point(board, direction, 1);
                    proof {
                        assert(before + ray_from(Some(point), *board, *direction, (count - i) as nat, i as nat)
                            =~= points@ + ray_from(p, *board, *direction, (count - (i + 1)) as nat, (i + 1) as nat));
                    }
                },
                None => {
                    assert(points@ + ray_from(p, *board, *direction, (count - i) as nat, i as nat) =~= points@);
                    return points;
                },
            }
            i = i + 1;
        }
        assert(points@ + ray_from(p, *board, *direction, 0, i as nat) =~= points@);
        points
    }

    /// The compass sector of `target` as seen from this point: the angle
    /// clockwise from North, cut into eight 45-degree sectors.
    pub fn bearing(&self, target: &Point) -> (d: GridDirection)
        ensures
            d == bearing_of(target.x - self.x, target.y - self.y),
    {
        let dx = target.x as i64 - self.x as i64;
        let dy = target.y as i64 - self.y as i64;
        if dx == 0 && dy == 0 {
            GridDirection::East
        } else if dx >= 0 && dy > 0 && dx < dy {
            GridDirection::North
        } else if dx > 0 && dy > 0 && dx >= dy {
            GridDirection::NorthEast
        } else if dx > 0 && dy <= 0 && dx > -dy {
            GridDirection::East
        } else if dx > 0 && dy < 0 && dx <= -dy {
            GridDirection::SouthEast
        } else if dx <= 0 && dy < 0 && -dx < -dy {
            GridDirection::South
        } else if dx < 0 && dy < 0 && -dx >= -dy {
            GridDirection::SouthWest
        } else if dx < 0 && dy >= 0 && dy < -dx {
            GridDirection::West
        } else {
            GridDirection::NorthWest
        }
    }
}


/// The next direction clockwise.
pub open spec fn clockwise_next(d: GridDirection) -> GridDirection {
    match d {
        GridDirection::North => GridDirection::NorthEast,
        GridDirection::NorthEast => GridDirection::East,
        GridDirection::East => GridDirection::SouthEast,
        GridDirection::SouthEast => GridDirection::South,
        GridDirection::South => GridDirection::SouthWest,
        GridDirection::SouthWest => GridDirection::West,
        GridDirection::West => GridDirection::NorthWest,
        GridDirection::NorthWest => GridDirection::North,
    }
}

/// The cross product of the step of `d` with `(dx, dy)`: negative when
/// `(dx, dy)` turns clockwise from `d`, positive when it turns the other
/// way, zero when it lies along `d` (or opposite it).
pub open spec fn turn_from(d: GridDirection, dx: int, dy: int) -> int {
    scaled(step_x(d), dy) - scaled(step_y(d), dx)
}

/// `v` times a unit step (-1, 0 or 1).
pub open spec fn scaled(step: int, v: int) -> int {
    if step == 1 {
        v
    } else if step == -1 {
        -v
    } else {
        0
    }
}

/// The bearing of a non-zero offset is the 45-degree sector, clockwise from
/// North, that holds it: the offset lies on the bearing's own ray or
/// clockwise of it, and strictly before the next direction clockwise. (The
/// sectors split the plane, so this fixes the bearing of every offset.)
pub proof fn lemma_bearing_is_its_sector(dx: int, dy: int)
    requires
        dx != 0 || dy != 0,
    ensures
        turn_from(bearing_of(dx, dy), dx, dy) <= 0,
        turn_from(clockwise_next(bearing_of(dx, dy)), dx, dy) > 0,
{
}

/// Turning an offset a quarter turn clockwise turns its bearing two
/// sectors clockwise.
pub proof fn lemma_bearing_turns_with_offset(dx: int, dy: int)
    requires
        dx != 0 || dy != 0,
    ensures
        bearing_of(dy, -dx) == clockwise_next(clockwise_next(bearing_of(dx, dy))),
{
}

/// Looking along a straight line: the bearing from a point to any point
/// reached by walking from it in direction `d` is `d`.
pub proof fn lemma_bearing_of_line(p: Point, board: GameBoard, d: GridDirection, len: int)
    requires
        len >= 1,
        relative(p, board, d, len) is Some,
    ensures
        ({
            let q = relative(p, board, d, len).unwrap();
            bearing_of(q.x - p.x, q.y - p.y) == d
        }),
{
}

/// The `k`-th point gathered from `p` in direction `d` is the point `k + 1`
/// units away, labelled `k + 1`, and lies on the board; the walk stops
/// early only at the edge of the board.
pub proof fn lemma_gather_points(p: Point, board: GameBoard, d: GridDirection, count: nat)
    requires
        count <= usize::MAX,
    ensures
        gather(p, board, d, count).len() <= count,
        forall|k: int| 0 <= k < gather(p, board, d, count).len() ==> {
            let e = #[trigger] gather(p, board, d, count)[k];
            &&& e.1 == k + 1
            &&& e.0.x == moved_x(p.x as int, d, k + 1)
            &&& e.0.y == moved_y(p.y as int, d, k + 1)
            &&& on_board(e.0.x as int, e.0.y as int, board)
        },
        gather(p, board, d, count).len() < count ==> relative(p, board, d, (gather(p, board, d, count).len() + 1) as int) is None,
{
    lemma_ray_from(p, relative(p, board, d, 1), board, d, count, 0);
}

proof fn lemma_ray_from(p: Point, cur: Option<Point>, board: GameBoard, d: GridDirection, remaining: nat, walked: nat)
    requires
        cur == relative(p, board, d, (walked + 1) as int),
        walked + remaining <= usize::MAX,
    ensures
        ray_from(cur, board, d, remaining, walked).len() <= remaining,
        forall|k: int| 0 <= k < ray_from(cur, board, d, remaining, walked).len() ==> {
            let e = #[trigger] ray_from(cur, board, d, remaining, walked)[k];
            &&& e.1 == walked + k + 1
            &&& e.0.x == moved_x(p.x as int, d, walked + k + 1)
            &&& e.0.y == moved_y(p.y as int, d, walked + k + 1)
            &&& on_board(e.0.x as int, e.0.y as int, board)
        },
        ray_from(cur, board, d, remaining, walked).len() < remaining ==> relative(
            p,
            board,
            d,
            (walked + ray_from(cur, board, d, remaining, walked).len() + 1) as int,
        ) is None,
    decreases remaining,
{
    if remaining > 0 {
        if let Some(q) = cur {
            let next = relative(q, board, d, 1);
            assert(next == relative(p, board, d, (walked + 2) as int));
            lemma_ray_from(p, next, board, d, (remaining - 1) as nat, walked + 1);
            let rest = ray_from(next, board, d, (remaining - 1) as nat, walked + 1);
            let all = ray_from(cur, board, d, remaining, walked);
            assert(all == seq![(q, (walked + 1) as usize)] + rest);
            assert forall|k: int| 0 <= k < all.len() implies {
                let e = #[trigger] all[k];
                &&& e.1 == walked + k + 1
                &&& e.0.x == moved_x(p.x as int, d, walked + k + 1)
                &&& e.0.y == moved_y(p.y as int, d, walked + k + 1)
                &&& on_board(e.0.x as int, e.0.y as int, board)
            } by {
                if k > 0 {
                    assert(all[k] == rest[k - 1]);
                }
            }
        }
    }
}

} // verus!
