//! A* pathfinding on the arena tile grid. 8-connected, octile
//! ("Chebyshev with diagonal cost") heuristic, with a hard expansion cap
//! so a pathological request (goal walled off, huge open arena) doesn't
//! chew the sim.
//!
//! Diagonal steps refuse to cut corners: a diagonal move is only taken
//! when both cardinal tiles beside it are open. Paths come back in tile
//! coordinates, start first.
use std::collections::HashMap;
use vstd::prelude::*;

verus! {

broadcast use vstd::std_specs::hash::group_hash_axioms;

/// Maximum nodes the open set will expand before the search bails out
/// with its best-so-far partial path.
pub const ASTAR_MAX_EXPANSIONS: usize = 4096;

/// Passability grid the search runs on: `width` × `height` tiles stored
/// row-major. Everything outside the grid counts as wall.
pub struct WallGrid {
    width: u16,
    height: u16,
    walls: Vec<bool>,
}

impl WallGrid {
    #[verifier::type_invariant]
    spec fn inv(self) -> bool {
        self.walls@.len() == self.width as int * self.height as int
    }

    pub closed spec fn spec_width(self) -> int {
        self.width as int
    }

    pub closed spec fn spec_height(self) -> int {
        self.height as int
    }

    /// An in-grid tile that holds a wall.
    pub closed spec fn blocked(self, x: int, y: int) -> bool {
        self.walls@[y * self.width + x]
    }

    pub open spec fn in_grid(self, x: int, y: int) -> bool {
        0 <= x < self.spec_width() && 0 <= y < self.spec_height()
    }

    /// What `is_wall` answers: outside the grid, or a wall tile.
    pub open spec fn wall_at(self, x: int, y: int) -> bool {
        !self.in_grid(x, y) || self.blocked(x, y)
    }

    /// An all-open grid of the given size.
    pub fn new(width: u16, height: u16) -> (g: Self)
        ensures
            g.spec_width() == width,
            g.spec_height() == height,
            forall|x: int, y: int| g.in_grid(x, y) ==> !#[trigger] g.blocked(x, y),
    {
        proof {
            lemma_grid_size_fits(width as int, height as int);
        }
        let n: usize = (width as usize) * (height as usize);
        let mut walls: Vec<bool> = Vec::new();
        let mut i: usize = 0;
        while i < n
            invariant
                i <= n,
                n == width as int * height as int,
                walls@.len() == i,
                forall|j: int| 0 <= j < i ==> !walls@[j],
            decreases n - i,
        {
            walls.push(false);
            i = i + 1;
        }
        let g = WallGrid { width, height, walls };
        assert forall|x: int, y: int| g.in_grid(x, y) implies !#[trigger] g.blocked(x, y) by {
            lemma_row_major_index(x, y, width as int, height as int);
        }
        g
    }

    pub fn width(&self) -> (w: u16)
        ensures
            w == self.spec_width(),
    {
        self.width
    }

    pub fn height(&self) -> (h: u16)
        ensures
            h == self.spec_height(),
    {
        self.height
    }

    /// Mark (or clear) the wall at an in-grid tile; tiles outside the
    /// grid are left alone.
    pub fn set_wall(&mut self, x: u16, y: u16, wall: bool)
        ensures
            final(self).spec_width() == old(self).spec_width(),
            final(self).spec_height() == old(self).spec_height(),
            old(self).in_grid(x as int, y as int) ==> final(self).blocked(x as int, y as int) == wall,
            forall|a: int, b: int|
                final(self).in_grid(a, b) && !(a == x && b == y) ==> #[trigger] final(self).blocked(a, b)
                    == old(self).blocked(a, b),
    {
        proof {
            use_type_invariant(&*self);
        }
        if x < self.width && y < self.height {
            proof {
                lemma_row_major_index(x as int, y as int, self.width as int, self.height as int);
                lemma_grid_size_fits(self.width as int, self.height as int);
            }
            let idx = (y as usize) * (self.width as usize) + (x as usize);
            let mut taken = WallGrid { width: 0, height: 0, walls: Vec::new() };
            core::mem::swap(self, &mut taken);
            let WallGrid { width, height, mut walls } = taken;
            walls.set(idx, wall);
            *self = WallGrid { width, height, walls };
            proof {
                assert forall|a: int, b: int|
                    self.in_grid(a, b) && !(a == x && b == y) implies #[trigger] self.blocked(a, b)
                        == old(self).blocked(a, b) by {
                    lemma_row_major_index(a, b, self.width as int, self.height as int);
                    lemma_row_major_distinct(a, b, x as int, y as int, self.width as int);
                }
            }
        }
    }

    pub fn is_wall(&self, x: i32, y: i32) -> (r: bool)
        ensures
            r == self.wall_at(x as int, y as int),
    {
        proof {
            use_type_invariant(self);
        }
        if x < 0 || y < 0 || x >= self.width as i32 || y >= self.height as i32 {
            return true;
        }
        proof {
            lemma_row_major_index(x as int, y as int, self.width as int, self.height as int);
            lemma_grid_size_fits(self.width as int, self.height as int);
        }
        let idx = (y as usize) * (self.width as usize) + (x as usize);
        self.walls[idx]
    }
}

proof fn lemma_row_major_index(x: int, y: int, w: int, h: int)
    requires
        0 <= x < w,
        0 <= y < h,
    ensures
        0 <= y * w + x < w * h,
{
    assert(y * w <= (h - 1) * w) by (nonlinear_arith)
        requires
            0 <= y <= h - 1,
            0 <= w,
    ;
    assert((h - 1) * w + w == w * h) by (nonlinear_arith);
    assert(0 <= y * w) by (nonlinear_arith)
        requires
            0 <= y,
            0 <= w,
    ;
}

proof fn lemma_grid_size_fits(w: int, h: int)
    requires
        0 <= w <= 65535,
        0 <= h <= 65535,
    ensures
        w * h <= 65535 * 65535,
{
    assert(w * h <= 65535 * 65535) by (nonlinear_arith)
        requires
            0 <= w <= 65535,
            0 <= h <= 65535,
    ;
}

proof fn lemma_row_major_distinct(a: int, b: int, x: int, y: int, w: int)
    requires
        0 <= a < w,
        0 <= x < w,
        0 <= b,
        0 <= y,
        !(a == x && b == y),
    ensures
        b * w + a != y * w + x,
{
    if b == y {
    } else if b < y {
        assert(b * w + w <= y * w) by (nonlinear_arith)
            requires
                b < y,
                0 <= w,
        ;
    } else {
        assert(y * w + w <= b * w) by (nonlinear_arith)
            requires
                y < b,
                0 <= w,
        ;
    }
}

/// One legal move of the search: to one of the 8 neighbours, onto an
/// open tile, and — for a diagonal — only when both cardinal tiles it
/// squeezes between are open.
pub open spec fn step_ok(grid: WallGrid, a: (i32, i32), b: (i32, i32)) -> bool {
    let dx = b.0 - a.0;
    let dy = b.1 - a.1;
    &&& -1 <= dx <= 1
    &&& -1 <= dy <= 1
    &&& !(dx == 0 && dy == 0)
    &&& !grid.wall_at(b.0 as int, b.1 as int)
    &&& (dx != 0 && dy != 0) ==> (!grid.wall_at(a.0 + dx, a.1 as int) && !grid.wall_at(
        a.0 as int,
        a.1 + dy,
    ))
}

/// A non-empty tile sequence whose consecutive tiles are legal moves.
pub open spec fn is_walk(grid: WallGrid, p: Seq<(i32, i32)>) -> bool {
    &&& p.len() >= 1
    &&& forall|i: int| 0 <= i < p.len() - 1 ==> #[trigger] step_ok(grid, p[i], p[i + 1])
}

/// What one move costs: 14 for a diagonal, 10 for a straight step.
pub open spec fn step_cost(a: (i32, i32), b: (i32, i32)) -> int {
    if a.0 != b.0 && a.1 != b.1 {
        14
    } else {
        10
    }
}

/// The summed cost of a walk's moves.
pub open spec fn walk_cost(p: Seq<(i32, i32)>) -> int
    decreases p.len(),
{
    if p.len() <= 1 {
        0
    } else {
        walk_cost(p.drop_last()) + step_cost(p[p.len() - 2], p[p.len() - 1])
    }
}

/// A walk from `from` to `to` that costs no more than `p`.
pub open spec fn cheapest(grid: WallGrid, p: Seq<(i32, i32)>, from: (i32, i32), to: (i32, i32)) -> bool {
    forall|w: Seq<(i32, i32)>|
        #[trigger] is_walk(grid, w) && w[0] == from && w.last() == to ==> walk_cost(p) <= walk_cost(w)
}

pub open spec fn reachable(grid: WallGrid, from: (i32, i32), to: (i32, i32)) -> bool {
    exists|p: Seq<(i32, i32)>| #[trigger] is_walk(grid, p) && p[0] == from && p.last() == to
}

pub open spec fn abs_diff(a: int, b: int) -> int {
    if a >= b {
        a - b
    } else {
        b - a
    }
}

/// Octile distance: diagonal steps cost 14, cardinal steps 10.
pub open spec fn octile(a: (i32, i32), b: (i32, i32)) -> int {
    let dx = abs_diff(a.0 as int, b.0 as int);
    let dy = abs_diff(a.1 as int, b.1 as int);
    let diag = if dx <= dy {
        dx
    } else {
        dy
    };
    let straight = (if dx >= dy {
        dx
    } else {
        dy
    }) - diag;
    diag * 14 + straight * 10
}

/// The heuristic between `a` and `b` is computable without overflow:
/// both coordinate differences fit an `i32` (and their absolute value
/// too), and the octile distance fits a `u32`.
pub open spec fn octile_fits(a: (i32, i32), b: (i32, i32)) -> bool {
    &&& -(i32::MAX as int) <= a.0 - b.0 <= i32::MAX
    &&& -(i32::MAX as int) <= a.1 - b.1 <= i32::MAX
    &&& octile(a, b) <= u32::MAX
}

/// The goal is close enough to every grid tile for the heuristic to be
/// computed from any tile the search may visit.
pub open spec fn goal_in_reach(grid: WallGrid, goal: (i32, i32)) -> bool {
    forall|x: i32, y: i32| grid.in_grid(x as int, y as int) ==> #[trigger] octile_fits((x, y), goal)
}

fn chebyshev(a: (i32, i32), b: (i32, i32)) -> (d: u32)
    requires
        octile_fits(a, b),
    ensures
        d == octile(a, b),
{
    let ddx = a.0 - b.0;
    let ddy = a.1 - b.1;
    let dx: u32 = if ddx < 0 {
        (-ddx) as u32
    } else {
        ddx as u32
    };
    let dy: u32 = if ddy < 0 {
        (-ddy) as u32
    } else {
        ddy as u32
    };
    let diag = if dx <= dy {
        dx
    } else {
        dy
    };
    let straight = (if dx >= dy {
        dx
    } else {
        dy
    }) - diag;
    diag * 14 + straight * 10
}

#[derive(Clone, Copy)]
struct Node {
    pos: (i32, i32),
    f: u32,
    g: u32,
}

/// Hash key of an in-grid tile.
spec fn key_of(p: (i32, i32)) -> u64 {
    (p.0 as int * 65536 + p.1 as int) as u64
}

fn key(p: (i32, i32)) -> (k: u64)
    requires
        0 <= p.0 < 65536,
        0 <= p.1 < 65536,
    ensures
        k == key_of(p),
{
    (p.0 as u64) * 65536 + (p.1 as u64)
}

proof fn lemma_key_injective(p: (i32, i32), q: (i32, i32))
    requires
        0 <= p.0 < 65536,
        0 <= p.1 < 65536,
        0 <= q.0 < 65536,
        0 <= q.1 < 65536,
        key_of(p) == key_of(q),
    ensures
        p == q,
{
}

/// `p` is a tile the search has assigned a cost to.
spec fn in_g(grid: WallGrid, gs: Map<u64, u32>, p: (i32, i32)) -> bool {
    grid.in_grid(p.0 as int, p.1 as int) && gs.contains_key(key_of(p))
}

/// An open-set entry for `p` still carries its current best cost.
spec fn pending(gs: Map<u64, u32>, open: Seq<Node>, p: (i32, i32)) -> bool {
    exists|i: int| 0 <= i < open.len() && #[trigger] open[i].pos == p && open[i].g == gs[key_of(p)]
}

/// Every legal move out of `p` lands on a tile that has a cost, and no
/// dearer than through `p`.
spec fn relaxed(grid: WallGrid, gs: Map<u64, u32>, p: (i32, i32)) -> bool {
    forall|m: (i32, i32)|
        #[trigger] step_ok(grid, p, m) ==> in_g(grid, gs, m) && gs[key_of(m)] <= gs[key_of(p)] + step_cost(p, m)
}

/// Every legal move out of `p` lands on a tile that has a cost.
spec fn closed_at(grid: WallGrid, gs: Map<u64, u32>, p: (i32, i32)) -> bool {
    forall|m: (i32, i32)| #[trigger] step_ok(grid, p, m) ==> in_g(grid, gs, m)
}

/// Every costed tile but the start was reached from a tile whose moves
/// are all costed, or from `cur`, whose expansion is under way.
spec fn links_closed(
    grid: WallGrid,
    start: (i32, i32),
    gs: Map<u64, u32>,
    cf: Map<u64, (i32, i32)>,
    cur: Option<(i32, i32)>,
) -> bool {
    forall|p: (i32, i32)|
        #[trigger] in_g(grid, gs, p) && p != start ==> cur == Some(cf[key_of(p)]) || closed_at(grid, gs, cf[key_of(p)])
}

/// Recording a cost for `nb`, reached from `cur`, keeps the links closed.
proof fn lemma_links_closed_relax(
    grid: WallGrid,
    start: (i32, i32),
    gs0: Map<u64, u32>,
    cf0: Map<u64, (i32, i32)>,
    gs1: Map<u64, u32>,
    cf1: Map<u64, (i32, i32)>,
    cur: (i32, i32),
    nb: (i32, i32),
    t: u32,
)
    requires
        links_closed(grid, start, gs0, cf0, Some(cur)),
        grid.spec_width() <= 65535 && grid.spec_height() <= 65535,
        grid.in_grid(nb.0 as int, nb.1 as int),
        gs1 == gs0.insert(key_of(nb), t),
        cf1 == cf0.insert(key_of(nb), cur),
    ensures
        links_closed(grid, start, gs1, cf1, Some(cur)),
        forall|x: (i32, i32)| closed_at(grid, gs0, x) ==> #[trigger] closed_at(grid, gs1, x),
{
    assert forall|p: (i32, i32)| #[trigger] in_g(grid, gs0, p) implies in_g(grid, gs1, p) by {}
    assert forall|x: (i32, i32)| closed_at(grid, gs0, x) implies #[trigger] closed_at(grid, gs1, x) by {
        assert forall|m: (i32, i32)| #[trigger] step_ok(grid, x, m) implies in_g(grid, gs1, m) by {
            assert(in_g(grid, gs0, m));
        }
    }
    assert forall|p: (i32, i32)| #[trigger] in_g(grid, gs1, p) && p != start implies Some(cur) == Some(
        cf1[key_of(p)],
    ) || closed_at(grid, gs1, cf1[key_of(p)]) by {
        if p != nb {
            if key_of(p) == key_of(nb) {
                lemma_key_injective(p, nb);
            }
            assert(in_g(grid, gs0, p));
            assert(cf1[key_of(p)] == cf0[key_of(p)]);
            if closed_at(grid, gs0, cf0[key_of(p)]) {
                assert(closed_at(grid, gs1, cf0[key_of(p)]));
            }
        }
    }
}

/// The bookkeeping the search keeps for every costed tile.
spec fn search_inv(
    grid: WallGrid,
    start: (i32, i32),
    gs: Map<u64, u32>,
    cf: Map<u64, (i32, i32)>,
    open: Seq<Node>,
    bound: int,
) -> bool {
    &&& in_g(grid, gs, start)
    &&& gs[key_of(start)] == 0
    &&& forall|p: (i32, i32)| #[trigger] in_g(grid, gs, p) ==> gs[key_of(p)] <= bound
    &&& forall|i: int|
        0 <= i < open.len() ==> in_g(grid, gs, #[trigger] open[i].pos) && open[i].g >= gs[key_of(
            open[i].pos,
        )]
    &&& links_ok(grid, start, gs, cf)
}

/// The queue priority of cost `g` at `p`: cost plus heuristic,
/// saturating at `u32::MAX`.
spec fn prio(g: int, p: (i32, i32), goal: (i32, i32)) -> int {
    if g + octile(p, goal) > u32::MAX {
        u32::MAX as int
    } else {
        g + octile(p, goal)
    }
}

/// Each queued entry carries the priority of its cost.
spec fn entries_ok(open: Seq<Node>, goal: (i32, i32)) -> bool {
    forall|i: int| 0 <= i < open.len() ==> #[trigger] open[i].f == prio(open[i].g as int, open[i].pos, goal)
}

/// Every costed tile but the start records a costed predecessor one
/// legal move away, whose cost plus that move's is at most its own.
spec fn links_ok(grid: WallGrid, start: (i32, i32), gs: Map<u64, u32>, cf: Map<u64, (i32, i32)>) -> bool {
    forall|p: (i32, i32)|
        #[trigger] in_g(grid, gs, p) && p != start ==> {
            &&& cf.contains_key(key_of(p))
            &&& in_g(grid, gs, cf[key_of(p)])
            &&& step_ok(grid, cf[key_of(p)], p)
            &&& gs[key_of(cf[key_of(p)])] + step_cost(cf[key_of(p)], p) <= gs[key_of(p)]
        }
}

spec fn spec_neighbor(k: int) -> (int, int) {
    if k == 0 {
        (-1, -1)
    } else if k == 1 {
        (0, -1)
    } else if k == 2 {
        (1, -1)
    } else if k == 3 {
        (-1, 0)
    } else if k == 4 {
        (1, 0)
    } else if k == 5 {
        (-1, 1)
    } else if k == 6 {
        (0, 1)
    } else {
        (1, 1)
    }
}

/// Position of the offset `(dx, dy)` in the neighbour order.
spec fn dir_index(dx: int, dy: int) -> int {
    let i9 = (dy + 1) * 3 + (dx + 1);
    if i9 < 4 {
        i9
    } else {
        i9 - 1
    }
}

fn neighbor(k: usize) -> (d: (i32, i32))
    requires
        k < 8,
    ensures
        d.0 == spec_neighbor(k as int).0,
        d.1 == spec_neighbor(k as int).1,
{
    match k {
        0 => (-1, -1),
        1 => (0, -1),
        2 => (1, -1),
        3 => (-1, 0),
        4 => (1, 0),
        5 => (-1, 1),
        6 => (0, 1),
        _ => (1, 1),
    }
}

/// Index of the open-set entry the search takes next: lowest `f`,
/// then lowest `g`.
fn best_index(open: &Vec<Node>) -> (b: usize)
    requires
        open.len() > 0,
    ensures
        b < open.len(),
        forall|i: int|
            0 <= i < open.len() ==> open@[b as int].f < open@[i].f || (open@[b as int].f
                == open@[i].f && open@[b as int].g <= open@[i].g),
{
    let mut b: usize = 0;
    let mut i: usize = 1;
    while i < open.len()
        invariant
            0 < i <= open.len(),
            b < i,
            forall|j: int|
                0 <= j < i ==> open@[b as int].f < open@[j].f || (open@[b as int].f == open@[j].f
                    && open@[b as int].g <= open@[j].g),
        decreases open.len() - i,
    {
        if open[i].f < open[b].f || (open[i].f == open[b].f && open[i].g < open[b].g) {
            b = i;
        }
        i = i + 1;
    }
    b
}

/// A path from `start` to `target`, following the recorded predecessors.
#[verifier::rlimit(60)]
#[verifier::spinoff_prover]
fn reconstruct(
    came_from: &HashMap<u64, (i32, i32)>,
    target: (i32, i32),
    start: (i32, i32),
    Ghost(grid): Ghost<WallGrid>,
    Ghost(gs): Ghost<Map<u64, u32>>,
) -> (path: Vec<(i32, i32)>)
    requires
        links_ok(grid, start, gs, came_from@),
        in_g(grid, gs, start),
        in_g(grid, gs, target),
    ensures
        is_walk(grid, path@),
        path@[0] == start,
        path@.last() == target,
        walk_cost(path@) <= gs[key_of(target)],
        forall|i: int|
            #![trigger path@[i]]
            0 <= i < path@.len() - 1 ==> in_g(grid, gs, path@[i + 1]) && path@[i + 1] != start && path@[i]
                == came_from@[key_of(path@[i + 1])],
{
    let mut cur = target;
    let mut back: Vec<(i32, i32)> = Vec::new();
    back.push(cur);
    loop
        invariant_except_break
            in_g(grid, gs, cur),
        invariant
            links_ok(grid, start, gs, came_from@),
            back@.len() >= 1,
            back@[0] == target,
            back@.last() == cur,
            forall|i: int|
                0 <= i < back@.len() - 1 ==> #[trigger] step_ok(grid, back@[i + 1], back@[i]),
            in_g(grid, gs, cur),
            walk_cost(back@) + gs[key_of(cur)] <= gs[key_of(target)],
            forall|i: int|
                #![trigger back@[i]]
                0 <= i < back@.len() - 1 ==> in_g(grid, gs, back@[i]) && back@[i] != start && back@[i + 1]
                    == came_from@[key_of(back@[i])],
        ensures
            cur == start,
        decreases gs[key_of(cur)],
    {
        if cur.0 == start.0 && cur.1 == start.1 {
            break;
        }
        assert(in_g(grid, gs, cur) && cur != start);
        match came_from.get(&key(cur)) {
            Some(prev) => {
                let prev = *prev;
                let ghost old_back = back@;
                back.push(prev);
                assert(back@.drop_last() =~= old_back);
                assert forall|i: int| 0 <= i < back@.len() - 1 implies #[trigger] step_ok(
                    grid,
                    back@[i + 1],
                    back@[i],
                ) by {
                    if i < old_back.len() - 1 {
                        assert(back@[i] == old_back[i] && back@[i + 1] == old_back[i + 1]);
                    }
                }
                assert forall|i: int|
                    #![trigger back@[i]]
                    0 <= i < back@.len() - 1 implies in_g(grid, gs, back@[i]) && back@[i] != start && back@[i
                        + 1] == came_from@[key_of(back@[i])] by {
                    if i < old_back.len() - 1 {
                        assert(back@[i] == old_back[i] && back@[i + 1] == old_back[i + 1]);
                    }
                }
                cur = prev;
            },
            None => {
                break;
            },
        }
    }
    let n = back.len();
    let mut path: Vec<(i32, i32)> = Vec::new();
    let mut j: usize = 0;
    while j < n
        invariant
            n == back@.len(),
            n >= 1,
            j <= n,
            path@.len() == j,
            forall|i: int| 0 <= i < j ==> path@[i] == back@[n - 1 - i],
            j >= 1 ==> walk_cost(back@.take(n - j + 1)) + walk_cost(path@) == walk_cost(back@),
        decreases n - j,
    {
        let ghost old_path = path@;
        path.push(back[n - 1 - j]);
        proof {
            assert(path@.drop_last() =~= old_path);
            if j == 0 {
                assert(back@.take(n as int) =~= back@);
            } else {
                let t = back@.take(n - j + 1);
                assert(t.drop_last() =~= back@.take(n - j));
            }
        }
        j = j + 1;
    }
    assert(walk_cost(back@.take(1)) == 0);
    assert forall|i: int| 0 <= i < path@.len() - 1 implies #[trigger] step_ok(
        grid,
        path@[i],
        path@[i + 1],
    ) by {
        let k = n - 2 - i;
        assert(step_ok(grid, back@[k + 1], back@[k]));
    }
    assert forall|i: int|
        #![trigger path@[i]]
        0 <= i < path@.len() - 1 implies in_g(grid, gs, path@[i + 1]) && path@[i + 1] != start && path@[i]
            == came_from@[key_of(path@[i + 1])] by {
        let k = n - 2 - i;
        assert(path@[i] == back@[k + 1] && path@[i + 1] == back@[k]);
        assert(in_g(grid, gs, back@[k]));
    }
    path
}

/// The search's bookkeeping between expansions: costs and links are
/// sound, queue priorities lie between cost and cost plus heuristic,
/// every costed tile (but `skip`) is queued at its cost or relaxed, and a
/// costed goal is queued at its cost.
#[verifier::opaque]
spec fn frontier_inv(
    grid: WallGrid,
    start: (i32, i32),
    goal: (i32, i32),
    gs: Map<u64, u32>,
    cf: Map<u64, (i32, i32)>,
    open: Seq<Node>,
    bound: int,
    skip: Option<(i32, i32)>,
) -> bool {
    &&& search_inv(grid, start, gs, cf, open, bound)
    &&& entries_ok(open, goal)
    &&& forall|p: (i32, i32)|
        #[trigger] in_g(grid, gs, p) && skip != Some(p) ==> pending(gs, open, p) || relaxed(grid, gs, p)
    &&& in_g(grid, gs, goal) ==> pending(gs, open, goal)
}

/// Midway through expanding `cur` (costed at `cur_g`): the moves in the
/// first `k` directions are relaxed.
#[verifier::opaque]
spec fn round_inv(
    grid: WallGrid,
    start: (i32, i32),
    goal: (i32, i32),
    gs: Map<u64, u32>,
    cf: Map<u64, (i32, i32)>,
    open: Seq<Node>,
    bound: int,
    cur: (i32, i32),
    cur_g: int,
    k: int,
) -> bool {
    &&& frontier_inv(grid, start, goal, gs, cf, open, bound, Some(cur))
    &&& in_g(grid, gs, cur)
    &&& gs[key_of(cur)] == cur_g
    &&& forall|m: (i32, i32)|
        #[trigger] step_ok(grid, cur, m) && dir_index(m.0 - cur.0, m.1 - cur.1) < k ==> in_g(grid, gs, m)
            && gs[key_of(m)] <= cur_g + step_cost(cur, m)
}

proof fn lemma_frontier_basics(
    grid: WallGrid,
    start: (i32, i32),
    goal: (i32, i32),
    gs: Map<u64, u32>,
    cf: Map<u64, (i32, i32)>,
    open: Seq<Node>,
    bound: int,
    skip: Option<(i32, i32)>,
)
    requires
        frontier_inv(grid, start, goal, gs, cf, open, bound, skip),
    ensures
        search_inv(grid, start, gs, cf, open, bound),
        entries_ok(open, goal),
{
    reveal(frontier_inv);
}

/// After taking entry `b` out of the queue, every other tile's queued
/// entry is still there.
proof fn lemma_pending_survives(gs: Map<u64, u32>, before: Seq<Node>, after: Seq<Node>, b: int, p: (i32, i32))
    requires
        0 <= b < before.len(),
        after == before.update(b, before.last()).drop_last(),
        pending(gs, before, p),
        !(before[b].pos == p && before[b].g == gs[key_of(p)]),
    ensures
        pending(gs, after, p),
{
    let i = choose|i: int| 0 <= i < before.len() && #[trigger] before[i].pos == p && before[i].g == gs[key_of(p)];
    assert(i != b);
    if i == before.len() - 1 {
        assert(after[b] == before[i]);
    } else {
        assert(after[i] == before[i]);
    }
}

proof fn lemma_entries_after_pop(
    grid: WallGrid,
    goal: (i32, i32),
    gs: Map<u64, u32>,
    before: Seq<Node>,
    after: Seq<Node>,
    b: int,
)
    requires
        0 <= b < before.len(),
        after == before.update(b, before.last()).drop_last(),
        entries_ok(before, goal),
        forall|i: int|
            0 <= i < before.len() ==> in_g(grid, gs, #[trigger] before[i].pos) && before[i].g >= gs[key_of(
                before[i].pos,
            )],
    ensures
        entries_ok(after, goal),
        forall|i: int|
            0 <= i < after.len() ==> in_g(grid, gs, #[trigger] after[i].pos) && after[i].g >= gs[key_of(
                after[i].pos,
            )],
{
    assert forall|i: int| 0 <= i < after.len() implies after[i] == before[i] || after[i] == before[before.len()
        - 1] by {
        if i == b {
        } else {
        }
    }
    assert forall|i: int| 0 <= i < after.len() implies #[trigger] after[i].f == prio(
        after[i].g as int,
        after[i].pos,
        goal,
    ) by {
        if after[i] == before[i] {
            assert(before[i].f == prio(before[i].g as int, before[i].pos, goal));
        } else {
            assert(before[before.len() - 1].f == prio(
                before[before.len() - 1].g as int,
                before[before.len() - 1].pos,
                goal,
            ));
        }
    }
    assert forall|i: int| 0 <= i < after.len() implies in_g(grid, gs, #[trigger] after[i].pos) && after[i].g
        >= gs[key_of(after[i].pos)] by {
        if after[i] == before[i] {
            assert(in_g(grid, gs, before[i].pos));
        } else {
            assert(in_g(grid, gs, before[before.len() - 1].pos));
        }
    }
}

/// Popping a current entry for `cur` starts its expansion.
proof fn lemma_pop_fresh(
    grid: WallGrid,
    start: (i32, i32),
    goal: (i32, i32),
    gs: Map<u64, u32>,
    cf: Map<u64, (i32, i32)>,
    before: Seq<Node>,
    after: Seq<Node>,
    b: int,
    bound0: int,
    bound1: int,
)
    requires
        frontier_inv(grid, start, goal, gs, cf, before, bound0, None),
        0 <= b < before.len(),
        after == before.update(b, before.last()).drop_last(),
        before[b].g == gs[key_of(before[b].pos)],
        before[b].pos != goal,
        bound0 <= bound1,
    ensures
        round_inv(grid, start, goal, gs, cf, after, bound1, before[b].pos, before[b].g as int, 0),
        before[b].g <= bound0,
{
    reveal(frontier_inv);
    reveal(round_inv);
    let cur = before[b];
    lemma_entries_after_pop(grid, goal, gs, before, after, b);
    assert(in_g(grid, gs, cur.pos));
    assert forall|p: (i32, i32)| #[trigger] in_g(grid, gs, p) && Some(cur.pos) != Some(p) implies pending(
        gs,
        after,
        p,
    ) || relaxed(grid, gs, p) by {
        if pending(gs, before, p) {
            lemma_pending_survives(gs, before, after, b, p);
        }
    }
    if in_g(grid, gs, goal) {
        lemma_pending_survives(gs, before, after, b, goal);
    }
    assert(frontier_inv(grid, start, goal, gs, cf, after, bound1, Some(cur.pos)));
}

/// Popping an outdated entry changes nothing else.
proof fn lemma_pop_stale(
    grid: WallGrid,
    start: (i32, i32),
    goal: (i32, i32),
    gs: Map<u64, u32>,
    cf: Map<u64, (i32, i32)>,
    before: Seq<Node>,
    after: Seq<Node>,
    b: int,
    bound0: int,
    bound1: int,
)
    requires
        frontier_inv(grid, start, goal, gs, cf, before, bound0, None),
        0 <= b < before.len(),
        after == before.update(b, before.last()).drop_last(),
        before[b].g > gs[key_of(before[b].pos)],
        bound0 <= bound1,
    ensures
        frontier_inv(grid, start, goal, gs, cf, after, bound1, None),
{
    reveal(frontier_inv);
    lemma_entries_after_pop(grid, goal, gs, before, after, b);
    assert forall|p: (i32, i32)| #[trigger] in_g(grid, gs, p) && None::<(i32, i32)> != Some(p) implies pending(
        gs,
        after,
        p,
    ) || relaxed(grid, gs, p) by {
        if pending(gs, before, p) {
            lemma_pending_survives(gs, before, after, b, p);
        }
    }
    if in_g(grid, gs, goal) {
        lemma_pending_survives(gs, before, after, b, goal);
    }
}

/// The direction index names one offset.
proof fn lemma_dir_unique(dx: int, dy: int, k: int)
    requires
        -1 <= dx <= 1,
        -1 <= dy <= 1,
        !(dx == 0 && dy == 0),
        dir_index(dx, dy) == k,
    ensures
        spec_neighbor(k) == (dx, dy),
        0 <= k < 8,
{
}

/// A direction with no relaxation to do (no legal move, or the tile is
/// already as cheap) is done.
proof fn lemma_round_skip(
    grid: WallGrid,
    start: (i32, i32),
    goal: (i32, i32),
    gs: Map<u64, u32>,
    cf: Map<u64, (i32, i32)>,
    open: Seq<Node>,
    bound: int,
    cur: (i32, i32),
    cur_g: int,
    k: int,
)
    requires
        round_inv(grid, start, goal, gs, cf, open, bound, cur, cur_g, k),
        forall|m: (i32, i32)|
            #[trigger] step_ok(grid, cur, m) && dir_index(m.0 - cur.0, m.1 - cur.1) == k ==> in_g(grid, gs, m)
                && gs[key_of(m)] <= cur_g + step_cost(cur, m),
    ensures
        round_inv(grid, start, goal, gs, cf, open, bound, cur, cur_g, k + 1),
{
    reveal(round_inv);
}

/// Recording a cheaper cost for the neighbour `nb` keeps the bookkeeping.
#[verifier::rlimit(60)]
#[verifier::spinoff_prover]
proof fn lemma_round_relax(
    grid: WallGrid,
    start: (i32, i32),
    goal: (i32, i32),
    gs0: Map<u64, u32>,
    cf0: Map<u64, (i32, i32)>,
    open0: Seq<Node>,
    gs1: Map<u64, u32>,
    cf1: Map<u64, (i32, i32)>,
    open1: Seq<Node>,
    bound: int,
    cur: (i32, i32),
    cur_g: int,
    k: int,
    nb: (i32, i32),
    t: u32,
    f: u32,
)
    requires
        round_inv(grid, start, goal, gs0, cf0, open0, bound, cur, cur_g, k),
        grid.spec_width() <= 65535 && grid.spec_height() <= 65535,
        grid.in_grid(nb.0 as int, nb.1 as int),
        step_ok(grid, cur, nb),
        dir_index(nb.0 - cur.0, nb.1 - cur.1) == k,
        t == cur_g + step_cost(cur, nb),
        t <= bound,
        gs0.contains_key(key_of(nb)) ==> t < gs0[key_of(nb)],
        f == prio(t as int, nb, goal),
        gs1 == gs0.insert(key_of(nb), t),
        cf1 == cf0.insert(key_of(nb), cur),
        open1 == open0.push(Node { pos: nb, f, g: t }),
    ensures
        round_inv(grid, start, goal, gs1, cf1, open1, bound, cur, cur_g, k + 1),
        forall|p: (i32, i32)| #[trigger] in_g(grid, gs0, p) ==> in_g(grid, gs1, p),
        forall|p: (i32, i32)| #[trigger] in_g(grid, gs1, p) ==> in_g(grid, gs0, p) || p == nb,
{
    reveal(frontier_inv);
    reveal(round_inv);
    assert forall|p: (i32, i32)| #[trigger] in_g(grid, gs1, p) implies in_g(grid, gs0, p) || p == nb by {
        if !in_g(grid, gs0, p) {
            lemma_key_injective(p, nb);
        }
    }
    assert forall|p: (i32, i32)| #[trigger] in_g(grid, gs0, p) implies in_g(grid, gs1, p) && (p != nb
        ==> gs1[key_of(p)] == gs0[key_of(p)]) && gs1[key_of(p)] <= gs0[key_of(p)] by {
        if p != nb {
            if key_of(p) == key_of(nb) {
                lemma_key_injective(p, nb);
            }
        }
    }
    assert(in_g(grid, gs1, nb));
    assert(nb != cur);
    assert(nb != start) by {
        if nb == start {
            assert(in_g(grid, gs0, start));
        }
    }
    assert(open1[open1.len() - 1].pos == nb);
    // Costs stay within the bound.
    assert forall|p: (i32, i32)| #[trigger] in_g(grid, gs1, p) implies gs1[key_of(p)] <= bound by {
        if p != nb {
            assert(in_g(grid, gs0, p));
        }
    }
    // Queue entries.
    assert forall|i: int| 0 <= i < open1.len() implies in_g(grid, gs1, #[trigger] open1[i].pos)
        && open1[i].g >= gs1[key_of(open1[i].pos)] by {
        if i < open0.len() {
            assert(open1[i] == open0[i]);
            assert(in_g(grid, gs0, open0[i].pos));
        }
    }
    assert forall|i: int| 0 <= i < open1.len() implies #[trigger] open1[i].f == prio(
        open1[i].g as int,
        open1[i].pos,
        goal,
    ) by {
        if i < open0.len() {
            assert(open1[i] == open0[i]);
        }
    }
    // Predecessor links.
    assert forall|p: (i32, i32)| #[trigger] in_g(grid, gs1, p) && p != start implies {
        &&& cf1.contains_key(key_of(p))
        &&& in_g(grid, gs1, cf1[key_of(p)])
        &&& step_ok(grid, cf1[key_of(p)], p)
        &&& gs1[key_of(cf1[key_of(p)])] + step_cost(cf1[key_of(p)], p) <= gs1[key_of(p)]
    } by {
        if p == nb {
            assert(cf1[key_of(p)] == cur);
            assert(in_g(grid, gs0, cur));
        } else {
            assert(in_g(grid, gs0, p));
            if key_of(p) == key_of(nb) {
                lemma_key_injective(p, nb);
            }
            let m = cf0[key_of(p)];
            assert(cf1[key_of(p)] == m);
            assert(in_g(grid, gs0, m));
        }
    }
    assert(search_inv(grid, start, gs1, cf1, open1, bound));
    assert(entries_ok(open1, goal));
    // Pending or relaxed.
    assert forall|p: (i32, i32)| #[trigger] in_g(grid, gs1, p) && Some(cur) != Some(p) implies pending(
        gs1,
        open1,
        p,
    ) || relaxed(grid, gs1, p) by {
        if p == nb {
            assert(open1[open1.len() - 1].pos == p);
        } else {
            assert(in_g(grid, gs0, p));
            if pending(gs0, open0, p) {
                let i = choose|i: int|
                    0 <= i < open0.len() && #[trigger] open0[i].pos == p && open0[i].g == gs0[key_of(p)];
                assert(open1[i] == open0[i]);
            } else {
                assert forall|m: (i32, i32)| #[trigger] step_ok(grid, p, m) implies in_g(grid, gs1, m)
                    && gs1[key_of(m)] <= gs1[key_of(p)] + step_cost(p, m) by {
                    assert(in_g(grid, gs0, m));
                }
            }
        }
    }
    if in_g(grid, gs1, goal) {
        if goal == nb {
            assert(open1[open1.len() - 1].pos == goal);
        } else {
            assert(in_g(grid, gs0, goal));
            let i = choose|i: int|
                0 <= i < open0.len() && #[trigger] open0[i].pos == goal && open0[i].g == gs0[key_of(goal)];
            assert(open1[i] == open0[i]);
        }
    }
    assert(frontier_inv(grid, start, goal, gs1, cf1, open1, bound, Some(cur)));
    assert forall|m: (i32, i32)|
        #[trigger] step_ok(grid, cur, m) && dir_index(m.0 - cur.0, m.1 - cur.1) < k + 1 implies in_g(
            grid,
            gs1,
            m,
        ) && gs1[key_of(m)] <= cur_g + step_cost(cur, m) by {
        if m != nb {
            assert(in_g(grid, gs0, m));
            if dir_index(m.0 - cur.0, m.1 - cur.1) == k {
                lemma_dir_unique(m.0 - cur.0, m.1 - cur.1, k);
                lemma_dir_unique(nb.0 - cur.0, nb.1 - cur.1, k);
            }
        }
    }
}

/// All eight directions done: `cur` is relaxed.
proof fn lemma_round_done(
    grid: WallGrid,
    start: (i32, i32),
    goal: (i32, i32),
    gs: Map<u64, u32>,
    cf: Map<u64, (i32, i32)>,
    open: Seq<Node>,
    bound: int,
    cur: (i32, i32),
    cur_g: int,
)
    requires
        round_inv(grid, start, goal, gs, cf, open, bound, cur, cur_g, 8),
    ensures
        frontier_inv(grid, start, goal, gs, cf, open, bound, None),
        closed_at(grid, gs, cur),
{
    reveal(frontier_inv);
    reveal(round_inv);
    assert forall|m: (i32, i32)| #[trigger] step_ok(grid, cur, m) implies in_g(grid, gs, m) && gs[key_of(m)]
        <= gs[key_of(cur)] + step_cost(cur, m) by {
        assert(dir_index(m.0 - cur.0, m.1 - cur.1) < 8);
    }
    assert(relaxed(grid, gs, cur));
}

/// Along a walk from the start whose first `j` tiles are not queued,
/// every tile up to the `j`-th is costed no dearer than the walk so far.
proof fn lemma_walk_prefix(
    grid: WallGrid,
    start: (i32, i32),
    goal: (i32, i32),
    gs: Map<u64, u32>,
    cf: Map<u64, (i32, i32)>,
    open: Seq<Node>,
    bound: int,
    w: Seq<(i32, i32)>,
    j: int,
)
    requires
        frontier_inv(grid, start, goal, gs, cf, open, bound, None),
        is_walk(grid, w),
        w[0] == start,
        0 <= j < w.len(),
        forall|k: int| 0 <= k < j ==> !pending(gs, open, #[trigger] w[k]),
    ensures
        in_g(grid, gs, w[j]),
        gs[key_of(w[j])] <= walk_cost(w.take(j + 1)),
    decreases j,
{
    reveal(frontier_inv);
    if j == 0 {
        assert(w.take(1).len() == 1);
    } else {
        lemma_walk_prefix(grid, start, goal, gs, cf, open, bound, w, j - 1);
        let q = w[j - 1];
        assert(!pending(gs, open, q));
        assert(relaxed(grid, gs, q));
        assert(step_ok(grid, w[j - 1], w[j]));
        let t = w.take(j + 1);
        assert(t.drop_last() =~= w.take(j));
        assert(t[t.len() - 2] == w[j - 1] && t[t.len() - 1] == w[j]);
    }
}

/// A walk from the start to the goal passes a queued tile costed no
/// dearer than the walk up to it.
proof fn lemma_pending_on_walk(
    grid: WallGrid,
    start: (i32, i32),
    goal: (i32, i32),
    gs: Map<u64, u32>,
    cf: Map<u64, (i32, i32)>,
    open: Seq<Node>,
    bound: int,
    w: Seq<(i32, i32)>,
    j: int,
) -> (i: int)
    requires
        frontier_inv(grid, start, goal, gs, cf, open, bound, None),
        is_walk(grid, w),
        w[0] == start,
        w.last() == goal || pending(gs, open, w.last()),
        0 <= j < w.len(),
        forall|k: int| 0 <= k < j ==> !pending(gs, open, #[trigger] w[k]),
    ensures
        0 <= i < w.len(),
        pending(gs, open, w[i]),
        gs[key_of(w[i])] <= walk_cost(w.take(i + 1)),
    decreases w.len() - j,
{
    lemma_walk_prefix(grid, start, goal, gs, cf, open, bound, w, j);
    if pending(gs, open, w[j]) {
        j
    } else {
        if j == w.len() - 1 {
            reveal(frontier_inv);
            assert(in_g(grid, gs, goal));
        }
        lemma_pending_on_walk(grid, start, goal, gs, cf, open, bound, w, j + 1)
    }
}

/// The octile distance drops by at most a move's cost per move.
proof fn lemma_octile_step(a: (i32, i32), b: (i32, i32), goal: (i32, i32))
    requires
        -1 <= b.0 - a.0 <= 1,
        -1 <= b.1 - a.1 <= 1,
        !(b.0 == a.0 && b.1 == a.1),
    ensures
        octile(a, goal) <= step_cost(a, b) + octile(b, goal),
{
}

/// The heuristic at a tile of a walk is at most what the rest of the
/// walk costs plus the heuristic at its end.
proof fn lemma_h_bound(grid: WallGrid, w: Seq<(i32, i32)>, goal: (i32, i32), i: int)
    requires
        is_walk(grid, w),
        0 <= i < w.len(),
    ensures
        octile(w[i], goal) + walk_cost(w.take(i + 1)) <= walk_cost(w) + octile(w.last(), goal),
    decreases w.len() - i,
{
    if i == w.len() - 1 {
        assert(w.take(i + 1) =~= w);
    } else {
        lemma_h_bound(grid, w, goal, i + 1);
        assert(step_ok(grid, w[i], w[i + 1]));
        lemma_octile_step(w[i], w[i + 1], goal);
        let t = w.take(i + 2);
        assert(t.drop_last() =~= w.take(i + 1));
        assert(t[t.len() - 2] == w[i] && t[t.len() - 1] == w[i + 1]);
    }
}

/// When the goal's entry is taken first, the goal's cost is no more than
/// that of any walk to it.
proof fn lemma_goal_cheapest(
    grid: WallGrid,
    start: (i32, i32),
    goal: (i32, i32),
    gs: Map<u64, u32>,
    cf: Map<u64, (i32, i32)>,
    open: Seq<Node>,
    bound: int,
    b: int,
)
    requires
        frontier_inv(grid, start, goal, gs, cf, open, bound, None),
        0 <= b < open.len(),
        open[b].pos == goal,
        forall|i: int|
            0 <= i < open.len() ==> open[b].f < open[i].f || (open[b].f == open[i].f && open[b].g <= open[i].g),
    ensures
        forall|w: Seq<(i32, i32)>|
            #[trigger] is_walk(grid, w) && w[0] == start && w.last() == goal ==> gs[key_of(goal)] <= walk_cost(w),
{
    reveal(frontier_inv);
    assert forall|w: Seq<(i32, i32)>| #[trigger] is_walk(grid, w) && w[0] == start && w.last() == goal implies gs[key_of(
        goal,
    )] <= walk_cost(w) by {
        let i = lemma_pending_on_walk(grid, start, goal, gs, cf, open, bound, w, 0);
        lemma_h_bound(grid, w, goal, i);
        let e = choose|e: int| 0 <= e < open.len() && #[trigger] open[e].pos == w[i] && open[e].g == gs[key_of(w[i])];
        assert(open[b].f == prio(open[b].g as int, open[b].pos, goal));
        assert(open[e].f == prio(open[e].g as int, open[e].pos, goal));
        assert(in_g(grid, gs, open[b].pos) && open[b].g >= gs[key_of(open[b].pos)]);
    }
}

/// Row-major index of a tile.
pub open spec fn tile_index(grid: WallGrid, p: (i32, i32)) -> int {
    p.1 * grid.spec_width() + p.0
}

/// The grid tiles some walk from `start` reaches, by row-major index.
pub open spec fn reachable_tiles(grid: WallGrid, start: (i32, i32)) -> Set<int> {
    Set::new(
        |i: int|
            exists|p: (i32, i32)|
                #[trigger] reachable(grid, start, p) && grid.in_grid(p.0 as int, p.1 as int) && tile_index(grid, p)
                    == i,
    )
}

/// A search that cannot hit its expansion cap: the goal lies on the
/// grid, and eight queue entries per tile reachable from the start fit
/// under the cap.
pub open spec fn small_search(grid: WallGrid, start: (i32, i32), goal: (i32, i32)) -> bool {
    &&& 8 * reachable_tiles(grid, start).len() < ASTAR_MAX_EXPANSIONS
    &&& grid.in_grid(goal.0 as int, goal.1 as int)
}

/// `p` has its cheapest cost, and each entry still queued for it is
/// outdated.
spec fn settled(grid: WallGrid, start: (i32, i32), gs: Map<u64, u32>, open: Seq<Node>, p: (i32, i32)) -> bool {
    &&& forall|w: Seq<(i32, i32)>|
        #[trigger] is_walk(grid, w) && w[0] == start && w.last() == p ==> gs[key_of(p)] <= walk_cost(w)
    &&& forall|j: int| 0 <= j < open.len() && #[trigger] open[j].pos == p ==> open[j].g > gs[key_of(p)]
}

/// The tiles expanded so far (by index) are costed and settled, and no
/// two queued entries for one tile carry the same cost.
#[verifier::opaque]
spec fn expanded_ok(grid: WallGrid, start: (i32, i32), gs: Map<u64, u32>, open: Seq<Node>, xs: Set<int>) -> bool {
    &&& xs.finite()
    &&& xs.subset_of(reachable_tiles(grid, start))
    &&& forall|p: (i32, i32)|
        #[trigger] xs.contains(tile_index(grid, p)) && grid.in_grid(p.0 as int, p.1 as int) ==> in_g(grid, gs, p)
            && settled(grid, start, gs, open, p)
    &&& forall|i: int, j: int|
        #![trigger open[i], open[j]]
        0 <= i < open.len() && 0 <= j < open.len() && i != j && open[i].pos == open[j].pos ==> open[i].g
            != open[j].g
}

/// A costed tile is reached by a walk no dearer than its cost.
proof fn lemma_walk_to(
    grid: WallGrid,
    start: (i32, i32),
    gs: Map<u64, u32>,
    cf: Map<u64, (i32, i32)>,
    p: (i32, i32),
) -> (w: Seq<(i32, i32)>)
    requires
        links_ok(grid, start, gs, cf),
        in_g(grid, gs, start),
        in_g(grid, gs, p),
    ensures
        is_walk(grid, w),
        w[0] == start,
        w.last() == p,
        walk_cost(w) + gs[key_of(start)] <= gs[key_of(p)],
    decreases gs[key_of(p)],
{
    if p == start {
        seq![start]
    } else {
        let q = cf[key_of(p)];
        let v = lemma_walk_to(grid, start, gs, cf, q);
        let w = v.push(p);
        assert(w.drop_last() =~= v);
        assert forall|i: int| 0 <= i < w.len() - 1 implies #[trigger] step_ok(grid, w[i], w[i + 1]) by {
            if i < v.len() - 1 {
                assert(w[i] == v[i] && w[i + 1] == v[i + 1]);
                assert(step_ok(grid, v[i], v[i + 1]));
            }
        }
        w
    }
}

/// With the goal on the grid, every grid tile is within a 16-bit grid's
/// octile distance of it.
proof fn lemma_small_octile(grid: WallGrid, goal: (i32, i32), p: (i32, i32))
    requires
        grid.in_grid(goal.0 as int, goal.1 as int),
        grid.in_grid(p.0 as int, p.1 as int),
        grid.spec_width() <= 65535 && grid.spec_height() <= 65535,
    ensures
        octile(p, goal) <= 14 * 65535,
{
}

/// A current entry taken first from the queue carries its tile's
/// cheapest cost (the heuristic never overestimates).
proof fn lemma_target_cheapest(
    grid: WallGrid,
    start: (i32, i32),
    goal: (i32, i32),
    gs: Map<u64, u32>,
    cf: Map<u64, (i32, i32)>,
    open: Seq<Node>,
    bound: int,
    b: int,
)
    requires
        frontier_inv(grid, start, goal, gs, cf, open, bound, None),
        0 <= b < open.len(),
        open[b].g == gs[key_of(open[b].pos)],
        open[b].g + octile(open[b].pos, goal) <= u32::MAX,
        forall|i: int|
            0 <= i < open.len() ==> open[b].f < open[i].f || (open[b].f == open[i].f && open[b].g <= open[i].g),
    ensures
        forall|w: Seq<(i32, i32)>|
            #[trigger] is_walk(grid, w) && w[0] == start && w.last() == open[b].pos ==> gs[key_of(open[b].pos)]
                <= walk_cost(w),
{
    reveal(frontier_inv);
    let t = open[b].pos;
    assert(pending(gs, open, t));
    assert forall|w: Seq<(i32, i32)>| #[trigger] is_walk(grid, w) && w[0] == start && w.last() == t implies gs[key_of(
        t,
    )] <= walk_cost(w) by {
        let i = lemma_pending_on_walk(grid, start, goal, gs, cf, open, bound, w, 0);
        lemma_h_bound(grid, w, goal, i);
        let e = choose|e: int| 0 <= e < open.len() && #[trigger] open[e].pos == w[i] && open[e].g == gs[key_of(w[i])];
        assert(open[b].f == prio(open[b].g as int, open[b].pos, goal));
        assert(open[e].f == prio(open[e].g as int, open[e].pos, goal));
    }
}

/// Taking an outdated entry keeps the expanded tiles settled.
proof fn lemma_expanded_pop_stale(
    grid: WallGrid,
    start: (i32, i32),
    gs: Map<u64, u32>,
    before: Seq<Node>,
    after: Seq<Node>,
    b: int,
    xs: Set<int>,
)
    requires
        expanded_ok(grid, start, gs, before, xs),
        0 <= b < before.len(),
        after == before.update(b, before.last()).drop_last(),
    ensures
        expanded_ok(grid, start, gs, after, xs),
{
    reveal(expanded_ok);
    let n = before.len();
    // Each entry left is an entry from before, from a distinct slot.
    assert forall|i: int| 0 <= i < after.len() implies after[i] == before[if i == b { n - 1 } else { i }] by {}
    assert forall|p: (i32, i32)| #[trigger] xs.contains(tile_index(grid, p)) && grid.in_grid(p.0 as int, p.1 as int) implies in_g(
        grid,
        gs,
        p,
    ) && settled(grid, start, gs, after, p) by {
        assert(settled(grid, start, gs, before, p));
        assert forall|j: int| 0 <= j < after.len() && #[trigger] after[j].pos == p implies after[j].g > gs[key_of(p)] by {
            let jj = if j == b { n - 1 } else { j };
            assert(before[jj].pos == p);
        }
    }
    assert forall|i: int, j: int|
        #![trigger after[i], after[j]]
        0 <= i < after.len() && 0 <= j < after.len() && i != j && after[i].pos == after[j].pos implies after[i].g
            != after[j].g by {
        let ii = if i == b { n - 1 } else { i };
        let jj = if j == b { n - 1 } else { j };
        assert(before[ii] == after[i] && before[jj] == after[j]);
    }
}

/// Taking a current entry expands its tile: it joins the settled tiles.
#[verifier::rlimit(50)]
#[verifier::spinoff_prover]
proof fn lemma_expanded_pop_fresh(
    grid: WallGrid,
    start: (i32, i32),
    goal: (i32, i32),
    gs: Map<u64, u32>,
    cf: Map<u64, (i32, i32)>,
    before: Seq<Node>,
    after: Seq<Node>,
    bound: int,
    b: int,
    xs: Set<int>,
)
    requires
        frontier_inv(grid, start, goal, gs, cf, before, bound, None),
        expanded_ok(grid, start, gs, before, xs),
        0 <= b < before.len(),
        after == before.update(b, before.last()).drop_last(),
        before[b].g == gs[key_of(before[b].pos)],
        before[b].g + octile(before[b].pos, goal) <= u32::MAX,
        forall|i: int|
            0 <= i < before.len() ==> before[b].f < before[i].f || (before[b].f == before[i].f && before[b].g
                <= before[i].g),
    ensures
        !xs.contains(tile_index(grid, before[b].pos)),
        expanded_ok(grid, start, gs, after, xs.insert(tile_index(grid, before[b].pos))),
{
    reveal(expanded_ok);
    lemma_frontier_basics(grid, start, goal, gs, cf, before, bound, None);
    let cur = before[b].pos;
    let n = before.len();
    assert(in_g(grid, gs, cur));
    if xs.contains(tile_index(grid, cur)) {
        assert(settled(grid, start, gs, before, cur));
        assert(before[b].pos == cur);
    }
    lemma_target_cheapest(grid, start, goal, gs, cf, before, bound, b);
    lemma_row_major_index(cur.0 as int, cur.1 as int, grid.spec_width(), grid.spec_height());
    let xs2 = xs.insert(tile_index(grid, cur));
    let v = lemma_walk_to(grid, start, gs, cf, cur);
    assert(is_walk(grid, v) && v[0] == start && v.last() == cur);
    assert(reachable(grid, start, cur));
    assert(reachable_tiles(grid, start).contains(tile_index(grid, cur)));
    assert(xs2.subset_of(reachable_tiles(grid, start)));
    assert forall|i: int| 0 <= i < after.len() implies after[i] == before[if i == b { n - 1 } else { i }] by {}
    assert forall|p: (i32, i32)| #[trigger] xs2.contains(tile_index(grid, p)) && grid.in_grid(p.0 as int, p.1 as int) implies in_g(
        grid,
        gs,
        p,
    ) && settled(grid, start, gs, after, p) by {
        if p == cur {
            assert forall|j: int| 0 <= j < after.len() && #[trigger] after[j].pos == p implies after[j].g > gs[key_of(p)] by {
                let jj = if j == b { n - 1 } else { j };
                assert(before[jj] == after[j]);
                assert(jj != b);
                assert(before[jj].g >= gs[key_of(before[jj].pos)]);
            }
        } else {
            lemma_row_major_distinct(p.0 as int, p.1 as int, cur.0 as int, cur.1 as int, grid.spec_width());
            assert(xs.contains(tile_index(grid, p)));
            assert(settled(grid, start, gs, before, p));
            assert forall|j: int| 0 <= j < after.len() && #[trigger] after[j].pos == p implies after[j].g > gs[key_of(p)] by {
                let jj = if j == b { n - 1 } else { j };
                assert(before[jj].pos == p);
            }
        }
    }
    assert forall|i: int, j: int|
        #![trigger after[i], after[j]]
        0 <= i < after.len() && 0 <= j < after.len() && i != j && after[i].pos == after[j].pos implies after[i].g
            != after[j].g by {
        let ii = if i == b { n - 1 } else { i };
        let jj = if j == b { n - 1 } else { j };
        assert(before[ii] == after[i] && before[jj] == after[j]);
    }
}

/// Recording a cheaper cost for `nb` keeps the expanded tiles settled:
/// `nb` cannot be one of them.
#[verifier::rlimit(60)]
#[verifier::spinoff_prover]
proof fn lemma_expanded_relax(
    grid: WallGrid,
    start: (i32, i32),
    goal: (i32, i32),
    gs0: Map<u64, u32>,
    cf0: Map<u64, (i32, i32)>,
    open0: Seq<Node>,
    gs1: Map<u64, u32>,
    open1: Seq<Node>,
    bound: int,
    cur: (i32, i32),
    cur_g: int,
    k: int,
    nb: (i32, i32),
    t: u32,
    f: u32,
    xs: Set<int>,
)
    requires
        round_inv(grid, start, goal, gs0, cf0, open0, bound, cur, cur_g, k),
        expanded_ok(grid, start, gs0, open0, xs),
        grid.spec_width() <= 65535 && grid.spec_height() <= 65535,
        grid.in_grid(nb.0 as int, nb.1 as int),
        step_ok(grid, cur, nb),
        t == cur_g + step_cost(cur, nb),
        gs0.contains_key(key_of(nb)) ==> t < gs0[key_of(nb)],
        gs1 == gs0.insert(key_of(nb), t),
        open1 == open0.push(Node { pos: nb, f, g: t }),
    ensures
        expanded_ok(grid, start, gs1, open1, xs),
{
    reveal(expanded_ok);
    reveal(round_inv);
    reveal(frontier_inv);
    assert(nb != cur);
    if xs.contains(tile_index(grid, nb)) {
        assert(in_g(grid, gs0, nb) && settled(grid, start, gs0, open0, nb));
        let v = lemma_walk_to(grid, start, gs0, cf0, cur);
        let w = v.push(nb);
        assert(w.drop_last() =~= v);
        assert forall|i: int| 0 <= i < w.len() - 1 implies #[trigger] step_ok(grid, w[i], w[i + 1]) by {
            if i < v.len() - 1 {
                assert(w[i] == v[i] && w[i + 1] == v[i + 1]);
                assert(step_ok(grid, v[i], v[i + 1]));
            }
        }
        assert(is_walk(grid, w) && w[0] == start && w.last() == nb);
        assert(false);
    }
    assert forall|p: (i32, i32)| #[trigger] xs.contains(tile_index(grid, p)) && grid.in_grid(p.0 as int, p.1 as int) implies in_g(
        grid,
        gs1,
        p,
    ) && settled(grid, start, gs1, open1, p) by {
        assert(p != nb);
        assert(in_g(grid, gs0, p) && settled(grid, start, gs0, open0, p));
        if key_of(p) == key_of(nb) {
            lemma_key_injective(p, nb);
        }
        assert(gs1[key_of(p)] == gs0[key_of(p)]);
        assert forall|j: int| 0 <= j < open1.len() && #[trigger] open1[j].pos == p implies open1[j].g > gs1[key_of(p)] by {
            if j < open0.len() {
                assert(open1[j] == open0[j]);
            }
        }
    }
    assert forall|i: int, j: int|
        #![trigger open1[i], open1[j]]
        0 <= i < open1.len() && 0 <= j < open1.len() && i != j && open1[i].pos == open1[j].pos implies open1[i].g
            != open1[j].g by {
        let last = open0.len() as int;
        if i < last && j < last {
            assert(open1[i] == open0[i] && open1[j] == open0[j]);
        } else if i == last {
            assert(open1[j] == open0[j]);
            assert(in_g(grid, gs0, open0[j].pos));
        } else {
            assert(open1[i] == open0[i]);
            assert(in_g(grid, gs0, open0[i].pos));
        }
    }
}

/// The expanded set is finite and no larger than the set of tiles
/// reachable from the start.
proof fn lemma_expanded_size(grid: WallGrid, start: (i32, i32), gs: Map<u64, u32>, open: Seq<Node>, xs: Set<int>)
    requires
        expanded_ok(grid, start, gs, open, xs),
    ensures
        xs.finite(),
        reachable_tiles(grid, start).finite(),
        xs.len() <= reachable_tiles(grid, start).len(),
{
    reveal(expanded_ok);
    let n = grid.spec_width() * grid.spec_height();
    let rt = reachable_tiles(grid, start);
    assert(0 <= n) by (nonlinear_arith)
        requires
            0 <= grid.spec_width(),
            0 <= grid.spec_height(),
            n == grid.spec_width() * grid.spec_height(),
    ;
    assert forall|i: int| rt.contains(i) implies vstd::set_lib::set_int_range(0, n).contains(i) by {
        let p = choose|p: (i32, i32)|
            #[trigger] reachable(grid, start, p) && grid.in_grid(p.0 as int, p.1 as int) && tile_index(grid, p) == i;
        lemma_row_major_index(p.0 as int, p.1 as int, grid.spec_width(), grid.spec_height());
    }
    vstd::set_lib::lemma_int_range(0, n);
    vstd::set_lib::lemma_len_subset(rt, vstd::set_lib::set_int_range(0, n));
    vstd::set_lib::lemma_len_subset(xs, rt);
}

/// A walk to another tile ends on the grid.
proof fn lemma_reach_on_grid(grid: WallGrid, start: (i32, i32), goal: (i32, i32))
    requires
        reachable(grid, start, goal),
        start != goal,
    ensures
        grid.in_grid(goal.0 as int, goal.1 as int),
{
    let w = choose|w: Seq<(i32, i32)>| #[trigger] is_walk(grid, w) && w[0] == start && w.last() == goal;
    assert(w.len() >= 2);
    let i = w.len() - 2;
    assert(step_ok(grid, w[i], w[i + 1]));
}

/// Once the goal has a cost, no walk to it is cheaper.
spec fn goal_opt(grid: WallGrid, start: (i32, i32), gs: Map<u64, u32>, goal: (i32, i32)) -> bool {
    in_g(grid, gs, goal) ==> forall|w: Seq<(i32, i32)>|
        #[trigger] is_walk(grid, w) && w[0] == start && w.last() == goal ==> gs[key_of(goal)] <= walk_cost(w)
}

/// A walk costs nothing negative.
proof fn lemma_walk_cost_nonneg(p: Seq<(i32, i32)>)
    ensures
        walk_cost(p) >= 0,
    decreases p.len(),
{
    if p.len() > 1 {
        lemma_walk_cost_nonneg(p.drop_last());
    }
}

/// Between neighbours, the octile distance is the move's cost.
proof fn lemma_octile_adjacent(a: (i32, i32), b: (i32, i32))
    requires
        -1 <= b.0 - a.0 <= 1,
        -1 <= b.1 - a.1 <= 1,
        !(b.0 == a.0 && b.1 == a.1),
    ensures
        octile(a, b) == step_cost(a, b),
{
}

/// A current entry taken first from the queue, next to the goal, costs
/// with its last move no more than any walk to the goal.
proof fn lemma_adjacent_goal_cheap(
    grid: WallGrid,
    start: (i32, i32),
    goal: (i32, i32),
    gs: Map<u64, u32>,
    cf: Map<u64, (i32, i32)>,
    open: Seq<Node>,
    bound: int,
    b: int,
)
    requires
        frontier_inv(grid, start, goal, gs, cf, open, bound, None),
        0 <= b < open.len(),
        open[b].g == gs[key_of(open[b].pos)],
        open[b].g + 14 <= u32::MAX,
        step_ok(grid, open[b].pos, goal),
        forall|i: int|
            0 <= i < open.len() ==> open[b].f < open[i].f || (open[b].f == open[i].f && open[b].g <= open[i].g),
    ensures
        forall|w: Seq<(i32, i32)>|
            #[trigger] is_walk(grid, w) && w[0] == start && w.last() == goal ==> open[b].g + step_cost(
                open[b].pos,
                goal,
            ) <= walk_cost(w),
{
    reveal(frontier_inv);
    let c = open[b].pos;
    lemma_octile_adjacent(c, goal);
    assert(open[b].f == open[b].g + step_cost(c, goal));
    assert forall|w: Seq<(i32, i32)>| #[trigger] is_walk(grid, w) && w[0] == start && w.last() == goal implies open[b].g
        + step_cost(c, goal) <= walk_cost(w) by {
        let i = lemma_pending_on_walk(grid, start, goal, gs, cf, open, bound, w, 0);
        lemma_h_bound(grid, w, goal, i);
        let e = choose|e: int| 0 <= e < open.len() && #[trigger] open[e].pos == w[i] && open[e].g == gs[key_of(w[i])];
        assert(open[e].f == prio(open[e].g as int, open[e].pos, goal));
    }
}

/// Recording a cost for a tile keeps the goal's cost cheapest, when a
/// new goal cost is itself no more than any walk.
proof fn lemma_goal_opt_relax(
    grid: WallGrid,
    start: (i32, i32),
    goal: (i32, i32),
    gs0: Map<u64, u32>,
    gs1: Map<u64, u32>,
    nb: (i32, i32),
    t: u32,
)
    requires
        goal_opt(grid, start, gs0, goal),
        grid.spec_width() <= 65535 && grid.spec_height() <= 65535,
        grid.in_grid(nb.0 as int, nb.1 as int),
        gs1 == gs0.insert(key_of(nb), t),
        nb == goal ==> forall|w: Seq<(i32, i32)>|
            #[trigger] is_walk(grid, w) && w[0] == start && w.last() == goal ==> t <= walk_cost(w),
    ensures
        goal_opt(grid, start, gs1, goal),
{
    if in_g(grid, gs1, goal) && nb != goal {
        if key_of(goal) == key_of(nb) {
            lemma_key_injective(goal, nb);
        }
        assert(in_g(grid, gs0, goal));
    }
}

/// Compute an 8-connected A* path from `start` to `goal` (tile coords).
/// Returns the path including start and goal when the goal is found,
/// the path to the best tile seen so far when the expansion cap is hit
/// or the goal cannot be reached, `[start]` when start == goal, and
/// `None` only when `start` is a wall. Steps cost 10 straight and 14
/// diagonal; a path that ends at the goal is a cheapest one, whether or
/// not the cap was hit. A partial path ends at the tile seen closest to the goal (by
/// octile distance), never farther than `start`. When few enough tiles
/// are reachable from `start` for the expansion cap never to bind, a
/// reachable goal is always found, by a cheapest path, and an unreachable
/// one gets a path to a reachable tile closest to it.
#[verifier::rlimit(80)]
#[verifier::spinoff_prover]
pub fn astar(grid: &WallGrid, start: (i32, i32), goal: (i32, i32)) -> (r: Option<Vec<(i32, i32)>>)
    requires
        start != goal && !grid.wall_at(start.0 as int, start.1 as int) ==> goal_in_reach(
            *grid,
            goal,
        ),
    ensures
        start == goal ==> (r matches Some(p) && p@ == seq![start]),
        start != goal && grid.wall_at(start.0 as int, start.1 as int) ==> r is None,
        start != goal && !grid.wall_at(start.0 as int, start.1 as int) ==> r is Some,
        r matches Some(p) ==> is_walk(*grid, p@) && p@[0] == start,
        r matches Some(p) ==> octile(p@.last(), goal) <= octile(start, goal),
        r matches Some(p) ==> forall|i: int, q: (i32, i32)|
            0 <= i < p@.len() - 1 && #[trigger] step_ok(*grid, p@[i], q) ==> octile(p@.last(), goal) <= octile(
                q,
                goal,
            ),
        start != goal && !grid.wall_at(start.0 as int, start.1 as int) ==> (r matches Some(p) && forall|
            q: (i32, i32),
        | #[trigger] step_ok(*grid, start, q) ==> octile(p@.last(), goal) <= octile(q, goal)),
        r matches Some(p) ==> (p@.last() == goal ==> cheapest(*grid, p@, start, goal)),
        start != goal && !grid.wall_at(start.0 as int, start.1 as int) && reachable(*grid, start, goal) && 8
            * reachable_tiles(*grid, start).len() < ASTAR_MAX_EXPANSIONS ==> (r matches Some(p) && p@.last()
            == goal && cheapest(*grid, p@, start, goal)),
        start != goal && !grid.wall_at(start.0 as int, start.1 as int) && !reachable(*grid, start, goal)
            && grid.in_grid(goal.0 as int, goal.1 as int) && 8 * reachable_tiles(*grid, start).len()
            < ASTAR_MAX_EXPANSIONS ==> (r matches Some(p) && forall|q: (i32, i32)| #[trigger]
            reachable(*grid, start, q) ==> octile(p@.last(), goal) <= octile(q, goal)),
{
    if start.0 == goal.0 && start.1 == goal.1 {
        let mut v: Vec<(i32, i32)> = Vec::new();
        v.push(start);
        proof {
            assert forall|w: Seq<(i32, i32)>| #[trigger] is_walk(*grid, w) && w[0] == start && w.last() == goal implies walk_cost(
                v@,
            ) <= walk_cost(w) by {
                lemma_walk_cost_nonneg(w);
            }
        }
        return Some(v);
    }
    if grid.is_wall(start.0, start.1) {
        return None;
    }
    proof {
        use_type_invariant(grid);
    }
    let ghost g = *grid;
    let mut open: Vec<Node> = Vec::new();
    let mut came_from: HashMap<u64, (i32, i32)> = HashMap::new();
    let mut g_score: HashMap<u64, u32> = HashMap::new();
    let mut best_seen: (i32, i32) = start;
    assert(octile_fits((start.0, start.1), goal));
    let mut best_h: u32 = chebyshev(start, goal);
    g_score.insert(key(start), 0);
    open.push(Node { pos: start, f: best_h, g: 0 });
    let mut expansions: usize = 0;
    proof {
        reveal(frontier_inv);
        assert(pending(g_score@, open@, start)) by {
            assert(open@[0].pos == start);
        }
        assert forall|p: (i32, i32)| #[trigger] in_g(g, g_score@, p) implies p == start by {
            if p != start {
                lemma_key_injective(p, start);
            }
        }
        assert(entries_ok(open@, goal)) by {
            assert forall|i: int| 0 <= i < open@.len() implies #[trigger] open@[i].f == prio(
                open@[i].g as int,
                open@[i].pos,
                goal,
            ) by {
                assert(open@[i] == open@[0]);
            }
        }
        assert(frontier_inv(g, start, goal, g_score@, came_from@, open@, 0, None));
    }
    let ghost mut xs: Set<int> = Set::empty();
    proof {
        reveal(expanded_ok);
        assert(expanded_ok(g, start, g_score@, open@, xs));
    }
    loop
        invariant
            g == *grid,
            grid.spec_width() <= 65535 && grid.spec_height() <= 65535,
            !grid.wall_at(start.0 as int, start.1 as int),
            start != goal,
            goal_in_reach(g, goal),
            expansions <= ASTAR_MAX_EXPANSIONS,
            frontier_inv(g, start, goal, g_score@, came_from@, open@, 14 * expansions, None),
            in_g(g, g_score@, best_seen),
            best_h == octile(best_seen, goal),
            forall|q: (i32, i32)| #[trigger] in_g(g, g_score@, q) ==> best_h <= octile(q, goal),
            goal_opt(g, start, g_score@, goal),
            expansions == 0 ==> open@.len() == 1 && open@[0].pos == start && open@[0].g == 0,
            expansions > 0 ==> closed_at(g, g_score@, start),
            links_closed(g, start, g_score@, came_from@, None),
            small_search(g, start, goal) ==> expanded_ok(g, start, g_score@, open@, xs) && expansions + open@.len()
                <= 1 + 8 * xs.len(),
        decreases ASTAR_MAX_EXPANSIONS + 1 - expansions,
    {
        proof {
            lemma_frontier_basics(g, start, goal, g_score@, came_from@, open@, 14 * expansions, None);
        }
        if open.len() == 0 {
            proof {
                if reachable(g, start, goal) {
                    let w = choose|w: Seq<(i32, i32)>| #[trigger] is_walk(g, w) && w[0] == start && w.last() == goal;
                    let i = lemma_pending_on_walk(g, start, goal, g_score@, came_from@, open@, 14 * expansions, w, 0);
                    assert(pending(g_score@, open@, w[i]));
                }
                // With nothing queued, every tile a walk reaches is costed.
                assert forall|q: (i32, i32)| #[trigger] reachable(g, start, q) implies best_h <= octile(q, goal) by {
                    let w = choose|w: Seq<(i32, i32)>| #[trigger] is_walk(g, w) && w[0] == start && w.last() == q;
                    lemma_walk_prefix(g, start, goal, g_score@, came_from@, open@, 14 * expansions, w, w.len() - 1);
                    assert(w.take(w.len() as int) =~= w);
                }
            }
            let path = reconstruct(&came_from, best_seen, start, Ghost(g), Ghost(g_score@));
            assert(best_seen == goal ==> cheapest(g, path@, start, goal));
            proof {
                assert forall|i: int, q: (i32, i32)|
                    0 <= i < path@.len() - 1 && #[trigger] step_ok(g, path@[i], q) implies octile(
                        path@.last(),
                        goal,
                    ) <= octile(q, goal) by {
                    assert(in_g(g, g_score@, path@[i + 1]) && path@[i + 1] != start);
                    assert(closed_at(g, g_score@, path@[i]));
                }
            }
            return Some(path);
        }
        let b = best_index(&open);
        let ghost before = open@;
        let cur = open.swap_remove(b);
        assert(cur == before[b as int]);
        assert(in_g(g, g_score@, cur.pos));
        if cur.pos.0 == goal.0 && cur.pos.1 == goal.1 {
            proof {
                lemma_goal_cheapest(g, start, goal, g_score@, came_from@, before, 14 * expansions, b as int);
            }
            let path = reconstruct(&came_from, goal, start, Ghost(g), Ghost(g_score@));
            assert(cheapest(g, path@, start, goal));
            return Some(path);
        }
        proof {
            if small_search(g, start, goal) {
                lemma_expanded_size(g, start, g_score@, before, xs);
            }
        }
        expansions = expansions + 1;
        if expansions > ASTAR_MAX_EXPANSIONS {
            proof {
                if reachable(g, start, goal) {
                    lemma_reach_on_grid(g, start, goal);
                }
            }
            let path = reconstruct(&came_from, best_seen, start, Ghost(g), Ghost(g_score@));
            assert(best_seen == goal ==> cheapest(g, path@, start, goal));
            proof {
                assert forall|i: int, q: (i32, i32)|
                    0 <= i < path@.len() - 1 && #[trigger] step_ok(g, path@[i], q) implies octile(
                        path@.last(),
                        goal,
                    ) <= octile(q, goal) by {
                    assert(in_g(g, g_score@, path@[i + 1]) && path@[i + 1] != start);
                    assert(closed_at(g, g_score@, path@[i]));
                }
            }
            return Some(path);
        }
        let cur_g = cur.g;
        let cur_key = key(cur.pos);
        let known_cur = *g_score.get(&cur_key).unwrap();
        assert(known_cur == g_score@[key_of(cur.pos)]);
        if cur_g > known_cur {
            // Stale duplicate: a cheaper entry for this tile is still queued.
            proof {
                lemma_pop_stale(
                    g,
                    start,
                    goal,
                    g_score@,
                    came_from@,
                    before,
                    open@,
                    b as int,
                    14 * (expansions - 1),
                    14 * expansions,
                );
                if small_search(g, start, goal) {
                    lemma_expanded_pop_stale(g, start, g_score@, before, open@, b as int, xs);
                }
            }
            continue;
        }
        proof {
            lemma_pop_fresh(
                g,
                start,
                goal,
                g_score@,
                came_from@,
                before,
                open@,
                b as int,
                14 * (expansions - 1),
                14 * expansions,
            );
            if step_ok(g, cur.pos, goal) {
                lemma_adjacent_goal_cheap(
                    g,
                    start,
                    goal,
                    g_score@,
                    came_from@,
                    before,
                    14 * (expansions - 1),
                    b as int,
                );
            }
            if small_search(g, start, goal) {
                lemma_small_octile(g, goal, cur.pos);
                lemma_expanded_pop_fresh(
                    g,
                    start,
                    goal,
                    g_score@,
                    came_from@,
                    before,
                    open@,
                    14 * (expansions - 1),
                    b as int,
                    xs,
                );
            }
            xs = xs.insert(tile_index(g, cur.pos));
        }
        let mut k: usize = 0;
        while k < 8
            invariant
                g == *grid,
                grid.spec_width() <= 65535 && grid.spec_height() <= 65535,
                goal_in_reach(g, goal),
                1 <= expansions <= ASTAR_MAX_EXPANSIONS,
                k <= 8,
                cur_g <= 14 * (expansions - 1),
                round_inv(g, start, goal, g_score@, came_from@, open@, 14 * expansions, cur.pos, cur_g as int, k as int),
                in_g(g, g_score@, best_seen),
                best_h == octile(best_seen, goal),
                forall|q: (i32, i32)| #[trigger] in_g(g, g_score@, q) ==> best_h <= octile(q, goal),
                goal_opt(g, start, g_score@, goal),
                expansions == 1 ==> cur.pos == start,
                expansions > 1 ==> closed_at(g, g_score@, start),
                links_closed(g, start, g_score@, came_from@, Some(cur.pos)),
                step_ok(g, cur.pos, goal) ==> forall|w: Seq<(i32, i32)>|
                    #[trigger] is_walk(g, w) && w[0] == start && w.last() == goal ==> cur_g + step_cost(
                        cur.pos,
                        goal,
                    ) <= walk_cost(w),
                small_search(g, start, goal) ==> expanded_ok(g, start, g_score@, open@, xs) && xs.contains(
                    tile_index(g, cur.pos),
                ) && expansions + open@.len() <= 1 + 8 * (xs.len() - 1) + k,
            decreases 8 - k,
        {
            proof {
                reveal(round_inv);
                reveal(frontier_inv);
            }
            let (dx, dy) = neighbor(k);
            let nx = cur.pos.0 + dx;
            let ny = cur.pos.1 + dy;
            let neighbor_pos = (nx, ny);
            assert(dir_index(dx as int, dy as int) == k);
            if grid.is_wall(nx, ny) || (dx != 0 && dy != 0 && (grid.is_wall(cur.pos.0 + dx, cur.pos.1)
                || grid.is_wall(cur.pos.0, cur.pos.1 + dy))) {
                proof {
                    assert forall|m: (i32, i32)|
                        #[trigger] step_ok(g, cur.pos, m) && dir_index(m.0 - cur.pos.0, m.1 - cur.pos.1) == k implies in_g(
                            g,
                            g_score@,
                            m,
                        ) && g_score@[key_of(m)] <= cur_g + step_cost(cur.pos, m) by {
                        lemma_dir_unique(m.0 - cur.pos.0, m.1 - cur.pos.1, k as int);
                    }
                    lemma_round_skip(g, start, goal, g_score@, came_from@, open@, 14 * expansions, cur.pos, cur_g as int, k as int);
                }
                k = k + 1;
                continue;
            }
            assert(step_ok(g, cur.pos, neighbor_pos));
            let move_cost: u32 = if dx != 0 && dy != 0 {
                14
            } else {
                10
            };
            let tentative_g = cur_g.saturating_add(move_cost);
            assert(tentative_g == cur_g + move_cost);
            let nkey = key(neighbor_pos);
            let known_g = match g_score.get(&nkey) {
                Some(v) => *v,
                None => u32::MAX,
            };
            if tentative_g < known_g {
                let ghost gs0 = g_score@;
                let ghost cf0 = came_from@;
                let ghost open0 = open@;
                came_from.insert(nkey, cur.pos);
                g_score.insert(nkey, tentative_g);
                assert(octile_fits((nx, ny), goal));
                let h = chebyshev(neighbor_pos, goal);
                let f = tentative_g.saturating_add(h);
                if h < best_h {
                    best_h = h;
                    best_seen = neighbor_pos;
                }
                open.push(Node { pos: neighbor_pos, f, g: tentative_g });
                proof {
                    lemma_round_relax(
                        g,
                        start,
                        goal,
                        gs0,
                        cf0,
                        open0,
                        g_score@,
                        came_from@,
                        open@,
                        14 * expansions,
                        cur.pos,
                        cur_g as int,
                        k as int,
                        neighbor_pos,
                        tentative_g,
                        f,
                    );
                    lemma_goal_opt_relax(g, start, goal, gs0, g_score@, neighbor_pos, tentative_g);
                    lemma_links_closed_relax(g, start, gs0, cf0, g_score@, came_from@, cur.pos, neighbor_pos, tentative_g);
                    if small_search(g, start, goal) {
                        lemma_expanded_relax(
                            g,
                            start,
                            goal,
                            gs0,
                            cf0,
                            open0,
                            g_score@,
                            open@,
                            14 * expansions,
                            cur.pos,
                            cur_g as int,
                            k as int,
                            neighbor_pos,
                            tentative_g,
                            f,
                            xs,
                        );
                    }
                }
            } else {
                proof {
                    assert(g_score@.contains_key(nkey));
                    assert forall|m: (i32, i32)|
                        #[trigger] step_ok(g, cur.pos, m) && dir_index(m.0 - cur.pos.0, m.1 - cur.pos.1) == k implies in_g(
                            g,
                            g_score@,
                            m,
                        ) && g_score@[key_of(m)] <= cur_g + step_cost(cur.pos, m) by {
                        lemma_dir_unique(m.0 - cur.pos.0, m.1 - cur.pos.1, k as int);
                        lemma_dir_unique(dx as int, dy as int, k as int);
                    }
                    lemma_round_skip(g, start, goal, g_score@, came_from@, open@, 14 * expansions, cur.pos, cur_g as int, k as int);
                }
            }
            k = k + 1;
        }
        proof {
            lemma_round_done(g, start, goal, g_score@, came_from@, open@, 14 * expansions, cur.pos, cur_g as int);
            assert(links_closed(g, start, g_score@, came_from@, None));
        }
    }
}

} // verus!
