//! Hexagonal mazes: the hexagonal cells within a given distance of the
//! centre, in axial coordinates `(q, r)`, carved by depth-first search with
//! backtracking from the centre.
//!
//! The six neighbours of a cell lie in the directions `(1, 0)`, `(1, -1)`,
//! `(0, -1)`, `(-1, 0)`, `(-1, 1)` and `(0, 1)`, numbered 0 to 5. The walls
//! and the visited marks are kept in square grids of side `2 * radius + 1`:
//! cell `(q, r)` sits at place `(x, y) = (q + radius, r + radius)`, and the
//! proofs name cells by their place. `walls[k][y][x]` is the wall between the
//! cell at `(x, y)` and its neighbour in direction `k`, for `k` in `0..3`; the
//! other three directions are the walls of the neighbour.

use vstd::prelude::*;
use crate::graph::{
    Node, linked, steps_kept, marked, marks_plus, spanning_tree, lemma_linked_mono, lemma_tree_links,
    lemma_tree_extend, lemma_mark_one,
};
use crate::grid::{
    marks_shaped, grid_false_count, row_false_count, lemma_grid_count_set, grid_filled,
    lemma_grid_count_const, lemma_grid_count_clear,
};
use crate::rect_maze::filled_grid;
use crate::rng::rng_below;
use rand_chacha::ChaCha8Rng;

verus! {

/// `|x|`.
pub open spec fn abs(x: int) -> int {
    if x < 0 {
        -x
    } else {
        x
    }
}

/// The distance of cell `(q, r)` from the centre, in steps.
pub open spec fn hex_dist(a: Node) -> int {
    (abs(a.0) + abs(a.0 + a.1) + abs(a.1)) / 2
}

/// Direction `k` of the six.
pub open spec fn hex_dir(k: int) -> Node {
    if k == 0 {
        (1, 0)
    } else if k == 1 {
        (1, -1)
    } else if k == 2 {
        (0, -1)
    } else if k == 3 {
        (-1, 0)
    } else if k == 4 {
        (-1, 1)
    } else {
        (0, 1)
    }
}

/// The neighbour of `a` in direction `k`.
pub open spec fn hex_step(a: Node, k: int) -> Node {
    (a.0 + hex_dir(k).0, a.1 + hex_dir(k).1)
}

/// The maze holds the cells nearer to the centre than `radius`; the centre
/// always belongs to it.
pub open spec fn hex_in(radius: int, a: Node) -> bool {
    hex_dist(a) < radius || a == (0int, 0int)
}

/// The places of the cells of the maze.
pub open spec fn hex_cells(radius: int) -> spec_fn(Node) -> bool {
    |c: Node| hex_in(radius, (c.0 - radius, c.1 - radius))
}

/// `a` and `b` are neighbours.
pub open spec fn hex_adjacent(a: Node, b: Node) -> bool {
    exists|k: int| 0 <= k < 6 && b == #[trigger] hex_step(a, k)
}

/// The wall between `a` and `b` is open (they being neighbours).
pub open spec fn hex_open_between(walls: Seq<Vec<Vec<bool>>>, a: Node, b: Node) -> bool {
    ||| exists|k: int| 0 <= k < 3 && b == #[trigger] hex_step(a, k) && !walls[k]@[a.1]@[a.0]
    ||| exists|k: int| 0 <= k < 3 && a == #[trigger] hex_step(b, k) && !walls[k]@[b.1]@[b.0]
}

/// The steps through open walls.
pub open spec fn hex_steps(walls: Seq<Vec<Vec<bool>>>) -> spec_fn(Node, Node) -> bool {
    |a: Node, b: Node| hex_open_between(walls, a, b)
}

/// The walls have the shape of three `side` by `side` grids.
pub open spec fn hex_walls_shaped(walls: Seq<Vec<Vec<bool>>>, side: int) -> bool {
    &&& walls.len() == 3
    &&& forall|k: int| 0 <= k < 3 ==> (#[trigger] walls[k])@.len() == side
    &&& forall|k: int, y: int| 0 <= k < 3 && 0 <= y < side ==> (#[trigger] walls[k]@[y])@.len() == side
}

/// Every wall open in `walls` is open in `walls2`, which has the same shape.
pub open spec fn hex_walls_kept(walls: Seq<Vec<Vec<bool>>>, walls2: Seq<Vec<Vec<bool>>>, side: int) -> bool {
    &&& hex_walls_shaped(walls2, side)
    &&& forall|k: int, y: int, x: int|
        0 <= k < 3 && 0 <= y < side && 0 <= x < side && !walls[k]@[y]@[x] ==> !(
        #[trigger] walls2[k]@[y]@[x])
}

/// Number of open walls in the three wall grids.
pub open spec fn hex_open_count(walls: Seq<Vec<Vec<bool>>>) -> nat {
    grid_false_count(walls[0]@) + grid_false_count(walls[1]@) + grid_false_count(walls[2]@)
}

/// The entry `(k, y, x)` of the wall grids that holds the wall between the
/// cell at place `c` and its neighbour in direction `k`.
pub open spec fn hex_wall_entry(c: Node, k: int) -> (int, int, int) {
    if k < 3 {
        (k, c.1, c.0)
    } else {
        (k - 3, hex_step(c, k).1, hex_step(c, k).0)
    }
}

/// Every open wall lies between two cells of the maze, both marked.
pub open spec fn hex_opens_marked(
    walls: Seq<Vec<Vec<bool>>>,
    marks: Seq<Vec<bool>>,
    radius: int,
) -> bool {
    forall|k: int, y: int, x: int|
        0 <= k < 3 && 0 <= y <= 2 * radius && 0 <= x <= 2 * radius && !(#[trigger] walls[k]@[y]@[x])
            ==> {
            &&& hex_cells(radius)((x, y))
            &&& hex_cells(radius)(hex_step((x, y), k))
            &&& marked(marks, (x, y))
            &&& marked(marks, hex_step((x, y), k))
        }
}

/// Number of cells among the first `n` places of row `y`.
pub open spec fn row_cell_count(radius: int, y: int, n: int) -> nat
    decreases n,
{
    if n <= 0 {
        0
    } else {
        row_cell_count(radius, y, n - 1) + if hex_cells(radius)((n - 1, y)) {
            1nat
        } else {
            0nat
        }
    }
}

/// Number of cells in the first `rows` rows of places.
pub open spec fn hex_cell_count(radius: int, rows: int) -> nat
    decreases rows,
{
    if rows <= 0 {
        0
    } else {
        hex_cell_count(radius, rows - 1) + row_cell_count(radius, rows - 1, 2 * radius + 1)
    }
}

/// Radii the carving handles: the coordinates stay far from the limits of
/// `i32`.
pub open spec fn hex_size_ok(radius: int) -> bool {
    0 <= radius <= 0x0800_0000
}

/// The walls of a hexagonal maze.
pub struct HexMaze {
    pub radius: usize,
    pub walls: Vec<Vec<Vec<bool>>>,
}

impl HexMaze {
    /// The side of the wall grids.
    pub open spec fn side(&self) -> int {
        2 * self.radius + 1
    }

    /// The wall grids have the maze's shape.
    pub open spec fn shaped(&self) -> bool {
        hex_walls_shaped(self.walls@, self.side())
    }

    /// Number of cells of the maze.
    pub open spec fn cell_count(&self) -> nat {
        hex_cell_count(self.radius as int, self.side())
    }

    /// Number of open walls.
    pub open spec fn open_walls(&self) -> nat {
        hex_open_count(self.walls@)
    }

    /// Every open wall lies between two cells of the maze: the outline and
    /// the walls of places outside the maze stay closed.
    pub open spec fn outline_closed(&self) -> bool {
        let rad = self.radius as int;
        forall|k: int, y: int, x: int|
            0 <= k < 3 && 0 <= y < self.side() && 0 <= x < self.side() && !(
            #[trigger] self.walls@[k]@[y]@[x]) ==> hex_cells(rad)((x, y)) && hex_cells(rad)(
                hex_step((x, y), k),
            )
    }

    /// Every cell can be reached from the centre.
    pub open spec fn all_reachable(&self) -> bool {
        let rad = self.radius as int;
        forall|c: Node|
            #![trigger hex_cells(rad)(c)]
            hex_cells(rad)(c) ==> linked(hex_steps(self.walls@), hex_cells(rad), (rad, rad), c)
    }
}

/// A cell is no farther from the centre along either axis than its distance.
proof fn lemma_hex_dist_bounds(a: Node)
    ensures
        abs(a.0) <= hex_dist(a),
        abs(a.1) <= hex_dist(a),
        hex_dist(a) >= 0,
        hex_dist(a) == 0 ==> a == (0int, 0int),
{
}

/// The places of the cells, and of their neighbours, lie in the grids.
proof fn lemma_hex_places(radius: int, c: Node, k: int)
    requires
        radius >= 0,
        hex_cells(radius)(c),
        0 <= k < 6,
    ensures
        0 <= c.0 <= 2 * radius,
        0 <= c.1 <= 2 * radius,
        radius >= 1 ==> 0 <= hex_step(c, k).0 <= 2 * radius && 0 <= hex_step(c, k).1 <= 2 * radius,
{
    lemma_hex_dist_bounds((c.0 - radius, c.1 - radius));
}

/// Every cell other than the centre has a neighbour one step nearer.
proof fn lemma_hex_nearer(a: Node) -> (k: int)
    requires
        a != (0int, 0int),
    ensures
        0 <= k < 6,
        hex_dist(hex_step(a, k)) == hex_dist(a) - 1,
{
    let (q, r) = a;
    if q > 0 && r >= 0 {
        3
    } else if q <= 0 && r > 0 && q + r > 0 {
        2
    } else if q < 0 && r > 0 {
        1
    } else if q < 0 && r <= 0 {
        0
    } else if q + r < 0 {
        5
    } else {
        4
    }
}

/// When the marks are closed under neighbours and the centre is marked,
/// every cell is marked.
proof fn lemma_hex_marks_fill(marks: spec_fn(Node) -> bool, radius: int, c: Node)
    requires
        radius >= 0,
        marks((radius, radius)),
        forall|a: Node, b: Node|
            hex_cells(radius)(a) && hex_cells(radius)(b) && hex_adjacent(a, b) && #[trigger] marks(a)
                ==> #[trigger] marks(b),
        hex_cells(radius)(c),
    ensures
        marks(c),
    decreases hex_dist((c.0 - radius, c.1 - radius)),
{
    let a = (c.0 - radius, c.1 - radius);
    if a != (0int, 0int) {
        let k = lemma_hex_nearer(a);
        let j = (k + 3) % 6;
        let p = hex_step(c, k);
        lemma_hex_dist_bounds(a);
        assert(hex_step(a, k) == (p.0 - radius, p.1 - radius));
        assert(hex_cells(radius)(p));
        lemma_hex_marks_fill(marks, radius, p);
        assert(hex_step(p, j) == c);
        assert(hex_adjacent(p, c));
    }
}

/// Opening walls keeps the steps already open.
proof fn lemma_hex_steps_kept(walls: Seq<Vec<Vec<bool>>>, walls2: Seq<Vec<Vec<bool>>>, radius: int)
    requires
        radius >= 0,
        hex_walls_shaped(walls, 2 * radius + 1),
        hex_walls_kept(walls, walls2, 2 * radius + 1),
    ensures
        steps_kept(hex_steps(walls), hex_steps(walls2), hex_cells(radius)),
{
    let steps = hex_steps(walls);
    let steps2 = hex_steps(walls2);
    let cells = hex_cells(radius);
    assert forall|a: Node, b: Node| cells(a) && cells(b) && #[trigger] steps(a, b) implies steps2(a, b) by {
        assert(hex_open_between(walls, a, b));
        lemma_hex_places(radius, a, 0);
        lemma_hex_places(radius, b, 0);
        if exists|k: int| 0 <= k < 3 && b == #[trigger] hex_step(a, k) && !walls[k]@[a.1]@[a.0] {
            let k = choose|k: int| 0 <= k < 3 && b == #[trigger] hex_step(a, k) && !walls[k]@[a.1]@[a.0];
            assert(!walls2[k]@[a.1]@[a.0]);
        } else {
            let k = choose|k: int| 0 <= k < 3 && a == #[trigger] hex_step(b, k) && !walls[k]@[b.1]@[b.0];
            assert(!walls2[k]@[b.1]@[b.0]);
        }
    }
}

/// The direction `k` of the six, in axial coordinates.
fn hex_dir_exec(k: usize) -> (d: (i32, i32))
    requires
        k < 6,
    ensures
        d.0 as int == hex_dir(k as int).0,
        d.1 as int == hex_dir(k as int).1,
{
    if k == 0 {
        (1, 0)
    } else if k == 1 {
        (1, -1)
    } else if k == 2 {
        (0, -1)
    } else if k == 3 {
        (-1, 0)
    } else if k == 4 {
        (-1, 1)
    } else {
        (0, 1)
    }
}

/// `|x|`.
fn abs_i32(x: i32) -> (a: i32)
    requires
        x > i32::MIN,
    ensures
        a as int == abs(x as int),
{
    if x < 0 {
        -x
    } else {
        x
    }
}

/// The unvisited neighbours of cell `(q, r)` nearer to the centre than
/// `radius`, looked at in the order of the six directions, each with its
/// direction.
fn hex_unvisited_neighbors(visited: &Vec<Vec<bool>>, radius: usize, q: i32, r: i32) -> (ns: Vec<
    (i32, i32, usize),
>)
    requires
        hex_size_ok(radius as int),
        marks_shaped(visited@, 2 * radius + 1, 2 * radius + 1),
        hex_cells(radius as int)((q + radius, r + radius)),
    ensures
        forall|i: int|
            #![trigger ns@[i]]
            0 <= i < ns@.len() ==> {
                let n = (ns@[i].0 + radius, ns@[i].1 + radius);
                &&& ns@[i].2 < 6
                &&& n == hex_step((q + radius, r + radius), ns@[i].2 as int)
                &&& hex_cells(radius as int)(n)
                &&& !marked(visited@, n)
            },
        forall|k: int|
            0 <= k < 6 && #[trigger] hex_cells(radius as int)(hex_step((q + radius, r + radius), k))
                && !marked(visited@, hex_step((q + radius, r + radius), k)) ==> exists|i: int|
                0 <= i < ns@.len() && #[trigger] ns@[i].2 == k,
{
    let ghost rad = radius as int;
    let ghost c: Node = (q + rad, r + rad);
    proof {
        lemma_hex_places(rad, c, 0);
    }
    let rad32 = radius as i32;
    let mut ns: Vec<(i32, i32, usize)> = Vec::new();
    let mut k: usize = 0;
    while k < 6
        invariant
            hex_size_ok(rad),
            rad == radius,
            rad32 as int == rad,
            c == (q + rad, r + rad),
            0 <= c.0 <= 2 * rad,
            0 <= c.1 <= 2 * rad,
            marks_shaped(visited@, 2 * rad + 1, 2 * rad + 1),
            hex_cells(rad)(c),
            k <= 6,
            forall|i: int|
                #![trigger ns@[i]]
                0 <= i < ns@.len() ==> {
                    let n = (ns@[i].0 + rad, ns@[i].1 + rad);
                    &&& ns@[i].2 < k
                    &&& n == hex_step(c, ns@[i].2 as int)
                    &&& hex_cells(rad)(n)
                    &&& !marked(visited@, n)
                },
            forall|j: int|
                0 <= j < k && #[trigger] hex_cells(rad)(hex_step(c, j)) && !marked(visited@, hex_step(c, j))
                    ==> exists|i: int| 0 <= i < ns@.len() && #[trigger] ns@[i].2 == j,
        decreases 6 - k,
    {
        let (dq, dr) = hex_dir_exec(k);
        let nq: i32 = q + dq;
        let nr: i32 = r + dr;
        let dist = (abs_i32(nq) + abs_i32(nq + nr) + abs_i32(nr)) / 2;
        let ghost n: Node = (nq + rad, nr + rad);
        assert(n == hex_step(c, k as int));
        let ghost before = ns@;
        if dist < rad32 {
            proof {
                assert(hex_dist((nq as int, nr as int)) == dist);
                assert(hex_cells(rad)(n));
                lemma_hex_dist_bounds((nq as int, nr as int));
            }
            let x = (nq + rad32) as usize;
            let y = (nr + rad32) as usize;
            if !visited[y][x] {
                ns.push((nq, nr, k));
                proof {
                    assert(ns@[before.len() as int].2 == k);
                }
            }
        } else {
            proof {
                assert(hex_dist((nq as int, nr as int)) == dist);
                if rad >= 1 {
                    assert(!hex_cells(rad)(n));
                } else {
                    lemma_hex_dist_bounds((q as int, r as int));
                    assert(!hex_cells(rad)(n));
                }
            }
        }
        proof {
            assert forall|j: int|
                0 <= j < k + 1 && #[trigger] hex_cells(rad)(hex_step(c, j)) && !marked(visited@, hex_step(c, j))
                    implies exists|i: int| 0 <= i < ns@.len() && #[trigger] ns@[i].2 == j by {
                if j < k {
                    let i = choose|i: int| 0 <= i < before.len() && #[trigger] before[i].2 == j;
                    assert(ns@[i] == before[i]);
                } else {
                    assert(ns@[before.len() as int].2 == k);
                }
            }
        }
        k = k + 1;
    }
    ns
}

/// When only wall grid `j` changed, the open count changes by its change.
proof fn lemma_hex_count_one(walls: Seq<Vec<Vec<bool>>>, walls2: Seq<Vec<Vec<bool>>>, j: int)
    requires
        0 <= j < 3,
        walls.len() == 3,
        walls2.len() == 3,
        forall|i: int| 0 <= i < 3 && i != j ==> walls2[i] == walls[i],
    ensures
        hex_open_count(walls2) == hex_open_count(walls) + grid_false_count(walls2[j]@)
            - grid_false_count(walls[j]@),
{
}

/// Opens the wall between cell `(q, r)` and its neighbour in direction `k`.
fn open_hex_wall(walls: &mut Vec<Vec<Vec<bool>>>, radius: usize, q: i32, r: i32, k: usize)
    requires
        hex_size_ok(radius as int),
        hex_walls_shaped(old(walls)@, 2 * radius + 1),
        k < 6,
        hex_cells(radius as int)((q + radius, r + radius)),
        hex_cells(radius as int)(hex_step((q + radius, r + radius), k as int)),
    ensures
        hex_walls_kept(old(walls)@, final(walls)@, 2 * radius + 1),
        hex_open_between(
            final(walls)@,
            (q + radius, r + radius),
            hex_step((q + radius, r + radius), k as int),
        ),
        ({
            let e = hex_wall_entry((q + radius, r + radius), k as int);
            &&& hex_open_count(final(walls)@) == hex_open_count(old(walls)@)
                + if old(walls)@[e.0]@[e.1]@[e.2] {
                1nat
            } else {
                0nat
            }
            &&& forall|j: int, y: int, x: int|
                0 <= j < 3 && 0 <= y <= 2 * radius && 0 <= x <= 2 * radius
                    ==> #[trigger] final(walls)@[j]@[y]@[x] == (old(walls)@[j]@[y]@[x] && !(j
                    == e.0 && y == e.1 && x == e.2))
        }),
{
    let ghost w0 = walls@;
    let ghost rad = radius as int;
    let ghost c: Node = (q + rad, r + rad);
    let ghost n = hex_step(c, k as int);
    proof {
        lemma_hex_places(rad, c, k as int);
        lemma_hex_places(rad, n, 0);
    }
    let rad32 = radius as i32;
    let x = (q + rad32) as usize;
    let y = (r + rad32) as usize;
    if k < 3 {
        walls[k][y][x] = false;
        proof {
            assert(hex_step(c, k as int) == n && !walls@[k as int]@[c.1]@[c.0]);
            lemma_grid_count_clear(w0[k as int]@, walls@[k as int]@, y as int, x as int);
            lemma_hex_count_one(w0, walls@, k as int);
        }
    } else {
        let (dq, dr) = hex_dir_exec(k);
        let nx = (q + dq + rad32) as usize;
        let ny = (r + dr + rad32) as usize;
        walls[k - 3][ny][nx] = false;
        proof {
            assert(hex_step(n, k - 3) == c);
            assert(!walls@[k - 3]@[n.1]@[n.0]);
            lemma_grid_count_clear(w0[k - 3]@, walls@[k - 3]@, ny as int, nx as int);
            lemma_hex_count_one(w0, walls@, k - 3);
        }
    }
}

/// Marks place `(x, y)` of `g` as visited.
fn mark_place(g: &mut Vec<Vec<bool>>, x: usize, y: usize)
    requires
        y < old(g)@.len(),
        x < old(g)@[y as int]@.len(),
    ensures
        final(g)@.len() == old(g)@.len(),
        final(g)@[y as int]@ == old(g)@[y as int]@.update(x as int, true),
        forall|k: int| 0 <= k < old(g)@.len() && k != y ==> final(g)@[k] == old(g)@[k],
{
    g[y][x] = true;
}

/// Every marked cell is on the stack or has all its neighbours marked.
pub open spec fn hex_marks_closed(visited: Seq<Vec<bool>>, stack: Seq<(i32, i32)>, radius: int) -> bool {
    forall|c: Node|
        #![trigger marked(visited, c)]
        hex_cells(radius)(c) && marked(visited, c) ==> (stack.contains(
            ((c.0 - radius) as i32, (c.1 - radius) as i32),
        ) || forall|k: int|
            0 <= k < 6 && #[trigger] hex_cells(radius)(hex_step(c, k)) ==> marked(visited, hex_step(c, k)))
}

/// Popping a cell whose neighbours are all marked keeps the marks closed.
proof fn lemma_hex_pop(visited: Seq<Vec<bool>>, stack: Seq<(i32, i32)>, radius: int)
    requires
        hex_size_ok(radius),
        stack.len() > 0,
        hex_marks_closed(visited, stack, radius),
        forall|k: int|
            0 <= k < 6 && #[trigger] hex_cells(radius)(
                hex_step((stack.last().0 + radius, stack.last().1 + radius), k),
            ) ==> marked(visited, hex_step((stack.last().0 + radius, stack.last().1 + radius), k)),
    ensures
        hex_marks_closed(visited, stack.drop_last(), radius),
{
    let c = (stack.last().0 + radius, stack.last().1 + radius);
    let s2 = stack.drop_last();
    assert forall|d: Node|
        #![trigger marked(visited, d)]
        hex_cells(radius)(d) && marked(visited, d) implies (s2.contains(
        ((d.0 - radius) as i32, (d.1 - radius) as i32),
    ) || forall|k: int|
        0 <= k < 6 && #[trigger] hex_cells(radius)(hex_step(d, k)) ==> marked(visited, hex_step(d, k))) by {
        lemma_hex_places(radius, d, 0);
        if d != c && stack.contains(((d.0 - radius) as i32, (d.1 - radius) as i32)) {
            let j = choose|j: int| 0 <= j < stack.len() && stack[j] == (
                (d.0 - radius) as i32,
                (d.1 - radius) as i32,
            );
            if j == stack.len() - 1 {
                assert(d == c);
            } else {
                assert(s2[j] == stack[j]);
            }
        }
    }
}

/// Pushing a newly marked cell keeps the marks closed.
proof fn lemma_hex_push(
    visited: Seq<Vec<bool>>,
    visited2: Seq<Vec<bool>>,
    stack: Seq<(i32, i32)>,
    radius: int,
    p: (i32, i32),
)
    requires
        hex_size_ok(radius),
        hex_marks_closed(visited, stack, radius),
        marks_plus(visited, visited2, hex_cells(radius), (p.0 + radius, p.1 + radius)),
    ensures
        hex_marks_closed(visited2, stack.push(p), radius),
{
    let nn = (p.0 + radius, p.1 + radius);
    let s2 = stack.push(p);
    assert forall|d: Node|
        #![trigger marked(visited2, d)]
        hex_cells(radius)(d) && marked(visited2, d) implies (s2.contains(
        ((d.0 - radius) as i32, (d.1 - radius) as i32),
    ) || forall|m: int|
        0 <= m < 6 && #[trigger] hex_cells(radius)(hex_step(d, m)) ==> marked(visited2, hex_step(d, m))) by {
        lemma_hex_places(radius, d, 0);
        if d == nn {
            assert(s2[s2.len() - 1] == p);
        } else {
            assert(marked(visited, d));
            if stack.contains(((d.0 - radius) as i32, (d.1 - radius) as i32)) {
                let i = choose|i: int| 0 <= i < stack.len() && stack[i] == (
                    (d.0 - radius) as i32,
                    (d.1 - radius) as i32,
                );
                assert(s2[i] == stack[i]);
            } else {
                assert forall|m: int| 0 <= m < 6 && #[trigger] hex_cells(radius)(hex_step(d, m)) implies marked(
                    visited2,
                    hex_step(d, m),
                ) by {
                    assert(marked(visited, hex_step(d, m)));
                }
            }
        }
    }
}

/// Marking a cell keeps the stacked cells valid and marked.
proof fn lemma_hex_stack_ok(
    visited: Seq<Vec<bool>>,
    visited2: Seq<Vec<bool>>,
    stack: Seq<(i32, i32)>,
    radius: int,
    p: (i32, i32),
)
    requires
        forall|i: int|
            #![trigger stack[i]]
            0 <= i < stack.len() ==> hex_cells(radius)((stack[i].0 + radius, stack[i].1 + radius))
                && marked(visited, (stack[i].0 + radius, stack[i].1 + radius)),
        marks_plus(visited, visited2, hex_cells(radius), (p.0 + radius, p.1 + radius)),
        hex_cells(radius)((p.0 + radius, p.1 + radius)),
    ensures
        forall|i: int|
            #![trigger stack.push(p)[i]]
            0 <= i < stack.push(p).len() ==> hex_cells(radius)(
                (stack.push(p)[i].0 + radius, stack.push(p)[i].1 + radius),
            ) && marked(visited2, (stack.push(p)[i].0 + radius, stack.push(p)[i].1 + radius)),
{
    let s2 = stack.push(p);
    assert forall|i: int| #![trigger s2[i]] 0 <= i < s2.len() implies hex_cells(radius)(
        (s2[i].0 + radius, s2[i].1 + radius),
    ) && marked(visited2, (s2[i].0 + radius, s2[i].1 + radius)) by {
        if i < stack.len() {
            assert(s2[i] == stack[i]);
        }
    }
}

/// Only cells of the maze are marked.
pub open spec fn hex_marks_cells(marks: Seq<Vec<bool>>, radius: int) -> bool {
    forall|y: int, x: int|
        0 <= y <= 2 * radius && 0 <= x <= 2 * radius && #[trigger] marks[y]@[x] ==> hex_cells(radius)(
            (x, y),
        )
}

/// The wall between a marked cell `c` and an unmarked neighbour is closed.
proof fn lemma_hex_wall_was_closed(
    walls: Seq<Vec<Vec<bool>>>,
    marks: Seq<Vec<bool>>,
    radius: int,
    c: Node,
    k: int,
)
    requires
        hex_size_ok(radius),
        hex_walls_shaped(walls, 2 * radius + 1),
        hex_opens_marked(walls, marks, radius),
        hex_cells(radius)(c),
        0 <= k < 6,
        hex_cells(radius)(hex_step(c, k)),
        !marked(marks, hex_step(c, k)),
    ensures
        ({
            let e = hex_wall_entry(c, k);
            walls[e.0]@[e.1]@[e.2]
        }),
{
    let n = hex_step(c, k);
    lemma_hex_places(radius, c, k);
    lemma_hex_places(radius, n, 0);
    if k >= 3 {
        assert(hex_step(n, k - 3) == c);
    }
}

/// Opening the wall between a marked cell `c` and its neighbour `n` in
/// direction `k`, and marking `n`, keeps every open wall between marked
/// cells.
proof fn lemma_hex_opens_grow(
    walls: Seq<Vec<Vec<bool>>>,
    walls2: Seq<Vec<Vec<bool>>>,
    marks: Seq<Vec<bool>>,
    marks2: Seq<Vec<bool>>,
    radius: int,
    c: Node,
    k: int,
)
    requires
        hex_size_ok(radius),
        hex_opens_marked(walls, marks, radius),
        hex_cells(radius)(c),
        0 <= k < 6,
        hex_cells(radius)(hex_step(c, k)),
        marked(marks, c),
        marks_plus(marks, marks2, hex_cells(radius), hex_step(c, k)),
        forall|j: int, y: int, x: int|
            0 <= j < 3 && 0 <= y <= 2 * radius && 0 <= x <= 2 * radius ==> #[trigger] walls2[j]@[y]@[x]
                == (walls[j]@[y]@[x] && !(j == hex_wall_entry(c, k).0 && y == hex_wall_entry(c, k).1
                && x == hex_wall_entry(c, k).2)),
    ensures
        hex_opens_marked(walls2, marks2, radius),
{
    let cells = hex_cells(radius);
    let n = hex_step(c, k);
    lemma_hex_places(radius, c, k);
    lemma_hex_places(radius, n, 0);
    assert(marked(marks2, c) && marked(marks2, n));
    if k >= 3 {
        assert(hex_step(n, k - 3) == c);
    }
    assert forall|j: int, y: int, x: int|
        0 <= j < 3 && 0 <= y <= 2 * radius && 0 <= x <= 2 * radius && !(#[trigger] walls2[j]@[y]@[x])
            implies {
        &&& hex_cells(radius)((x, y))
        &&& hex_cells(radius)(hex_step((x, y), j))
        &&& marked(marks2, (x, y))
        &&& marked(marks2, hex_step((x, y), j))
    } by {
        if !walls[j]@[y]@[x] {
            assert(cells((x, y)) && cells(hex_step((x, y), j)));
            assert(marked(marks, (x, y)) && marked(marks, hex_step((x, y), j)));
        }
    }
}

proof fn lemma_row_cells_count(row: Seq<bool>, radius: int, y: int)
    requires
        forall|x: int| 0 <= x < row.len() ==> #[trigger] row[x] == hex_cells(radius)((x, y)),
    ensures
        row_false_count(row) + row_cell_count(radius, y, row.len() as int) == row.len(),
    decreases row.len(),
{
    if row.len() > 0 {
        lemma_row_cells_count(row.drop_last(), radius, y);
    }
}

/// When exactly the cells are marked, the unmarked places and the cells
/// together fill the grid of places.
proof fn lemma_marks_cells_count(marks: Seq<Vec<bool>>, radius: int, rows: int)
    requires
        radius >= 0,
        0 <= rows <= marks.len(),
        forall|y: int| 0 <= y < rows ==> (#[trigger] marks[y])@.len() == 2 * radius + 1,
        forall|y: int, x: int|
            0 <= y < rows && 0 <= x <= 2 * radius ==> #[trigger] marks[y]@[x] == hex_cells(radius)(
                (x, y),
            ),
    ensures
        grid_false_count(marks.subrange(0, rows)) + hex_cell_count(radius, rows) == rows * (2 * radius
            + 1),
    decreases rows,
{
    if rows > 0 {
        let g = marks.subrange(0, rows);
        assert(g.drop_last() =~= marks.subrange(0, rows - 1));
        lemma_marks_cells_count(marks, radius, rows - 1);
        assert(g.last() == marks[rows - 1]);
        lemma_row_cells_count(marks[rows - 1]@, radius, rows - 1);
        assert((rows - 1) * (2 * radius + 1) + (2 * radius + 1) == rows * (2 * radius + 1))
            by (nonlinear_arith);
    } else {
        assert(rows * (2 * radius + 1) == 0) by (nonlinear_arith)
            requires
                rows == 0,
        ;
    }
}

/// The cells of a row that form the places `lo..hi` are counted as such.
proof fn lemma_row_interval(radius: int, y: int, n: int, lo: int, hi: int)
    requires
        0 <= lo <= hi,
        forall|x: int| 0 <= x < n ==> (#[trigger] hex_cells(radius)((x, y)) <==> lo <= x < hi),
    ensures
        row_cell_count(radius, y, n) == if n <= lo {
            0
        } else if n <= hi {
            n - lo
        } else {
            hi - lo
        },
    decreases n,
{
    if n > 0 {
        lemma_row_interval(radius, y, n - 1, lo, hi);
        assert(hex_cells(radius)((n - 1, y)) <==> lo <= n - 1 < hi);
    }
}

/// Row `y` of places holds `2 * radius - 1 - |y - radius|` cells, none in
/// the first and last rows.
proof fn lemma_hex_row(radius: int, y: int)
    requires
        radius >= 1,
        0 <= y <= 2 * radius,
    ensures
        row_cell_count(radius, y, 2 * radius + 1) == if y == 0 || y == 2 * radius {
            0
        } else {
            2 * radius - 1 - abs(y - radius)
        },
{
    let r = y - radius;
    let (lo, hi) = if y == 0 || y == 2 * radius {
        (1int, 1int)
    } else if r >= 0 {
        (1int, 2 * radius - r)
    } else {
        (1 - r, 2 * radius)
    };
    assert forall|x: int| 0 <= x < 2 * radius + 1 implies (#[trigger] hex_cells(radius)((x, y)) <==> lo
        <= x < hi) by {
        let q = x - radius;
        assert(hex_cells(radius)((x, y)) == hex_in(radius, (q, r)));
    }
    lemma_row_interval(radius, y, 2 * radius + 1, lo, hi);
}

/// The rows up to the middle one: twice the count of the first `m` rows.
proof fn lemma_hex_sum_low(radius: int, m: int)
    requires
        radius >= 1,
        1 <= m <= radius + 1,
    ensures
        2 * hex_cell_count(radius, m) == 2 * (m - 1) * (radius - 1) + (m - 1) * m,
    decreases m,
{
    if m == 1 {
        lemma_hex_row(radius, 0);
        assert(hex_cell_count(radius, 0) == 0);
        assert(hex_cell_count(radius, 1) == 0);
        assert(2 * (m - 1) * (radius - 1) + (m - 1) * m == 0) by (nonlinear_arith)
            requires
                m == 1,
        ;
    } else {
        lemma_hex_sum_low(radius, m - 1);
        lemma_hex_row(radius, m - 1);
        assert(row_cell_count(radius, m - 1, 2 * radius + 1) == radius - 1 + (m - 1));
        assert(hex_cell_count(radius, m) == hex_cell_count(radius, m - 1) + row_cell_count(
            radius,
            m - 1,
            2 * radius + 1,
        ));
        assert(2 * (m - 2) * (radius - 1) + (m - 2) * (m - 1) + 2 * (radius - 1 + (m - 1)) == 2 * (m
            - 1) * (radius - 1) + (m - 1) * m) by (nonlinear_arith);
    }
}

/// The rows past the middle one: twice the count of the first `m` rows.
proof fn lemma_hex_sum_high(radius: int, m: int)
    requires
        radius >= 1,
        radius + 1 <= m <= 2 * radius,
    ensures
        2 * hex_cell_count(radius, m) == 3 * radius * radius - radius + 2 * (m - radius - 1) * (2
            * radius - 1) - (m - radius - 1) * (m - radius),
    decreases m,
{
    if m == radius + 1 {
        lemma_hex_sum_low(radius, m);
        assert(2 * (m - 1) * (radius - 1) + (m - 1) * m == 3 * radius * radius - radius + 2 * (m
            - radius - 1) * (2 * radius - 1) - (m - radius - 1) * (m - radius)) by (nonlinear_arith)
            requires
                m == radius + 1,
        ;
    } else {
        lemma_hex_sum_high(radius, m - 1);
        lemma_hex_row(radius, m - 1);
        assert(row_cell_count(radius, m - 1, 2 * radius + 1) == 3 * radius - 1 - (m - 1));
        assert(hex_cell_count(radius, m) == hex_cell_count(radius, m - 1) + row_cell_count(
            radius,
            m - 1,
            2 * radius + 1,
        ));
        let j = m - radius - 1;
        assert(2 * (j - 1) * (2 * radius - 1) - (j - 1) * j + 2 * (2 * radius - 1 - j) == 2 * j * (2
            * radius - 1) - j * (j + 1)) by (nonlinear_arith);
    }
}

/// A maze of radius `r` has `3 * r * (r - 1) + 1` cells: the centre, and
/// `6 * d` cells at each distance `d` from 1 to `r - 1` (one cell for
/// radius 0 too).
pub proof fn lemma_hex_cell_total(radius: int)
    requires
        radius >= 0,
    ensures
        hex_cell_count(radius, 2 * radius + 1) == 3 * radius * (radius - 1) + 1,
{
    if radius == 0 {
        assert(hex_cell_count(0, 0) == 0);
        assert(hex_cells(0)((0, 0)));
        assert(row_cell_count(0, 0, 0) == 0);
        assert(row_cell_count(0, 0, 1) == 1);
        assert(hex_cell_count(0, 1) == 1);
        assert(3 * radius * (radius - 1) + 1 == 1) by (nonlinear_arith)
            requires
                radius == 0,
        ;
    } else {
        lemma_hex_sum_high(radius, 2 * radius);
        lemma_hex_row(radius, 2 * radius);
        assert(hex_cell_count(radius, 2 * radius + 1) == hex_cell_count(radius, 2 * radius)
            + row_cell_count(radius, 2 * radius, 2 * radius + 1));
        assert(3 * radius * radius - radius + 2 * (radius - 1) * (2 * radius - 1) - (radius - 1)
            * radius == 2 * (3 * radius * (radius - 1) + 1)) by (nonlinear_arith);
    }
}

/// Carves the maze from the centre by depth-first search.
#[verifier::rlimit(90)]
#[verifier::spinoff_prover]
fn carve_hex(walls: &mut Vec<Vec<Vec<bool>>>, radius: usize, rng: &mut ChaCha8Rng)
    requires
        hex_size_ok(radius as int),
        hex_walls_shaped(old(walls)@, 2 * radius + 1),
        forall|k: int, y: int, x: int|
            0 <= k < 3 && 0 <= y <= 2 * radius && 0 <= x <= 2 * radius ==> #[trigger] old(
                walls,
            )@[k]@[y]@[x],
    ensures
        hex_walls_kept(old(walls)@, final(walls)@, 2 * radius + 1),
        forall|k: int, y: int, x: int|
            0 <= k < 3 && 0 <= y <= 2 * radius && 0 <= x <= 2 * radius && !(
            #[trigger] final(walls)@[k]@[y]@[x]) ==> hex_cells(radius as int)((x, y)) && hex_cells(
                radius as int,
            )(hex_step((x, y), k)),
        hex_open_count(final(walls)@) + 1 == hex_cell_count(radius as int, 2 * radius + 1),
        hex_wall_list(final(walls)@, radius as int, 2 * radius + 1).len() == 4 * hex_cell_count(
            radius as int,
            2 * radius + 1,
        ) + 2,
        forall|c: Node|
            #![trigger hex_cells(radius as int)(c)]
            hex_cells(radius as int)(c) ==> linked(
                hex_steps(final(walls)@),
                hex_cells(radius as int),
                (radius as int, radius as int),
                c,
            ),
{
    let ghost rad = radius as int;
    let ghost side = 2 * rad + 1;
    let ghost cells = hex_cells(rad);
    let ghost root: Node = (rad, rad);
    let ghost walls_init = walls@;
    let n = 2 * radius + 1;
    let mut visited = filled_grid(n, n, false);
    let ghost vis_init = visited@;
    mark_place(&mut visited, radius, radius);
    let mut stack: Vec<(i32, i32)> = Vec::new();
    stack.push((0, 0));
    let ghost mut parent: Map<Node, Node> = Map::empty();
    let ghost mut depth: Map<Node, nat> = Map::empty().insert(root, 0nat);
    proof {
        assert forall|d: Node| #[trigger] cells(d) implies 0 <= d.1 < vis_init.len() && 0 <= d.0
            < vis_init[d.1]@.len() by {
            lemma_hex_places(rad, d, 0);
        }
        lemma_mark_one(vis_init, visited@, cells, rad, rad);
        assert forall|j: int| 0 <= j < 3 implies grid_filled(walls@[j]@, side, side, true) by {
            assert forall|y: int, x: int| 0 <= y < side && 0 <= x < side implies #[trigger] walls@[j]@[y]@[x]
                == true by {}
        }
        lemma_grid_count_const(walls@[0]@, side, side, true);
        lemma_grid_count_const(walls@[1]@, side, side, true);
        lemma_grid_count_const(walls@[2]@, side, side, true);
        lemma_grid_count_const(vis_init, side, side, false);
        lemma_grid_count_set(vis_init, visited@, rad, rad);
        assert forall|c: Node, k: int| cells(c) && 0 <= k < 6 implies #[trigger] drawn_pred(walls@, rad)(
            c,
            k,
        ) by {
            if cells(hex_step(c, k)) {
                lemma_hex_places(rad, c, k);
                lemma_hex_places(rad, hex_step(c, k), 0);
            }
        }
        lemma_grid_all(drawn_pred(walls@, rad), rad, side);
        assert forall|y: int, x: int|
            0 <= y <= 2 * rad && 0 <= x <= 2 * rad && #[trigger] visited@[y]@[x] implies hex_cells(rad)(
            (x, y),
        ) by {
            assert(cells((x, y)) ==> (marked(visited@, (x, y)) == (marked(vis_init, (x, y)) || (x, y)
                == root)));
            if (x, y) != root {
                if y == rad {
                    assert(visited@[y]@ == vis_init[y]@.update(rad, true));
                } else {
                    assert(visited@[y] == vis_init[y]);
                }
            }
        }
        assert forall|c: Node| #![trigger marked(visited@, c)] cells(c) && marked(visited@, c)
            implies stack@.contains(((c.0 - rad) as i32, (c.1 - rad) as i32)) by {
            lemma_hex_places(rad, c, 0);
            assert(!marked(vis_init, c));
            assert(c == root);
            assert(stack@[0] == (0i32, 0i32));
        }
        assert(cells(root));
    }
    while stack.len() > 0
        invariant
            hex_size_ok(rad),
            rad == radius,
            side == 2 * rad + 1,
            cells == hex_cells(rad),
            root == (rad, rad),
            cells(root),
            hex_walls_shaped(walls@, side),
            hex_walls_kept(walls_init, walls@, side),
            marks_shaped(visited@, side, side),
            marked(visited@, root),
            forall|i: int|
                #![trigger stack@[i]]
                0 <= i < stack@.len() ==> cells((stack@[i].0 + rad, stack@[i].1 + rad)) && marked(
                    visited@,
                    (stack@[i].0 + rad, stack@[i].1 + rad),
                ),
            hex_marks_closed(visited@, stack@, rad),
            spanning_tree(hex_steps(walls@), cells, visited@, root, parent, depth),
            hex_opens_marked(walls@, visited@, rad),
            hex_marks_cells(visited@, rad),
            hex_open_count(walls@) + grid_false_count(visited@) + 1 == side * side,
            grid_dirs_sum(drawn_pred(walls@, rad), rad, side) + 2 * hex_open_count(walls@) == 6
                * hex_cell_count(rad, side),
        decreases grid_false_count(visited@), stack@.len(),
    {
        let top = stack.len() - 1;
        let (q, r) = stack[top];
        let ghost c: Node = (q + rad, r + rad);
        let ns = hex_unvisited_neighbors(&visited, radius, q, r);
        if ns.len() == 0 {
            let ghost old_stack = stack@;
            proof {
                assert forall|k: int| 0 <= k < 6 && #[trigger] cells(hex_step(c, k)) implies marked(
                    visited@,
                    hex_step(c, k),
                ) by {
                    if !marked(visited@, hex_step(c, k)) {
                        let i = choose|i: int| 0 <= i < ns@.len() && #[trigger] ns@[i].2 == k;
                        assert(ns@[i].2 == k);
                    }
                }
                lemma_hex_pop(visited@, old_stack, rad);
            }
            stack.pop();
            proof {
                assert(stack@ == old_stack.drop_last());
                assert forall|i: int| #![trigger stack@[i]] 0 <= i < stack@.len() implies cells(
                    (stack@[i].0 + rad, stack@[i].1 + rad),
                ) && marked(visited@, (stack@[i].0 + rad, stack@[i].1 + rad)) by {
                    assert(stack@[i] == old_stack[i]);
                }
            }
        } else {
            let j = rng_below(rng, ns.len());
            let (nq, nr, k) = ns[j];
            let ghost nn: Node = (nq + rad, nr + rad);
            assert(nn == hex_step(c, k as int));
            proof {
                lemma_hex_places(rad, nn, 0);
            }
            let ghost w0 = walls@;
            let ghost vis0 = visited@;
            let ghost old_stack = stack@;
            proof {
                lemma_hex_wall_was_closed(w0, vis0, rad, c, k as int);
            }
            open_hex_wall(walls, radius, q, r, k);
            let rad32 = radius as i32;
            mark_place(&mut visited, (nq + rad32) as usize, (nr + rad32) as usize);
            stack.push((nq, nr));
            proof {
                lemma_grid_count_set(vis0, visited@, nn.1, nn.0);
                assert forall|y: int, x: int|
                    0 <= y <= 2 * rad && 0 <= x <= 2 * rad && #[trigger] visited@[y]@[x] implies hex_cells(
                    rad,
                )((x, y)) by {
                    if (x, y) != nn {
                        if y == nn.1 {
                            assert(visited@[y]@ == vis0[y]@.update(nn.0, true));
                        } else {
                            assert(visited@[y] == vis0[y]);
                        }
                        assert(vis0[y]@[x]);
                    }
                }
                assert forall|d: Node| #[trigger] cells(d) implies 0 <= d.1 < vis0.len() && 0 <= d.0
                    < vis0[d.1]@.len() by {
                    lemma_hex_places(rad, d, 0);
                }
                lemma_mark_one(vis0, visited@, cells, nn.0, nn.1);
                assert(marked(vis0, c));
                lemma_hex_opens_grow(w0, walls@, vis0, visited@, rad, c, k as int);
                lemma_hex_flip(w0, walls@, rad, c, k as int);
                assert(hex_walls_kept(w0, walls@, side));
                lemma_hex_steps_kept(w0, walls@, rad);
                assert(marked(vis0, c));
                lemma_tree_extend(
                    hex_steps(w0),
                    hex_steps(walls@),
                    cells,
                    vis0,
                    visited@,
                    root,
                    parent,
                    depth,
                    nn,
                    c,
                );
                parent = parent.insert(nn, c);
                depth = depth.insert(nn, depth[c] + 1);
                lemma_hex_push(vis0, visited@, old_stack, rad, (nq, nr));
                lemma_hex_stack_ok(vis0, visited@, old_stack, rad, (nq, nr));
            }
        }
    }
    proof {
        let marks = |d: Node| marked(visited@, d);
        assert forall|a: Node, b: Node|
            cells(a) && cells(b) && hex_adjacent(a, b) && #[trigger] marks(a) implies #[trigger] marks(b) by {
            lemma_hex_places(rad, a, 0);
            assert(marked(visited@, a));
            assert(!stack@.contains(((a.0 - rad) as i32, (a.1 - rad) as i32)));
            let k = choose|k: int| 0 <= k < 6 && b == #[trigger] hex_step(a, k);
            assert(cells(hex_step(a, k)));
        }
        assert forall|c: Node| #![trigger hex_cells(rad)(c)] hex_cells(rad)(c) implies linked(
            hex_steps(walls@),
            hex_cells(rad),
            (rad, rad),
            c,
        ) by {
            lemma_hex_marks_fill(marks, rad, c);
            lemma_tree_links(hex_steps(walls@), cells, visited@, root, parent, depth, c);
        }
        assert forall|y: int, x: int| 0 <= y < side && 0 <= x <= 2 * rad implies #[trigger] visited@[y]@[x]
            == hex_cells(rad)((x, y)) by {
            if hex_cells(rad)((x, y)) {
                lemma_hex_marks_fill(marks, rad, (x, y));
            }
        }
        lemma_marks_cells_count(visited@, rad, side);
        assert(visited@.subrange(0, side) =~= visited@);
        lemma_wall_list_len(walls@, rad, side);
        assert forall|k: int, y: int, x: int|
            0 <= k < 3 && 0 <= y <= 2 * rad && 0 <= x <= 2 * rad && !(#[trigger] walls@[k]@[y]@[x])
                implies hex_cells(rad)((x, y)) && hex_cells(rad)(hex_step((x, y), k)) by {}
    }
}

/// Three `side` by `side` grids of closed walls.
fn closed_hex_walls(side: usize) -> (walls: Vec<Vec<Vec<bool>>>)
    ensures
        hex_walls_shaped(walls@, side as int),
        forall|k: int, y: int, x: int|
            0 <= k < 3 && 0 <= y < side && 0 <= x < side ==> #[trigger] walls@[k]@[y]@[x],
{
    let mut walls: Vec<Vec<Vec<bool>>> = Vec::new();
    let mut k: usize = 0;
    while k < 3
        invariant
            k <= 3,
            walls@.len() == k,
            forall|j: int| 0 <= j < k ==> (#[trigger] walls@[j])@.len() == side,
            forall|j: int, y: int| 0 <= j < k && 0 <= y < side ==> (#[trigger] walls@[j]@[y])@.len() == side,
            forall|j: int, y: int, x: int|
                0 <= j < k && 0 <= y < side && 0 <= x < side ==> #[trigger] walls@[j]@[y]@[x],
        decreases 3 - k,
    {
        walls.push(filled_grid(side, side, true));
        k = k + 1;
    }
    walls
}

/// Carves a hexagonal maze of the cells nearer to the centre than `radius`
/// (the centre alone when `radius` is 0), drawing from `rng`.
pub fn carve_hex_maze(radius: usize, rng: &mut ChaCha8Rng) -> (m: HexMaze)
    requires
        hex_size_ok(radius as int),
    ensures
        m.radius == radius,
        m.shaped(),
        m.all_reachable(),
        m.outline_closed(),
        m.open_walls() + 1 == m.cell_count(),
        m.cell_count() == 3 * radius * (radius - 1) + 1,
        m.walls_spec().len() == 4 * m.cell_count() + 2,
{
    let mut walls = closed_hex_walls(2 * radius + 1);
    carve_hex(&mut walls, radius, rng);
    proof {
        lemma_hex_cell_total(radius as int);
    }
    HexMaze { radius, walls }
}

/// Wall `k` of the cell at place `c` is closed: for `k < 3` the cell's own
/// wall, otherwise the wall of the neighbour in direction `k` facing it.
pub open spec fn hex_wall_closed(walls: Seq<Vec<Vec<bool>>>, c: Node, k: int) -> bool {
    if k < 3 {
        walls[k]@[c.1]@[c.0]
    } else {
        let n = hex_step(c, k);
        walls[k - 3]@[n.1]@[n.0]
    }
}

/// Wall `k` of the cell at place `c` is drawn: the neighbour lies outside
/// the maze, or the wall between them is closed.
pub open spec fn hex_wall_drawn(walls: Seq<Vec<Vec<bool>>>, radius: int, c: Node, k: int) -> bool {
    !hex_cells(radius)(hex_step(c, k)) || hex_wall_closed(walls, c, k)
}

/// The drawn walls `(q, r, k)` among the first `n` directions of the cell
/// at place `c`.
pub open spec fn cell_wall_list(walls: Seq<Vec<Vec<bool>>>, radius: int, c: Node, n: int) -> Seq<
    (i32, i32, usize),
>
    decreases n,
{
    if n <= 0 {
        Seq::empty()
    } else {
        cell_wall_list(walls, radius, c, n - 1) + if hex_wall_drawn(walls, radius, c, n - 1) {
            seq![((c.0 - radius) as i32, (c.1 - radius) as i32, (n - 1) as usize)]
        } else {
            Seq::empty()
        }
    }
}

/// The drawn walls of the cells among the first `n` places of row `y`.
pub open spec fn row_wall_list(walls: Seq<Vec<Vec<bool>>>, radius: int, y: int, n: int) -> Seq<
    (i32, i32, usize),
>
    decreases n,
{
    if n <= 0 {
        Seq::empty()
    } else {
        row_wall_list(walls, radius, y, n - 1) + if hex_cells(radius)((n - 1, y)) {
            cell_wall_list(walls, radius, (n - 1, y), 6)
        } else {
            Seq::empty()
        }
    }
}

/// The drawn walls of the cells in the first `rows` rows of places.
pub open spec fn hex_wall_list(walls: Seq<Vec<Vec<bool>>>, radius: int, rows: int) -> Seq<
    (i32, i32, usize),
>
    decreases rows,
{
    if rows <= 0 {
        Seq::empty()
    } else {
        hex_wall_list(walls, radius, rows - 1) + row_wall_list(walls, radius, rows - 1, 2 * radius + 1)
    }
}

/// Wall `k` of the cell at place `c` is drawn, as a predicate.
pub open spec fn drawn_pred(walls: Seq<Vec<Vec<bool>>>, radius: int) -> spec_fn(Node, int) -> bool {
    |c: Node, k: int| hex_wall_drawn(walls, radius, c, k)
}

/// Number of directions `k < n` with `pred(c, k)`.
pub open spec fn dirs_count(pred: spec_fn(Node, int) -> bool, c: Node, n: int) -> nat
    decreases n,
{
    if n <= 0 {
        0
    } else {
        dirs_count(pred, c, n - 1) + if pred(c, n - 1) {
            1nat
        } else {
            0nat
        }
    }
}

/// Sum of `dirs_count(pred, c, 6)` over the cells among the first `n`
/// places of row `y`.
pub open spec fn row_dirs_sum(pred: spec_fn(Node, int) -> bool, radius: int, y: int, n: int) -> nat
    decreases n,
{
    if n <= 0 {
        0
    } else {
        row_dirs_sum(pred, radius, y, n - 1) + if hex_cells(radius)((n - 1, y)) {
            dirs_count(pred, (n - 1, y), 6)
        } else {
            0
        }
    }
}

/// Sum of `dirs_count(pred, c, 6)` over the cells of the first `rows` rows.
pub open spec fn grid_dirs_sum(pred: spec_fn(Node, int) -> bool, radius: int, rows: int) -> nat
    decreases rows,
{
    if rows <= 0 {
        0
    } else {
        grid_dirs_sum(pred, radius, rows - 1) + row_dirs_sum(pred, radius, rows - 1, 2 * radius + 1)
    }
}

proof fn lemma_cell_list_len(walls: Seq<Vec<Vec<bool>>>, radius: int, c: Node, n: int)
    ensures
        cell_wall_list(walls, radius, c, n).len() == dirs_count(drawn_pred(walls, radius), c, n),
    decreases n,
{
    if n > 0 {
        lemma_cell_list_len(walls, radius, c, n - 1);
    }
}

proof fn lemma_row_list_len(walls: Seq<Vec<Vec<bool>>>, radius: int, y: int, n: int)
    ensures
        row_wall_list(walls, radius, y, n).len() == row_dirs_sum(drawn_pred(walls, radius), radius, y, n),
    decreases n,
{
    if n > 0 {
        lemma_row_list_len(walls, radius, y, n - 1);
        lemma_cell_list_len(walls, radius, (n - 1, y), 6);
    }
}

/// The drawn walls listed are counted by `grid_dirs_sum`.
proof fn lemma_wall_list_len(walls: Seq<Vec<Vec<bool>>>, radius: int, rows: int)
    ensures
        hex_wall_list(walls, radius, rows).len() == grid_dirs_sum(drawn_pred(walls, radius), radius, rows),
    decreases rows,
{
    if rows > 0 {
        lemma_wall_list_len(walls, radius, rows - 1);
        lemma_row_list_len(walls, radius, rows - 1, 2 * radius + 1);
    }
}

proof fn lemma_dirs_same(pred: spec_fn(Node, int) -> bool, pred2: spec_fn(Node, int) -> bool, c: Node, n: int)
    requires
        forall|k: int| 0 <= k < n ==> #[trigger] pred(c, k) == pred2(c, k),
    ensures
        dirs_count(pred, c, n) == dirs_count(pred2, c, n),
    decreases n,
{
    if n > 0 {
        lemma_dirs_same(pred, pred2, c, n - 1);
        assert(pred(c, n - 1) == pred2(c, n - 1));
    }
}

proof fn lemma_dirs_point(
    pred: spec_fn(Node, int) -> bool,
    pred2: spec_fn(Node, int) -> bool,
    c: Node,
    k0: int,
    n: int,
)
    requires
        0 <= k0,
        pred(c, k0),
        !pred2(c, k0),
        forall|k: int| 0 <= k < n && k != k0 ==> #[trigger] pred(c, k) == pred2(c, k),
    ensures
        dirs_count(pred2, c, n) + (if k0 < n {
            1nat
        } else {
            0nat
        }) == dirs_count(pred, c, n),
    decreases n,
{
    if n > 0 {
        lemma_dirs_point(pred, pred2, c, k0, n - 1);
        if n - 1 != k0 {
            assert(pred(c, n - 1) == pred2(c, n - 1));
        }
    }
}

proof fn lemma_row_point(
    pred: spec_fn(Node, int) -> bool,
    pred2: spec_fn(Node, int) -> bool,
    radius: int,
    y: int,
    n: int,
    p0: Node,
    k0: int,
)
    requires
        0 <= k0 < 6,
        pred(p0, k0),
        !pred2(p0, k0),
        forall|c: Node, k: int|
            hex_cells(radius)(c) && 0 <= k < 6 && !(c == p0 && k == k0) ==> #[trigger] pred(c, k)
                == pred2(c, k),
    ensures
        row_dirs_sum(pred2, radius, y, n) + (if p0.1 == y && 0 <= p0.0 < n && hex_cells(radius)(p0) {
            1nat
        } else {
            0nat
        }) == row_dirs_sum(pred, radius, y, n),
    decreases n,
{
    if n > 0 {
        lemma_row_point(pred, pred2, radius, y, n - 1, p0, k0);
        let c = (n - 1, y);
        if hex_cells(radius)(c) {
            if c == p0 {
                assert forall|k: int| 0 <= k < 6 && k != k0 implies #[trigger] pred(c, k) == pred2(c, k) by {}
                lemma_dirs_point(pred, pred2, c, k0, 6);
            } else {
                assert forall|k: int| 0 <= k < 6 implies #[trigger] pred(c, k) == pred2(c, k) by {}
                lemma_dirs_same(pred, pred2, c, 6);
            }
        }
    }
}

/// Turning one drawn wall of one cell into an undrawn one lowers the sum
/// by one.
proof fn lemma_grid_point(
    pred: spec_fn(Node, int) -> bool,
    pred2: spec_fn(Node, int) -> bool,
    radius: int,
    rows: int,
    p0: Node,
    k0: int,
)
    requires
        0 <= k0 < 6,
        pred(p0, k0),
        !pred2(p0, k0),
        forall|c: Node, k: int|
            hex_cells(radius)(c) && 0 <= k < 6 && !(c == p0 && k == k0) ==> #[trigger] pred(c, k)
                == pred2(c, k),
    ensures
        grid_dirs_sum(pred2, radius, rows) + (if 0 <= p0.1 < rows && 0 <= p0.0 < 2 * radius + 1
            && hex_cells(radius)(p0) {
            1nat
        } else {
            0nat
        }) == grid_dirs_sum(pred, radius, rows),
    decreases rows,
{
    if rows > 0 {
        lemma_grid_point(pred, pred2, radius, rows - 1, p0, k0);
        lemma_row_point(pred, pred2, radius, rows - 1, 2 * radius + 1, p0, k0);
    }
}

proof fn lemma_row_all(pred: spec_fn(Node, int) -> bool, radius: int, y: int, n: int)
    requires
        forall|c: Node, k: int| hex_cells(radius)(c) && 0 <= k < 6 ==> #[trigger] pred(c, k),
    ensures
        row_dirs_sum(pred, radius, y, n) == 6 * row_cell_count(radius, y, n),
    decreases n,
{
    if n > 0 {
        lemma_row_all(pred, radius, y, n - 1);
        let c = (n - 1, y);
        if hex_cells(radius)(c) {
            assert(pred(c, 0) && pred(c, 1) && pred(c, 2) && pred(c, 3) && pred(c, 4) && pred(c, 5));
            assert(dirs_count(pred, c, 0) == 0);
            assert(dirs_count(pred, c, 1) == 1);
            assert(dirs_count(pred, c, 2) == 2);
            assert(dirs_count(pred, c, 3) == 3);
            assert(dirs_count(pred, c, 4) == 4);
            assert(dirs_count(pred, c, 5) == 5);
            assert(dirs_count(pred, c, 6) == 6);
        }
    }
}

/// When every wall of every cell is drawn, six per cell are.
proof fn lemma_grid_all(pred: spec_fn(Node, int) -> bool, radius: int, rows: int)
    requires
        forall|c: Node, k: int| hex_cells(radius)(c) && 0 <= k < 6 ==> #[trigger] pred(c, k),
    ensures
        grid_dirs_sum(pred, radius, rows) == 6 * hex_cell_count(radius, rows),
    decreases rows,
{
    if rows > 0 {
        lemma_grid_all(pred, radius, rows - 1);
        lemma_row_all(pred, radius, rows - 1, 2 * radius + 1);
    }
}

/// The neighbour in direction `k` sees the same wall in the opposite
/// direction.
proof fn lemma_entry_back(c: Node, k: int)
    requires
        0 <= k < 6,
    ensures
        hex_step(hex_step(c, k), (k + 3) % 6) == c,
        hex_wall_entry(hex_step(c, k), (k + 3) % 6) == hex_wall_entry(c, k),
{
}

/// Only a cell's own wall in direction `k`, and its neighbour's wall in the
/// opposite direction, are held in the entry of that wall.
proof fn lemma_entry_unique(p: Node, j: int, c: Node, k: int)
    requires
        0 <= j < 6,
        0 <= k < 6,
        hex_wall_entry(p, j) == hex_wall_entry(c, k),
    ensures
        (p == c && j == k) || (p == hex_step(c, k) && j == (k + 3) % 6),
{
}

/// Opening the closed wall between the cells `c` and `hex_step(c, k)`
/// undraws two walls: one of each cell.
proof fn lemma_hex_flip(
    walls: Seq<Vec<Vec<bool>>>,
    walls2: Seq<Vec<Vec<bool>>>,
    radius: int,
    c: Node,
    k: int,
)
    requires
        hex_size_ok(radius),
        0 <= k < 6,
        hex_cells(radius)(c),
        hex_cells(radius)(hex_step(c, k)),
        ({
            let e = hex_wall_entry(c, k);
            walls[e.0]@[e.1]@[e.2]
        }),
        forall|j: int, y: int, x: int|
            0 <= j < 3 && 0 <= y <= 2 * radius && 0 <= x <= 2 * radius ==> #[trigger] walls2[j]@[y]@[x]
                == (walls[j]@[y]@[x] && !(j == hex_wall_entry(c, k).0 && y == hex_wall_entry(c, k).1
                && x == hex_wall_entry(c, k).2)),
    ensures
        grid_dirs_sum(drawn_pred(walls2, radius), radius, 2 * radius + 1) + 2 == grid_dirs_sum(
            drawn_pred(walls, radius),
            radius,
            2 * radius + 1,
        ),
{
    let cells = hex_cells(radius);
    let n = hex_step(c, k);
    let k2 = (k + 3) % 6;
    let e = hex_wall_entry(c, k);
    let pred0 = drawn_pred(walls, radius);
    let pred2 = drawn_pred(walls2, radius);
    let mid = |p: Node, j: int| if p == c && j == k {
        false
    } else {
        pred0(p, j)
    };
    lemma_entry_back(c, k);
    lemma_hex_places(radius, c, k);
    lemma_hex_places(radius, n, 0);
    assert(0 <= e.0 < 3 && 0 <= e.1 <= 2 * radius && 0 <= e.2 <= 2 * radius);
    assert(!walls2[e.0]@[e.1]@[e.2]);
    assert(pred0(c, k));
    assert forall|p: Node, j: int|
        cells(p) && 0 <= j < 6 && !(p == c && j == k) implies #[trigger] pred0(p, j) == mid(p, j) by {}
    lemma_grid_point(pred0, mid, radius, 2 * radius + 1, c, k);
    assert(n != c);
    assert(mid(n, k2));
    assert(!pred2(n, k2));
    assert forall|p: Node, j: int|
        cells(p) && 0 <= j < 6 && !(p == n && j == k2) implies #[trigger] mid(p, j) == pred2(p, j) by {
        if p == c && j == k {
            assert(!pred2(c, k));
        } else if cells(hex_step(p, j)) {
            lemma_hex_places(radius, p, j);
            lemma_hex_places(radius, hex_step(p, j), 0);
            let ep = hex_wall_entry(p, j);
            if ep == e {
                lemma_entry_unique(p, j, c, k);
            }
            assert(0 <= ep.0 < 3 && 0 <= ep.1 <= 2 * radius && 0 <= ep.2 <= 2 * radius);
            assert(walls2[ep.0]@[ep.1]@[ep.2] == walls[ep.0]@[ep.1]@[ep.2]);
        }
    }
    lemma_grid_point(mid, pred2, radius, 2 * radius + 1, n, k2);
}

/// Cell `(q, r)` belongs to the maze.
fn hex_in_exec(radius: usize, q: i32, r: i32) -> (b: bool)
    requires
        hex_size_ok(radius as int),
        -(2 * radius + 2) <= q <= 2 * radius + 2,
        -(2 * radius + 2) <= r <= 2 * radius + 2,
    ensures
        b == hex_in(radius as int, (q as int, r as int)),
{
    let dist = (abs_i32(q) + abs_i32(q + r) + abs_i32(r)) / 2;
    dist < radius as i32 || (q == 0 && r == 0)
}

/// Appends the drawn walls of the cell at place `(x, y)`.
fn push_cell_walls(out: &mut Vec<(i32, i32, usize)>, walls: &Vec<Vec<Vec<bool>>>, radius: usize, x: usize, y: usize)
    requires
        hex_size_ok(radius as int),
        hex_walls_shaped(walls@, 2 * radius + 1),
        hex_cells(radius as int)((x as int, y as int)),
    ensures
        final(out)@ == old(out)@ + cell_wall_list(walls@, radius as int, (x as int, y as int), 6),
{
    let ghost rad = radius as int;
    let ghost c: Node = (x as int, y as int);
    let ghost o0 = out@;
    proof {
        lemma_hex_places(rad, c, 0);
    }
    let rad32 = radius as i32;
    let q = x as i32 - rad32;
    let r = y as i32 - rad32;
    let mut k: usize = 0;
    while k < 6
        invariant
            hex_size_ok(rad),
            rad == radius,
            rad32 as int == rad,
            c == (x as int, y as int),
            q as int == x - rad,
            r as int == y - rad,
            hex_walls_shaped(walls@, 2 * rad + 1),
            hex_cells(rad)(c),
            0 <= c.0 <= 2 * rad,
            0 <= c.1 <= 2 * rad,
            k <= 6,
            out@ == o0 + cell_wall_list(walls@, rad, c, k as int),
        decreases 6 - k,
    {
        let (dq, dr) = hex_dir_exec(k);
        let nq = q + dq;
        let nr = r + dr;
        let inside = hex_in_exec(radius, nq, nr);
        let ghost n = hex_step(c, k as int);
        assert(n == (nq + rad, nr + rad));
        let drawn = if !inside {
            true
        } else {
            proof {
                lemma_hex_places(rad, n, 0);
            }
            if k < 3 {
                walls[k][y][x]
            } else {
                let nx = (nq + rad32) as usize;
                let ny = (nr + rad32) as usize;
                walls[k - 3][ny][nx]
            }
        };
        assert(drawn == hex_wall_drawn(walls@, rad, c, k as int));
        if drawn {
            out.push((q, r, k));
        }
        proof {
            assert(out@ =~= o0 + cell_wall_list(walls@, rad, c, k + 1));
        }
        k = k + 1;
    }
}

impl HexMaze {
    /// The drawn walls `(q, r, k)`: for each cell, place row by place row,
    /// the directions `k` whose wall is drawn.
    pub open spec fn walls_spec(&self) -> Seq<(i32, i32, usize)> {
        hex_wall_list(self.walls@, self.radius as int, self.side())
    }

    /// Lists the drawn walls (see `walls_spec`).
    pub fn drawn_walls(&self) -> (out: Vec<(i32, i32, usize)>)
        requires
            hex_size_ok(self.radius as int),
            self.shaped(),
        ensures
            out@ == self.walls_spec(),
    {
        let ghost rad = self.radius as int;
        let radius = self.radius;
        let side = 2 * radius + 1;
        let rad32 = radius as i32;
        let mut out: Vec<(i32, i32, usize)> = Vec::new();
        let mut y: usize = 0;
        while y < side
            invariant
                hex_size_ok(rad),
                rad == radius,
                radius == self.radius,
                side == 2 * rad + 1,
                rad32 as int == rad,
                self.shaped(),
                y <= side,
                out@ == hex_wall_list(self.walls@, rad, y as int),
            decreases side - y,
        {
            let ghost before = out@;
            let mut x: usize = 0;
            while x < side
                invariant
                    hex_size_ok(rad),
                    rad == radius,
                    radius == self.radius,
                    side == 2 * rad + 1,
                    rad32 as int == rad,
                    self.shaped(),
                    y < side,
                    x <= side,
                    out@ == before + row_wall_list(self.walls@, rad, y as int, x as int),
                decreases side - x,
            {
                let ghost o1 = out@;
                if hex_in_exec(radius, x as i32 - rad32, y as i32 - rad32) {
                    push_cell_walls(&mut out, &self.walls, radius, x, y);
                }
                proof {
                    assert(out@ =~= before + row_wall_list(self.walls@, rad, y as int, x + 1));
                }
                x = x + 1;
            }
            y = y + 1;
        }
        out
    }
}

} // verus!
