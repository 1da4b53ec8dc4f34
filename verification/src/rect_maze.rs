//! Rectangular mazes carved by a recursive backtracker, by Prim's algorithm
//! or by Kruskal's algorithm.

use vstd::prelude::*;
use crate::graph::{marked, marks_plus};
use crate::grid::{
    Cell, in_grid, grid_cells, walls_shaped, open_between, adjacent, connected, opens_kept,
    tree_of_marked, grid_false_count, lemma_tree_connects, lemma_grid_count_set,
    lemma_closed_marks_fill, lemma_connected_symmetric, lemma_connected_trans, lemma_connected_mono,
    lemma_grid_mark_one, lemma_tree_grow, open_count, grid_filled, lemma_grid_count_const,
    lemma_grid_count_clear, opens_marked, lemma_closed_grids, row_false_count,
};
use crate::rng::rng_below;
use rand_chacha::ChaCha8Rng;
use crate::disjoint_set::DisjointSet;

verus! {

/// Carving algorithm for a rectangular maze.
#[derive(Debug, Clone, Copy, PartialEq, Eq, Structural)]
pub enum MazeAlgo {
    RecursiveBacktracker,
    Prim,
    Kruskal,
}

/// The walls of a `width` by `height` maze (see `grid` for the layout).
pub struct RectMaze {
    pub width: usize,
    pub height: usize,
    pub horiz: Vec<Vec<bool>>,
    pub vert: Vec<Vec<bool>>,
}

/// Sizes that the carving handles: at least one cell, and small enough for
/// the cell and wall counts to fit in memory indices.
pub open spec fn maze_size_ok(w: int, h: int) -> bool {
    &&& 1 <= w <= i32::MAX
    &&& 1 <= h <= i32::MAX
    &&& (w + 1) * (h + 1) <= usize::MAX
}

impl RectMaze {
    /// The wall grids have the maze's shape.
    pub open spec fn shaped(&self) -> bool {
        walls_shaped(self.horiz@, self.vert@, self.width as int, self.height as int)
    }

    /// The outer border is closed except for the entrance above cell
    /// `(0, 0)` and the exit below cell `(width - 1, height - 1)`.
    pub open spec fn border_with_doors(&self) -> bool {
        let w = self.width as int;
        let h = self.height as int;
        &&& forall|x: int| 0 <= x < w ==> #[trigger] self.horiz@[0]@[x] == (x != 0)
        &&& forall|x: int| 0 <= x < w ==> #[trigger] self.horiz@[h]@[x] == (x != w - 1)
        &&& forall|y: int| 0 <= y < h ==> #[trigger] self.vert@[y]@[0] && self.vert@[y]@[w]
    }

    /// Number of open wall pieces, the entrance and the exit included. With
    /// the border closed but for the two doors and every cell reachable,
    /// `width * height + 1` of them make a perfect maze: the `width * height
    /// - 1` open inner walls join the cells in a spanning tree, so one path
    /// leads between any two cells, and `width * height + width + height - 1`
    /// wall pieces stay closed.
    pub open spec fn open_walls(&self) -> nat {
        open_count(self.horiz@, self.vert@)
    }

    /// Every cell can be reached from the entrance cell `(0, 0)`.
    pub open spec fn all_reachable(&self) -> bool {
        forall|c: Cell|
            #![trigger in_grid(self.width as int, self.height as int, c)]
            in_grid(self.width as int, self.height as int, c) ==> connected(
                self.horiz@,
                self.vert@,
                self.width as int,
                self.height as int,
                (0, 0),
                c,
            )
    }
}

/// The outer border walls of the grids are all closed.
pub open spec fn border_closed(horiz: Seq<Vec<bool>>, vert: Seq<Vec<bool>>, w: int, h: int) -> bool {
    &&& forall|x: int| 0 <= x < w ==> #[trigger] horiz[0]@[x]
    &&& forall|x: int| 0 <= x < w ==> #[trigger] horiz[h]@[x]
    &&& forall|y: int| 0 <= y < h ==> #[trigger] vert[y]@[0] && vert[y]@[w]
}

/// Every cell is connected to `root`.
pub open spec fn all_connected_to(
    horiz: Seq<Vec<bool>>,
    vert: Seq<Vec<bool>>,
    w: int,
    h: int,
    root: Cell,
) -> bool {
    forall|c: Cell|
        #![trigger in_grid(w, h, c)]
        in_grid(w, h, c) ==> connected(horiz, vert, w, h, root, c)
}

/// A `rows` by `cols` grid holding `val` everywhere.
pub fn filled_grid(rows: usize, cols: usize, val: bool) -> (g: Vec<Vec<bool>>)
    ensures
        g@.len() == rows,
        forall|y: int| 0 <= y < rows ==> (#[trigger] g@[y])@.len() == cols,
        forall|y: int, x: int| 0 <= y < rows && 0 <= x < cols ==> #[trigger] g@[y]@[x] == val,
{
    let mut g: Vec<Vec<bool>> = Vec::new();
    let mut r: usize = 0;
    while r < rows
        invariant
            r <= rows,
            g@.len() == r,
            forall|y: int| 0 <= y < r ==> (#[trigger] g@[y])@.len() == cols,
            forall|y: int, x: int| 0 <= y < r && 0 <= x < cols ==> #[trigger] g@[y]@[x] == val,
        decreases rows - r,
    {
        let mut row: Vec<bool> = Vec::new();
        let mut c: usize = 0;
        while c < cols
            invariant
                c <= cols,
                row@.len() == c,
                forall|x: int| 0 <= x < c ==> #[trigger] row@[x] == val,
            decreases cols - c,
        {
            row.push(val);
            c = c + 1;
        }
        g.push(row);
        r = r + 1;
    }
    g
}

/// Opens the wall between neighbouring cells `a` and `b` of a `w` by `h`
/// grid; no other wall changes, and the outer border stays as it was.
pub(crate) fn open_wall(
    horiz: &mut Vec<Vec<bool>>,
    vert: &mut Vec<Vec<bool>>,
    w: usize,
    h: usize,
    ax: usize,
    ay: usize,
    bx: usize,
    by: usize,
)
    requires
        walls_shaped(old(horiz)@, old(vert)@, w as int, h as int),
        in_grid(w as int, h as int, (ax as int, ay as int)),
        in_grid(w as int, h as int, (bx as int, by as int)),
        adjacent((ax as int, ay as int), (bx as int, by as int)),
    ensures
        walls_shaped(final(horiz)@, final(vert)@, w as int, h as int),
        opens_kept(old(horiz)@, old(vert)@, final(horiz)@, final(vert)@),
        open_between(final(horiz)@, final(vert)@, (ax as int, ay as int), (bx as int, by as int)),
        final(horiz)@[0] == old(horiz)@[0],
        final(horiz)@[h as int] == old(horiz)@[h as int],
        forall|y: int|
            0 <= y < h ==> (#[trigger] final(vert)@[y])@[0] == old(vert)@[y]@[0]
                && final(vert)@[y]@[w as int] == old(vert)@[y]@[w as int],
        open_count(final(horiz)@, final(vert)@) == open_count(old(horiz)@, old(vert)@) + if open_between(
            old(horiz)@,
            old(vert)@,
            (ax as int, ay as int),
            (bx as int, by as int),
        ) {
            0nat
        } else {
            1nat
        },
        forall|p: Cell, q: Cell|
            #![trigger open_between(final(horiz)@, final(vert)@, p, q)]
            in_grid(w as int, h as int, p) && in_grid(w as int, h as int, q) && open_between(
                final(horiz)@,
                final(vert)@,
                p,
                q,
            ) ==> open_between(old(horiz)@, old(vert)@, p, q) || (p == (ax as int, ay as int) && q == (
            bx as int,
            by as int,
        )) || (p == (bx as int, by as int) && q == (ax as int, ay as int)),
{
    let ghost h0 = horiz@;
    let ghost v0 = vert@;
    if by == ay && bx == ax + 1 {
        vert[ay][bx] = false;
        proof {
            lemma_grid_count_clear(v0, vert@, ay as int, bx as int);
            assert(horiz@ == h0);
        }
    } else if by == ay && ax == bx + 1 {
        vert[ay][ax] = false;
        proof {
            lemma_grid_count_clear(v0, vert@, ay as int, ax as int);
            assert(horiz@ == h0);
        }
    } else if bx == ax && by == ay + 1 {
        horiz[by][ax] = false;
        proof {
            lemma_grid_count_clear(h0, horiz@, by as int, ax as int);
            assert(vert@ == v0);
        }
    } else {
        horiz[ay][ax] = false;
        proof {
            lemma_grid_count_clear(h0, horiz@, ay as int, ax as int);
            assert(vert@ == v0);
        }
    }
}

/// The in-grid neighbours of `(cx, cy)` not yet visited, looked at below,
/// right, above and left, in that order.
fn unvisited_neighbors(visited: &Vec<Vec<bool>>, w: usize, h: usize, cx: usize, cy: usize) -> (ns:
    Vec<(usize, usize)>)
    requires
        visited@.len() == h,
        forall|y: int| 0 <= y < h ==> (#[trigger] visited@[y])@.len() == w,
        in_grid(w as int, h as int, (cx as int, cy as int)),
    ensures
        forall|i: int|
            #![trigger ns@[i]]
            0 <= i < ns@.len() ==> {
                let n = (ns@[i].0 as int, ns@[i].1 as int);
                &&& in_grid(w as int, h as int, n)
                &&& adjacent((cx as int, cy as int), n)
                &&& !marked(visited@, n)
            },
        forall|n: Cell|
            in_grid(w as int, h as int, n) && #[trigger] adjacent((cx as int, cy as int), n)
                && !marked(visited@, n) ==> ns@.contains((n.0 as usize, n.1 as usize)),
{
    let mut ns: Vec<(usize, usize)> = Vec::new();
    if cy + 1 < h && !visited[cy + 1][cx] {
        ns.push((cx, cy + 1));
    }
    let ghost n1 = ns@;
    if cx + 1 < w && !visited[cy][cx + 1] {
        ns.push((cx + 1, cy));
    }
    let ghost n2 = ns@;
    if cy > 0 && !visited[cy - 1][cx] {
        ns.push((cx, cy - 1));
    }
    let ghost n3 = ns@;
    if cx > 0 && !visited[cy][cx - 1] {
        ns.push((cx - 1, cy));
    }
    proof {
        assert(ns@.len() >= n3.len() && n3.len() >= n2.len() && n2.len() >= n1.len());
        assert(forall|i: int| 0 <= i < n3.len() ==> ns@[i] == n3[i]);
        assert(forall|i: int| 0 <= i < n2.len() ==> n3[i] == n2[i]);
        assert(forall|i: int| 0 <= i < n1.len() ==> n2[i] == n1[i]);
        assert forall|n: Cell|
            in_grid(w as int, h as int, n) && #[trigger] adjacent((cx as int, cy as int), n)
                && !marked(visited@, n) implies ns@.contains((n.0 as usize, n.1 as usize)) by {
            if n.1 == cy + 1 {
                assert(ns@[0] == (n.0 as usize, n.1 as usize));
            } else if n.0 == cx + 1 {
                assert(ns@[n1.len() as int] == (n.0 as usize, n.1 as usize));
            } else if n.1 + 1 == cy {
                assert(ns@[n2.len() as int] == (n.0 as usize, n.1 as usize));
            } else {
                assert(ns@[n3.len() as int] == (n.0 as usize, n.1 as usize));
            }
        }
    }
    ns
}

/// The frontier entries `(to, from)` of Prim's algorithm are valid.
pub open spec fn frontier_ok(
    frontier: Seq<((usize, usize), (usize, usize))>,
    visited: Seq<Vec<bool>>,
    w: int,
    h: int,
) -> bool {
    forall|i: int|
        #![trigger frontier[i]]
        0 <= i < frontier.len() ==> {
            let t = (frontier[i].0.0 as int, frontier[i].0.1 as int);
            let f = (frontier[i].1.0 as int, frontier[i].1.1 as int);
            &&& in_grid(w, h, t)
            &&& in_grid(w, h, f)
            &&& adjacent(f, t)
            &&& marked(visited, f)
        }
}

/// Appends `((n, (tx, ty)))` for each unvisited neighbour `n` of `(tx, ty)`,
/// looking below, right, above and left.
fn push_frontier(
    frontier: &mut Vec<((usize, usize), (usize, usize))>,
    visited: &Vec<Vec<bool>>,
    w: usize,
    h: usize,
    tx: usize,
    ty: usize,
)
    requires
        visited@.len() == h,
        forall|y: int| 0 <= y < h ==> (#[trigger] visited@[y])@.len() == w,
        in_grid(w as int, h as int, (tx as int, ty as int)),
        marked(visited@, (tx as int, ty as int)),
        frontier_ok(old(frontier)@, visited@, w as int, h as int),
    ensures
        frontier_ok(final(frontier)@, visited@, w as int, h as int),
        final(frontier)@.len() >= old(frontier)@.len(),
        forall|i: int|
            0 <= i < old(frontier)@.len() ==> #[trigger] final(frontier)@[i] == old(frontier)@[i],
        forall|n: Cell|
            in_grid(w as int, h as int, n) && #[trigger] adjacent((tx as int, ty as int), n)
                && !marked(visited@, n) ==> final(frontier)@.contains(
                ((n.0 as usize, n.1 as usize), (tx, ty)),
            ),
{
    let ns = unvisited_neighbors(visited, w, h, tx, ty);
    let ghost f0 = frontier@;
    let mut i: usize = 0;
    while i < ns.len()
        invariant
            i <= ns@.len(),
            frontier@.len() == f0.len() + i,
            forall|j: int| 0 <= j < f0.len() ==> #[trigger] frontier@[j] == f0[j],
            forall|j: int|
                0 <= j < i ==> #[trigger] frontier@[f0.len() + j] == (ns@[j], (tx, ty)),
            frontier_ok(frontier@, visited@, w as int, h as int),
            forall|j: int|
                #![trigger ns@[j]]
                0 <= j < ns@.len() ==> {
                    let n = (ns@[j].0 as int, ns@[j].1 as int);
                    &&& in_grid(w as int, h as int, n)
                    &&& adjacent((tx as int, ty as int), n)
                    &&& !marked(visited@, n)
                },
            in_grid(w as int, h as int, (tx as int, ty as int)),
            marked(visited@, (tx as int, ty as int)),
        decreases ns@.len() - i,
    {
        let ghost fb = frontier@;
        frontier.push((ns[i], (tx, ty)));
        proof {
            assert(ns@[i as int] == ns[i as int]);
            assert forall|j: int|
                #![trigger frontier@[j]]
                0 <= j < frontier@.len() implies {
                let t = (frontier@[j].0.0 as int, frontier@[j].0.1 as int);
                let f = (frontier@[j].1.0 as int, frontier@[j].1.1 as int);
                &&& in_grid(w as int, h as int, t)
                &&& in_grid(w as int, h as int, f)
                &&& adjacent(f, t)
                &&& marked(visited@, f)
            } by {
                if j < fb.len() {
                    assert(frontier@[j] == fb[j]);
                }
            }
        }
        i = i + 1;
    }
    proof {
        assert forall|n: Cell|
            in_grid(w as int, h as int, n) && #[trigger] adjacent((tx as int, ty as int), n)
                && !marked(visited@, n) implies frontier@.contains(
            ((n.0 as usize, n.1 as usize), (tx, ty)),
        ) by {
            assert(ns@.contains((n.0 as usize, n.1 as usize)));
            let j = choose|j: int| 0 <= j < ns@.len() && ns@[j] == (n.0 as usize, n.1 as usize);
            assert(frontier@[f0.len() + j] == (ns@[j], (tx, ty)));
        }
    }
}

/// Marks cell `(x, y)` of `g` as visited.
fn mark(g: &mut Vec<Vec<bool>>, x: usize, y: usize)
    requires
        y < old(g)@.len(),
        x < old(g)@[y as int]@.len(),
    ensures
        final(g)@.len() == old(g)@.len(),
        final(g)@[y as int]@ == old(g)@[y as int]@.update(x as int, true),
        forall|k: int| 0 <= k < old(g)@.len() && k != y ==> final(g)@[k] == old(g)@[k],
{
    g[y][x] = true;
}

/// Carving by depth-first search with backtracking from cell `(0, 0)`.
#[verifier::rlimit(40)]
fn carve_backtracker(
    horiz: &mut Vec<Vec<bool>>,
    vert: &mut Vec<Vec<bool>>,
    w: usize,
    h: usize,
    rng: &mut ChaCha8Rng,
)
    requires
        maze_size_ok(w as int, h as int),
        walls_shaped(old(horiz)@, old(vert)@, w as int, h as int),
        border_closed(old(horiz)@, old(vert)@, w as int, h as int),
        grid_filled(old(horiz)@, h + 1, w as int, true),
        grid_filled(old(vert)@, h as int, w + 1, true),
    ensures
        walls_shaped(final(horiz)@, final(vert)@, w as int, h as int),
        border_closed(final(horiz)@, final(vert)@, w as int, h as int),
        all_connected_to(final(horiz)@, final(vert)@, w as int, h as int, (0, 0)),
        open_count(final(horiz)@, final(vert)@) == w * h - 1,
{
    let mut visited = filled_grid(h, w, false);
    let ghost vis_init = visited@;
    mark(&mut visited, 0, 0);
    proof {
        lemma_closed_grids(horiz@, vert@, w as int, h as int);
        lemma_grid_count_const(vis_init, h as int, w as int, false);
        lemma_grid_count_set(vis_init, visited@, 0, 0);
        assert(h * w == w * h) by (nonlinear_arith);
    }
    let mut stack: Vec<(usize, usize)> = Vec::new();
    stack.push((0, 0));
    let ghost wi = w as int;
    let ghost hi = h as int;
    let ghost mut parent: Map<Cell, Cell> = Map::empty();
    let ghost mut depth: Map<Cell, nat> = Map::empty().insert((0, 0), 0nat);
    proof {
        assert forall|c: Cell|
            #![trigger marked(visited@, c)]
            in_grid(wi, hi, c) && marked(visited@, c) implies stack@.contains(
            (c.0 as usize, c.1 as usize),
        ) by {
            if c != (0int, 0int) {
                assert(!vis_init[c.1]@[c.0]);
                if c.1 == 0 {
                    assert(visited@[0]@ == vis_init[0]@.update(0, true));
                } else {
                    assert(visited@[c.1] == vis_init[c.1]);
                }
            }
            assert(stack@[0] == (0usize, 0usize));
        }
    }
    while stack.len() > 0
        invariant
            maze_size_ok(wi, hi),
            wi == w,
            hi == h,
            walls_shaped(horiz@, vert@, wi, hi),
            border_closed(horiz@, vert@, wi, hi),
            visited@.len() == h,
            forall|y: int| 0 <= y < h ==> (#[trigger] visited@[y])@.len() == w,
            marked(visited@, (0, 0)),
            forall|i: int|
                #![trigger stack@[i]]
                0 <= i < stack@.len() ==> in_grid(wi, hi, (stack@[i].0 as int, stack@[i].1 as int))
                    && marked(visited@, (stack@[i].0 as int, stack@[i].1 as int)),
            forall|c: Cell|
                #![trigger marked(visited@, c)]
                in_grid(wi, hi, c) && marked(visited@, c) ==> (stack@.contains(
                    (c.0 as usize, c.1 as usize),
                ) || forall|n: Cell|
                    in_grid(wi, hi, n) && #[trigger] adjacent(c, n) ==> marked(visited@, n)),
            tree_of_marked(horiz@, vert@, visited@, wi, hi, (0, 0), parent, depth),
            opens_marked(horiz@, vert@, visited@, wi, hi),
            open_count(horiz@, vert@) + grid_false_count(visited@) == wi * hi - 1,
        decreases grid_false_count(visited@), stack@.len(),
    {
        let top = stack.len() - 1;
        let (cx, cy) = stack[top];
        let ns = unvisited_neighbors(&visited, w, h, cx, cy);
        if ns.len() == 0 {
            let ghost old_stack = stack@;
            stack.pop();
            proof {
                assert forall|c: Cell|
                    #![trigger marked(visited@, c)]
                    in_grid(wi, hi, c) && marked(visited@, c) implies (stack@.contains(
                    (c.0 as usize, c.1 as usize),
                ) || forall|n: Cell|
                    in_grid(wi, hi, n) && #[trigger] adjacent(c, n) ==> marked(visited@, n)) by {
                    if c == (cx as int, cy as int) {
                    } else if old_stack.contains((c.0 as usize, c.1 as usize)) {
                        let k = choose|k: int|
                            0 <= k < old_stack.len() && old_stack[k] == (c.0 as usize, c.1 as usize);
                        if k == top {
                            assert(old_stack[k] == (cx, cy));
                        } else {
                            assert(stack@[k] == old_stack[k]);
                        }
                    }
                }
                assert forall|i: int|
                    #![trigger stack@[i]]
                    0 <= i < stack@.len() implies in_grid(
                    wi,
                    hi,
                    (stack@[i].0 as int, stack@[i].1 as int),
                ) && marked(visited@, (stack@[i].0 as int, stack@[i].1 as int)) by {
                    assert(stack@[i] == old_stack[i]);
                }
            }
        } else {
            let k = rng_below(rng, ns.len());
            let (nx, ny) = ns[k];
            let ghost c = (cx as int, cy as int);
            let ghost n = (nx as int, ny as int);
            assert(in_grid(wi, hi, n) && adjacent(c, n) && !marked(visited@, n));
            let ghost h0 = horiz@;
            let ghost v0 = vert@;
            let ghost vis0 = visited@;
            let ghost old_stack = stack@;
            assert(!open_between(h0, v0, c, n));
            open_wall(horiz, vert, w, h, cx, cy, nx, ny);
            mark(&mut visited, nx, ny);
            stack.push((nx, ny));
            proof {
                lemma_grid_count_set(vis0, visited@, ny as int, nx as int);
                lemma_grid_mark_one(vis0, visited@, wi, hi, nx as int, ny as int);
                lemma_opens_marked_grow(h0, v0, horiz@, vert@, vis0, visited@, wi, hi, c, n);
                lemma_tree_grow(
                    h0,
                    v0,
                    horiz@,
                    vert@,
                    vis0,
                    visited@,
                    wi,
                    hi,
                    (0, 0),
                    parent,
                    depth,
                    n,
                    c,
                );
                parent = parent.insert(n, c);
                depth = depth.insert(n, depth[c] + 1);
                assert forall|c2: Cell|
                    #![trigger marked(visited@, c2)]
                    in_grid(wi, hi, c2) && marked(visited@, c2) implies (stack@.contains(
                    (c2.0 as usize, c2.1 as usize),
                ) || forall|m: Cell|
                    in_grid(wi, hi, m) && #[trigger] adjacent(c2, m) ==> marked(visited@, m)) by {
                    if c2 == n {
                        assert(stack@[stack@.len() - 1] == (nx, ny));
                    } else {
                        assert(marked(vis0, c2));
                        if old_stack.contains((c2.0 as usize, c2.1 as usize)) {
                            let j = choose|j: int|
                                0 <= j < old_stack.len() && old_stack[j] == (
                                    c2.0 as usize,
                                    c2.1 as usize,
                                );
                            assert(stack@[j] == old_stack[j]);
                        } else {
                            assert forall|m: Cell|
                                in_grid(wi, hi, m) && #[trigger] adjacent(c2, m) implies marked(
                                visited@,
                                m,
                            ) by {
                                assert(marked(vis0, m));
                            }
                        }
                    }
                }
                assert forall|i: int|
                    #![trigger stack@[i]]
                    0 <= i < stack@.len() implies in_grid(
                    wi,
                    hi,
                    (stack@[i].0 as int, stack@[i].1 as int),
                ) && marked(visited@, (stack@[i].0 as int, stack@[i].1 as int)) by {
                    if i < old_stack.len() {
                        assert(stack@[i] == old_stack[i]);
                    }
                }
            }
        }
    }
    proof {
        let marks = |c: Cell| marked(visited@, c);
        assert forall|a: Cell, b: Cell|
            in_grid(wi, hi, a) && in_grid(wi, hi, b) && adjacent(a, b) && #[trigger] marks(a)
                implies #[trigger] marks(b) by {
            assert(marked(visited@, a));
            assert(!stack@.contains((a.0 as usize, a.1 as usize)));
        }
        assert forall|c: Cell| #[trigger] in_grid(wi, hi, c) implies connected(
            horiz@,
            vert@,
            wi,
            hi,
            (0, 0),
            c,
        ) by {
            lemma_closed_marks_fill(marks, wi, hi, (0, 0), c);
            lemma_tree_connects(horiz@, vert@, visited@, wi, hi, (0, 0), parent, depth, c);
        }
        assert forall|y: int, x: int| 0 <= y < hi && 0 <= x < wi implies #[trigger] visited@[y]@[x]
            == true by {
            lemma_closed_marks_fill(marks, wi, hi, (0, 0), (x, y));
        }
        lemma_grid_count_const(visited@, hi, wi, true);
    }
}

/// Opening the wall between a marked cell `c` and a cell `n` that becomes
/// marked keeps every open wall between marked cells.
proof fn lemma_opens_marked_grow(
    horiz: Seq<Vec<bool>>,
    vert: Seq<Vec<bool>>,
    horiz2: Seq<Vec<bool>>,
    vert2: Seq<Vec<bool>>,
    marks: Seq<Vec<bool>>,
    marks2: Seq<Vec<bool>>,
    w: int,
    h: int,
    c: Cell,
    n: Cell,
)
    requires
        opens_marked(horiz, vert, marks, w, h),
        marks_plus(marks, marks2, grid_cells(w, h), n),
        in_grid(w, h, c),
        in_grid(w, h, n),
        marked(marks, c),
        forall|p: Cell, q: Cell|
            #![trigger open_between(horiz2, vert2, p, q)]
            in_grid(w, h, p) && in_grid(w, h, q) && open_between(horiz2, vert2, p, q)
                ==> open_between(horiz, vert, p, q) || (p == c && q == n) || (p == n && q == c),
    ensures
        opens_marked(horiz2, vert2, marks2, w, h),
{
    assert forall|p: Cell, q: Cell|
        #![trigger open_between(horiz2, vert2, p, q)]
        in_grid(w, h, p) && in_grid(w, h, q) && open_between(horiz2, vert2, p, q) implies marked(
        marks2,
        p,
    ) && marked(marks2, q) by {
        assert(grid_cells(w, h)(p) && grid_cells(w, h)(q) && grid_cells(w, h)(c));
        if open_between(horiz, vert, p, q) {
            assert(marked(marks, p) && marked(marks, q));
        }
        assert(marked(marks2, p) == (marked(marks, p) || p == n));
        assert(marked(marks2, q) == (marked(marks, q) || q == n));
        assert(marked(marks2, c) == (marked(marks, c) || c == n));
    }
}

/// The frontier entry for reaching `n` from `c`.
pub open spec fn frontier_entry(c: Cell, n: Cell) -> ((usize, usize), (usize, usize)) {
    ((n.0 as usize, n.1 as usize), (c.0 as usize, c.1 as usize))
}

/// Each unmarked neighbour `n` of a marked cell `c` has an entry in the
/// frontier, except possibly the entry `skip`.
pub open spec fn frontier_covers_but(
    frontier: Seq<((usize, usize), (usize, usize))>,
    visited: Seq<Vec<bool>>,
    w: int,
    h: int,
    skip: Option<((usize, usize), (usize, usize))>,
) -> bool {
    forall|c: Cell, n: Cell|
        #![trigger marked(visited, c), adjacent(c, n)]
        in_grid(w, h, c) && marked(visited, c) && in_grid(w, h, n) && adjacent(c, n) ==> marked(
            visited,
            n,
        ) || frontier.contains(frontier_entry(c, n)) || skip == Some(frontier_entry(c, n))
}

proof fn lemma_frontier_remove(
    fr: Seq<((usize, usize), (usize, usize))>,
    idx: int,
    visited: Seq<Vec<bool>>,
    w: int,
    h: int,
)
    requires
        0 <= idx < fr.len(),
        frontier_ok(fr, visited, w, h),
        frontier_covers_but(fr, visited, w, h, None),
    ensures
        frontier_ok(fr.remove(idx), visited, w, h),
        frontier_covers_but(fr.remove(idx), visited, w, h, Some(fr[idx])),
{
    let fr1 = fr.remove(idx);
    fr.remove_ensures(idx);
    assert forall|i: int| #![trigger fr1[i]] 0 <= i < fr1.len() implies {
        let t = (fr1[i].0.0 as int, fr1[i].0.1 as int);
        let f = (fr1[i].1.0 as int, fr1[i].1.1 as int);
        &&& in_grid(w, h, t)
        &&& in_grid(w, h, f)
        &&& adjacent(f, t)
        &&& marked(visited, f)
    } by {
        if i < idx {
            assert(fr1[i] == fr[i]);
        } else {
            assert(fr1[i] == fr[i + 1]);
        }
    }
    assert forall|c: Cell, n: Cell|
        #![trigger marked(visited, c), adjacent(c, n)]
        in_grid(w, h, c) && marked(visited, c) && in_grid(w, h, n) && adjacent(c, n) implies marked(
        visited,
        n,
    ) || fr1.contains(frontier_entry(c, n)) || Some(fr[idx]) == Some(frontier_entry(c, n)) by {
        let e = frontier_entry(c, n);
        if !marked(visited, n) && fr[idx] != e {
            assert(fr.contains(e));
            let k = choose|k: int| 0 <= k < fr.len() && fr[k] == e;
            if k < idx {
                assert(fr1[k] == e);
            } else {
                assert(fr1[k - 1] == e);
            }
        }
    }
}

proof fn lemma_frontier_ok_grow(
    fr: Seq<((usize, usize), (usize, usize))>,
    visited: Seq<Vec<bool>>,
    visited2: Seq<Vec<bool>>,
    w: int,
    h: int,
    t: Cell,
)
    requires
        frontier_ok(fr, visited, w, h),
        marks_plus(visited, visited2, grid_cells(w, h), t),
    ensures
        frontier_ok(fr, visited2, w, h),
{
    assert forall|i: int| #![trigger fr[i]] 0 <= i < fr.len() implies {
        let t2 = (fr[i].0.0 as int, fr[i].0.1 as int);
        let f2 = (fr[i].1.0 as int, fr[i].1.1 as int);
        &&& in_grid(w, h, t2)
        &&& in_grid(w, h, f2)
        &&& adjacent(f2, t2)
        &&& marked(visited2, f2)
    } by {
        let f2 = (fr[i].1.0 as int, fr[i].1.1 as int);
        assert(in_grid(w, h, f2));
    }
}

/// After the removed entry `e` (towards `t`) was handled and `t` is marked,
/// and the entries towards unmarked neighbours of `t` were appended, the
/// frontier covers everything again.
proof fn lemma_frontier_recover(
    fr1: Seq<((usize, usize), (usize, usize))>,
    fr2: Seq<((usize, usize), (usize, usize))>,
    visited: Seq<Vec<bool>>,
    visited2: Seq<Vec<bool>>,
    w: int,
    h: int,
    e: ((usize, usize), (usize, usize)),
    t: Cell,
)
    requires
        maze_size_ok(w, h),
        frontier_covers_but(fr1, visited, w, h, Some(e)),
        t == (e.0.0 as int, e.0.1 as int),
        in_grid(w, h, t),
        marks_plus(visited, visited2, grid_cells(w, h), t),
        marked(visited2, t),
        fr2.len() >= fr1.len(),
        forall|i: int| 0 <= i < fr1.len() ==> #[trigger] fr2[i] == fr1[i],
        forall|n: Cell|
            in_grid(w, h, n) && #[trigger] adjacent(t, n) && !marked(visited2, n)
                ==> fr2.contains(frontier_entry(t, n)),
    ensures
        frontier_covers_but(fr2, visited2, w, h, None),
{
    assert forall|c: Cell, n: Cell|
        #![trigger marked(visited2, c), adjacent(c, n)]
        in_grid(w, h, c) && marked(visited2, c) && in_grid(w, h, n) && adjacent(c, n) implies marked(
        visited2,
        n,
    ) || fr2.contains(frontier_entry(c, n)) || None::<((usize, usize), (usize, usize))> == Some(
        frontier_entry(c, n),
    ) by {
        assert(in_grid(w, h, n) && in_grid(w, h, c));
        if c == t {
            if !marked(visited2, n) {
                assert(fr2.contains(frontier_entry(t, n)));
            }
        } else if !marked(visited2, n) {
            assert(marked(visited, c));
            assert(!marked(visited, n));
            assert(n != t);
            let en = frontier_entry(c, n);
            if en == e {
                assert(n.0 as usize as int == n.0 && n.1 as usize as int == n.1);
                assert(n == t);
            }
            assert(fr1.contains(en));
            let k = choose|k: int| 0 <= k < fr1.len() && fr1[k] == en;
            assert(fr2[k] == en);
        }
    }
}

/// When the removed entry led to an already marked cell, the frontier still
/// covers everything.
proof fn lemma_frontier_skip_marked(
    fr1: Seq<((usize, usize), (usize, usize))>,
    visited: Seq<Vec<bool>>,
    w: int,
    h: int,
    e: ((usize, usize), (usize, usize)),
)
    requires
        maze_size_ok(w, h),
        frontier_covers_but(fr1, visited, w, h, Some(e)),
        in_grid(w, h, (e.0.0 as int, e.0.1 as int)),
        marked(visited, (e.0.0 as int, e.0.1 as int)),
    ensures
        frontier_covers_but(fr1, visited, w, h, None),
{
    assert forall|c: Cell, n: Cell|
        #![trigger marked(visited, c), adjacent(c, n)]
        in_grid(w, h, c) && marked(visited, c) && in_grid(w, h, n) && adjacent(c, n) implies marked(
        visited,
        n,
    ) || fr1.contains(frontier_entry(c, n)) || None::<((usize, usize), (usize, usize))> == Some(
        frontier_entry(c, n),
    ) by {
        if frontier_entry(c, n) == e {
            assert(n.0 as usize as int == n.0 && n.1 as usize as int == n.1);
            assert(n == (e.0.0 as int, e.0.1 as int));
        }
    }
}

/// When the frontier is empty, every cell is marked.
proof fn lemma_frontier_done(
    visited: Seq<Vec<bool>>,
    w: int,
    h: int,
    start: Cell,
)
    requires
        frontier_covers_but(Seq::empty(), visited, w, h, None),
        in_grid(w, h, start),
        marked(visited, start),
    ensures
        forall|c: Cell| #[trigger] in_grid(w, h, c) ==> marked(visited, c),
{
    let marks = |c: Cell| marked(visited, c);
    assert forall|a: Cell, b: Cell|
        in_grid(w, h, a) && in_grid(w, h, b) && adjacent(a, b) && #[trigger] marks(a)
            implies #[trigger] marks(b) by {
        assert(marked(visited, a));
        assert(!Seq::<((usize, usize), (usize, usize))>::empty().contains(frontier_entry(a, b)));
    }
    assert forall|c: Cell| #[trigger] in_grid(w, h, c) implies marked(visited, c) by {
        lemma_closed_marks_fill(marks, w, h, start, c);
    }
}

/// Carving by Prim's algorithm from a random start cell.
#[verifier::rlimit(60)]
fn carve_prim(
    horiz: &mut Vec<Vec<bool>>,
    vert: &mut Vec<Vec<bool>>,
    w: usize,
    h: usize,
    rng: &mut ChaCha8Rng,
)
    requires
        maze_size_ok(w as int, h as int),
        walls_shaped(old(horiz)@, old(vert)@, w as int, h as int),
        border_closed(old(horiz)@, old(vert)@, w as int, h as int),
        grid_filled(old(horiz)@, h + 1, w as int, true),
        grid_filled(old(vert)@, h as int, w + 1, true),
    ensures
        walls_shaped(final(horiz)@, final(vert)@, w as int, h as int),
        border_closed(final(horiz)@, final(vert)@, w as int, h as int),
        all_connected_to(final(horiz)@, final(vert)@, w as int, h as int, (0, 0)),
        open_count(final(horiz)@, final(vert)@) == w * h - 1,
{
    let mut visited = filled_grid(h, w, false);
    let mut frontier: Vec<((usize, usize), (usize, usize))> = Vec::new();
    let sx = rng_below(rng, w);
    let sy = rng_below(rng, h);
    let ghost vis_init = visited@;
    mark(&mut visited, sx, sy);
    let ghost wi = w as int;
    let ghost hi = h as int;
    let ghost start: Cell = (sx as int, sy as int);
    let ghost mut parent: Map<Cell, Cell> = Map::empty();
    let ghost mut depth: Map<Cell, nat> = Map::empty().insert(start, 0nat);
    proof {
        lemma_closed_grids(horiz@, vert@, wi, hi);
        lemma_grid_count_const(vis_init, hi, wi, false);
        lemma_grid_count_set(vis_init, visited@, sy as int, sx as int);
        assert(hi * wi == wi * hi) by (nonlinear_arith);
        lemma_grid_mark_one(vis_init, visited@, wi, hi, sx as int, sy as int);
        assert forall|c: Cell| in_grid(wi, hi, c) && marked(visited@, c) implies c == start by {
            assert(!marked(vis_init, c));
        }
    }
    push_frontier(&mut frontier, &visited, w, h, sx, sy);
    proof {
        assert forall|c: Cell, n: Cell|
            #![trigger marked(visited@, c), adjacent(c, n)]
            in_grid(wi, hi, c) && marked(visited@, c) && in_grid(wi, hi, n) && adjacent(c, n)
                implies marked(visited@, n) || frontier@.contains(frontier_entry(c, n))
            || None::<((usize, usize), (usize, usize))> == Some(frontier_entry(c, n)) by {
            assert(c == start);
        }
    }
    while frontier.len() > 0
        invariant
            maze_size_ok(wi, hi),
            wi == w,
            hi == h,
            walls_shaped(horiz@, vert@, wi, hi),
            border_closed(horiz@, vert@, wi, hi),
            visited@.len() == h,
            forall|y: int| 0 <= y < h ==> (#[trigger] visited@[y])@.len() == w,
            in_grid(wi, hi, start),
            marked(visited@, start),
            frontier_ok(frontier@, visited@, wi, hi),
            frontier_covers_but(frontier@, visited@, wi, hi, None),
            tree_of_marked(horiz@, vert@, visited@, wi, hi, start, parent, depth),
            opens_marked(horiz@, vert@, visited@, wi, hi),
            open_count(horiz@, vert@) + grid_false_count(visited@) == wi * hi - 1,
        decreases grid_false_count(visited@), frontier@.len(),
    {
        let idx = rng_below(rng, frontier.len());
        let ghost fr0 = frontier@;
        proof {
            lemma_frontier_remove(fr0, idx as int, visited@, wi, hi);
        }
        let e = frontier.remove(idx);
        let ((tx, ty), (fx, fy)) = e;
        let ghost t = (tx as int, ty as int);
        let ghost f = (fx as int, fy as int);
        assert(fr0[idx as int] == e);
        if !visited[ty][tx] {
            let ghost h0 = horiz@;
            let ghost v0 = vert@;
            let ghost vis0 = visited@;
            let ghost fr1 = frontier@;
            assert(in_grid(wi, hi, f) && marked(vis0, f) && !marked(vis0, t));
            assert(!open_between(h0, v0, f, t));
            mark(&mut visited, tx, ty);
            open_wall(horiz, vert, w, h, fx, fy, tx, ty);
            proof {
                lemma_grid_count_set(vis0, visited@, ty as int, tx as int);
                lemma_grid_mark_one(vis0, visited@, wi, hi, tx as int, ty as int);
                lemma_opens_marked_grow(h0, v0, horiz@, vert@, vis0, visited@, wi, hi, f, t);
                lemma_tree_grow(
                    h0,
                    v0,
                    horiz@,
                    vert@,
                    vis0,
                    visited@,
                    wi,
                    hi,
                    start,
                    parent,
                    depth,
                    t,
                    f,
                );
                parent = parent.insert(t, f);
                depth = depth.insert(t, depth[f] + 1);
                lemma_frontier_ok_grow(fr1, vis0, visited@, wi, hi, t);
            }
            push_frontier(&mut frontier, &visited, w, h, tx, ty);
            proof {
                lemma_frontier_recover(fr1, frontier@, vis0, visited@, wi, hi, e, t);
            }
        } else {
            proof {
                lemma_frontier_skip_marked(frontier@, visited@, wi, hi, e);
            }
        }
    }
    proof {
        lemma_frontier_done(visited@, wi, hi, start);
        assert(frontier@ =~= Seq::<((usize, usize), (usize, usize))>::empty());
        assert(in_grid(wi, hi, (0, 0)));
        lemma_tree_connects(horiz@, vert@, visited@, wi, hi, start, parent, depth, (0, 0));
        lemma_connected_symmetric(horiz@, vert@, wi, hi, start, (0, 0));
        assert forall|c: Cell| #[trigger] in_grid(wi, hi, c) implies connected(
            horiz@,
            vert@,
            wi,
            hi,
            (0, 0),
            c,
        ) by {
            lemma_tree_connects(horiz@, vert@, visited@, wi, hi, start, parent, depth, c);
            lemma_connected_trans(horiz@, vert@, wi, hi, (0, 0), start, c);
        }
        assert forall|y: int, x: int| 0 <= y < hi && 0 <= x < wi implies #[trigger] visited@[y]@[x]
            == true by {
            assert(in_grid(wi, hi, (x, y)));
        }
        lemma_grid_count_const(visited@, hi, wi, true);
    }
}

/// Carves a `w` by `h` maze with `algo`, drawing from `rng`, and opens the
/// entrance above cell `(0, 0)` and the exit below cell `(w - 1, h - 1)`.
pub fn carve_rectangular_maze(w: usize, h: usize, algo: MazeAlgo, rng: &mut ChaCha8Rng) -> (m:
    RectMaze)
    requires
        maze_size_ok(w as int, h as int),
    ensures
        m.width == w,
        m.height == h,
        m.shaped(),
        m.border_with_doors(),
        m.all_reachable(),
        m.open_walls() == w * h + 1,
{
    let ghost wi = w as int;
    let ghost hi = h as int;
    let mut horiz = filled_grid(h + 1, w, true);
    let mut vert = filled_grid(h, w + 1, true);
    match algo {
        MazeAlgo::RecursiveBacktracker => carve_backtracker(&mut horiz, &mut vert, w, h, rng),
        MazeAlgo::Prim => carve_prim(&mut horiz, &mut vert, w, h, rng),
        MazeAlgo::Kruskal => crate::kruskal::carve_kruskal(&mut horiz, &mut vert, w, h, rng),
    }
    let ghost h0 = horiz@;
    let ghost v0 = vert@;
    horiz[0][0] = false;
    let ghost h1 = horiz@;
    horiz[h][w - 1] = false;
    let m = RectMaze { width: w, height: h, horiz, vert };
    proof {
        lemma_grid_count_clear(h0, h1, 0, 0);
        lemma_grid_count_clear(h1, m.horiz@, hi, wi - 1);
        assert(opens_kept(h0, v0, m.horiz@, m.vert@));
        assert forall|c: Cell| #[trigger] in_grid(wi, hi, c) implies connected(
            m.horiz@,
            m.vert@,
            wi,
            hi,
            (0, 0),
            c,
        ) by {
            assert(connected(h0, v0, wi, hi, (0, 0), c));
            lemma_connected_mono(h0, v0, m.horiz@, m.vert@, wi, hi, (0, 0), c);
        }
    }
    m
}

/// A unit wall segment `(x1, y1, x2, y2)` in cell coordinates.
pub type WallSegment = (usize, usize, usize, usize);

/// The segments of the closed walls among the first `n` walls of a row of
/// walls at height `y`: horizontal ones run from `(x, y)` to `(x + 1, y)`,
/// vertical ones from `(x, y)` to `(x, y + 1)`.
pub open spec fn row_segments(row: Seq<bool>, y: int, n: int, horizontal: bool) -> Seq<WallSegment>
    decreases n,
{
    if n <= 0 {
        Seq::empty()
    } else {
        let x = n - 1;
        let seg: WallSegment = if horizontal {
            (x as usize, y as usize, (x + 1) as usize, y as usize)
        } else {
            (x as usize, y as usize, x as usize, (y + 1) as usize)
        };
        row_segments(row, y, n - 1, horizontal) + if row[x] {
            seq![seg]
        } else {
            Seq::empty()
        }
    }
}

/// The segments of the closed walls in the first `rows` rows of a wall grid
/// with `cols` walls per row, row by row.
pub open spec fn grid_segments(g: Seq<Vec<bool>>, rows: int, cols: int, horizontal: bool) -> Seq<
    WallSegment,
>
    decreases rows,
{
    if rows <= 0 {
        Seq::empty()
    } else {
        grid_segments(g, rows - 1, cols, horizontal) + row_segments(
            g[rows - 1]@,
            rows - 1,
            cols,
            horizontal,
        )
    }
}

proof fn lemma_row_segments_len(row: Seq<bool>, y: int, n: int, horizontal: bool)
    requires
        0 <= n <= row.len(),
    ensures
        row_segments(row, y, n, horizontal).len() + row_false_count(row.take(n)) == n,
    decreases n,
{
    if n > 0 {
        lemma_row_segments_len(row, y, n - 1, horizontal);
        assert(row.take(n).drop_last() =~= row.take(n - 1));
        assert(row.take(n).last() == row[n - 1]);
    } else {
        assert(row.take(0).len() == 0);
    }
}

/// A wall grid has as many segments as closed walls.
proof fn lemma_grid_segments_len(g: Seq<Vec<bool>>, rows: int, cols: int, horizontal: bool)
    requires
        0 <= rows <= g.len(),
        cols >= 0,
        forall|y: int| 0 <= y < rows ==> (#[trigger] g[y])@.len() == cols,
    ensures
        grid_segments(g, rows, cols, horizontal).len() + grid_false_count(g.take(rows)) == rows * cols,
    decreases rows,
{
    if rows > 0 {
        lemma_grid_segments_len(g, rows - 1, cols, horizontal);
        assert(g.take(rows).drop_last() =~= g.take(rows - 1));
        assert(g.take(rows).last() == g[rows - 1]);
        lemma_row_segments_len(g[rows - 1]@, rows - 1, cols, horizontal);
        assert(g[rows - 1]@.take(cols) =~= g[rows - 1]@);
        assert((rows - 1) * cols + cols == rows * cols) by (nonlinear_arith);
    } else {
        assert(g.take(0).len() == 0);
        assert(rows * cols == 0) by (nonlinear_arith)
            requires
                rows == 0,
        ;
    }
}

/// Appends the segments of the closed walls of one row.
fn push_row_segments(
    segs: &mut Vec<WallSegment>,
    row: &Vec<bool>,
    y: usize,
    n: usize,
    horizontal: bool,
)
    requires
        row@.len() == n,
        n < usize::MAX,
        y < usize::MAX,
    ensures
        final(segs)@ == old(segs)@ + row_segments(row@, y as int, n as int, horizontal),
{
    let ghost s0 = segs@;
    let mut x: usize = 0;
    while x < n
        invariant
            x <= n,
            row@.len() == n,
            n < usize::MAX,
            y < usize::MAX,
            segs@ == s0 + row_segments(row@, y as int, x as int, horizontal),
        decreases n - x,
    {
        if row[x] {
            if horizontal {
                segs.push((x, y, x + 1, y));
            } else {
                segs.push((x, y, x, y + 1));
            }
        }
        proof {
            assert(segs@ =~= s0 + row_segments(row@, y as int, x + 1, horizontal));
        }
        x = x + 1;
    }
}

impl RectMaze {
    /// The closed walls as unit segments: the horizontal walls row by row
    /// from the top, then the vertical walls row by row.
    pub open spec fn segments_spec(&self) -> Seq<WallSegment> {
        grid_segments(self.horiz@, self.height + 1, self.width as int, true) + grid_segments(
            self.vert@,
            self.height as int,
            self.width + 1,
            false,
        )
    }

    /// Lists the closed walls as unit segments (see `segments_spec`).
    pub fn wall_segments(&self) -> (segs: Vec<WallSegment>)
        requires
            self.shaped(),
            self.width + 1 < usize::MAX,
            self.height + 1 < usize::MAX,
        ensures
            segs@ == self.segments_spec(),
            segs@.len() + self.open_walls() == (self.height + 1) * self.width + self.height * (
            self.width + 1),
            self.open_walls() == self.width * self.height + 1 ==> segs@.len() == self.width
                * self.height + self.width + self.height - 1,
    {
        let w = self.width;
        let h = self.height;
        let mut segs: Vec<WallSegment> = Vec::new();
        let mut y: usize = 0;
        while y <= h
            invariant
                self.shaped(),
                w == self.width,
                h == self.height,
                w + 1 < usize::MAX,
                h + 1 < usize::MAX,
                y <= h + 1,
                segs@ == grid_segments(self.horiz@, y as int, w as int, true),
            decreases h + 1 - y,
        {
            push_row_segments(&mut segs, &self.horiz[y], y, w, true);
            y = y + 1;
        }
        let ghost first = segs@;
        let mut y: usize = 0;
        while y < h
            invariant
                self.shaped(),
                w == self.width,
                h == self.height,
                w + 1 < usize::MAX,
                h + 1 < usize::MAX,
                y <= h,
                first == grid_segments(self.horiz@, h + 1, w as int, true),
                segs@ == first + grid_segments(self.vert@, y as int, w + 1, false),
            decreases h - y,
        {
            let ghost before = segs@;
            push_row_segments(&mut segs, &self.vert[y], y, w + 1, false);
            proof {
                assert(segs@ =~= first + grid_segments(self.vert@, y + 1, w + 1, false));
            }
            y = y + 1;
        }
        proof {
            lemma_grid_segments_len(self.horiz@, h + 1, w as int, true);
            lemma_grid_segments_len(self.vert@, h as int, w + 1, false);
            assert(self.horiz@.take(h + 1) =~= self.horiz@);
            assert(self.vert@.take(h as int) =~= self.vert@);
            assert((h + 1) * w + h * (w + 1) == 2 * (w * h) + w + h) by (nonlinear_arith);
        }
        segs
    }
}

} // verus!
