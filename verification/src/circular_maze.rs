//! Circular mazes: `rings` concentric rings of `sectors` cells each, carved
//! by depth-first search with backtracking from the innermost cell of
//! sector 0.
//!
//! A cell is `(s, r)`: sector `s` of ring `r` (ring 0 innermost). `radial[r][s]`
//! is the wall between sectors `s` and `s + 1` (mod `sectors`) of ring `r`;
//! `arcs[r][s]` is the arc at radius `r` across sector `s`, between rings
//! `r - 1` and `r` (`arcs[0]` lies at the centre and `arcs[rings]` is the
//! outer border).

use vstd::prelude::*;
use crate::graph::{
    Node, linked, steps_kept, marked, marks_plus, spanning_tree, lemma_linked_mono,
    lemma_linked_symmetric, lemma_tree_links, lemma_tree_extend, lemma_mark_one,
};
use crate::grid::{
    opens_kept, marks_shaped, grid_false_count, lemma_grid_count_set, open_count, grid_filled,
    lemma_grid_count_const, lemma_grid_count_clear, row_false_count,
};
use crate::rect_maze::filled_grid;
use crate::rng::rng_below;
use rand_chacha::ChaCha8Rng;

verus! {

/// The direction of a step between cells of a circular maze.
#[derive(Debug, Clone, Copy, PartialEq, Eq, Structural)]
pub enum Turn {
    /// To the next ring outwards.
    Out,
    /// To the next ring inwards.
    In,
    /// To the next sector (counter-clockwise).
    Ccw,
    /// To the previous sector (clockwise).
    Cw,
}

/// The cell one step from `c` in direction `t`.
pub open spec fn turn_target(sectors: int, c: Node, t: Turn) -> Node {
    match t {
        Turn::Out => (c.0, c.1 + 1),
        Turn::In => (c.0, c.1 - 1),
        Turn::Ccw => ((c.0 + 1) % sectors, c.1),
        Turn::Cw => (if c.0 == 0 {
            sectors - 1
        } else {
            c.0 - 1
        }, c.1),
    }
}

/// The wall crossed by the step from `c` in direction `t`: `(true, r, s)`
/// names the arc `arcs[r][s]`, `(false, r, s)` the radial wall
/// `radial[r][s]`.
pub open spec fn turn_wall(sectors: int, c: Node, t: Turn) -> (bool, int, int) {
    match t {
        Turn::Out => (true, c.1 + 1, c.0),
        Turn::In => (true, c.1, c.0),
        Turn::Ccw => (false, c.1, c.0),
        Turn::Cw => (false, c.1, if c.0 == 0 {
            sectors - 1
        } else {
            c.0 - 1
        }),
    }
}

/// The wall `wall` (as `turn_wall` names it) is closed.
pub open spec fn ring_wall_closed(
    radial: Seq<Vec<bool>>,
    arcs: Seq<Vec<bool>>,
    wall: (bool, int, int),
) -> bool {
    if wall.0 {
        arcs[wall.1]@[wall.2]
    } else {
        radial[wall.1]@[wall.2]
    }
}

/// Every open inner wall lies between two marked cells: the radial wall
/// `radial[r][s]` between `(s, r)` and `((s + 1) % sectors, r)`, the arc
/// `arcs[r][s]` between `(s, r - 1)` and `(s, r)`.
pub open spec fn ring_opens_marked(
    radial: Seq<Vec<bool>>,
    arcs: Seq<Vec<bool>>,
    marks: Seq<Vec<bool>>,
    rings: int,
    sectors: int,
) -> bool {
    &&& forall|r: int, s: int|
        0 <= r < rings && 0 <= s < sectors && !(#[trigger] radial[r]@[s]) ==> marked(marks, (s, r))
            && marked(marks, ((s + 1) % sectors, r))
    &&& forall|r: int, s: int|
        1 <= r < rings && 0 <= s < sectors && !(#[trigger] arcs[r]@[s]) ==> marked(marks, (s, r - 1))
            && marked(marks, (s, r))
}

/// The cells of a maze with `rings` rings of `sectors` cells.
pub open spec fn ring_cells(rings: int, sectors: int) -> spec_fn(Node) -> bool {
    |c: Node| 0 <= c.0 < sectors && 0 <= c.1 < rings
}

/// `a` and `b` share a side: the same sector of neighbouring rings, or
/// neighbouring sectors of one ring.
pub open spec fn ring_adjacent(sectors: int, a: Node, b: Node) -> bool {
    ||| a.1 == b.1 && b.0 == (a.0 + 1) % sectors
    ||| a.1 == b.1 && a.0 == (b.0 + 1) % sectors
    ||| a.0 == b.0 && b.1 == a.1 + 1
    ||| a.0 == b.0 && a.1 == b.1 + 1
}

/// `a` and `b` share a side and the wall between them is open.
pub open spec fn ring_open_between(
    radial: Seq<Vec<bool>>,
    arcs: Seq<Vec<bool>>,
    sectors: int,
    a: Node,
    b: Node,
) -> bool {
    ||| a.1 == b.1 && b.0 == (a.0 + 1) % sectors && !radial[a.1]@[a.0]
    ||| a.1 == b.1 && a.0 == (b.0 + 1) % sectors && !radial[a.1]@[b.0]
    ||| a.0 == b.0 && b.1 == a.1 + 1 && !arcs[b.1]@[a.0]
    ||| a.0 == b.0 && a.1 == b.1 + 1 && !arcs[a.1]@[a.0]
}

/// The steps through open walls.
pub open spec fn ring_steps(radial: Seq<Vec<bool>>, arcs: Seq<Vec<bool>>, sectors: int) -> spec_fn(
    Node,
    Node,
) -> bool {
    |a: Node, b: Node| ring_open_between(radial, arcs, sectors, a, b)
}

/// The wall grids have the shape of a maze with `rings` rings of `sectors`
/// cells.
pub open spec fn ring_walls_shaped(
    radial: Seq<Vec<bool>>,
    arcs: Seq<Vec<bool>>,
    rings: int,
    sectors: int,
) -> bool {
    &&& radial.len() == rings
    &&& arcs.len() == rings + 1
    &&& forall|r: int| 0 <= r < rings ==> (#[trigger] radial[r])@.len() == sectors
    &&& forall|r: int| 0 <= r <= rings ==> (#[trigger] arcs[r])@.len() == sectors
}

/// Sizes the carving handles: at least one ring and one sector.
pub open spec fn ring_size_ok(rings: int, sectors: int) -> bool {
    &&& 1 <= rings < usize::MAX
    &&& 1 <= sectors < usize::MAX
}

/// The walls of a circular maze.
pub struct CircularMaze {
    pub rings: usize,
    pub sectors: usize,
    pub radial: Vec<Vec<bool>>,
    pub arcs: Vec<Vec<bool>>,
    /// The sector whose outer arc is open.
    pub exit: usize,
}

impl CircularMaze {
    /// The wall grids have the maze's shape.
    pub open spec fn shaped(&self) -> bool {
        ring_walls_shaped(self.radial@, self.arcs@, self.rings as int, self.sectors as int)
    }

    /// Number of open walls, the two doors included. With the doors as
    /// `doors` pins them and every cell reachable, `rings * sectors + 1` of
    /// them make a perfect maze: the `rings * sectors - 1` open inner walls
    /// join the cells in a spanning tree.
    pub open spec fn open_walls(&self) -> nat {
        open_count(self.radial@, self.arcs@)
    }

    /// Every cell can be reached from the innermost cell of sector 0.
    pub open spec fn all_reachable(&self) -> bool {
        forall|c: Node|
            #![trigger ring_cells(self.rings as int, self.sectors as int)(c)]
            ring_cells(self.rings as int, self.sectors as int)(c) ==> linked(
                ring_steps(self.radial@, self.arcs@, self.sectors as int),
                ring_cells(self.rings as int, self.sectors as int),
                (0, 0),
                c,
            )
    }

    /// The outer border is closed but for the arc of sector `exit`; of the
    /// centre arcs only that of sector 0 is open.
    pub open spec fn doors(&self) -> bool {
        let rings = self.rings as int;
        &&& self.exit < self.sectors
        &&& forall|s: int|
            0 <= s < self.sectors ==> #[trigger] self.arcs@[rings]@[s] == (s != self.exit)
        &&& forall|s: int| 0 <= s < self.sectors ==> #[trigger] self.arcs@[0]@[s] == (s != 0)
    }
}

/// Opening walls keeps the steps already open.
proof fn lemma_ring_steps_kept(
    radial: Seq<Vec<bool>>,
    arcs: Seq<Vec<bool>>,
    radial2: Seq<Vec<bool>>,
    arcs2: Seq<Vec<bool>>,
    rings: int,
    sectors: int,
)
    requires
        sectors >= 1,
        ring_walls_shaped(radial, arcs, rings, sectors),
        opens_kept(radial, arcs, radial2, arcs2),
    ensures
        steps_kept(ring_steps(radial, arcs, sectors), ring_steps(radial2, arcs2, sectors), ring_cells(rings, sectors)),
{
    let steps = ring_steps(radial, arcs, sectors);
    let steps2 = ring_steps(radial2, arcs2, sectors);
    let cells = ring_cells(rings, sectors);
    assert forall|a: Node, b: Node| cells(a) && cells(b) && #[trigger] steps(a, b) implies steps2(a, b) by {
        assert(ring_open_between(radial, arcs, sectors, a, b));
        assert(0 <= b.0 < sectors && 0 <= a.0 < sectors);
    }
}

/// When the marks are closed under neighbours and cell `(0, 0)` is marked,
/// every cell is marked.
proof fn lemma_ring_marks_fill(marks: spec_fn(Node) -> bool, rings: int, sectors: int, c: Node)
    requires
        rings >= 1,
        sectors >= 1,
        marks((0, 0)),
        forall|a: Node, b: Node|
            ring_cells(rings, sectors)(a) && ring_cells(rings, sectors)(b) && ring_adjacent(sectors, a, b)
                && #[trigger] marks(a) ==> #[trigger] marks(b),
        ring_cells(rings, sectors)(c),
    ensures
        marks(c),
    decreases c.0 + c.1,
{
    let cells = ring_cells(rings, sectors);
    if c.1 > 0 {
        let p = (c.0, c.1 - 1);
        lemma_ring_marks_fill(marks, rings, sectors, p);
        assert(cells(p) && cells(c) && ring_adjacent(sectors, p, c));
    } else if c.0 > 0 {
        let p = (c.0 - 1, c.1);
        lemma_ring_marks_fill(marks, rings, sectors, p);
        assert((p.0 + 1) % sectors == c.0) by (nonlinear_arith)
            requires
                p.0 + 1 == c.0,
                0 <= c.0 < sectors,
        ;
        assert(cells(p) && cells(c) && ring_adjacent(sectors, p, c));
    }
}

/// The entry `(r, s, t)` of a neighbour list names cell `(s, r)`.
pub open spec fn entry_cell(e: (usize, usize, Turn)) -> Node {
    (e.1 as int, e.0 as int)
}

/// The unvisited neighbours of cell `(cs, cr)`, looked at outwards, inwards,
/// counter-clockwise and clockwise, in that order, each with the direction
/// that leads to it.
fn ring_unvisited_neighbors(
    visited: &Vec<Vec<bool>>,
    rings: usize,
    sectors: usize,
    cr: usize,
    cs: usize,
) -> (ns: Vec<(usize, usize, Turn)>)
    requires
        ring_size_ok(rings as int, sectors as int),
        marks_shaped(visited@, sectors as int, rings as int),
        cr < rings,
        cs < sectors,
    ensures
        forall|i: int|
            #![trigger ns@[i]]
            0 <= i < ns@.len() ==> {
                let n = entry_cell(ns@[i]);
                &&& ring_cells(rings as int, sectors as int)(n)
                &&& n == turn_target(sectors as int, (cs as int, cr as int), ns@[i].2)
                &&& !marked(visited@, n)
            },
        forall|n: Node|
            ring_cells(rings as int, sectors as int)(n) && #[trigger] ring_adjacent(
                sectors as int,
                (cs as int, cr as int),
                n,
            ) && !marked(visited@, n) ==> exists|i: int|
                0 <= i < ns@.len() && #[trigger] entry_cell(ns@[i]) == n,
{
    let ghost c = (cs as int, cr as int);
    let ghost si = sectors as int;
    let mut ns: Vec<(usize, usize, Turn)> = Vec::new();
    if cr + 1 < rings && !visited[cr + 1][cs] {
        ns.push((cr + 1, cs, Turn::Out));
    }
    let ghost n1 = ns@;
    if cr > 0 && !visited[cr - 1][cs] {
        ns.push((cr - 1, cs, Turn::In));
    }
    let ghost n2 = ns@;
    let next_s = (cs + 1) % sectors;
    if !visited[cr][next_s] {
        ns.push((cr, next_s, Turn::Ccw));
    }
    let ghost n3 = ns@;
    let prev_s = if cs == 0 {
        sectors - 1
    } else {
        cs - 1
    };
    if !visited[cr][prev_s] {
        ns.push((cr, prev_s, Turn::Cw));
    }
    proof {
        assert(forall|i: int| 0 <= i < n3.len() ==> ns@[i] == n3[i]);
        assert(forall|i: int| 0 <= i < n2.len() ==> n3[i] == n2[i]);
        assert(forall|i: int| 0 <= i < n1.len() ==> n2[i] == n1[i]);
        assert((prev_s + 1) % (sectors as int) == cs) by {
            if cs == 0 {
                assert((sectors - 1 + 1) % (sectors as int) == 0) by (nonlinear_arith)
                    requires
                        sectors >= 1,
                ;
            } else {
                assert(cs % sectors == cs) by (nonlinear_arith)
                    requires
                        cs < sectors,
                ;
            }
        }
        assert forall|n: Node|
            ring_cells(rings as int, sectors as int)(n) && #[trigger] ring_adjacent(si, c, n)
                && !marked(visited@, n) implies exists|i: int|
            0 <= i < ns@.len() && #[trigger] entry_cell(ns@[i]) == n by {
            if n.0 == c.0 && n.1 == c.1 + 1 {
                assert(entry_cell(ns@[0]) == n);
            } else if n.0 == c.0 && c.1 == n.1 + 1 {
                assert(entry_cell(ns@[n1.len() as int]) == n);
            } else if n.1 == c.1 && n.0 == (c.0 + 1) % si {
                assert(entry_cell(ns@[n2.len() as int]) == n);
            } else {
                assert(c.0 == (n.0 + 1) % si);
                assert(n.0 == prev_s) by {
                    if n.0 + 1 < si {
                        assert((n.0 + 1) % si == n.0 + 1) by (nonlinear_arith)
                            requires
                                0 <= n.0 + 1 < si,
                        ;
                    } else {
                        assert((n.0 + 1) % si == 0) by (nonlinear_arith)
                            requires
                                n.0 + 1 == si,
                                si >= 1,
                        ;
                    }
                }
                assert(entry_cell(ns@[n3.len() as int]) == n);
            }
        }
    }
    ns
}

/// Opens the wall crossed by the step from cell `(cs, cr)` in direction `t`.
fn open_ring_wall(
    radial: &mut Vec<Vec<bool>>,
    arcs: &mut Vec<Vec<bool>>,
    rings: usize,
    sectors: usize,
    cr: usize,
    cs: usize,
    t: Turn,
)
    requires
        ring_size_ok(rings as int, sectors as int),
        ring_walls_shaped(old(radial)@, old(arcs)@, rings as int, sectors as int),
        cr < rings,
        cs < sectors,
        ring_cells(rings as int, sectors as int)(
            turn_target(sectors as int, (cs as int, cr as int), t),
        ),
    ensures
        ring_walls_shaped(final(radial)@, final(arcs)@, rings as int, sectors as int),
        opens_kept(old(radial)@, old(arcs)@, final(radial)@, final(arcs)@),
        ring_open_between(
            final(radial)@,
            final(arcs)@,
            sectors as int,
            (cs as int, cr as int),
            turn_target(sectors as int, (cs as int, cr as int), t),
        ),
        final(arcs)@[rings as int] == old(arcs)@[rings as int],
        final(arcs)@[0] == old(arcs)@[0],
        ({
            let wall = turn_wall(sectors as int, (cs as int, cr as int), t);
            &&& open_count(final(radial)@, final(arcs)@) == open_count(old(radial)@, old(arcs)@)
                + if ring_wall_closed(old(radial)@, old(arcs)@, wall) {
                1nat
            } else {
                0nat
            }
            &&& forall|r: int, s: int|
                0 <= r < rings && 0 <= s < sectors ==> #[trigger] final(radial)@[r]@[s] == (
                old(radial)@[r]@[s] && !(!wall.0 && r == wall.1 && s == wall.2))
            &&& forall|r: int, s: int|
                0 <= r <= rings && 0 <= s < sectors ==> #[trigger] final(arcs)@[r]@[s] == (
                old(arcs)@[r]@[s] && !(wall.0 && r == wall.1 && s == wall.2))
        }),
{
    let ghost r0 = radial@;
    let ghost a0 = arcs@;
    match t {
        Turn::Out => {
            arcs[cr + 1][cs] = false;
            proof {
                lemma_grid_count_clear(a0, arcs@, cr + 1, cs as int);
                assert(radial@ == r0);
            }
        },
        Turn::In => {
            arcs[cr][cs] = false;
            proof {
                lemma_grid_count_clear(a0, arcs@, cr as int, cs as int);
                assert(radial@ == r0);
            }
        },
        Turn::Ccw => {
            radial[cr][cs] = false;
            proof {
                lemma_grid_count_clear(r0, radial@, cr as int, cs as int);
                assert(arcs@ == a0);
            }
        },
        Turn::Cw => {
            let prev_s = if cs == 0 {
                sectors - 1
            } else {
                cs - 1
            };
            radial[cr][prev_s] = false;
            proof {
                lemma_grid_count_clear(r0, radial@, cr as int, prev_s as int);
                assert(arcs@ == a0);
                assert((prev_s + 1) % (sectors as int) == cs) by {
                    if cs == 0 {
                        assert((sectors - 1 + 1) % (sectors as int) == 0) by (nonlinear_arith)
                            requires
                                sectors >= 1,
                        ;
                    } else {
                        assert(cs % sectors == cs) by (nonlinear_arith)
                            requires
                                cs < sectors,
                        ;
                    }
                }
            }
        },
    }
}

/// Marks cell `(s, r)` of `g` as visited.
fn mark_cell(g: &mut Vec<Vec<bool>>, s: usize, r: usize)
    requires
        r < old(g)@.len(),
        s < old(g)@[r as int]@.len(),
    ensures
        final(g)@.len() == old(g)@.len(),
        final(g)@[r as int]@ == old(g)@[r as int]@.update(s as int, true),
        forall|k: int| 0 <= k < old(g)@.len() && k != r ==> final(g)@[k] == old(g)@[k],
{
    g[r][s] = true;
}

/// The facts about the marks of the carving loop that the final proof needs:
/// every marked cell is on the stack or has all its neighbours marked.
pub open spec fn ring_marks_closed(
    visited: Seq<Vec<bool>>,
    stack: Seq<(usize, usize)>,
    rings: int,
    sectors: int,
) -> bool {
    forall|c: Node|
        #![trigger marked(visited, c)]
        ring_cells(rings, sectors)(c) && marked(visited, c) ==> (stack.contains(
            (c.1 as usize, c.0 as usize),
        ) || forall|n: Node|
            ring_cells(rings, sectors)(n) && #[trigger] ring_adjacent(sectors, c, n) ==> marked(
                visited,
                n,
            ))
}

/// The sector before sector `s` is the one whose next sector is `s`.
proof fn lemma_prev_sector(sectors: int, s: int)
    requires
        0 <= s < sectors,
    ensures
        ((if s == 0 {
            sectors - 1
        } else {
            s - 1
        }) + 1) % sectors == s,
{
    if s == 0 {
        assert((sectors - 1 + 1) % sectors == 0) by (nonlinear_arith)
            requires
                sectors >= 1,
        ;
    } else {
        assert(s % sectors == s) by (nonlinear_arith)
            requires
                0 <= s < sectors,
        ;
    }
}

/// The wall between a marked cell `c` and an unmarked neighbour is closed.
proof fn lemma_ring_wall_was_closed(
    radial: Seq<Vec<bool>>,
    arcs: Seq<Vec<bool>>,
    marks: Seq<Vec<bool>>,
    rings: int,
    sectors: int,
    c: Node,
    t: Turn,
)
    requires
        ring_size_ok(rings, sectors),
        ring_walls_shaped(radial, arcs, rings, sectors),
        ring_opens_marked(radial, arcs, marks, rings, sectors),
        ring_cells(rings, sectors)(c),
        ring_cells(rings, sectors)(turn_target(sectors, c, t)),
        !marked(marks, turn_target(sectors, c, t)),
    ensures
        ring_wall_closed(radial, arcs, turn_wall(sectors, c, t)),
{
    if !ring_wall_closed(radial, arcs, turn_wall(sectors, c, t)) {
        match t {
            Turn::Out => {
                assert(!arcs[c.1 + 1]@[c.0]);
            },
            Turn::In => {
                assert(!arcs[c.1]@[c.0]);
            },
            Turn::Ccw => {
                assert(!radial[c.1]@[c.0]);
            },
            Turn::Cw => {
                let p = if c.0 == 0 {
                    sectors - 1
                } else {
                    c.0 - 1
                };
                assert(!radial[c.1]@[p]);
            },
        }
    }
}

/// Opening the wall between a marked cell `c` and its neighbour `n` in
/// direction `t`, and marking `n`, keeps every open inner wall between
/// marked cells.
proof fn lemma_ring_opens_grow(
    radial: Seq<Vec<bool>>,
    arcs: Seq<Vec<bool>>,
    radial2: Seq<Vec<bool>>,
    arcs2: Seq<Vec<bool>>,
    marks: Seq<Vec<bool>>,
    marks2: Seq<Vec<bool>>,
    rings: int,
    sectors: int,
    c: Node,
    t: Turn,
)
    requires
        ring_size_ok(rings, sectors),
        ring_walls_shaped(radial, arcs, rings, sectors),
        ring_opens_marked(radial, arcs, marks, rings, sectors),
        ring_cells(rings, sectors)(c),
        ring_cells(rings, sectors)(turn_target(sectors, c, t)),
        marked(marks, c),
        marks_plus(marks, marks2, ring_cells(rings, sectors), turn_target(sectors, c, t)),
        forall|r: int, s: int|
            0 <= r < rings && 0 <= s < sectors ==> #[trigger] radial2[r]@[s] == (radial[r]@[s] && !(
            !turn_wall(sectors, c, t).0 && r == turn_wall(sectors, c, t).1 && s == turn_wall(
                sectors,
                c,
                t,
            ).2)),
        forall|r: int, s: int|
            0 <= r <= rings && 0 <= s < sectors ==> #[trigger] arcs2[r]@[s] == (arcs[r]@[s] && !(
            turn_wall(sectors, c, t).0 && r == turn_wall(sectors, c, t).1 && s == turn_wall(
                sectors,
                c,
                t,
            ).2)),
    ensures
        ring_opens_marked(radial2, arcs2, marks2, rings, sectors),
{
    let cells = ring_cells(rings, sectors);
    let n = turn_target(sectors, c, t);
    let wall = turn_wall(sectors, c, t);
    assert(cells(c) && cells(n));
    assert(marked(marks2, c) && marked(marks2, n));
    lemma_prev_sector(sectors, c.0);
    assert forall|r: int, s: int|
        0 <= r < rings && 0 <= s < sectors && !(#[trigger] radial2[r]@[s]) implies marked(
        marks2,
        (s, r),
    ) && marked(marks2, ((s + 1) % sectors, r)) by {
        assert(0 <= (s + 1) % sectors < sectors) by (nonlinear_arith)
            requires
                sectors >= 1,
        ;
        assert(cells((s, r)) && cells(((s + 1) % sectors, r)));
        if !radial[r]@[s] {
            assert(marked(marks, (s, r)) && marked(marks, ((s + 1) % sectors, r)));
        }
    }
    assert forall|r: int, s: int|
        1 <= r < rings && 0 <= s < sectors && !(#[trigger] arcs2[r]@[s]) implies marked(
        marks2,
        (s, r - 1),
    ) && marked(marks2, (s, r)) by {
        assert(cells((s, r - 1)) && cells((s, r)));
        if !arcs[r]@[s] {
            assert(marked(marks, (s, r - 1)) && marked(marks, (s, r)));
        }
    }
}

/// Carves the maze from cell `(0, 0)` by depth-first search.
#[verifier::rlimit(90)]
#[verifier::spinoff_prover]
fn carve_rings(
    radial: &mut Vec<Vec<bool>>,
    arcs: &mut Vec<Vec<bool>>,
    rings: usize,
    sectors: usize,
    rng: &mut ChaCha8Rng,
)
    requires
        ring_size_ok(rings as int, sectors as int),
        ring_walls_shaped(old(radial)@, old(arcs)@, rings as int, sectors as int),
        grid_filled(old(radial)@, rings as int, sectors as int, true),
        grid_filled(old(arcs)@, rings + 1, sectors as int, true),
    ensures
        ring_walls_shaped(final(radial)@, final(arcs)@, rings as int, sectors as int),
        final(arcs)@[rings as int] == old(arcs)@[rings as int],
        final(arcs)@[0] == old(arcs)@[0],
        open_count(final(radial)@, final(arcs)@) == rings * sectors - 1,
        forall|c: Node|
            #![trigger ring_cells(rings as int, sectors as int)(c)]
            ring_cells(rings as int, sectors as int)(c) ==> linked(
                ring_steps(final(radial)@, final(arcs)@, sectors as int),
                ring_cells(rings as int, sectors as int),
                (0, 0),
                c,
            ),
{
    let ghost ri = rings as int;
    let ghost si = sectors as int;
    let ghost cells = ring_cells(ri, si);
    let ghost outer = arcs@[ri];
    let ghost centre = arcs@[0];
    let mut visited = filled_grid(rings, sectors, false);
    let ghost vis_init = visited@;
    mark_cell(&mut visited, 0, 0);
    let mut stack: Vec<(usize, usize)> = Vec::new();
    stack.push((0, 0));
    let ghost mut parent: Map<Node, Node> = Map::empty();
    let ghost mut depth: Map<Node, nat> = Map::empty().insert((0, 0), 0nat);
    proof {
        lemma_grid_count_const(radial@, ri, si, true);
        lemma_grid_count_const(arcs@, ri + 1, si, true);
        lemma_grid_count_const(vis_init, ri, si, false);
        lemma_grid_count_set(vis_init, visited@, 0, 0);
        assert forall|d: Node| #[trigger] cells(d) implies 0 <= d.1 < vis_init.len() && 0 <= d.0
            < vis_init[d.1]@.len() by {}
        lemma_mark_one(vis_init, visited@, cells, 0, 0);
        assert forall|c: Node| #![trigger marked(visited@, c)] cells(c) && marked(visited@, c)
            implies stack@.contains((c.1 as usize, c.0 as usize)) by {
            assert(!marked(vis_init, c));
            assert(stack@[0] == (0usize, 0usize));
        }
    }
    while stack.len() > 0
        invariant
            ring_size_ok(ri, si),
            ri == rings,
            si == sectors,
            cells == ring_cells(ri, si),
            ring_walls_shaped(radial@, arcs@, ri, si),
            arcs@[ri] == outer,
            arcs@[0] == centre,
            marks_shaped(visited@, si, ri),
            marked(visited@, (0, 0)),
            forall|i: int|
                #![trigger stack@[i]]
                0 <= i < stack@.len() ==> cells((stack@[i].1 as int, stack@[i].0 as int)) && marked(
                    visited@,
                    (stack@[i].1 as int, stack@[i].0 as int),
                ),
            ring_marks_closed(visited@, stack@, ri, si),
            spanning_tree(ring_steps(radial@, arcs@, si), cells, visited@, (0, 0), parent, depth),
            ring_opens_marked(radial@, arcs@, visited@, ri, si),
            open_count(radial@, arcs@) + grid_false_count(visited@) == ri * si - 1,
        decreases grid_false_count(visited@), stack@.len(),
    {
        let top = stack.len() - 1;
        let (cr, cs) = stack[top];
        let ghost c: Node = (cs as int, cr as int);
        let ns = ring_unvisited_neighbors(&visited, rings, sectors, cr, cs);
        if ns.len() == 0 {
            let ghost old_stack = stack@;
            stack.pop();
            proof {
                assert forall|d: Node|
                    #![trigger marked(visited@, d)]
                    cells(d) && marked(visited@, d) implies (stack@.contains((d.1 as usize, d.0 as usize))
                    || forall|n: Node| cells(n) && #[trigger] ring_adjacent(si, d, n) ==> marked(visited@, n)) by {
                    if d == c {
                    } else if old_stack.contains((d.1 as usize, d.0 as usize)) {
                        let k = choose|k: int| 0 <= k < old_stack.len() && old_stack[k] == (d.1 as usize, d.0 as usize);
                        if k == top {
                            assert(d.0 as usize as int == d.0 && d.1 as usize as int == d.1);
                        } else {
                            assert(stack@[k] == old_stack[k]);
                        }
                    }
                }
                assert forall|i: int| #![trigger stack@[i]] 0 <= i < stack@.len() implies cells(
                    (stack@[i].1 as int, stack@[i].0 as int),
                ) && marked(visited@, (stack@[i].1 as int, stack@[i].0 as int)) by {
                    assert(stack@[i] == old_stack[i]);
                }
            }
        } else {
            let k = rng_below(rng, ns.len());
            let (nr, nsec, t) = ns[k];
            let ghost n: Node = (nsec as int, nr as int);
            assert(entry_cell(ns@[k as int]) == n);
            let ghost r0 = radial@;
            let ghost a0 = arcs@;
            let ghost vis0 = visited@;
            let ghost old_stack = stack@;
            proof {
                assert(n == turn_target(si, c, t));
                lemma_ring_wall_was_closed(r0, a0, vis0, ri, si, c, t);
            }
            open_ring_wall(radial, arcs, rings, sectors, cr, cs, t);
            mark_cell(&mut visited, nsec, nr);
            stack.push((nr, nsec));
            proof {
                lemma_grid_count_set(vis0, visited@, nr as int, nsec as int);
                assert forall|d: Node| #[trigger] cells(d) implies 0 <= d.1 < vis0.len() && 0 <= d.0
                    < vis0[d.1]@.len() by {}
                lemma_mark_one(vis0, visited@, cells, nsec as int, nr as int);
                assert(marked(vis0, c));
                lemma_ring_opens_grow(r0, a0, radial@, arcs@, vis0, visited@, ri, si, c, t);
                lemma_ring_steps_kept(r0, a0, radial@, arcs@, ri, si);
                assert(marked(vis0, c));
                lemma_tree_extend(
                    ring_steps(r0, a0, si),
                    ring_steps(radial@, arcs@, si),
                    cells,
                    vis0,
                    visited@,
                    (0, 0),
                    parent,
                    depth,
                    n,
                    c,
                );
                parent = parent.insert(n, c);
                depth = depth.insert(n, depth[c] + 1);
                assert forall|d: Node|
                    #![trigger marked(visited@, d)]
                    cells(d) && marked(visited@, d) implies (stack@.contains((d.1 as usize, d.0 as usize))
                    || forall|m: Node| cells(m) && #[trigger] ring_adjacent(si, d, m) ==> marked(visited@, m)) by {
                    if d == n {
                        assert(stack@[stack@.len() - 1] == (nr, nsec));
                    } else {
                        assert(marked(vis0, d));
                        if old_stack.contains((d.1 as usize, d.0 as usize)) {
                            let j = choose|j: int| 0 <= j < old_stack.len() && old_stack[j] == (d.1 as usize, d.0 as usize);
                            assert(stack@[j] == old_stack[j]);
                        } else {
                            assert forall|m: Node| cells(m) && #[trigger] ring_adjacent(si, d, m) implies marked(visited@, m) by {
                                assert(marked(vis0, m));
                            }
                        }
                    }
                }
                assert forall|i: int| #![trigger stack@[i]] 0 <= i < stack@.len() implies cells(
                    (stack@[i].1 as int, stack@[i].0 as int),
                ) && marked(visited@, (stack@[i].1 as int, stack@[i].0 as int)) by {
                    if i < old_stack.len() {
                        assert(stack@[i] == old_stack[i]);
                    }
                }
            }
        }
    }
    proof {
        let marks = |d: Node| marked(visited@, d);
        assert forall|a: Node, b: Node|
            cells(a) && cells(b) && ring_adjacent(si, a, b) && #[trigger] marks(a) implies #[trigger] marks(b) by {
            assert(marked(visited@, a));
            assert(!stack@.contains((a.1 as usize, a.0 as usize)));
        }
        assert forall|c: Node| #![trigger ring_cells(ri, si)(c)] ring_cells(ri, si)(c) implies linked(
            ring_steps(radial@, arcs@, si),
            ring_cells(ri, si),
            (0, 0),
            c,
        ) by {
            lemma_ring_marks_fill(marks, ri, si, c);
            assert(cells((0, 0)));
            lemma_tree_links(ring_steps(radial@, arcs@, si), cells, visited@, (0, 0), parent, depth, c);
        }
        assert forall|r: int, s: int| 0 <= r < ri && 0 <= s < si implies #[trigger] visited@[r]@[s]
            == true by {
            assert(cells((s, r)));
            lemma_ring_marks_fill(marks, ri, si, (s, r));
        }
        lemma_grid_count_const(visited@, ri, si, true);
    }
}

/// Carves a circular maze of `rings` rings of `sectors` cells, drawing from
/// `rng`; then opens the centre arc of sector 0 and the outer arc of a
/// sector drawn from `rng`.
pub fn carve_circular_maze(rings: usize, sectors: usize, rng: &mut ChaCha8Rng) -> (m: CircularMaze)
    requires
        ring_size_ok(rings as int, sectors as int),
    ensures
        m.rings == rings,
        m.sectors == sectors,
        m.shaped(),
        m.doors(),
        m.all_reachable(),
        m.open_walls() == rings * sectors + 1,
        set_positions(m.arcs@, 1, rings + 1, sectors as int).len() + set_positions(
            m.radial@,
            0,
            rings as int,
            sectors as int,
        ).len() == rings * sectors,
{
    let ghost ri = rings as int;
    let ghost si = sectors as int;
    let mut radial = filled_grid(rings, sectors, true);
    let mut arcs = filled_grid(rings + 1, sectors, true);
    carve_rings(&mut radial, &mut arcs, rings, sectors, rng);
    let ghost r0 = radial@;
    let ghost a0 = arcs@;
    arcs[0][0] = false;
    let ghost a1 = arcs@;
    let exit = rng_below(rng, sectors);
    arcs[rings][exit] = false;
    let m = CircularMaze { rings, sectors, radial, arcs, exit };
    proof {
        lemma_grid_count_clear(a0, a1, 0, 0);
        lemma_grid_count_clear(a1, m.arcs@, ri, exit as int);
        assert(opens_kept(r0, a0, m.radial@, m.arcs@));
        lemma_ring_steps_kept(r0, a0, m.radial@, m.arcs@, ri, si);
        assert forall|c: Node| #![trigger ring_cells(ri, si)(c)] ring_cells(ri, si)(c) implies linked(
            ring_steps(m.radial@, m.arcs@, si),
            ring_cells(ri, si),
            (0, 0),
            c,
        ) by {
            lemma_linked_mono(ring_steps(r0, a0, si), ring_steps(m.radial@, m.arcs@, si), ring_cells(ri, si), (0, 0), c);
        }
    }
    proof {
        m.lemma_closed_walls_count();
    }
    m
}

/// The positions `(r, s)` of the set entries of rows `0..rows` of `g`, each
/// row holding `cols` entries, row by row; rows before `from` are left out.
pub open spec fn set_positions(g: Seq<Vec<bool>>, from: int, rows: int, cols: int) -> Seq<(usize, usize)>
    decreases rows - from,
{
    if rows <= from {
        Seq::empty()
    } else {
        set_positions(g, from, rows - 1, cols) + row_positions(g[rows - 1]@, rows - 1, cols)
    }
}

/// The positions `(r, s)` of the set entries among the first `n` of row `r`.
pub open spec fn row_positions(row: Seq<bool>, r: int, n: int) -> Seq<(usize, usize)>
    decreases n,
{
    if n <= 0 {
        Seq::empty()
    } else {
        row_positions(row, r, n - 1) + if row[n - 1] {
            seq![(r as usize, (n - 1) as usize)]
        } else {
            Seq::empty()
        }
    }
}

proof fn lemma_row_positions_len(row: Seq<bool>, r: int, n: int)
    requires
        0 <= n <= row.len(),
    ensures
        row_positions(row, r, n).len() + row_false_count(row.take(n)) == n,
    decreases n,
{
    if n > 0 {
        lemma_row_positions_len(row, r, n - 1);
        assert(row.take(n).drop_last() =~= row.take(n - 1));
        assert(row.take(n).last() == row[n - 1]);
    } else {
        assert(row.take(0).len() == 0);
    }
}

/// The set entries of rows `from..rows` and the unset entries of those rows
/// fill them.
proof fn lemma_set_positions_len(g: Seq<Vec<bool>>, from: int, rows: int, cols: int)
    requires
        0 <= from <= rows <= g.len(),
        cols >= 0,
        forall|r: int| 0 <= r < rows ==> (#[trigger] g[r])@.len() == cols,
    ensures
        set_positions(g, from, rows, cols).len() + grid_false_count(g.take(rows)) == (rows - from) * cols
            + grid_false_count(g.take(from)),
    decreases rows - from,
{
    if rows > from {
        lemma_set_positions_len(g, from, rows - 1, cols);
        assert(g.take(rows).drop_last() =~= g.take(rows - 1));
        assert(g.take(rows).last() == g[rows - 1]);
        lemma_row_positions_len(g[rows - 1]@, rows - 1, cols);
        assert(g[rows - 1]@.take(cols) =~= g[rows - 1]@);
        assert((rows - 1 - from) * cols + cols == (rows - from) * cols) by (nonlinear_arith);
    } else {
        assert((rows - from) * cols == 0) by (nonlinear_arith)
            requires
                rows == from,
        ;
    }
}

/// A row whose only unset entry is the first has one unset entry.
proof fn lemma_row_one_open(row: Seq<bool>)
    requires
        row.len() >= 1,
        !row[0],
        forall|s: int| 1 <= s < row.len() ==> #[trigger] row[s],
    ensures
        row_false_count(row) == 1,
    decreases row.len(),
{
    let d = row.drop_last();
    if row.len() > 1 {
        assert(d[0] == row[0]);
        assert forall|s: int| 1 <= s < d.len() implies #[trigger] d[s] by {
            assert(d[s] == row[s]);
        }
        lemma_row_one_open(d);
        assert(row[row.len() - 1]);
    } else {
        assert(d.len() == 0);
    }
    assert(row.last() == row[row.len() - 1]);
    assert(row_false_count(row) == row_false_count(d) + if row.last() {
        0nat
    } else {
        1nat
    });
}

fn push_row_positions(out: &mut Vec<(usize, usize)>, row: &Vec<bool>, r: usize, n: usize)
    requires
        row@.len() == n,
    ensures
        final(out)@ == old(out)@ + row_positions(row@, r as int, n as int),
{
    let ghost o0 = out@;
    let mut s: usize = 0;
    while s < n
        invariant
            s <= n,
            row@.len() == n,
            out@ == o0 + row_positions(row@, r as int, s as int),
        decreases n - s,
    {
        if row[s] {
            out.push((r, s));
        }
        proof {
            assert(out@ =~= o0 + row_positions(row@, r as int, s + 1));
        }
        s = s + 1;
    }
}

fn set_positions_of(g: &Vec<Vec<bool>>, from: usize, rows: usize, cols: usize) -> (out: Vec<(usize, usize)>)
    requires
        from <= rows,
        rows <= g@.len(),
        forall|r: int| 0 <= r < rows ==> (#[trigger] g@[r])@.len() == cols,
    ensures
        out@ == set_positions(g@, from as int, rows as int, cols as int),
{
    let mut out: Vec<(usize, usize)> = Vec::new();
    let mut r: usize = from;
    while r < rows
        invariant
            from <= r <= rows,
            rows <= g@.len(),
            forall|k: int| 0 <= k < rows ==> (#[trigger] g@[k])@.len() == cols,
            out@ == set_positions(g@, from as int, r as int, cols as int),
        decreases rows - r,
    {
        push_row_positions(&mut out, &g[r], r, cols);
        r = r + 1;
    }
    out
}

impl CircularMaze {
    /// A carved maze lists `rings * sectors` closed walls away from the
    /// centre: of its `2 * rings * sectors` arcs (outside the centre) and
    /// radial walls, the `rings * sectors - 1` inner openings and the exit
    /// are open.
    pub proof fn lemma_closed_walls_count(&self)
        requires
            self.shaped(),
            self.doors(),
            self.open_walls() == self.rings * self.sectors + 1,
        ensures
            set_positions(self.arcs@, 1, self.rings + 1, self.sectors as int).len() + set_positions(
                self.radial@,
                0,
                self.rings as int,
                self.sectors as int,
            ).len() == self.rings * self.sectors,
    {
        let ri = self.rings as int;
        let si = self.sectors as int;
        lemma_set_positions_len(self.arcs@, 1, ri + 1, si);
        lemma_set_positions_len(self.radial@, 0, ri, si);
        assert(self.arcs@.take(ri + 1) =~= self.arcs@);
        assert(self.radial@.take(ri) =~= self.radial@);
        assert(self.radial@.take(0).len() == 0);
        assert(grid_false_count(self.radial@.take(0)) == 0);
        let a0 = self.arcs@.take(1);
        assert(a0.drop_last().len() == 0);
        assert(grid_false_count(a0.drop_last()) == 0);
        assert(a0.last() == self.arcs@[0]);
        assert(si >= 1) by {
            assert(self.exit < self.sectors);
        }
        assert(!self.arcs@[0]@[0]);
        assert(self.arcs@[0]@.len() == si);
        lemma_row_one_open(self.arcs@[0]@);
        assert(grid_false_count(a0) == 1);
    }

    /// The closed arcs `(r, s)` away from the centre (`r >= 1`), ring by ring.
    pub fn closed_arcs(&self) -> (out: Vec<(usize, usize)>)
        requires
            self.shaped(),
        ensures
            out@ == set_positions(self.arcs@, 1, self.rings + 1, self.sectors as int),
    {
        set_positions_of(&self.arcs, 1, self.arcs.len(), self.sectors)
    }

    /// The closed radial walls `(r, s)`, ring by ring.
    pub fn closed_radials(&self) -> (out: Vec<(usize, usize)>)
        requires
            self.shaped(),
        ensures
            out@ == set_positions(self.radial@, 0, self.rings as int, self.sectors as int),
    {
        set_positions_of(&self.radial, 0, self.radial.len(), self.sectors)
    }
}

} // verus!
