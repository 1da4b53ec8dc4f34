//! Rectangular cell grids with walls: which walls are open, paths of open
//! walls between cells, and the facts about paths the maze proofs use.
//!
//! A cell is `(x, y)` with `0 <= x < w` and `0 <= y < h`. `horiz[y][x]` is the
//! wall above cell `(x, y)` (row `y` of horizontal walls, `0 <= y <= h`), and
//! `vert[y][x]` the wall left of cell `(x, y)` (`0 <= x <= w`).

use vstd::prelude::*;
use crate::graph::{
    Node, linked, steps_kept, marked, spanning_tree, marks_plus, lemma_linked_refl, lemma_linked_step,
    lemma_linked_symmetric, lemma_linked_trans, lemma_linked_mono, lemma_tree_links, lemma_tree_extend,
    lemma_mark_one,
};

verus! {

/// A cell position `(x, y)`.
pub type Cell = Node;

/// `c` lies in the `w` by `h` grid.
pub open spec fn in_grid(w: int, h: int, c: Cell) -> bool {
    0 <= c.0 < w && 0 <= c.1 < h
}

/// The cells of the `w` by `h` grid.
pub open spec fn grid_cells(w: int, h: int) -> spec_fn(Cell) -> bool {
    |c: Cell| in_grid(w, h, c)
}

/// The wall grids have the shape of a `w` by `h` maze.
pub open spec fn walls_shaped(horiz: Seq<Vec<bool>>, vert: Seq<Vec<bool>>, w: int, h: int) -> bool {
    &&& horiz.len() == h + 1
    &&& vert.len() == h
    &&& forall|y: int| 0 <= y < horiz.len() ==> (#[trigger] horiz[y])@.len() == w
    &&& forall|y: int| 0 <= y < vert.len() ==> (#[trigger] vert[y])@.len() == w + 1
}

/// `a` and `b` are neighbouring cells and the wall between them is open.
pub open spec fn open_between(horiz: Seq<Vec<bool>>, vert: Seq<Vec<bool>>, a: Cell, b: Cell) -> bool {
    if a.1 == b.1 && b.0 == a.0 + 1 {
        !vert[a.1]@[b.0]
    } else if a.1 == b.1 && a.0 == b.0 + 1 {
        !vert[a.1]@[a.0]
    } else if a.0 == b.0 && b.1 == a.1 + 1 {
        !horiz[b.1]@[a.0]
    } else if a.0 == b.0 && a.1 == b.1 + 1 {
        !horiz[a.1]@[a.0]
    } else {
        false
    }
}

/// The steps through open walls.
pub open spec fn wall_steps(horiz: Seq<Vec<bool>>, vert: Seq<Vec<bool>>) -> spec_fn(Cell, Cell) -> bool {
    |a: Cell, b: Cell| open_between(horiz, vert, a, b)
}

/// `a` and `b` are neighbouring cells (they share a side).
pub open spec fn adjacent(a: Cell, b: Cell) -> bool {
    ||| a.1 == b.1 && b.0 == a.0 + 1
    ||| a.1 == b.1 && a.0 == b.0 + 1
    ||| a.0 == b.0 && b.1 == a.1 + 1
    ||| a.0 == b.0 && a.1 == b.1 + 1
}

/// Some walk through open walls of the `w` by `h` grid leads from `a` to `b`.
pub open spec fn connected(
    horiz: Seq<Vec<bool>>,
    vert: Seq<Vec<bool>>,
    w: int,
    h: int,
    a: Cell,
    b: Cell,
) -> bool {
    linked(wall_steps(horiz, vert), grid_cells(w, h), a, b)
}

/// Every wall open in the first grids is open in the second ones.
pub open spec fn opens_kept(
    horiz: Seq<Vec<bool>>,
    vert: Seq<Vec<bool>>,
    horiz2: Seq<Vec<bool>>,
    vert2: Seq<Vec<bool>>,
) -> bool {
    &&& horiz2.len() == horiz.len()
    &&& vert2.len() == vert.len()
    &&& forall|y: int|
        0 <= y < horiz.len() ==> (#[trigger] horiz2[y])@.len() == horiz[y]@.len()
    &&& forall|y: int| 0 <= y < vert.len() ==> (#[trigger] vert2[y])@.len() == vert[y]@.len()
    &&& forall|y: int, x: int|
        0 <= y < horiz.len() && 0 <= x < horiz[y]@.len() && !horiz[y]@[x] ==> !(
        #[trigger] horiz2[y]@[x])
    &&& forall|y: int, x: int|
        0 <= y < vert.len() && 0 <= x < vert[y]@.len() && !vert[y]@[x] ==> !(
        #[trigger] vert2[y]@[x])
}

/// A cell is connected to itself.
pub proof fn lemma_connected_refl(
    horiz: Seq<Vec<bool>>,
    vert: Seq<Vec<bool>>,
    w: int,
    h: int,
    a: Cell,
)
    requires
        in_grid(w, h, a),
    ensures
        connected(horiz, vert, w, h, a, a),
{
    lemma_linked_refl(wall_steps(horiz, vert), grid_cells(w, h), a);
}

/// Crossing one more open wall extends a connection.
pub proof fn lemma_connected_step(
    horiz: Seq<Vec<bool>>,
    vert: Seq<Vec<bool>>,
    w: int,
    h: int,
    a: Cell,
    b: Cell,
    c: Cell,
)
    requires
        connected(horiz, vert, w, h, a, b),
        in_grid(w, h, c),
        open_between(horiz, vert, b, c),
    ensures
        connected(horiz, vert, w, h, a, c),
{
    lemma_linked_step(wall_steps(horiz, vert), grid_cells(w, h), a, b, c);
}

/// Opening a wall is the same from either side.
pub proof fn lemma_open_between_symmetric(
    horiz: Seq<Vec<bool>>,
    vert: Seq<Vec<bool>>,
    a: Cell,
    b: Cell,
)
    ensures
        open_between(horiz, vert, a, b) == open_between(horiz, vert, b, a),
{
}

/// Connections run both ways.
pub proof fn lemma_connected_symmetric(
    horiz: Seq<Vec<bool>>,
    vert: Seq<Vec<bool>>,
    w: int,
    h: int,
    a: Cell,
    b: Cell,
)
    requires
        connected(horiz, vert, w, h, a, b),
    ensures
        connected(horiz, vert, w, h, b, a),
{
    let steps = wall_steps(horiz, vert);
    let cells = grid_cells(w, h);
    assert forall|x: Cell, y: Cell| cells(x) && cells(y) && #[trigger] steps(x, y) implies steps(y, x) by {
        lemma_open_between_symmetric(horiz, vert, x, y);
    }
    lemma_linked_symmetric(steps, cells, a, b);
}

/// Connections chain.
pub proof fn lemma_connected_trans(
    horiz: Seq<Vec<bool>>,
    vert: Seq<Vec<bool>>,
    w: int,
    h: int,
    a: Cell,
    b: Cell,
    c: Cell,
)
    requires
        connected(horiz, vert, w, h, a, b),
        connected(horiz, vert, w, h, b, c),
    ensures
        connected(horiz, vert, w, h, a, c),
{
    lemma_linked_trans(wall_steps(horiz, vert), grid_cells(w, h), a, b, c);
}

/// Walls only ever opened keep every open step.
pub proof fn lemma_opens_kept_steps(
    horiz: Seq<Vec<bool>>,
    vert: Seq<Vec<bool>>,
    horiz2: Seq<Vec<bool>>,
    vert2: Seq<Vec<bool>>,
    w: int,
    h: int,
)
    requires
        walls_shaped(horiz, vert, w, h),
        opens_kept(horiz, vert, horiz2, vert2),
    ensures
        steps_kept(wall_steps(horiz, vert), wall_steps(horiz2, vert2), grid_cells(w, h)),
{
    let steps = wall_steps(horiz, vert);
    let steps2 = wall_steps(horiz2, vert2);
    let cells = grid_cells(w, h);
    assert forall|a: Cell, b: Cell| cells(a) && cells(b) && #[trigger] steps(a, b) implies steps2(a, b) by {
        assert(in_grid(w, h, a) && in_grid(w, h, b));
        assert(open_between(horiz, vert, a, b));
    }
}

/// Opening more walls keeps every connection.
pub proof fn lemma_connected_mono(
    horiz: Seq<Vec<bool>>,
    vert: Seq<Vec<bool>>,
    horiz2: Seq<Vec<bool>>,
    vert2: Seq<Vec<bool>>,
    w: int,
    h: int,
    a: Cell,
    b: Cell,
)
    requires
        walls_shaped(horiz, vert, w, h),
        opens_kept(horiz, vert, horiz2, vert2),
        connected(horiz, vert, w, h, a, b),
    ensures
        connected(horiz2, vert2, w, h, a, b),
{
    lemma_opens_kept_steps(horiz, vert, horiz2, vert2, w, h);
    lemma_linked_mono(wall_steps(horiz, vert), wall_steps(horiz2, vert2), grid_cells(w, h), a, b);
}

/// A spanning tree of the marked cells of the grid, rooted at `root`.
pub open spec fn tree_of_marked(
    horiz: Seq<Vec<bool>>,
    vert: Seq<Vec<bool>>,
    marks: Seq<Vec<bool>>,
    w: int,
    h: int,
    root: Cell,
    parent: Map<Cell, Cell>,
    depth: Map<Cell, nat>,
) -> bool {
    spanning_tree(wall_steps(horiz, vert), grid_cells(w, h), marks, root, parent, depth)
}

/// Every marked cell of such a tree is connected to the root.
pub proof fn lemma_tree_connects(
    horiz: Seq<Vec<bool>>,
    vert: Seq<Vec<bool>>,
    marks: Seq<Vec<bool>>,
    w: int,
    h: int,
    root: Cell,
    parent: Map<Cell, Cell>,
    depth: Map<Cell, nat>,
    c: Cell,
)
    requires
        tree_of_marked(horiz, vert, marks, w, h, root, parent, depth),
        in_grid(w, h, root),
        in_grid(w, h, c),
        marked(marks, c),
    ensures
        connected(horiz, vert, w, h, root, c),
{
    lemma_tree_links(wall_steps(horiz, vert), grid_cells(w, h), marks, root, parent, depth, c);
}

/// The cell marks of a grid: `h` rows of `w` entries.
pub open spec fn marks_shaped(marks: Seq<Vec<bool>>, w: int, h: int) -> bool {
    &&& marks.len() == h
    &&& forall|y: int| 0 <= y < h ==> (#[trigger] marks[y])@.len() == w
}

/// Marking cell `(x, y)` of a grid's marks adds exactly that cell.
pub proof fn lemma_grid_mark_one(marks: Seq<Vec<bool>>, marks2: Seq<Vec<bool>>, w: int, h: int, x: int, y: int)
    requires
        marks_shaped(marks, w, h),
        in_grid(w, h, (x, y)),
        marks2.len() == h,
        marks2[y]@ == marks[y]@.update(x, true),
        forall|k: int| 0 <= k < h && k != y ==> marks2[k] == marks[k],
    ensures
        marks_plus(marks, marks2, grid_cells(w, h), (x, y)),
{
    let cells = grid_cells(w, h);
    assert forall|d: Cell| #[trigger] cells(d) implies 0 <= d.1 < marks.len() && 0 <= d.0 < marks[d.1]@.len() by {
        assert(in_grid(w, h, d));
    }
    lemma_mark_one(marks, marks2, cells, x, y);
}

/// Hanging a newly marked cell `t` below its marked neighbour `f`, across a
/// wall just opened, keeps the spanning tree.
pub proof fn lemma_tree_grow(
    horiz: Seq<Vec<bool>>,
    vert: Seq<Vec<bool>>,
    horiz2: Seq<Vec<bool>>,
    vert2: Seq<Vec<bool>>,
    marks: Seq<Vec<bool>>,
    marks2: Seq<Vec<bool>>,
    w: int,
    h: int,
    root: Cell,
    parent: Map<Cell, Cell>,
    depth: Map<Cell, nat>,
    t: Cell,
    f: Cell,
)
    requires
        walls_shaped(horiz, vert, w, h),
        opens_kept(horiz, vert, horiz2, vert2),
        tree_of_marked(horiz, vert, marks, w, h, root, parent, depth),
        in_grid(w, h, root),
        marked(marks, root),
        in_grid(w, h, t),
        in_grid(w, h, f),
        marked(marks, f),
        !marked(marks, t),
        marks_plus(marks, marks2, grid_cells(w, h), t),
        open_between(horiz2, vert2, f, t),
    ensures
        tree_of_marked(
            horiz2,
            vert2,
            marks2,
            w,
            h,
            root,
            parent.insert(t, f),
            depth.insert(t, depth[f] + 1),
        ),
{
    lemma_opens_kept_steps(horiz, vert, horiz2, vert2, w, h);
    lemma_tree_extend(
        wall_steps(horiz, vert),
        wall_steps(horiz2, vert2),
        grid_cells(w, h),
        marks,
        marks2,
        root,
        parent,
        depth,
        t,
        f,
    );
}

/// Number of `false` entries of a row.
pub open spec fn row_false_count(row: Seq<bool>) -> nat
    decreases row.len(),
{
    if row.len() == 0 {
        0
    } else {
        row_false_count(row.drop_last()) + if row.last() {
            0nat
        } else {
            1nat
        }
    }
}

/// Number of `false` entries of a grid.
pub open spec fn grid_false_count(g: Seq<Vec<bool>>) -> nat
    decreases g.len(),
{
    if g.len() == 0 {
        0
    } else {
        grid_false_count(g.drop_last()) + row_false_count(g.last()@)
    }
}

proof fn lemma_row_count_set(row: Seq<bool>, i: int)
    requires
        0 <= i < row.len(),
        !row[i],
    ensures
        row_false_count(row) >= 1,
        row_false_count(row.update(i, true)) == row_false_count(row) - 1,
    decreases row.len(),
{
    let r2 = row.update(i, true);
    if i == row.len() - 1 {
        assert(r2.drop_last() =~= row.drop_last());
    } else {
        assert(r2.drop_last() =~= row.drop_last().update(i, true));
        lemma_row_count_set(row.drop_last(), i);
    }
}

/// Setting one `false` cell of a grid to `true` lowers the count by one.
pub proof fn lemma_grid_count_set(g: Seq<Vec<bool>>, g2: Seq<Vec<bool>>, y: int, x: int)
    requires
        0 <= y < g.len(),
        0 <= x < g[y]@.len(),
        !g[y]@[x],
        g2.len() == g.len(),
        g2[y]@ == g[y]@.update(x, true),
        forall|k: int| 0 <= k < g.len() && k != y ==> g2[k]@ == g[k]@,
    ensures
        grid_false_count(g) >= 1,
        grid_false_count(g2) == grid_false_count(g) - 1,
    decreases g.len(),
{
    if y == g.len() - 1 {
        lemma_row_count_set(g[y]@, x);
        assert forall|k: int| 0 <= k < g.len() - 1 implies g2.drop_last()[k]@
            == g.drop_last()[k]@ by {}
        lemma_grid_count_same(g.drop_last(), g2.drop_last());
    } else {
        lemma_grid_count_set(g.drop_last(), g2.drop_last(), y, x);
        assert(g2.last()@ == g.last()@);
    }
}

proof fn lemma_grid_count_same(g: Seq<Vec<bool>>, g2: Seq<Vec<bool>>)
    requires
        g2.len() == g.len(),
        forall|k: int| 0 <= k < g.len() ==> g2[k]@ == g[k]@,
    ensures
        grid_false_count(g2) == grid_false_count(g),
    decreases g.len(),
{
    if g.len() > 0 {
        lemma_grid_count_same(g.drop_last(), g2.drop_last());
        assert(g2.last()@ == g.last()@);
    }
}

/// Number of open walls in both wall grids, the outer border included.
pub open spec fn open_count(horiz: Seq<Vec<bool>>, vert: Seq<Vec<bool>>) -> nat {
    grid_false_count(horiz) + grid_false_count(vert)
}

/// `g` has `rows` rows of `cols` entries, each equal to `val`.
pub open spec fn grid_filled(g: Seq<Vec<bool>>, rows: int, cols: int, val: bool) -> bool {
    &&& g.len() == rows
    &&& forall|y: int| 0 <= y < rows ==> (#[trigger] g[y])@.len() == cols
    &&& forall|y: int, x: int| 0 <= y < rows && 0 <= x < cols ==> #[trigger] g[y]@[x] == val
}

proof fn lemma_row_count_const(row: Seq<bool>, val: bool)
    requires
        forall|x: int| 0 <= x < row.len() ==> #[trigger] row[x] == val,
    ensures
        row_false_count(row) == if val {
            0
        } else {
            row.len()
        },
    decreases row.len(),
{
    if row.len() > 0 {
        lemma_row_count_const(row.drop_last(), val);
    }
}

/// A grid holding `true` everywhere has no `false` entry; one holding
/// `false` everywhere has `rows * cols` of them.
pub proof fn lemma_grid_count_const(g: Seq<Vec<bool>>, rows: int, cols: int, val: bool)
    requires
        grid_filled(g, rows, cols, val),
        cols >= 0,
    ensures
        grid_false_count(g) == if val {
            0
        } else {
            rows * cols
        },
    decreases g.len(),
{
    if g.len() > 0 {
        let g1 = g.drop_last();
        assert forall|y: int, x: int| 0 <= y < rows - 1 && 0 <= x < cols implies #[trigger] g1[y]@[x]
            == val by {
            assert(g1[y] == g[y]);
        }
        assert forall|y: int| 0 <= y < rows - 1 implies (#[trigger] g1[y])@.len() == cols by {
            assert(g1[y] == g[y]);
        }
        lemma_grid_count_const(g1, rows - 1, cols, val);
        assert forall|x: int| 0 <= x < g.last()@.len() implies #[trigger] g.last()@[x] == val by {
            assert(g[rows - 1]@[x] == val);
        }
        lemma_row_count_const(g.last()@, val);
        assert(g.last() == g[rows - 1]);
        assert(g.last()@.len() == cols);
        assert((rows - 1) * cols + cols == rows * cols) by (nonlinear_arith);
    } else {
        assert(rows * cols == 0) by (nonlinear_arith)
            requires
                rows == 0,
        ;
    }
}

/// Setting one entry of a grid to `false` raises the count by one if the
/// entry was `true`, and leaves it if it was `false` already.
pub proof fn lemma_grid_count_clear(g: Seq<Vec<bool>>, g2: Seq<Vec<bool>>, y: int, x: int)
    requires
        0 <= y < g.len(),
        0 <= x < g[y]@.len(),
        g2.len() == g.len(),
        g2[y]@ == g[y]@.update(x, false),
        forall|k: int| 0 <= k < g.len() && k != y ==> g2[k]@ == g[k]@,
    ensures
        grid_false_count(g2) == grid_false_count(g) + if g[y]@[x] {
            1nat
        } else {
            0nat
        },
{
    if g[y]@[x] {
        assert(g[y]@ =~= g2[y]@.update(x, true));
        lemma_grid_count_set(g2, g, y, x);
    } else {
        assert(g2[y]@ =~= g[y]@);
        lemma_grid_count_same(g, g2);
    }
}

/// Every open wall between two cells of the grid joins two marked cells.
pub open spec fn opens_marked(
    horiz: Seq<Vec<bool>>,
    vert: Seq<Vec<bool>>,
    marks: Seq<Vec<bool>>,
    w: int,
    h: int,
) -> bool {
    forall|p: Cell, q: Cell|
        #![trigger open_between(horiz, vert, p, q)]
        in_grid(w, h, p) && in_grid(w, h, q) && open_between(horiz, vert, p, q) ==> marked(marks, p)
            && marked(marks, q)
}

/// Wall grids with every wall closed have no open wall at all.
pub proof fn lemma_closed_grids(horiz: Seq<Vec<bool>>, vert: Seq<Vec<bool>>, w: int, h: int)
    requires
        w >= 0,
        grid_filled(horiz, h + 1, w, true),
        grid_filled(vert, h, w + 1, true),
    ensures
        open_count(horiz, vert) == 0,
        forall|p: Cell, q: Cell|
            #![trigger open_between(horiz, vert, p, q)]
            in_grid(w, h, p) && in_grid(w, h, q) ==> !open_between(horiz, vert, p, q),
{
    lemma_grid_count_const(horiz, h + 1, w, true);
    lemma_grid_count_const(vert, h, w + 1, true);
}

/// When every marked cell has all its neighbours marked, and some cell `s`
/// is marked, every cell is marked.
pub proof fn lemma_closed_marks_fill(marks: spec_fn(Cell) -> bool, w: int, h: int, s: Cell, c: Cell)
    requires
        in_grid(w, h, s),
        marks(s),
        forall|a: Cell, b: Cell|
            in_grid(w, h, a) && in_grid(w, h, b) && adjacent(a, b) && #[trigger] marks(a)
                ==> #[trigger] marks(b),
        in_grid(w, h, c),
    ensures
        marks(c),
    decreases (if c.0 >= s.0 { c.0 - s.0 } else { s.0 - c.0 }) + (if c.1 >= s.1 {
        c.1 - s.1
    } else {
        s.1 - c.1
    }),
{
    if s.0 < c.0 {
        let t = (s.0 + 1, s.1);
        assert(adjacent(s, t));
        lemma_closed_marks_fill(marks, w, h, t, c);
    } else if s.0 > c.0 {
        let t = (s.0 - 1, s.1);
        assert(adjacent(s, t));
        lemma_closed_marks_fill(marks, w, h, t, c);
    } else if s.1 < c.1 {
        let t = (s.0, s.1 + 1);
        assert(adjacent(s, t));
        lemma_closed_marks_fill(marks, w, h, t, c);
    } else if s.1 > c.1 {
        let t = (s.0, s.1 - 1);
        assert(adjacent(s, t));
        lemma_closed_marks_fill(marks, w, h, t, c);
    }
}

} // verus!
