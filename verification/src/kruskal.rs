//! Kruskal's algorithm on a rectangular grid: list every inner wall, shuffle
//! the list, and open a wall whenever the cells on its two sides are not yet
//! joined, tracking the joined cells in a disjoint set.

use vstd::prelude::*;
use crate::grid::{
    Cell, in_grid, walls_shaped, open_between, adjacent, connected, opens_kept,
    lemma_connected_refl, lemma_connected_step, lemma_connected_symmetric, lemma_connected_trans,
    lemma_connected_mono, lemma_closed_marks_fill, open_count, grid_filled, lemma_closed_grids,
};
use crate::rect_maze::{maze_size_ok, border_closed, all_connected_to, open_wall};
use crate::rng::rng_below;
use crate::disjoint_set::DisjointSet;
use rand_chacha::ChaCha8Rng;

verus! {

/// An inner wall as the algorithm lists it: the cell on one side, the cell
/// on the other side, and whether the wall is horizontal (then the second
/// cell lies below the first; otherwise it lies to its right).
pub type WallEdge = ((usize, usize), (usize, usize), bool);

/// The two cells of an edge.
pub open spec fn edge_cells(e: WallEdge) -> (Cell, Cell) {
    ((e.0.0 as int, e.0.1 as int), (e.1.0 as int, e.1.1 as int))
}

/// The edge between cell `a` and the cell below it.
pub open spec fn down_edge(a: Cell) -> WallEdge {
    ((a.0 as usize, a.1 as usize), (a.0 as usize, (a.1 + 1) as usize), true)
}

/// The edge between cell `a` and the cell to its right.
pub open spec fn right_edge(a: Cell) -> WallEdge {
    ((a.0 as usize, a.1 as usize), ((a.0 + 1) as usize, a.1 as usize), false)
}

/// `e` joins two cells of the grid, the second below or right of the first
/// as its kind says.
pub open spec fn edge_ok(e: WallEdge, w: int, h: int) -> bool {
    let (a, b) = edge_cells(e);
    &&& in_grid(w, h, a)
    &&& in_grid(w, h, b)
    &&& if e.2 {
        b == (a.0, a.1 + 1)
    } else {
        b == (a.0 + 1, a.1)
    }
}

/// Every listed edge is valid.
pub open spec fn edges_ok(edges: Seq<WallEdge>, w: int, h: int) -> bool {
    forall|k: int| 0 <= k < edges.len() ==> edge_ok(#[trigger] edges[k], w, h)
}

/// Every inner wall of the grid is listed.
pub open spec fn edges_cover(edges: Seq<WallEdge>, w: int, h: int) -> bool {
    &&& forall|a: Cell| in_grid(w, h, a) && a.1 + 1 < h ==> edges.contains(#[trigger] down_edge(a))
    &&& forall|a: Cell| in_grid(w, h, a) && a.0 + 1 < w ==> edges.contains(#[trigger] right_edge(a))
}

/// The disjoint-set index of cell `a` in a grid `w` cells wide.
pub open spec fn cell_index(a: Cell, w: int) -> int {
    a.1 * w + a.0
}

/// Cells with the same representative are connected.
pub open spec fn reps_connected(
    reps: Seq<int>,
    horiz: Seq<Vec<bool>>,
    vert: Seq<Vec<bool>>,
    w: int,
    h: int,
) -> bool {
    forall|a: Cell, b: Cell|
        #![trigger connected(horiz, vert, w, h, a, b)]
        in_grid(w, h, a) && in_grid(w, h, b) && reps[cell_index(a, w)] == reps[cell_index(b, w)]
            ==> connected(horiz, vert, w, h, a, b)
}

proof fn lemma_cell_index(w: int, h: int, a: Cell)
    requires
        0 <= a.0 < w,
        0 <= a.1 < h,
    ensures
        0 <= cell_index(a, w) < w * h,
{
    assert(0 <= a.1 * w + a.0 < w * h) by (nonlinear_arith)
        requires
            0 <= a.0 < w,
            0 <= a.1 < h,
    ;
}

proof fn lemma_cell_index_injective(w: int, h: int, a: Cell, b: Cell)
    requires
        in_grid(w, h, a),
        in_grid(w, h, b),
        cell_index(a, w) == cell_index(b, w),
    ensures
        a == b,
{
    let (ax, ay, bx, by) = (a.0, a.1, b.0, b.1);
    assert(ay == by && ax == bx) by (nonlinear_arith)
        requires
            0 <= ax < w,
            0 <= bx < w,
            ay >= 0,
            by >= 0,
            ay * w + ax == by * w + bx,
    {
        if ay < by {
            assert(ay * w + w <= by * w);
        } else if by < ay {
            assert(by * w + w <= ay * w);
        }
    }
}

proof fn lemma_grid_area(w: int, h: int)
    requires
        maze_size_ok(w, h),
    ensures
        w * h <= usize::MAX,
        w * h >= 1,
{
    assert(1 <= w * h <= (w + 1) * (h + 1)) by (nonlinear_arith)
        requires
            w >= 1,
            h >= 1,
    ;
}

proof fn lemma_push_contains<T>(s: Seq<T>, v: T)
    ensures
        s.push(v).contains(v),
        forall|z: T| s.contains(z) ==> #[trigger] s.push(v).contains(z),
{
    assert(s.push(v)[s.len() as int] == v);
    assert forall|z: T| s.contains(z) implies #[trigger] s.push(v).contains(z) by {
        let k = choose|k: int| 0 <= k < s.len() && s[k] == z;
        assert(s.push(v)[k] == z);
    }
}

/// Every inner wall of a `w` by `h` grid: first the horizontal ones row by
/// row, then the vertical ones row by row.
fn wall_edges(w: usize, h: usize) -> (edges: Vec<WallEdge>)
    requires
        maze_size_ok(w as int, h as int),
    ensures
        edges_ok(edges@, w as int, h as int),
        edges_cover(edges@, w as int, h as int),
{
    let ghost wi = w as int;
    let ghost hi = h as int;
    let mut edges: Vec<WallEdge> = Vec::new();
    let mut y: usize = 0;
    while y < h - 1
        invariant
            maze_size_ok(wi, hi),
            wi == w,
            hi == h,
            y <= h - 1,
            edges_ok(edges@, wi, hi),
            forall|a: Cell|
                in_grid(wi, hi, a) && a.1 < y ==> edges@.contains(#[trigger] down_edge(a)),
        decreases h - 1 - y,
    {
        let mut x: usize = 0;
        while x < w
            invariant
                maze_size_ok(wi, hi),
                wi == w,
                hi == h,
                x <= w,
                y < h - 1,
                edges_ok(edges@, wi, hi),
                forall|a: Cell|
                    in_grid(wi, hi, a) && (a.1 < y || (a.1 == y && a.0 < x)) ==> edges@.contains(
                        #[trigger] down_edge(a),
                    ),
            decreases w - x,
        {
            let ghost e0 = edges@;
            let e: WallEdge = ((x, y), (x, y + 1), true);
            edges.push(e);
            proof {
                lemma_push_contains(e0, e);
                assert(down_edge((x as int, y as int)) == e);
                assert forall|k: int| 0 <= k < edges@.len() implies edge_ok(
                    #[trigger] edges@[k],
                    wi,
                    hi,
                ) by {
                    if k < e0.len() {
                        assert(edges@[k] == e0[k]);
                    }
                }
            }
            x = x + 1;
        }
        y = y + 1;
    }
    let mut y: usize = 0;
    while y < h
        invariant
            maze_size_ok(wi, hi),
            wi == w,
            hi == h,
            y <= h,
            edges_ok(edges@, wi, hi),
            forall|a: Cell|
                in_grid(wi, hi, a) && a.1 + 1 < hi ==> edges@.contains(#[trigger] down_edge(a)),
            forall|a: Cell|
                in_grid(wi, hi, a) && a.0 + 1 < wi && a.1 < y ==> edges@.contains(
                    #[trigger] right_edge(a),
                ),
        decreases h - y,
    {
        let mut x: usize = 0;
        while x < w - 1
            invariant
                maze_size_ok(wi, hi),
                wi == w,
                hi == h,
                x <= w - 1,
                y < h,
                edges_ok(edges@, wi, hi),
                forall|a: Cell|
                    in_grid(wi, hi, a) && a.1 + 1 < hi ==> edges@.contains(#[trigger] down_edge(a)),
                forall|a: Cell|
                    in_grid(wi, hi, a) && a.0 + 1 < wi && (a.1 < y || (a.1 == y && a.0 < x))
                        ==> edges@.contains(#[trigger] right_edge(a)),
            decreases w - 1 - x,
        {
            let ghost e0 = edges@;
            let e: WallEdge = ((x, y), (x + 1, y), false);
            edges.push(e);
            proof {
                lemma_push_contains(e0, e);
                assert(right_edge((x as int, y as int)) == e);
                assert forall|k: int| 0 <= k < edges@.len() implies edge_ok(
                    #[trigger] edges@[k],
                    wi,
                    hi,
                ) by {
                    if k < e0.len() {
                        assert(edges@[k] == e0[k]);
                    }
                }
            }
            x = x + 1;
        }
        y = y + 1;
    }
    edges
}

/// Swapping two entries keeps every entry in the list.
proof fn lemma_swap_contains<T>(s: Seq<T>, i: int, j: int, z: T)
    requires
        0 <= i < s.len(),
        0 <= j < s.len(),
        s.contains(z),
    ensures
        s.update(i, s[j]).update(j, s[i]).contains(z),
{
    let s2 = s.update(i, s[j]).update(j, s[i]);
    let k = choose|k: int| 0 <= k < s.len() && s[k] == z;
    if k == i {
        assert(s2[j] == z);
    } else if k == j {
        if i == j {
            assert(s2[j] == z);
        } else {
            assert(s2[i] == z);
        }
    } else {
        assert(s2[k] == z);
    }
}

/// Swapping two entries keeps the entries, each as many times.
proof fn lemma_swap_multiset<T>(s: Seq<T>, i: int, j: int)
    requires
        0 <= i < s.len(),
        0 <= j < s.len(),
    ensures
        s.update(i, s[j]).update(j, s[i]).to_multiset() =~= s.to_multiset(),
{
    let s1 = s.update(i, s[j]);
    vstd::seq_lib::to_multiset_update(s, i, s[j]);
    vstd::seq_lib::to_multiset_update(s1, j, s[i]);
    vstd::seq_lib::to_multiset_contains(s, s[i]);
    vstd::seq_lib::to_multiset_contains(s, s[j]);
    assert(s1[j] == s[j]);
    let m = s.to_multiset();
    assert(m.count(s[i]) > 0);
    assert(m.count(s[j]) > 0);
    assert(m.insert(s[j]).remove(s[i]).insert(s[i]).remove(s[j]) =~= m);
}

/// Shuffles the edges: for each position in turn, swap it with a random
/// position. The result holds the same edges, each as many times, in an
/// order that depends on the generator's draws.
fn shuffle_edges(edges: &mut Vec<WallEdge>, rng: &mut ChaCha8Rng, w: usize, h: usize)
    requires
        edges_ok(old(edges)@, w as int, h as int),
        edges_cover(old(edges)@, w as int, h as int),
    ensures
        final(edges)@.to_multiset() =~= old(edges)@.to_multiset(),
        final(edges)@.len() == old(edges)@.len(),
        edges_ok(final(edges)@, w as int, h as int),
        edges_cover(final(edges)@, w as int, h as int),
{
    let n = edges.len();
    let mut i: usize = 0;
    while i < n
        invariant
            i <= n,
            edges@.len() == n,
            edges@.to_multiset() =~= old(edges)@.to_multiset(),
            edges_ok(edges@, w as int, h as int),
            edges_cover(edges@, w as int, h as int),
        decreases n - i,
    {
        let j = rng_below(rng, n);
        let ghost s = edges@;
        let a = edges[i];
        let b = edges[j];
        edges[i] = b;
        edges[j] = a;
        proof {
            assert(edges@ == s.update(i as int, s[j as int]).update(j as int, s[i as int]));
            lemma_swap_multiset(s, i as int, j as int);
            assert forall|k: int| 0 <= k < edges@.len() implies edge_ok(
                #[trigger] edges@[k],
                w as int,
                h as int,
            ) by {
                if k == j {
                    assert(edges@[k] == s[i as int]);
                } else if k == i {
                    assert(edges@[k] == s[j as int]);
                } else {
                    assert(edges@[k] == s[k]);
                }
            }
            assert forall|a: Cell| in_grid(w as int, h as int, a) && a.1 + 1 < h implies edges@.contains(
                #[trigger] down_edge(a),
            ) by {
                lemma_swap_contains(s, i as int, j as int, down_edge(a));
            }
            assert forall|a: Cell| in_grid(w as int, h as int, a) && a.0 + 1 < w implies edges@.contains(
                #[trigger] right_edge(a),
            ) by {
                lemma_swap_contains(s, i as int, j as int, right_edge(a));
            }
        }
        i = i + 1;
    }
}

/// Number of elements among `0..n` that represent themselves, that is, the
/// number of sets the first `n` elements fall into when each set holds its
/// representative.
pub open spec fn rep_count(reps: Seq<int>, n: int) -> nat
    decreases n,
{
    if n <= 0 {
        0
    } else {
        rep_count(reps, n - 1) + if reps[n - 1] == n - 1 {
            1nat
        } else {
            0nat
        }
    }
}

/// Open walls only join cells with one representative.
pub open spec fn opens_joined(
    reps: Seq<int>,
    horiz: Seq<Vec<bool>>,
    vert: Seq<Vec<bool>>,
    w: int,
    h: int,
) -> bool {
    forall|p: Cell, q: Cell|
        #![trigger open_between(horiz, vert, p, q)]
        in_grid(w, h, p) && in_grid(w, h, q) && open_between(horiz, vert, p, q) ==> reps[cell_index(
            p,
            w,
        )] == reps[cell_index(q, w)]
}

/// When each of `0..n` is its own representative, there are `n` sets.
proof fn lemma_rep_count_singletons(reps: Seq<int>, n: int)
    requires
        n >= 0,
        forall|i: int| 0 <= i < n ==> #[trigger] reps[i] == i,
    ensures
        rep_count(reps, n) == n,
    decreases n,
{
    if n > 0 {
        lemma_rep_count_singletons(reps, n - 1);
    }
}

/// When all of `0..n` share the representative `r`, one of them, there is
/// one set.
proof fn lemma_rep_count_one(reps: Seq<int>, r: int, n: int)
    requires
        forall|i: int| 0 <= i < n ==> #[trigger] reps[i] == r,
    ensures
        rep_count(reps, n) == if 0 <= r < n {
            1nat
        } else {
            0nat
        },
    decreases n,
{
    if n > 0 {
        lemma_rep_count_one(reps, r, n - 1);
    }
}

/// Sending the set of representative `r1` into that of another
/// representative `r2` leaves one set fewer.
proof fn lemma_rep_count_union(reps: Seq<int>, reps2: Seq<int>, r1: int, r2: int, n: int)
    requires
        0 <= n <= reps.len(),
        reps2.len() == reps.len(),
        0 <= r1 < reps.len(),
        0 <= r2 < reps.len(),
        r1 != r2,
        reps[r1] == r1,
        reps[r2] == r2,
        forall|i: int|
            0 <= i < reps.len() ==> #[trigger] reps2[i] == if reps[i] == r1 {
                r2
            } else {
                reps[i]
            },
    ensures
        rep_count(reps2, n) + if r1 < n {
            1nat
        } else {
            0nat
        } == rep_count(reps, n),
    decreases n,
{
    if n > 0 {
        lemma_rep_count_union(reps, reps2, r1, r2, n - 1);
        let i = n - 1;
        if reps[i] == r1 {
            assert(i != r2);
        }
    }
}

/// Each index below `w * h` is the index of a grid cell.
proof fn lemma_index_cell(w: int, h: int, i: int)
    requires
        w >= 1,
        h >= 1,
        0 <= i < w * h,
    ensures
        in_grid(w, h, (i % w, i / w)),
        cell_index((i % w, i / w), w) == i,
{
    vstd::arithmetic::div_mod::lemma_fundamental_div_mod(i, w);
    vstd::arithmetic::div_mod::lemma_mod_pos_bound(i, w);
    let q = i / w;
    let r = i % w;
    assert(0 <= q < h) by (nonlinear_arith)
        requires
            i == w * q + r,
            0 <= r < w,
            0 <= i < w * h,
            w >= 1,
    ;
    assert(q * w + r == i) by (nonlinear_arith)
        requires
            i == w * q + r,
    ;
}

/// Merging the sets of `c1` and `c2` after opening the wall between them
/// keeps cells with one representative connected.
proof fn lemma_union_connected(
    reps: Seq<int>,
    reps2: Seq<int>,
    horiz: Seq<Vec<bool>>,
    vert: Seq<Vec<bool>>,
    horiz2: Seq<Vec<bool>>,
    vert2: Seq<Vec<bool>>,
    w: int,
    h: int,
    c1: Cell,
    c2: Cell,
)
    requires
        reps.len() == w * h,
        walls_shaped(horiz, vert, w, h),
        opens_kept(horiz, vert, horiz2, vert2),
        reps_connected(reps, horiz, vert, w, h),
        in_grid(w, h, c1),
        in_grid(w, h, c2),
        open_between(horiz2, vert2, c1, c2),
        reps2 == reps.map_values(
            |rk: int|
                if rk == reps[cell_index(c1, w)] {
                    reps[cell_index(c2, w)]
                } else {
                    rk
                },
        ),
    ensures
        reps_connected(reps2, horiz2, vert2, w, h),
{
    let r1 = reps[cell_index(c1, w)];
    let r2 = reps[cell_index(c2, w)];
    assert forall|a: Cell, b: Cell|
        #![trigger connected(horiz2, vert2, w, h, a, b)]
        in_grid(w, h, a) && in_grid(w, h, b) && reps2[cell_index(a, w)] == reps2[cell_index(b, w)]
            implies connected(horiz2, vert2, w, h, a, b) by {
        lemma_cell_index(w, h, a);
        lemma_cell_index(w, h, b);
        lemma_cell_index(w, h, c1);
        lemma_cell_index(w, h, c2);
        let ra = reps[cell_index(a, w)];
        let rb = reps[cell_index(b, w)];
        if ra == rb {
            assert(connected(horiz, vert, w, h, a, b));
            lemma_connected_mono(horiz, vert, horiz2, vert2, w, h, a, b);
        } else if ra == r1 {
            assert(rb == r2);
            assert(connected(horiz, vert, w, h, a, c1));
            assert(connected(horiz, vert, w, h, c2, b));
            lemma_connected_mono(horiz, vert, horiz2, vert2, w, h, a, c1);
            lemma_connected_mono(horiz, vert, horiz2, vert2, w, h, c2, b);
            lemma_connected_step(horiz2, vert2, w, h, a, c1, c2);
            lemma_connected_trans(horiz2, vert2, w, h, a, c2, b);
        } else {
            assert(rb == r1);
            assert(ra == r2);
            assert(connected(horiz, vert, w, h, a, c2));
            assert(connected(horiz, vert, w, h, c1, b));
            lemma_connected_mono(horiz, vert, horiz2, vert2, w, h, a, c2);
            lemma_connected_mono(horiz, vert, horiz2, vert2, w, h, c1, b);
            crate::grid::lemma_open_between_symmetric(horiz2, vert2, c1, c2);
            lemma_connected_step(horiz2, vert2, w, h, a, c2, c1);
            lemma_connected_trans(horiz2, vert2, w, h, a, c1, b);
        }
    }
}

/// Edges `0..k` join cells with one representative.
pub open spec fn edges_joined(edges: Seq<WallEdge>, reps: Seq<int>, w: int, k: int) -> bool {
    forall|m: int|
        #![trigger edges[m]]
        0 <= m < k ==> reps[cell_index(edge_cells(edges[m]).0, w)] == reps[cell_index(
            edge_cells(edges[m]).1,
            w,
        )]
}

/// Once every inner wall joins cells with one representative, all cells
/// share the representative of `(0, 0)` and are connected to it.
proof fn lemma_all_joined(
    edges: Seq<WallEdge>,
    reps: Seq<int>,
    horiz: Seq<Vec<bool>>,
    vert: Seq<Vec<bool>>,
    w: int,
    h: int,
)
    requires
        maze_size_ok(w, h),
        edges_cover(edges, w, h),
        edges_joined(edges, reps, w, edges.len() as int),
        reps_connected(reps, horiz, vert, w, h),
    ensures
        all_connected_to(horiz, vert, w, h, (0, 0)),
        forall|c: Cell|
            #![trigger in_grid(w, h, c)]
            in_grid(w, h, c) ==> reps[cell_index(c, w)] == reps[cell_index((0, 0), w)],
{
    let r0 = reps[cell_index((0, 0), w)];
    let marks = |c: Cell| reps[cell_index(c, w)] == r0;
    assert forall|a: Cell, b: Cell|
        in_grid(w, h, a) && in_grid(w, h, b) && adjacent(a, b) && #[trigger] marks(a)
            implies #[trigger] marks(b) by {
        let e = if b == (a.0, a.1 + 1) {
            down_edge(a)
        } else if a == (b.0, b.1 + 1) {
            down_edge(b)
        } else if b == (a.0 + 1, a.1) {
            right_edge(a)
        } else {
            right_edge(b)
        };
        assert(edges.contains(e));
        let m = choose|m: int| 0 <= m < edges.len() && edges[m] == e;
        assert(edges[m] == e);
        assert(a.0 as usize as int == a.0 && a.1 as usize as int == a.1);
        assert(b.0 as usize as int == b.0 && b.1 as usize as int == b.1);
    }
    assert forall|c: Cell| #![trigger in_grid(w, h, c)] in_grid(w, h, c) implies connected(
        horiz,
        vert,
        w,
        h,
        (0, 0),
        c,
    ) by {
        lemma_closed_marks_fill(marks, w, h, (0, 0), c);
        assert(in_grid(w, h, (0, 0)));
        assert(marks(c));
    }
    assert forall|c: Cell| #![trigger in_grid(w, h, c)] in_grid(w, h, c) implies reps[cell_index(
        c,
        w,
    )] == r0 by {
        assert(in_grid(w, h, (0, 0)));
        lemma_closed_marks_fill(marks, w, h, (0, 0), c);
        assert(marks(c));
    }
}

/// Carving by Kruskal's algorithm.
#[verifier::rlimit(60)]
pub(crate) fn carve_kruskal(
    horiz: &mut Vec<Vec<bool>>,
    vert: &mut Vec<Vec<bool>>,
    w: usize,
    h: usize,
    rng: &mut ChaCha8Rng,
)
    requires
        maze_size_ok(w as int, h as int),
        walls_shaped(old(horiz)@, old(vert)@, w as int, h as int),
        border_closed(old(horiz)@, old(vert)@, w as int, h as int),
        grid_filled(old(horiz)@, h + 1, w as int, true),
        grid_filled(old(vert)@, h as int, w + 1, true),
    ensures
        walls_shaped(final(horiz)@, final(vert)@, w as int, h as int),
        border_closed(final(horiz)@, final(vert)@, w as int, h as int),
        all_connected_to(final(horiz)@, final(vert)@, w as int, h as int, (0, 0)),
        open_count(final(horiz)@, final(vert)@) == w * h - 1,
{
    let ghost wi = w as int;
    let ghost hi = h as int;
    proof {
        lemma_grid_area(wi, hi);
    }
    let mut set = DisjointSet::new(w * h);
    let mut edges = wall_edges(w, h);
    shuffle_edges(&mut edges, rng, w, h);
    proof {
        lemma_closed_grids(horiz@, vert@, wi, hi);
        lemma_rep_count_singletons(set@, wi * hi);
        assert forall|a: Cell, b: Cell|
            #![trigger connected(horiz@, vert@, wi, hi, a, b)]
            in_grid(wi, hi, a) && in_grid(wi, hi, b) && set@[cell_index(a, wi)] == set@[cell_index(
                b,
                wi,
            )] implies connected(horiz@, vert@, wi, hi, a, b) by {
            lemma_cell_index(wi, hi, a);
            lemma_cell_index(wi, hi, b);
            lemma_cell_index_injective(wi, hi, a, b);
            lemma_connected_refl(horiz@, vert@, wi, hi, a);
        }
    }
    let mut k: usize = 0;
    while k < edges.len()
        invariant
            maze_size_ok(wi, hi),
            wi == w,
            hi == h,
            k <= edges@.len(),
            set.wf(),
            set@.len() == wi * hi,
            edges_ok(edges@, wi, hi),
            edges_cover(edges@, wi, hi),
            walls_shaped(horiz@, vert@, wi, hi),
            border_closed(horiz@, vert@, wi, hi),
            reps_connected(set@, horiz@, vert@, wi, hi),
            edges_joined(edges@, set@, wi, k as int),
            opens_joined(set@, horiz@, vert@, wi, hi),
            open_count(horiz@, vert@) + rep_count(set@, wi * hi) == wi * hi,
        decreases edges@.len() - k,
    {
        let ((x1, y1), (x2, y2), is_horiz) = edges[k];
        let ghost e = edges@[k as int];
        let ghost c1 = (x1 as int, y1 as int);
        let ghost c2 = (x2 as int, y2 as int);
        proof {
            assert(edge_ok(e, wi, hi));
            lemma_cell_index(wi, hi, c1);
            lemma_cell_index(wi, hi, c2);
            lemma_grid_area(wi, hi);
        }
        let idx1 = y1 * w + x1;
        let idx2 = y2 * w + x2;
        let ghost reps0 = set@;
        let r1 = set.find(idx1);
        let r2 = set.find(idx2);
        if r1 != r2 {
            let ghost h0 = horiz@;
            let ghost v0 = vert@;
            proof {
                set.lemma_representatives(idx1 as int);
                set.lemma_representatives(idx2 as int);
                assert(!open_between(h0, v0, c1, c2));
            }
            set.union(idx1, idx2);
            open_wall(horiz, vert, w, h, x1, y1, x2, y2);
            proof {
                lemma_union_connected(reps0, set@, h0, v0, horiz@, vert@, wi, hi, c1, c2);
                lemma_rep_count_union(reps0, set@, r1 as int, r2 as int, wi * hi);
                assert forall|p: Cell, q: Cell|
                    #![trigger open_between(horiz@, vert@, p, q)]
                    in_grid(wi, hi, p) && in_grid(wi, hi, q) && open_between(horiz@, vert@, p, q)
                        implies set@[cell_index(p, wi)] == set@[cell_index(q, wi)] by {
                    lemma_cell_index(wi, hi, p);
                    lemma_cell_index(wi, hi, q);
                    if open_between(h0, v0, p, q) {
                        assert(reps0[cell_index(p, wi)] == reps0[cell_index(q, wi)]);
                    }
                }
                assert forall|m: int|
                    #![trigger edges@[m]]
                    0 <= m < k + 1 implies set@[cell_index(edge_cells(edges@[m]).0, wi)]
                    == set@[cell_index(edge_cells(edges@[m]).1, wi)] by {
                    assert(edge_ok(edges@[m], wi, hi));
                    lemma_cell_index(wi, hi, edge_cells(edges@[m]).0);
                    lemma_cell_index(wi, hi, edge_cells(edges@[m]).1);
                }
            }
        }
        k = k + 1;
    }
    proof {
        lemma_all_joined(edges@, set@, horiz@, vert@, wi, hi);
        lemma_grid_area(wi, hi);
        assert(in_grid(wi, hi, (0, 0)));
        assert(cell_index((0, 0), wi) == 0);
        set.lemma_representatives(0);
        let r0 = set@[0];
        assert forall|i: int| 0 <= i < wi * hi implies #[trigger] set@[i] == r0 by {
            lemma_index_cell(wi, hi, i);
            assert(in_grid(wi, hi, (i % wi, i / wi)));
        }
        lemma_rep_count_one(set@, r0, wi * hi);
    }
}

} // verus!
