//! Mazes seen as graphs: cells are integer pairs, `valid` says which cells
//! belong to the maze and `open(a, b)` whether a walk may step from `a` to
//! `b`. Walks, what links two cells, and the spanning trees that the carving
//! algorithms grow.

use vstd::prelude::*;

verus! {

/// A cell of a maze, as a pair of integer coordinates.
pub type Node = (int, int);

/// `p` is a non-empty walk through valid cells, each step open.
pub open spec fn is_walk(
    open: spec_fn(Node, Node) -> bool,
    valid: spec_fn(Node) -> bool,
    p: Seq<Node>,
) -> bool {
    &&& p.len() > 0
    &&& forall|i: int| 0 <= i < p.len() ==> valid(#[trigger] p[i])
    &&& forall|i: int| #![trigger p[i], p[i + 1]] 0 <= i < p.len() - 1 ==> open(p[i], p[i + 1])
}

/// Some walk leads from `a` to `b`.
pub open spec fn linked(
    open: spec_fn(Node, Node) -> bool,
    valid: spec_fn(Node) -> bool,
    a: Node,
    b: Node,
) -> bool {
    exists|p: Seq<Node>| #[trigger] is_walk(open, valid, p) && p[0] == a && p[p.len() - 1] == b
}

/// Steps between valid cells can be taken both ways.
pub open spec fn symmetric_on(open: spec_fn(Node, Node) -> bool, valid: spec_fn(Node) -> bool) -> bool {
    forall|a: Node, b: Node| valid(a) && valid(b) && #[trigger] open(a, b) ==> open(b, a)
}

/// Every step open in `open` between valid cells is open in `open2`.
pub open spec fn steps_kept(
    open: spec_fn(Node, Node) -> bool,
    open2: spec_fn(Node, Node) -> bool,
    valid: spec_fn(Node) -> bool,
) -> bool {
    forall|a: Node, b: Node| valid(a) && valid(b) && #[trigger] open(a, b) ==> open2(a, b)
}

/// A valid cell is linked to itself.
pub proof fn lemma_linked_refl(open: spec_fn(Node, Node) -> bool, valid: spec_fn(Node) -> bool, a: Node)
    requires
        valid(a),
    ensures
        linked(open, valid, a, a),
{
    let p = seq![a];
    assert(is_walk(open, valid, p));
}

/// One more open step extends a link.
pub proof fn lemma_linked_step(
    open: spec_fn(Node, Node) -> bool,
    valid: spec_fn(Node) -> bool,
    a: Node,
    b: Node,
    c: Node,
)
    requires
        linked(open, valid, a, b),
        valid(c),
        open(b, c),
    ensures
        linked(open, valid, a, c),
{
    let p = choose|p: Seq<Node>| #[trigger] is_walk(open, valid, p) && p[0] == a && p[p.len() - 1] == b;
    let q = p.push(c);
    assert forall|i: int| 0 <= i < q.len() implies valid(#[trigger] q[i]) by {
        if i < p.len() {
            assert(q[i] == p[i]);
        }
    }
    assert forall|i: int| #![trigger q[i], q[i + 1]] 0 <= i < q.len() - 1 implies open(q[i], q[i + 1]) by {
        if i < p.len() - 1 {
            assert(q[i] == p[i] && q[i + 1] == p[i + 1]);
        } else {
            assert(q[i] == b && q[i + 1] == c);
        }
    }
    assert(is_walk(open, valid, q));
}

/// Links run both ways when steps do.
pub proof fn lemma_linked_symmetric(
    open: spec_fn(Node, Node) -> bool,
    valid: spec_fn(Node) -> bool,
    a: Node,
    b: Node,
)
    requires
        symmetric_on(open, valid),
        linked(open, valid, a, b),
    ensures
        linked(open, valid, b, a),
{
    let p = choose|p: Seq<Node>| #[trigger] is_walk(open, valid, p) && p[0] == a && p[p.len() - 1] == b;
    let q = p.reverse();
    assert forall|i: int| 0 <= i < q.len() implies valid(#[trigger] q[i]) by {
        assert(q[i] == p[p.len() - 1 - i]);
    }
    assert forall|i: int| #![trigger q[i], q[i + 1]] 0 <= i < q.len() - 1 implies open(q[i], q[i + 1]) by {
        let j = p.len() - 2 - i;
        assert(q[i] == p[j + 1]);
        assert(q[i + 1] == p[j]);
        assert(open(p[j], p[j + 1]));
        assert(valid(p[j]) && valid(p[j + 1]));
    }
    assert(is_walk(open, valid, q));
    assert(q[0] == b);
    assert(q[q.len() - 1] == a);
}

/// Links chain.
pub proof fn lemma_linked_trans(
    open: spec_fn(Node, Node) -> bool,
    valid: spec_fn(Node) -> bool,
    a: Node,
    b: Node,
    c: Node,
)
    requires
        linked(open, valid, a, b),
        linked(open, valid, b, c),
    ensures
        linked(open, valid, a, c),
{
    let p = choose|p: Seq<Node>| #[trigger] is_walk(open, valid, p) && p[0] == a && p[p.len() - 1] == b;
    let q = choose|q: Seq<Node>| #[trigger] is_walk(open, valid, q) && q[0] == b && q[q.len() - 1] == c;
    let r = p + q.drop_first();
    assert forall|i: int| 0 <= i < r.len() implies valid(#[trigger] r[i]) by {
        if i < p.len() {
            assert(r[i] == p[i]);
        } else {
            assert(r[i] == q[i - p.len() + 1]);
        }
    }
    assert forall|i: int| #![trigger r[i], r[i + 1]] 0 <= i < r.len() - 1 implies open(r[i], r[i + 1]) by {
        if i < p.len() - 1 {
            assert(r[i] == p[i] && r[i + 1] == p[i + 1]);
        } else if i == p.len() - 1 {
            assert(r[i] == b && r[i + 1] == q[1]);
            assert(q[0] == b);
            assert(open(q[0], q[1]));
        } else {
            let j = i - p.len() + 1;
            assert(r[i] == q[j] && r[i + 1] == q[j + 1]);
        }
    }
    assert(is_walk(open, valid, r));
    if q.len() == 1 {
        assert(r =~= p);
    } else {
        assert(r[r.len() - 1] == q[q.len() - 1]);
    }
}

/// Opening more steps keeps every link.
pub proof fn lemma_linked_mono(
    open: spec_fn(Node, Node) -> bool,
    open2: spec_fn(Node, Node) -> bool,
    valid: spec_fn(Node) -> bool,
    a: Node,
    b: Node,
)
    requires
        steps_kept(open, open2, valid),
        linked(open, valid, a, b),
    ensures
        linked(open2, valid, a, b),
{
    let p = choose|p: Seq<Node>| #[trigger] is_walk(open, valid, p) && p[0] == a && p[p.len() - 1] == b;
    assert forall|i: int| #![trigger p[i], p[i + 1]] 0 <= i < p.len() - 1 implies open2(p[i], p[i + 1]) by {
        assert(open(p[i], p[i + 1]));
        assert(valid(p[i]) && valid(p[i + 1]));
    }
    assert(is_walk(open2, valid, p));
}

/// `marks[c.1][c.0]` is set for cell `c`.
pub open spec fn marked(marks: Seq<Vec<bool>>, c: Node) -> bool {
    marks[c.1]@[c.0]
}

/// A spanning tree of the marked valid cells rooted at `root`: every such
/// cell other than the root has a marked valid parent of smaller depth,
/// one open step away.
pub open spec fn spanning_tree(
    open: spec_fn(Node, Node) -> bool,
    valid: spec_fn(Node) -> bool,
    marks: Seq<Vec<bool>>,
    root: Node,
    parent: Map<Node, Node>,
    depth: Map<Node, nat>,
) -> bool {
    forall|c: Node|
        #![trigger marked(marks, c)]
        valid(c) && marked(marks, c) ==> {
            &&& depth.contains_key(c)
            &&& (c == root || {
                &&& parent.contains_key(c)
                &&& valid(parent[c])
                &&& marked(marks, parent[c])
                &&& depth.contains_key(parent[c])
                &&& depth[parent[c]] < depth[c]
                &&& open(parent[c], c)
            })
        }
}

/// Every marked cell of a spanning tree is linked to the root.
pub proof fn lemma_tree_links(
    open: spec_fn(Node, Node) -> bool,
    valid: spec_fn(Node) -> bool,
    marks: Seq<Vec<bool>>,
    root: Node,
    parent: Map<Node, Node>,
    depth: Map<Node, nat>,
    c: Node,
)
    requires
        spanning_tree(open, valid, marks, root, parent, depth),
        valid(root),
        valid(c),
        marked(marks, c),
    ensures
        linked(open, valid, root, c),
    decreases depth[c],
{
    if c == root {
        lemma_linked_refl(open, valid, root);
    } else {
        let p = parent[c];
        lemma_tree_links(open, valid, marks, root, parent, depth, p);
        lemma_linked_step(open, valid, root, p, c);
    }
}

/// The marks of `marks2` are those of `marks` and the cell `t`.
pub open spec fn marks_plus(
    marks: Seq<Vec<bool>>,
    marks2: Seq<Vec<bool>>,
    valid: spec_fn(Node) -> bool,
    t: Node,
) -> bool {
    forall|d: Node| #![trigger marked(marks2, d)] valid(d) ==> (marked(marks2, d) == (marked(marks, d) || d == t))
}

/// Hanging a newly marked cell `t` below its marked neighbour `f`, across a
/// step just opened, keeps the spanning tree.
pub proof fn lemma_tree_extend(
    open: spec_fn(Node, Node) -> bool,
    open2: spec_fn(Node, Node) -> bool,
    valid: spec_fn(Node) -> bool,
    marks: Seq<Vec<bool>>,
    marks2: Seq<Vec<bool>>,
    root: Node,
    parent: Map<Node, Node>,
    depth: Map<Node, nat>,
    t: Node,
    f: Node,
)
    requires
        steps_kept(open, open2, valid),
        spanning_tree(open, valid, marks, root, parent, depth),
        valid(root),
        marked(marks, root),
        valid(t),
        valid(f),
        marked(marks, f),
        !marked(marks, t),
        marks_plus(marks, marks2, valid, t),
        open2(f, t),
    ensures
        spanning_tree(open2, valid, marks2, root, parent.insert(t, f), depth.insert(t, depth[f] + 1)),
{
    let parent2 = parent.insert(t, f);
    let depth2 = depth.insert(t, depth[f] + 1);
    assert(valid(f) && marked(marks, f));
    assert(marked(marks2, f));
    assert forall|d: Node|
        #![trigger marked(marks2, d)]
        valid(d) && marked(marks2, d) implies {
        &&& depth2.contains_key(d)
        &&& (d == root || {
            &&& parent2.contains_key(d)
            &&& valid(parent2[d])
            &&& marked(marks2, parent2[d])
            &&& depth2.contains_key(parent2[d])
            &&& depth2[parent2[d]] < depth2[d]
            &&& open2(parent2[d], d)
        })
    } by {
        if d != t {
            assert(marked(marks, d));
            if d != root {
                let p = parent[d];
                assert(marked(marks, p) && valid(p));
                assert(marked(marks2, p));
                assert(p != t);
                assert(open(p, d));
            }
        }
    }
}

/// Setting `marks[y][x]` marks exactly the cell `(x, y)` more.
pub proof fn lemma_mark_one(
    marks: Seq<Vec<bool>>,
    marks2: Seq<Vec<bool>>,
    valid: spec_fn(Node) -> bool,
    x: int,
    y: int,
)
    requires
        0 <= y < marks.len(),
        0 <= x < marks[y]@.len(),
        marks2.len() == marks.len(),
        marks2[y]@ == marks[y]@.update(x, true),
        forall|k: int| 0 <= k < marks.len() && k != y ==> marks2[k] == marks[k],
        forall|d: Node| #[trigger] valid(d) ==> 0 <= d.1 < marks.len() && 0 <= d.0 < marks[d.1]@.len(),
    ensures
        marks_plus(marks, marks2, valid, (x, y)),
{
    assert forall|d: Node| #![trigger marked(marks2, d)] valid(d) implies (marked(marks2, d) == (marked(
        marks,
        d,
    ) || d == (x, y))) by {
        if d.1 == y {
            assert(marks2[d.1]@ == marks[d.1]@.update(x, true));
        } else {
            assert(marks2[d.1] == marks[d.1]);
        }
    }
}

} // verus!
