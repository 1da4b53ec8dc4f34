//! Union-find over `0..n` with path compression, as used by Kruskal's
//! maze carving.

use vstd::prelude::*;

verus! {

/// The representative reached from `i` by following parent links.
/// A link is only followed when it climbs to a strictly higher ghost rank
/// that stays within `bound`, which makes the walk terminate.
pub open spec fn root_of(parent: Seq<usize>, rank: Seq<nat>, bound: nat, i: int) -> int
    decreases bound - rank[i],
{
    if 0 <= i < parent.len() && i < rank.len() && parent[i] as int != i && (parent[i] as int)
        < rank.len() && rank[i] < rank[parent[i] as int] && rank[parent[i] as int] <= bound {
        root_of(parent, rank, bound, parent[i] as int)
    } else {
        i
    }
}

/// Every link points inside the forest and climbs to a higher rank; all
/// ranks stay below `bound`.
pub open spec fn forest_wf(parent: Seq<usize>, rank: Seq<nat>, bound: nat) -> bool {
    &&& parent.len() == rank.len()
    &&& forall|i: int| 0 <= i < parent.len() ==> (#[trigger] parent[i] as int) < parent.len()
    &&& forall|i: int| 0 <= i < rank.len() ==> #[trigger] rank[i] < bound
    &&& forall|i: int|
        #![trigger parent[i]]
        0 <= i < parent.len() && parent[i] as int != i ==> rank[i] < rank[parent[i] as int]
}

/// The representative of every element of the forest.
pub open spec fn roots_of(parent: Seq<usize>, rank: Seq<nat>, bound: nat) -> Seq<int> {
    Seq::new(parent.len(), |i: int| root_of(parent, rank, bound, i))
}

proof fn lemma_root_props(parent: Seq<usize>, rank: Seq<nat>, bound: nat, i: int)
    requires
        forest_wf(parent, rank, bound),
        0 <= i < parent.len(),
    ensures
        0 <= root_of(parent, rank, bound, i) < parent.len(),
        parent[root_of(parent, rank, bound, i)] as int == root_of(parent, rank, bound, i),
        rank[root_of(parent, rank, bound, i)] >= rank[i],
        root_of(parent, rank, bound, i) != i ==> rank[root_of(parent, rank, bound, i)] > rank[i],
        parent[i] as int == i ==> root_of(parent, rank, bound, i) == i,
        parent[i] as int != i ==> root_of(parent, rank, bound, i) == root_of(
            parent,
            rank,
            bound,
            parent[i] as int,
        ),
    decreases bound - rank[i],
{
    let p = parent[i] as int;
    if p != i {
        assert(rank[i] < rank[p]);
        assert(rank[p] < bound);
        lemma_root_props(parent, rank, bound, p);
    }
}

proof fn lemma_root_fixed(parent: Seq<usize>, rank: Seq<nat>, bound: nat, i: int)
    requires
        forest_wf(parent, rank, bound),
        0 <= i < parent.len(),
    ensures
        root_of(parent, rank, bound, root_of(parent, rank, bound, i)) == root_of(
            parent,
            rank,
            bound,
            i,
        ),
{
    lemma_root_props(parent, rank, bound, i);
    let r = root_of(parent, rank, bound, i);
    lemma_root_props(parent, rank, bound, r);
}

/// Pointing `i` straight at its representative keeps the forest well formed
/// and changes no representative.
proof fn lemma_redirect(parent: Seq<usize>, rank: Seq<nat>, bound: nat, i: int, k: int)
    requires
        forest_wf(parent, rank, bound),
        0 <= i < parent.len(),
        0 <= k < parent.len(),
    ensures
        forest_wf(
            parent.update(i, root_of(parent, rank, bound, i) as usize),
            rank,
            bound,
        ),
        root_of(parent.update(i, root_of(parent, rank, bound, i) as usize), rank, bound, k)
            == root_of(parent, rank, bound, k),
    decreases bound - rank[k],
{
    let r = root_of(parent, rank, bound, i);
    lemma_root_props(parent, rank, bound, i);
    let p2 = parent.update(i, r as usize);
    assert forall|j: int| 0 <= j < p2.len() implies (#[trigger] p2[j] as int) < p2.len() by {}
    assert forall|j: int|
        #![trigger p2[j]]
        0 <= j < p2.len() && p2[j] as int != j implies rank[j] < rank[p2[j] as int] by {}
    assert(forest_wf(p2, rank, bound));
    lemma_root_props(parent, rank, bound, k);
    if k == i {
        if r != i {
            lemma_root_props(p2, rank, bound, r);
            assert(p2[r] as int == r);
            assert(root_of(p2, rank, bound, r) == r);
        }
    } else if parent[k] as int != k {
        let p = parent[k] as int;
        assert(rank[k] < rank[p]);
        lemma_redirect(parent, rank, bound, i, p);
    }
}

/// Linking root `ri` below root `rj` (raising `rj`'s rank when needed)
/// moves exactly `ri`'s class into `rj`'s.
proof fn lemma_link(parent: Seq<usize>, rank: Seq<nat>, bound: nat, ri: int, rj: int, k: int)
    requires
        forest_wf(parent, rank, bound),
        0 <= ri < parent.len(),
        0 <= rj < parent.len(),
        0 <= k < parent.len(),
        ri != rj,
        parent[ri] as int == ri,
        parent[rj] as int == rj,
    ensures
        ({
            let new_rank_j = if rank[rj] > rank[ri] + 1 {
                rank[rj]
            } else {
                (rank[ri] + 1) as nat
            };
            let rank2 = rank.update(rj, new_rank_j);
            let bound2 = if bound > new_rank_j + 1 {
                bound
            } else {
                (new_rank_j + 1) as nat
            };
            let parent2 = parent.update(ri, rj as usize);
            &&& forest_wf(parent2, rank2, bound2)
            &&& root_of(parent2, rank2, bound2, k) == if root_of(parent, rank, bound, k) == ri {
                rj
            } else {
                root_of(parent, rank, bound, k)
            }
        }),
    decreases bound - rank[k],
{
    let new_rank_j = if rank[rj] > rank[ri] + 1 {
        rank[rj]
    } else {
        (rank[ri] + 1) as nat
    };
    let rank2 = rank.update(rj, new_rank_j);
    let bound2 = if bound > new_rank_j + 1 {
        bound
    } else {
        (new_rank_j + 1) as nat
    };
    let parent2 = parent.update(ri, rj as usize);
    assert forall|j: int| 0 <= j < parent2.len() implies (#[trigger] parent2[j] as int)
        < parent2.len() by {}
    assert forall|j: int| 0 <= j < rank2.len() implies #[trigger] rank2[j] < bound2 by {}
    assert forall|j: int|
        #![trigger parent2[j]]
        0 <= j < parent2.len() && parent2[j] as int != j implies rank2[j] < rank2[
        parent2[j] as int] by {
        if j != ri {
            assert(parent[j] as int != j);
            assert(j != rj);
        }
    }
    assert(forest_wf(parent2, rank2, bound2));
    lemma_root_props(parent, rank, bound, k);
    if k == ri {
        assert(root_of(parent2, rank2, bound2, rj) == rj);
        assert(root_of(parent2, rank2, bound2, ri) == root_of(parent2, rank2, bound2, rj));
    } else if parent[k] as int == k {
        assert(root_of(parent2, rank2, bound2, k) == k);
    } else {
        let p = parent[k] as int;
        assert(k != rj);
        lemma_link(parent, rank, bound, ri, rj, p);
        assert(rank2[k] == rank[k]);
        assert(root_of(parent2, rank2, bound2, k) == root_of(parent2, rank2, bound2, p));
    }
}

/// Disjoint sets over `0..n` (union-find) with path compression.
pub struct DisjointSet {
    parent: Vec<usize>,
    rank: Ghost<Seq<nat>>,
    bound: Ghost<nat>,
}

impl View for DisjointSet {
    /// Element `i` is mapped to the representative of its set.
    type V = Seq<int>;

    closed spec fn view(&self) -> Seq<int> {
        roots_of(self.parent@, self.rank@, self.bound@)
    }
}

impl DisjointSet {
    /// The internal forest is well formed.
    pub closed spec fn wf(&self) -> bool {
        forest_wf(self.parent@, self.rank@, self.bound@)
    }

    /// How far element `i` may still be from its representative.
    pub closed spec fn height_left(&self, i: int) -> int {
        self.bound@ - self.rank@[i]
    }

    /// Representatives are elements, and each representative stands for itself.
    pub proof fn lemma_representatives(&self, i: int)
        requires
            self.wf(),
            0 <= i < self@.len(),
        ensures
            0 <= self@[i] < self@.len(),
            self@[self@[i]] == self@[i],
    {
        lemma_root_props(self.parent@, self.rank@, self.bound@, i);
        lemma_root_fixed(self.parent@, self.rank@, self.bound@, i);
    }

    /// `size` singleton sets `{0}, {1}, ..., {size - 1}`.
    pub fn new(size: usize) -> (s: Self)
        ensures
            s.wf(),
            s@ == Seq::new(size as nat, |i: int| i),
    {
        let mut parent: Vec<usize> = Vec::new();
        let mut k: usize = 0;
        while k < size
            invariant
                k <= size,
                parent@.len() == k,
                forall|j: int| 0 <= j < k ==> #[trigger] parent@[j] as int == j,
            decreases size - k,
        {
            parent.push(k);
            k = k + 1;
        }
        let ghost rank = Seq::new(size as nat, |i: int| 0nat);
        let s = DisjointSet { parent, rank: Ghost(rank), bound: Ghost(1nat) };
        assert(forest_wf(s.parent@, s.rank@, s.bound@));
        assert(s@ =~= Seq::new(size as nat, |i: int| i));
        s
    }

    /// The representative of `i`'s set; compresses the path it walks,
    /// which leaves every set unchanged.
    pub fn find(&mut self, i: usize) -> (r: usize)
        requires
            old(self).wf(),
            i < old(self)@.len(),
        ensures
            final(self).wf(),
            final(self)@ == old(self)@,
            r as int == old(self)@[i as int],
        decreases old(self).height_left(i as int),
    {
        let ghost parent0 = self.parent@;
        let ghost rank0 = self.rank@;
        let ghost bound0 = self.bound@;
        proof {
            lemma_root_props(parent0, rank0, bound0, i as int);
        }
        let p = self.parent[i];
        if p == i {
            return i;
        }
        proof {
            assert(rank0[i as int] < rank0[p as int]);
            assert(rank0[p as int] < bound0);
        }
        let r = self.find(p);
        proof {
            assert(root_of(self.parent@, self.rank@, self.bound@, i as int) == r as int) by {
                assert(self@[i as int] == old(self)@[i as int]);
            }
            assert forall|k: int| 0 <= k < self.parent@.len() implies root_of(
                self.parent@.update(i as int, r),
                self.rank@,
                self.bound@,
                k,
            ) == root_of(self.parent@, self.rank@, self.bound@, k) by {
                lemma_redirect(self.parent@, self.rank@, self.bound@, i as int, k);
            }
            lemma_redirect(self.parent@, self.rank@, self.bound@, i as int, 0);
        }
        let ghost before = self@;
        self.parent.set(i, r);
        proof {
            assert(self@ =~= before);
        }
        r
    }

    /// Merges the sets of `i` and `j`: every element of `i`'s set joins `j`'s
    /// set, whose representative stays in place.
    pub fn union(&mut self, i: usize, j: usize)
        requires
            old(self).wf(),
            i < old(self)@.len(),
            j < old(self)@.len(),
        ensures
            final(self).wf(),
            final(self)@ == old(self)@.map_values(
                |rk: int| if rk == old(self)@[i as int] { old(self)@[j as int] } else { rk },
            ),
    {
        let root_i = self.find(i);
        let root_j = self.find(j);
        if root_i != root_j {
            let ghost parent0 = self.parent@;
            let ghost rank0 = self.rank@;
            let ghost bound0 = self.bound@;
            proof {
                lemma_root_props(parent0, rank0, bound0, i as int);
                lemma_root_props(parent0, rank0, bound0, j as int);
            }
            let ghost new_rank_j = if rank0[root_j as int] > rank0[root_i as int] + 1 {
                rank0[root_j as int]
            } else {
                (rank0[root_i as int] + 1) as nat
            };
            let ghost bound2 = if bound0 > new_rank_j + 1 {
                bound0
            } else {
                (new_rank_j + 1) as nat
            };
            let ghost before = self@;
            self.parent.set(root_i, root_j);
            self.rank = Ghost(rank0.update(root_j as int, new_rank_j));
            self.bound = Ghost(bound2);
            proof {
                assert forall|k: int| 0 <= k < parent0.len() implies #[trigger] self@[k] == (
                if before[k] == root_i as int {
                    root_j as int
                } else {
                    before[k]
                }) by {
                    lemma_link(parent0, rank0, bound0, root_i as int, root_j as int, k);
                }
                lemma_link(parent0, rank0, bound0, root_i as int, root_j as int, 0);
                assert(self@ =~= old(self)@.map_values(
                    |rk: int| if rk == old(self)@[i as int] { old(self)@[j as int] } else { rk },
                ));
            }
        } else {
            proof {
                assert(self@ =~= old(self)@.map_values(
                    |rk: int| if rk == old(self)@[i as int] { old(self)@[j as int] } else { rk },
                ));
            }
        }
    }
}

} // verus!
