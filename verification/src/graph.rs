//! The reference graph and the search for endless nesting in it.
//!
//! An edge that is no boundary nests its target in place. A closed walk
//! along such edges has no finite form; any other cycle can be held by
//! indirection.

use vstd::prelude::*;

verus! {

/// An edge between two nodes, each given by its number.
#[derive(Debug, Clone, Copy, PartialEq, Eq)]
pub struct Edge {
    pub from: usize,
    pub to: usize,
    pub boundary: bool,
}

/// The mathematical value of a [`Edge`].
pub struct EdgeModel {
    pub from: int,
    pub to: int,
    pub boundary: bool,
}

impl DeepView for Edge {
    type V = EdgeModel;

    open spec fn deep_view(&self) -> EdgeModel {
        EdgeModel { from: self.from as int, to: self.to as int, boundary: self.boundary }
    }
}

/// Whether some edge nests `v` in place inside `u`.
pub open spec fn nests(edges: Seq<EdgeModel>, u: int, v: int) -> bool {
    exists|k: int|
        0 <= k < edges.len() && !(#[trigger] edges[k]).boundary && edges[k].from == u && edges[k].to
            == v
}

/// Whether step `i` of `walk` goes along a nesting edge.
pub open spec fn nesting_step(edges: Seq<EdgeModel>, walk: Seq<int>, i: int) -> bool {
    nests(edges, walk[i], walk[i + 1])
}

/// Whether every step of `walk` goes along a nesting edge.
pub open spec fn nesting_walk(edges: Seq<EdgeModel>, walk: Seq<int>) -> bool {
    forall|i: int| 0 <= i < walk.len() - 1 ==> #[trigger] nesting_step(edges, walk, i)
}

/// Whether `walk` is a closed walk of at least one step along nesting edges.
pub open spec fn nesting_cycle(edges: Seq<EdgeModel>, walk: Seq<int>) -> bool {
    walk.len() >= 2 && walk[0] == walk[walk.len() - 1] && nesting_walk(edges, walk)
}

/// Whether the graph holds a cycle that would nest a node inside itself
/// without end.
pub open spec fn endless(edges: Seq<EdgeModel>) -> bool {
    exists|walk: Seq<int>| #[trigger] nesting_cycle(edges, walk)
}

/// Whether `walk` starts at `v`, goes along nesting edges, and ends on the
/// node it passed at step `i`: from `v` the nesting runs into a cycle.
pub open spec fn nesting_lasso(edges: Seq<EdgeModel>, v: int, walk: Seq<int>, i: int) -> bool {
    walk.len() >= 2 && walk[0] == v && nesting_walk(edges, walk) && 0 <= i < walk.len() - 1 && walk[i]
        == walk[walk.len() - 1]
}

/// Whether node `v` has no finite form: it nests, directly or through
/// others, a node that nests itself.
pub open spec fn nests_without_end(edges: Seq<EdgeModel>, v: int) -> bool {
    exists|walk: Seq<int>, i: int| #[trigger] nesting_lasso(edges, v, walk, i)
}

/// The least node at or after `from` and below `n` that has no finite
/// form, or `n` where there is none.
pub open spec fn first_endless(edges: Seq<EdgeModel>, n: int, from: int) -> int
    decreases n - from,
{
    if from < 0 || from >= n {
        n
    } else if nests_without_end(edges, from) {
        from
    } else {
        first_endless(edges, n, from + 1)
    }
}

/// Whether every edge joins two of the nodes `0 .. n`.
pub open spec fn edges_within(edges: Seq<EdgeModel>, n: int) -> bool {
    forall|k: int| 0 <= k < edges.len() ==> 0 <= (#[trigger] edges[k]).from < n && 0 <= edges[k].to < n
}

/// The number of nodes not yet set aside.
pub open spec fn live_count(done: Seq<bool>) -> nat
    decreases done.len(),
{
    if done.len() == 0 {
        0
    } else {
        live_count(done.drop_last()) + if done.last() {
            0nat
        } else {
            1nat
        }
    }
}

proof fn lemma_live_count_update(done: Seq<bool>, v: int)
    requires
        0 <= v < done.len(),
        !done[v],
    ensures
        live_count(done.update(v, true)) + 1 == live_count(done),
    decreases done.len(),
{
    let after = done.update(v, true);
    if v == done.len() - 1 {
        assert(after.drop_last() =~= done.drop_last());
    } else {
        lemma_live_count_update(done.drop_last(), v);
        assert(after.drop_last() =~= done.drop_last().update(v, true));
    }
}

/// Whether every nesting edge that leaves a node set aside leads to a
/// node set aside with a lower rank.
pub open spec fn ranked(edges: Seq<EdgeModel>, done: Seq<bool>, rank: Seq<int>) -> bool {
    &&& rank.len() == done.len()
    &&& forall|k: int|
        0 <= k < edges.len() && !(#[trigger] edges[k]).boundary && 0 <= edges[k].from < done.len()
            && done[edges[k].from] ==> 0 <= edges[k].to < done.len() && done[edges[k].to] && rank[edges[k].to]
            < rank[edges[k].from]
}

/// Along a nesting walk from a node set aside, every node is set aside
/// and the rank falls by at least one with each step.
proof fn lemma_rank_falls(edges: Seq<EdgeModel>, done: Seq<bool>, rank: Seq<int>, walk: Seq<int>, i: int)
    requires
        ranked(edges, done, rank),
        nesting_walk(edges, walk),
        0 <= i < walk.len(),
        0 <= walk[0] < done.len(),
        done[walk[0]],
    ensures
        0 <= walk[i] < done.len(),
        done[walk[i]],
        rank[walk[i]] + i <= rank[walk[0]],
    decreases i,
{
    if i > 0 {
        lemma_rank_falls(edges, done, rank, walk, i - 1);
        assert(nesting_step(edges, walk, i - 1));
        let k = choose|k: int|
            0 <= k < edges.len() && !(#[trigger] edges[k]).boundary && edges[k].from == walk[i - 1]
                && edges[k].to == walk[i];
        assert(rank[edges[k].to] < rank[edges[k].from]);
    }
}

/// A node set aside has a finite form.
proof fn lemma_done_is_finite(edges: Seq<EdgeModel>, done: Seq<bool>, rank: Seq<int>, v: int)
    requires
        ranked(edges, done, rank),
        0 <= v < done.len(),
        done[v],
    ensures
        !nests_without_end(edges, v),
{
    if nests_without_end(edges, v) {
        let (walk, i) = choose|walk: Seq<int>, i: int| #[trigger] nesting_lasso(edges, v, walk, i);
        lemma_rank_falls(edges, done, rank, walk, i);
        let rest = walk.subrange(i, walk.len() as int);
        assert forall|k: int| 0 <= k < rest.len() - 1 implies #[trigger] nesting_step(edges, rest, k) by {
            assert(nesting_step(edges, walk, i + k));
        }
        lemma_rank_falls(edges, done, rank, rest, rest.len() - 1);
    }
}

/// Whether `v` is a node that has not been set aside.
pub open spec fn live(done: Seq<bool>, v: int) -> bool {
    0 <= v < done.len() && !done[v]
}

/// A live node that `u` nests in place, if there is one.
pub open spec fn live_child(edges: Seq<EdgeModel>, done: Seq<bool>, u: int) -> int {
    choose|w: int| nests(edges, u, w) && live(done, w)
}

/// Whether `u` nests some live node in place.
pub open spec fn has_live_child(edges: Seq<EdgeModel>, done: Seq<bool>, u: int) -> bool {
    nests(edges, u, live_child(edges, done, u)) && live(done, live_child(edges, done, u))
}

/// Whether every live node nests some live node in place.
pub open spec fn stuck(edges: Seq<EdgeModel>, done: Seq<bool>) -> bool {
    forall|u: int| live(done, u) ==> #[trigger] has_live_child(edges, done, u)
}

/// The walk of `steps` steps that starts at `v` and goes on to a live child
/// each time.
pub open spec fn descent(edges: Seq<EdgeModel>, done: Seq<bool>, v: int, steps: nat) -> Seq<int>
    decreases steps,
{
    if steps == 0 {
        seq![v]
    } else {
        let before = descent(edges, done, v, (steps - 1) as nat);
        before.push(live_child(edges, done, before.last()))
    }
}

proof fn lemma_descent(edges: Seq<EdgeModel>, done: Seq<bool>, v: int, steps: nat)
    requires
        stuck(edges, done),
        live(done, v),
    ensures
        descent(edges, done, v, steps).len() == steps + 1,
        forall|i: int| 0 <= i <= steps ==> live(done, #[trigger] descent(edges, done, v, steps)[i]),
        nesting_walk(edges, descent(edges, done, v, steps)),
    decreases steps,
{
    if steps > 0 {
        lemma_descent(edges, done, v, (steps - 1) as nat);
        let before = descent(edges, done, v, (steps - 1) as nat);
        let walk = descent(edges, done, v, steps);
        assert(live(done, before[steps - 1]));
        assert(has_live_child(edges, done, before[steps - 1]));
        assert forall|i: int| 0 <= i < walk.len() - 1 implies #[trigger] nesting_step(edges, walk, i) by {
            if i < steps - 1 {
                assert(nesting_step(edges, before, i));
            }
        }
    }
}

/// Among more than `n` numbers below `n`, two are the same.
proof fn lemma_repeat(w: Seq<int>, n: int)
    requires
        0 <= n < w.len(),
        forall|i: int| 0 <= i < w.len() ==> 0 <= #[trigger] w[i] < n,
    ensures
        exists|i: int, j: int| 0 <= i < j < w.len() && w[i] == w[j],
{
    if !(exists|i: int, j: int| 0 <= i < j < w.len() && w[i] == w[j]) {
        assert(w.no_duplicates()) by {
            assert forall|i: int, j: int| 0 <= i < w.len() && 0 <= j < w.len() && i != j implies w[i]
                != w[j] by {
                if i < j {
                    assert(!(0 <= i < j < w.len() && w[i] == w[j]));
                } else {
                    assert(!(0 <= j < i < w.len() && w[j] == w[i]));
                }
            }
        }
        w.unique_seq_to_set();
        vstd::set_lib::lemma_int_range(0, n);
        let range = vstd::set_lib::set_int_range(0, n);
        assert(w.to_set().subset_of(range)) by {
            assert forall|x: int| w.to_set().contains(x) implies range.contains(x) by {
                let i = choose|i: int| 0 <= i < w.len() && w[i] == x;
                assert(0 <= w[i] < n);
            }
        }
        vstd::set_lib::lemma_len_subset(w.to_set(), range);
    }
}

/// Where every live node nests a live node, a live node has no finite
/// form.
proof fn lemma_live_is_endless(edges: Seq<EdgeModel>, done: Seq<bool>, v: int)
    requires
        stuck(edges, done),
        live(done, v),
    ensures
        nests_without_end(edges, v),
{
    let n = done.len();
    let walk = descent(edges, done, v, n);
    lemma_descent(edges, done, v, n);
    lemma_descent_starts(edges, done, v, n);
    lemma_repeat(walk, n as int);
    let (i, j) = choose|i: int, j: int| 0 <= i < j < walk.len() && walk[i] == walk[j];
    let lasso = walk.subrange(0, j + 1);
    assert forall|k: int| 0 <= k < lasso.len() - 1 implies #[trigger] nesting_step(edges, lasso, k) by {
        assert(nesting_step(edges, walk, k));
    }
    assert(nesting_lasso(edges, v, lasso, i));
}

proof fn lemma_descent_starts(edges: Seq<EdgeModel>, done: Seq<bool>, v: int, steps: nat)
    ensures
        descent(edges, done, v, steps).len() == steps + 1,
        descent(edges, done, v, steps)[0] == v,
    decreases steps,
{
    if steps > 0 {
        lemma_descent_starts(edges, done, v, (steps - 1) as nat);
    }
}

/// The graph holds endless nesting exactly where one of its nodes has no
/// finite form.
pub proof fn lemma_endless_has_first(edges: Seq<EdgeModel>, n: int)
    requires
        0 <= n,
        edges_within(edges, n),
    ensures
        endless(edges) <==> first_endless(edges, n, 0) < n,
{
    lemma_first_endless(edges, n, 0);
    if endless(edges) {
        let walk = choose|walk: Seq<int>| #[trigger] nesting_cycle(edges, walk);
        assert(nesting_step(edges, walk, 0));
        assert(nesting_lasso(edges, walk[0], walk, 0));
        assert(nests_without_end(edges, walk[0]));
    }
    let v = first_endless(edges, n, 0);
    if v < n {
        let (walk, i) = choose|walk: Seq<int>, i: int| #[trigger] nesting_lasso(edges, v, walk, i);
        let cycle = walk.subrange(i, walk.len() as int);
        assert forall|k: int| 0 <= k < cycle.len() - 1 implies #[trigger] nesting_step(edges, cycle, k) by {
            assert(nesting_step(edges, walk, i + k));
        }
        assert(nesting_cycle(edges, cycle));
    }
}

/// The first node without a finite form is such a node, and none before
/// it is.
pub proof fn lemma_first_endless(edges: Seq<EdgeModel>, n: int, from: int)
    requires
        0 <= from <= n,
    ensures
        from <= first_endless(edges, n, from) <= n,
        first_endless(edges, n, from) < n ==> nests_without_end(edges, first_endless(edges, n, from)),
        forall|v: int| from <= v < first_endless(edges, n, from) ==> !nests_without_end(edges, v),
    decreases n - from,
{
    if from < n && !nests_without_end(edges, from) {
        lemma_first_endless(edges, n, from + 1);
    }
}

/// The first of the nodes `0 .. n` that has no finite form, if there is
/// one.
///
/// Nodes that nest no live node are set aside, round after round. When a
/// round sets none aside, the nodes left over each nest one of their
/// number; the others have a finite form.
pub fn find_endless_nesting(n: usize, edges: &Vec<Edge>) -> (r: Option<usize>)
    requires
        edges_within(edges.deep_view(), n as int),
    ensures
        match r {
            Some(v) => v < n && first_endless(edges.deep_view(), n as int, 0) == v,
            None => first_endless(edges.deep_view(), n as int, 0) == n,
        },
        r.is_some() == endless(edges.deep_view()),
{
    let ghost model = edges.deep_view();
    let mut done: Vec<bool> = Vec::new();
    let mut i: usize = 0;
    while i < n
        invariant
            i <= n,
            done.len() == i,
            forall|k: int| 0 <= k < i ==> !(#[trigger] done[k]),
        decreases n - i,
    {
        done.push(false);
        i += 1;
    }
    let ghost mut rank: Seq<int> = Seq::new(n as nat, |k: int| 0int);
    let ghost mut round: int = 0;
    let mut changed = true;
    while changed
        invariant
            model == edges.deep_view(),
            model.len() == edges.len(),
            edges_within(model, n as int),
            done.len() == n,
            rank.len() == n,
            forall|u: int| 0 <= u < n && #[trigger] done[u] ==> rank[u] < round,
            forall|k: int|
                0 <= k < model.len() && !(#[trigger] model[k]).boundary && done[model[k].from] ==> done[model[k].to]
                    && rank[model[k].to] < rank[model[k].from],
            !changed ==> stuck(model, done@),
        decreases 2 * live_count(done@) + if changed { 1int } else { 0int },
    {
        let ghost prev = done@;
        // Which live nodes nest a live node.
        let mut blocked: Vec<bool> = Vec::new();
        let ghost mut witness: Seq<int> = Seq::new(n as nat, |k: int| 0int);
        let mut v: usize = 0;
        while v < n
            invariant
                v <= n,
                blocked.len() == v,
                forall|k: int| 0 <= k < v ==> !(#[trigger] blocked[k]),
            decreases n - v,
        {
            blocked.push(false);
            v += 1;
        }
        let mut k: usize = 0;
        while k < edges.len()
            invariant
                k <= edges.len(),
                model == edges.deep_view(),
                model.len() == edges.len(),
                edges_within(model, n as int),
                done.len() == n,
                done@ == prev,
                blocked.len() == n,
                witness.len() == n,
                forall|u: int|
                    0 <= u < n && #[trigger] blocked[u] ==> nests(model, u, witness[u]) && live(prev, witness[u])
                        && live(prev, u),
                forall|m: int|
                    0 <= m < k && !(#[trigger] model[m]).boundary && !prev[model[m].from] && !prev[model[m].to]
                        ==> blocked[model[m].from],
            decreases edges.len() - k,
        {
            assert(model[k as int] == edges[k as int].deep_view());
            let e = edges[k];
            if !e.boundary && !done[e.from] && !done[e.to] {
                blocked.set(e.from, true);
                proof {
                    witness = witness.update(e.from as int, e.to as int);
                }
            }
            k += 1;
        }
        // Set aside the live nodes that nest none.
        changed = false;
        let mut v: usize = 0;
        while v < n
            invariant
                v <= n,
                model == edges.deep_view(),
                model.len() == edges.len(),
                edges_within(model, n as int),
                done.len() == n,
                prev.len() == n,
                rank.len() == n,
                blocked.len() == n,
                witness.len() == n,
                forall|u: int| v <= u < n ==> #[trigger] done[u] == prev[u],
                forall|u: int| 0 <= u < v ==> #[trigger] done[u] == (prev[u] || !blocked[u]),
                forall|u: int| 0 <= u < n && #[trigger] prev[u] ==> rank[u] < round,
                forall|u: int| 0 <= u < n && #[trigger] done[u] ==> rank[u] <= round,
                forall|u: int| 0 <= u < n && #[trigger] done[u] && !prev[u] ==> rank[u] == round && !blocked[u],
                forall|m: int|
                    0 <= m < model.len() && !(#[trigger] model[m]).boundary && prev[model[m].from] ==> prev[model[m].to]
                        && rank[model[m].to] < rank[model[m].from],
                forall|u: int|
                    0 <= u < n && #[trigger] blocked[u] ==> nests(model, u, witness[u]) && live(prev, witness[u])
                        && live(prev, u),
                forall|m: int|
                    0 <= m < model.len() && !(#[trigger] model[m]).boundary && !prev[model[m].from]
                        && !prev[model[m].to] ==> blocked[model[m].from],
                changed ==> live_count(done@) < live_count(prev),
                !changed ==> done@ == prev,
            decreases n - v,
        {
            if !done[v] && !blocked[v] {
                proof {
                    lemma_live_count_update(done@, v as int);
                    rank = rank.update(v as int, round);
                }
                done.set(v, true);
                changed = true;
            }
            v += 1;
        }
        proof {
            assert forall|m: int|
                0 <= m < model.len() && !(#[trigger] model[m]).boundary && done[model[m].from] implies done[model[m].to]
                && rank[model[m].to] < rank[model[m].from] by {
                let a = model[m].from;
                let b = model[m].to;
                if !prev[a] {
                    assert(!blocked[a]);
                    assert(prev[b]);
                }
            }
            if !changed {
                assert forall|u: int| live(done@, u) implies #[trigger] has_live_child(model, done@, u) by {
                    assert(blocked[u]);
                    assert(nests(model, u, witness[u]) && live(done@, witness[u]));
                }
            }
            round = round + 1;
        }
    }
    proof {
        lemma_endless_has_first(model, n as int);
    }
    let mut v: usize = 0;
    while v < n
        invariant
            v <= n,
            done.len() == n,
            model == edges.deep_view(),
            stuck(model, done@),
            ranked(model, done@, rank),
            endless(model) <==> first_endless(model, n as int, 0) < n,
            first_endless(model, n as int, 0) == first_endless(model, n as int, v as int),
        decreases n - v,
    {
        if !done[v] {
            proof {
                lemma_live_is_endless(model, done@, v as int);
            }
            return Some(v);
        }
        proof {
            lemma_done_is_finite(model, done@, rank, v as int);
        }
        v += 1;
    }
    None
}

} // verus!
