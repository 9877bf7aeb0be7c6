//! Directed graphs over task indices, as mathematics: paths, reachability,
//! acyclicity, and the order in which a graph's tasks are executed.
//!
//! A graph is a sequence of links `(a, b)`, each read as "`a` comes before
//! `b`". Nothing here is executable; the frame graph states its contracts in
//! these terms.

use vstd::prelude::*;

verus! {

/// Whether the graph holds a link from `a` to `b`.
pub open spec fn has_link(links: Seq<(int, int)>, a: int, b: int) -> bool {
    exists|i: int| 0 <= i < links.len() && #[trigger] links[i] == (a, b)
}

/// Whether `p` is a walk along links: at least one node, each followed by one
/// of its successors.
pub open spec fn is_path(links: Seq<(int, int)>, p: Seq<int>) -> bool {
    &&& p.len() >= 1
    &&& forall|i: int| 0 <= i < p.len() - 1 ==> has_link(links, #[trigger] p[i], p[i + 1])
}

/// Whether some path leads from `a` to `b`. Every node reaches itself.
pub open spec fn reaches(links: Seq<(int, int)>, a: int, b: int) -> bool {
    exists|p: Seq<int>| #[trigger] is_path(links, p) && p[0] == a && p[p.len() - 1] == b
}

/// Whether `rank` grows strictly along every link.
pub open spec fn is_ranking(links: Seq<(int, int)>, rank: spec_fn(int) -> int) -> bool {
    forall|i: int| 0 <= i < links.len() ==> rank((#[trigger] links[i]).0) < rank(links[i].1)
}

/// A graph is acyclic when its nodes can be ranked so that every link goes
/// from a lower rank to a higher one.
pub open spec fn acyclic(links: Seq<(int, int)>) -> bool {
    exists|rank: spec_fn(int) -> int| is_ranking(links, rank)
}

/// Whether every link has both ends in `0..n`.
pub open spec fn links_within(links: Seq<(int, int)>, n: int) -> bool {
    forall|i: int|
        0 <= i < links.len() ==> 0 <= (#[trigger] links[i]).0 < n && 0 <= links[i].1 < n
}

/// A set of nodes, given as a table of flags, is closed when it holds the
/// target of every link whose source it holds.
pub open spec fn closed_under(links: Seq<(int, int)>, marked: Seq<bool>) -> bool {
    forall|i: int|
        0 <= i < links.len() && marked[(#[trigger] links[i]).0] ==> marked[links[i].1]
}

/// The number of `false` entries of a table of flags.
pub open spec fn unmarked(marked: Seq<bool>) -> nat
    decreases marked.len(),
{
    if marked.len() == 0 {
        0
    } else {
        unmarked(marked.drop_last()) + if marked.last() {
            0nat
        } else {
            1nat
        }
    }
}

/// Every node reaches itself.
pub proof fn lemma_reaches_self(links: Seq<(int, int)>, a: int)
    ensures
        reaches(links, a, a),
{
    let p = seq![a];
    assert(is_path(links, p));
    assert(p[0] == a && p[p.len() - 1] == a);
}

/// A path extended by a link is a path.
pub proof fn lemma_reaches_step(links: Seq<(int, int)>, a: int, b: int, c: int)
    requires
        reaches(links, a, b),
        has_link(links, b, c),
    ensures
        reaches(links, a, c),
{
    let p = choose|p: Seq<int>| #[trigger] is_path(links, p) && p[0] == a && p[p.len() - 1] == b;
    let q = p.push(c);
    assert forall|i: int| 0 <= i < q.len() - 1 implies has_link(links, #[trigger] q[i], q[i + 1]) by {
        if i < p.len() - 1 {
            assert(q[i] == p[i] && q[i + 1] == p[i + 1]);
        } else {
            assert(q[i] == b && q[i + 1] == c);
        }
    }
    assert(is_path(links, q));
    assert(q[0] == a && q[q.len() - 1] == c);
}

/// A path of one graph is a path of every graph that holds one more link.
pub proof fn lemma_path_survives_link(links: Seq<(int, int)>, a: int, b: int, p: Seq<int>)
    requires
        is_path(links, p),
    ensures
        is_path(links.push((a, b)), p),
{
    let more = links.push((a, b));
    assert forall|i: int| 0 <= i < p.len() - 1 implies has_link(more, #[trigger] p[i], p[i + 1]) by {
        assert(has_link(links, p[i], p[i + 1]));
        let j = choose|j: int| 0 <= j < links.len() && #[trigger] links[j] == (p[i], p[i + 1]);
        assert(more[j] == (p[i], p[i + 1]));
    }
}

/// Along a path the rank never falls, and it rises when the path has a link.
pub proof fn lemma_rank_along_path(links: Seq<(int, int)>, rank: spec_fn(int) -> int, p: Seq<int>)
    requires
        is_ranking(links, rank),
        is_path(links, p),
    ensures
        rank(p[0]) <= rank(p[p.len() - 1]),
        p.len() >= 2 ==> rank(p[0]) < rank(p[p.len() - 1]),
    decreases p.len(),
{
    if p.len() >= 2 {
        let q = p.drop_last();
        assert forall|i: int| 0 <= i < q.len() - 1 implies has_link(links, #[trigger] q[i], q[i + 1]) by {
            assert(q[i] == p[i] && q[i + 1] == p[i + 1]);
        }
        lemma_rank_along_path(links, rank, q);
        let k = p.len() - 2;
        assert(has_link(links, p[k], p[k + 1]));
        let j = choose|j: int| 0 <= j < links.len() && #[trigger] links[j] == (p[k], p[k + 1]);
        assert(rank(links[j].0) < rank(links[j].1));
        assert(q[q.len() - 1] == p[k]);
    }
}

/// An acyclic graph has no path that returns to where it began.
pub proof fn lemma_acyclic_has_no_cycle(links: Seq<(int, int)>, p: Seq<int>)
    requires
        acyclic(links),
        is_path(links, p),
        p.len() >= 2,
    ensures
        p[0] != p[p.len() - 1],
{
    let rank = choose|rank: spec_fn(int) -> int| is_ranking(links, rank);
    lemma_rank_along_path(links, rank, p);
}

/// A link from `a` to `b` can be added to an acyclic graph without making a
/// cycle when `a` differs from `b` and `b` does not reach `a`.
pub proof fn lemma_link_keeps_acyclic(links: Seq<(int, int)>, a: int, b: int)
    requires
        acyclic(links),
        a != b,
        !reaches(links, b, a),
    ensures
        acyclic(links.push((a, b))),
{
    let rank = choose|rank: spec_fn(int) -> int| is_ranking(links, rank);
    let lift: int = if rank(a) >= rank(b) {
        rank(a) - rank(b) + 1
    } else {
        0
    };
    let moved = |v: int|
        if reaches(links, b, v) {
            rank(v) + lift
        } else {
            rank(v)
        };
    let more = links.push((a, b));
    assert forall|i: int| 0 <= i < more.len() implies moved((#[trigger] more[i]).0) < moved(
        more[i].1,
    ) by {
        if i < links.len() {
            let x = links[i].0;
            let y = links[i].1;
            assert(more[i] == links[i]);
            assert(rank(x) < rank(y));
            if reaches(links, b, x) {
                assert(has_link(links, x, y));
                lemma_reaches_step(links, b, x, y);
            }
        } else {
            assert(more[i] == (a, b));
            lemma_reaches_self(links, b);
        }
    }
    assert(is_ranking(more, moved));
}

/// A link from `a` to `b` makes a cycle when `b` already reaches `a`.
pub proof fn lemma_link_closes_cycle(links: Seq<(int, int)>, a: int, b: int)
    requires
        reaches(links, b, a),
    ensures
        !acyclic(links.push((a, b))),
{
    let more = links.push((a, b));
    if acyclic(more) {
        let p = choose|p: Seq<int>| #[trigger] is_path(links, p) && p[0] == b && p[p.len() - 1] == a;
        lemma_path_survives_link(links, a, b, p);
        assert(more[links.len() as int] == (a, b));
        assert(has_link(more, a, b));
        let q = p.push(b);
        assert forall|i: int| 0 <= i < q.len() - 1 implies has_link(more, #[trigger] q[i], q[i + 1]) by {
            if i < p.len() - 1 {
                assert(q[i] == p[i] && q[i + 1] == p[i + 1]);
            } else {
                assert(q[i] == a && q[i + 1] == b);
            }
        }
        assert(is_path(more, q));
        lemma_acyclic_has_no_cycle(more, q);
        assert(q[0] == b && q[q.len() - 1] == b);
    }
}

/// Adding a link to an acyclic graph keeps it acyclic exactly when the link's
/// target does not already reach its source.
pub proof fn lemma_link_is_safe_iff_no_way_back(links: Seq<(int, int)>, a: int, b: int)
    requires
        acyclic(links),
    ensures
        acyclic(links.push((a, b))) <==> !reaches(links, b, a),
{
    if reaches(links, b, a) {
        lemma_link_closes_cycle(links, a, b);
    } else {
        if a == b {
            lemma_reaches_self(links, a);
        }
        lemma_link_keeps_acyclic(links, a, b);
    }
}

/// A node that no link touches reaches itself only, and only itself reaches
/// it.
pub proof fn lemma_outsider_reaches_itself_only(links: Seq<(int, int)>, n: int, a: int, b: int)
    requires
        links_within(links, n),
        !(0 <= a < n) || !(0 <= b < n),
    ensures
        reaches(links, a, b) <==> a == b,
{
    if a == b {
        lemma_reaches_self(links, a);
    }
    if reaches(links, a, b) {
        let p = choose|p: Seq<int>| #[trigger] is_path(links, p) && p[0] == a && p[p.len() - 1] == b;
        if p.len() >= 2 {
            let last = p.len() - 2;
            assert(has_link(links, p[0], p[1]));
            assert(has_link(links, p[last], p[last + 1]));
            let i = choose|i: int| 0 <= i < links.len() && #[trigger] links[i] == (p[0], p[1]);
            let j = choose|j: int| 0 <= j < links.len() && #[trigger] links[j] == (p[last], p[last + 1]);
            assert(0 <= links[i].0 < n);
            assert(0 <= links[j].1 < n);
        }
    }
}

/// A new link into `b` changes nothing of what `b` reaches.
pub proof fn lemma_link_into_keeps_reach(links: Seq<(int, int)>, a: int, b: int, x: int)
    ensures
        reaches(links.push((a, b)), b, x) <==> reaches(links, b, x),
{
    let more = links.push((a, b));
    if reaches(links, b, x) {
        let p = choose|p: Seq<int>| #[trigger] is_path(links, p) && p[0] == b && p[p.len() - 1] == x;
        lemma_path_survives_link(links, a, b, p);
    }
    if reaches(more, b, x) {
        let p = choose|p: Seq<int>| #[trigger] is_path(more, p) && p[0] == b && p[p.len() - 1] == x;
        lemma_path_from_target(links, a, b, p);
    }
}

proof fn lemma_path_from_target(links: Seq<(int, int)>, a: int, b: int, p: Seq<int>)
    requires
        is_path(links.push((a, b)), p),
        p[0] == b,
    ensures
        reaches(links, b, p[p.len() - 1]),
    decreases p.len(),
{
    let more = links.push((a, b));
    if p.len() >= 2 {
        let q = p.drop_last();
        assert forall|i: int| 0 <= i < q.len() - 1 implies has_link(more, #[trigger] q[i], q[i + 1]) by {
            assert(q[i] == p[i] && q[i + 1] == p[i + 1]);
        }
        lemma_path_from_target(links, a, b, q);
        let k = p.len() - 2;
        assert(q[q.len() - 1] == p[k]);
        assert(has_link(more, p[k], p[k + 1]));
        let j = choose|j: int| 0 <= j < more.len() && #[trigger] more[j] == (p[k], p[k + 1]);
        if j < links.len() {
            assert(links[j] == (p[k], p[k + 1]));
            assert(has_link(links, p[k], p[k + 1]));
            lemma_reaches_step(links, b, p[k], p[k + 1]);
        } else {
            lemma_reaches_self(links, b);
        }
    } else {
        lemma_reaches_self(links, b);
    }
}

/// A closed set that holds `from` holds every node that `from` reaches.
pub proof fn lemma_closed_set_holds_reachable(
    links: Seq<(int, int)>,
    marked: Seq<bool>,
    from: int,
    p: Seq<int>,
)
    requires
        links_within(links, marked.len() as int),
        closed_under(links, marked),
        0 <= from < marked.len(),
        marked[from],
        is_path(links, p),
        p[0] == from,
    ensures
        0 <= p[p.len() - 1] < marked.len(),
        marked[p[p.len() - 1]],
    decreases p.len(),
{
    if p.len() >= 2 {
        let q = p.drop_last();
        assert forall|i: int| 0 <= i < q.len() - 1 implies has_link(links, #[trigger] q[i], q[i + 1]) by {
            assert(q[i] == p[i] && q[i + 1] == p[i + 1]);
        }
        lemma_closed_set_holds_reachable(links, marked, from, q);
        let k = p.len() - 2;
        assert(q[q.len() - 1] == p[k]);
        assert(has_link(links, p[k], p[k + 1]));
        let j = choose|j: int| 0 <= j < links.len() && #[trigger] links[j] == (p[k], p[k + 1]);
        assert(marked[links[j].0]);
    }
}

/// Marking an unmarked entry leaves one fewer unmarked.
pub proof fn lemma_unmarked_after_mark(marked: Seq<bool>, i: int)
    requires
        0 <= i < marked.len(),
        !marked[i],
    ensures
        unmarked(marked.update(i, true)) + 1 == unmarked(marked),
    decreases marked.len(),
{
    let after = marked.update(i, true);
    if i == marked.len() - 1 {
        assert(after.drop_last() =~= marked.drop_last());
    } else {
        lemma_unmarked_after_mark(marked.drop_last(), i);
        assert(after.drop_last() =~= marked.drop_last().update(i, true));
    }
}

/// A table of `n` entries, none marked, has `n` unmarked.
pub proof fn lemma_unmarked_of_fresh(marked: Seq<bool>)
    requires
        forall|i: int| 0 <= i < marked.len() ==> !marked[i],
    ensures
        unmarked(marked) == marked.len(),
    decreases marked.len(),
{
    if marked.len() > 0 {
        lemma_unmarked_of_fresh(marked.drop_last());
    }
}

/// A table without unmarked entries is marked throughout.
pub proof fn lemma_unmarked_none(marked: Seq<bool>)
    requires
        unmarked(marked) == 0,
    ensures
        forall|i: int| 0 <= i < marked.len() ==> marked[i],
    decreases marked.len(),
{
    if marked.len() > 0 {
        let rest = marked.drop_last();
        lemma_unmarked_none(rest);
        assert forall|i: int| 0 <= i < marked.len() implies marked[i] by {
            if i < marked.len() - 1 {
                assert(rest[i] == marked[i]);
            }
        }
    }
}

/// Among the unmarked entries one has the lowest rank.
pub proof fn lemma_lowest_unmarked(marked: Seq<bool>, rank: spec_fn(int) -> int) -> (v: int)
    requires
        unmarked(marked) > 0,
    ensures
        0 <= v < marked.len(),
        !marked[v],
        forall|u: int| 0 <= u < marked.len() && !marked[u] ==> rank(v) <= rank(u),
    decreases marked.len(),
{
    let rest = marked.drop_last();
    let last = marked.len() - 1;
    if unmarked(rest) > 0 {
        let w = lemma_lowest_unmarked(rest, rank);
        let v = if !marked[last] && rank(last) < rank(w) {
            last
        } else {
            w
        };
        assert forall|u: int| 0 <= u < marked.len() && !marked[u] implies rank(v) <= rank(u) by {
            if u < last {
                assert(rest[u] == marked[u]);
            }
        }
        v
    } else {
        lemma_unmarked_none(rest);
        assert forall|u: int| 0 <= u < marked.len() && !marked[u] implies u == last by {
            if u < last {
                assert(rest[u] == marked[u]);
            }
        }
        last
    }
}

/// Whether task `v` can run once the tasks of `done` have run: it has not run
/// itself, and the source of every link into it has.
pub open spec fn ready(links: Seq<(int, int)>, done: Seq<int>, v: int) -> bool {
    &&& !done.contains(v)
    &&& forall|i: int|
        0 <= i < links.len() && (#[trigger] links[i]).1 == v ==> done.contains(links[i].0)
}

/// Whether `v` is the ready task that was declared first.
pub open spec fn first_ready(n: int, links: Seq<(int, int)>, done: Seq<int>, v: int) -> bool {
    &&& 0 <= v < n
    &&& ready(links, done, v)
    &&& forall|u: int| 0 <= u < v ==> !ready(links, done, u)
}

/// The execution order of a graph of `n` tasks: every task once, each placed
/// when all that it depends on has been placed, and where several tasks could
/// come next, the one declared first.
pub open spec fn is_execution_order(n: int, links: Seq<(int, int)>, order: Seq<int>) -> bool {
    &&& order.len() == n
    &&& forall|k: int| 0 <= k < n ==> first_ready(n, links, order.take(k), #[trigger] order[k])
}

/// While tasks of an acyclic graph remain to be placed, one of them is ready.
pub proof fn lemma_some_task_is_ready(links: Seq<(int, int)>, placed: Seq<bool>, done: Seq<int>) -> (v: int)
    requires
        acyclic(links),
        links_within(links, placed.len() as int),
        unmarked(placed) > 0,
        forall|u: int| 0 <= u < placed.len() ==> (placed[u] <==> done.contains(u)),
    ensures
        0 <= v < placed.len(),
        ready(links, done, v),
{
    let rank = choose|rank: spec_fn(int) -> int| is_ranking(links, rank);
    let v = lemma_lowest_unmarked(placed, rank);
    assert forall|i: int| 0 <= i < links.len() && (#[trigger] links[i]).1 == v implies done.contains(
        links[i].0,
    ) by {
        let u = links[i].0;
        assert(rank(u) < rank(v));
        assert(placed[u]);
    }
    v
}

/// In an execution order no task occurs twice.
pub proof fn lemma_execution_order_is_injective(n: int, links: Seq<(int, int)>, order: Seq<int>)
    requires
        is_execution_order(n, links, order),
    ensures
        forall|i: int, j: int| 0 <= i < j < n ==> order[i] != order[j],
{
    assert forall|i: int, j: int| 0 <= i < j < n implies order[i] != order[j] by {
        assert(first_ready(n, links, order.take(j), order[j]));
        assert(order.take(j)[i] == order[i]);
    }
}

/// In an execution order the source of every link comes before its target.
pub proof fn lemma_execution_order_respects_links(
    n: int,
    links: Seq<(int, int)>,
    order: Seq<int>,
    i: int,
    k: int,
) -> (j: int)
    requires
        is_execution_order(n, links, order),
        0 <= i < links.len(),
        0 <= k < n,
        order[k] == links[i].1,
    ensures
        0 <= j < k,
        order[j] == links[i].0,
{
    assert(first_ready(n, links, order.take(k), order[k]));
    let done = order.take(k);
    assert(done.contains(links[i].0));
    let j = choose|j: int| 0 <= j < done.len() && done[j] == links[i].0;
    j
}

/// A graph has one execution order.
pub proof fn lemma_execution_order_is_unique(
    n: int,
    links: Seq<(int, int)>,
    first: Seq<int>,
    second: Seq<int>,
)
    requires
        is_execution_order(n, links, first),
        is_execution_order(n, links, second),
    ensures
        first == second,
{
    assert forall|k: int| 0 <= k <= n implies #[trigger] first.take(k) == second.take(k) by {
        lemma_orders_agree_up_to(n, links, first, second, k);
    }
    assert(first.take(n) == first);
    assert(second.take(n) == second);
}

proof fn lemma_orders_agree_up_to(
    n: int,
    links: Seq<(int, int)>,
    first: Seq<int>,
    second: Seq<int>,
    k: int,
)
    requires
        is_execution_order(n, links, first),
        is_execution_order(n, links, second),
        0 <= k <= n,
    ensures
        first.take(k) == second.take(k),
    decreases k,
{
    if k > 0 {
        lemma_orders_agree_up_to(n, links, first, second, k - 1);
        let done = first.take(k - 1);
        assert(first_ready(n, links, done, first[k - 1]));
        assert(first_ready(n, links, second.take(k - 1), second[k - 1]));
        assert(first[k - 1] == second[k - 1]);
        assert(first.take(k) =~= done.push(first[k - 1]));
        assert(second.take(k) =~= done.push(second[k - 1]));
    } else {
        assert(first.take(0) =~= second.take(0));
    }
}

} // verus!
