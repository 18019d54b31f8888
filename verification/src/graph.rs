//! Reachability over a call graph whose nodes are numbered from zero.
//!
//! `succ[u]` lists the nodes `u` has an edge to. Everything here is stated
//! over paths: a path is a non-empty sequence of nodes, each with an edge to
//! the next.

use vstd::prelude::*;

verus! {

/// The graph as mathematics: row `u` is the sequence of `u`'s successors.
pub open spec fn graph_of(succ: &Vec<Vec<usize>>) -> Seq<Seq<usize>> {
    succ@.map_values(|row: Vec<usize>| row@)
}

/// Every edge ends at a node of the graph.
pub open spec fn well_formed(g: Seq<Seq<usize>>) -> bool {
    forall|u: int, k: int|
        0 <= u < g.len() && 0 <= k < g[u].len() ==> (#[trigger] g[u][k]) < g.len()
}

/// `u` has an edge to `v`.
pub open spec fn edge(g: Seq<Seq<usize>>, u: int, v: int) -> bool {
    &&& 0 <= u < g.len()
    &&& 0 <= v < g.len()
    &&& exists|k: int| 0 <= k < g[u].len() && g[u][k] == v
}

/// `p` is a walk through the graph.
pub open spec fn is_path(g: Seq<Seq<usize>>, p: Seq<int>) -> bool {
    &&& p.len() >= 1
    &&& forall|i: int| 0 <= i < p.len() ==> 0 <= #[trigger] p[i] < g.len()
    &&& forall|i: int| 0 <= i < p.len() - 1 ==> edge(g, #[trigger] p[i], p[i + 1])
}

/// `v` can be reached from `u` in zero or more steps.
pub open spec fn reaches(g: Seq<Seq<usize>>, u: int, v: int) -> bool {
    exists|p: Seq<int>| #[trigger] is_path(g, p) && p[0] == u && p.last() == v
}

/// `v` can reach itself in one step or more: it calls itself, or it is in a
/// strongly connected component of more than one node.
pub open spec fn on_cycle(g: Seq<Seq<usize>>, v: int) -> bool {
    exists|p: Seq<int>| #[trigger] is_path(g, p) && p.len() >= 2 && p[0] == v && p.last() == v
}

/// `v` can reach, in zero or more steps, a node that `marked` marks.
pub open spec fn reaches_marked(g: Seq<Seq<usize>>, marked: Seq<bool>, v: int) -> bool {
    exists|w: int| 0 <= w < g.len() && w < marked.len() && #[trigger] marked[w] && reaches(g, v, w)
}

/// `v` can be reached, in zero or more steps, from one of `starts`.
pub open spec fn reached_from(g: Seq<Seq<usize>>, starts: Seq<usize>, v: int) -> bool {
    exists|j: int| 0 <= j < starts.len() && reaches(g, #[trigger] starts[j] as int, v)
}

/// How many entries of `s` are `false`.
pub open spec fn count_false(s: Seq<bool>) -> nat
    decreases s.len(),
{
    if s.len() == 0 {
        0
    } else {
        count_false(s.drop_last()) + if s.last() { 0nat } else { 1nat }
    }
}

/// How many entries of `s` are `true`.
pub open spec fn count_true(s: Seq<bool>) -> nat
    decreases s.len(),
{
    if s.len() == 0 {
        0
    } else {
        count_true(s.drop_last()) + if s.last() { 1nat } else { 0nat }
    }
}

pub proof fn lemma_count_bounds(s: Seq<bool>)
    ensures
        count_false(s) <= s.len(),
        count_true(s) <= s.len(),
        count_true(s) + count_false(s) == s.len(),
    decreases s.len(),
{
    if s.len() > 0 {
        lemma_count_bounds(s.drop_last());
    }
}

/// Setting a `false` entry to `true` removes one `false`.
pub proof fn lemma_count_false_update(s: Seq<bool>, i: int)
    requires
        0 <= i < s.len(),
        !s[i],
    ensures
        count_false(s.update(i, true)) + 1 == count_false(s),
    decreases s.len(),
{
    let t = s.update(i, true);
    if i == s.len() - 1 {
        assert(t.drop_last() =~= s.drop_last());
    } else {
        assert(t.drop_last() =~= s.drop_last().update(i, true));
        lemma_count_false_update(s.drop_last(), i);
    }
}

/// A one-node path.
pub proof fn lemma_single(g: Seq<Seq<usize>>, u: int)
    requires
        0 <= u < g.len(),
    ensures
        reaches(g, u, u),
        is_path(g, seq![u]),
{
    let p = seq![u];
    assert(is_path(g, p));
}

/// A path extended by one edge at its end.
pub proof fn lemma_extend(g: Seq<Seq<usize>>, p: Seq<int>, w: int)
    requires
        is_path(g, p),
        edge(g, p.last(), w),
    ensures
        is_path(g, p.push(w)),
        p.push(w)[0] == p[0],
        p.push(w).last() == w,
        p.push(w).len() == p.len() + 1,
{
    let q = p.push(w);
    assert forall|i: int| 0 <= i < q.len() - 1 implies edge(g, #[trigger] q[i], q[i + 1]) by {
        if i < p.len() - 1 {
            assert(q[i] == p[i] && q[i + 1] == p[i + 1]);
        } else {
            assert(q[i] == p.last());
        }
    }
}

/// A path extended by one edge at its start.
pub proof fn lemma_prepend(g: Seq<Seq<usize>>, u: int, p: Seq<int>)
    requires
        is_path(g, p),
        edge(g, u, p[0]),
    ensures
        is_path(g, seq![u] + p),
        (seq![u] + p)[0] == u,
        (seq![u] + p).last() == p.last(),
        (seq![u] + p).len() == p.len() + 1,
{
    let q = seq![u] + p;
    assert forall|i: int| 0 <= i < q.len() implies 0 <= #[trigger] q[i] < g.len() by {
        if i > 0 {
            assert(q[i] == p[i - 1]);
        }
    }
    assert forall|i: int| 0 <= i < q.len() - 1 implies edge(g, #[trigger] q[i], q[i + 1]) by {
        if i > 0 {
            assert(q[i] == p[i - 1] && q[i + 1] == p[i]);
        }
    }
}

/// A path without its first node.
pub proof fn lemma_tail(g: Seq<Seq<usize>>, p: Seq<int>)
    requires
        is_path(g, p),
        p.len() >= 2,
    ensures
        is_path(g, p.drop_first()),
        p.drop_first()[0] == p[1],
        p.drop_first().last() == p.last(),
        edge(g, p[0], p[1]),
{
    let q = p.drop_first();
    assert forall|i: int| 0 <= i < q.len() implies 0 <= #[trigger] q[i] < g.len() by {
        assert(q[i] == p[i + 1]);
    }
    assert forall|i: int| 0 <= i < q.len() - 1 implies edge(g, #[trigger] q[i], q[i + 1]) by {
        assert(q[i] == p[i + 1] && q[i + 1] == p[i + 2]);
    }
    assert(edge(g, p[0], p[1]));
}

/// `edge` from the adjacency row.
pub proof fn lemma_edge_of_row(g: Seq<Seq<usize>>, u: int, k: int)
    requires
        well_formed(g),
        0 <= u < g.len(),
        0 <= k < g[u].len(),
    ensures
        edge(g, u, g[u][k] as int),
{
    assert(g[u][k] < g.len());
}

/// A set closed under successors holds every node a path from it visits.
pub proof fn lemma_forward_closed(g: Seq<Seq<usize>>, s: Seq<bool>, p: Seq<int>)
    requires
        s.len() == g.len(),
        is_path(g, p),
        s[p[0]],
        forall|u: int, v: int| 0 <= u < g.len() && s[u] && #[trigger] edge(g, u, v) ==> s[v],
    ensures
        s[p.last()],
    decreases p.len(),
{
    if p.len() >= 2 {
        lemma_tail(g, p);
        lemma_forward_closed(g, s, p.drop_first());
    }
}

/// A set closed under callers holds the start of every path that ends in it.
pub proof fn lemma_backward_closed(g: Seq<Seq<usize>>, s: Seq<bool>, p: Seq<int>)
    requires
        s.len() == g.len(),
        is_path(g, p),
        s[p.last()],
        forall|u: int, v: int| 0 <= u < g.len() && #[trigger] edge(g, u, v) && s[v] ==> s[u],
    ensures
        s[p[0]],
    decreases p.len(),
{
    if p.len() >= 2 {
        lemma_tail(g, p);
        lemma_backward_closed(g, s, p.drop_first());
    }
}

/// A node on a cycle reaches itself from one of its successors, and back.
pub proof fn lemma_on_cycle_iff(g: Seq<Seq<usize>>, v: int)
    requires
        well_formed(g),
        0 <= v < g.len(),
    ensures
        on_cycle(g, v) <==> reached_from(g, g[v], v),
{
    if on_cycle(g, v) {
        let p = choose|p: Seq<int>| #[trigger] is_path(g, p) && p.len() >= 2 && p[0] == v && p.last() == v;
        lemma_tail(g, p);
        let k = choose|k: int| 0 <= k < g[v].len() && g[v][k] == p[1];
        assert(is_path(g, p.drop_first()));
        assert(reaches(g, g[v][k] as int, v));
    }
    if reached_from(g, g[v], v) {
        let j = choose|j: int| 0 <= j < g[v].len() && reaches(g, #[trigger] g[v][j] as int, v);
        let p = choose|p: Seq<int>| #[trigger] is_path(g, p) && p[0] == g[v][j] as int && p.last() == v;
        lemma_edge_of_row(g, v, j);
        lemma_prepend(g, v, p);
        let q = seq![v] + p;
        assert(is_path(g, q) && q.len() >= 2 && q[0] == v && q.last() == v);
    }
}

/// Marks every node reachable, in zero steps or more, from one of `starts`.
///
/// A depth-first walk with an explicit stack, so the depth of the graph is not
/// the depth of this function's own stack.
pub fn reachable_from(succ: &Vec<Vec<usize>>, starts: &Vec<usize>) -> (seen: Vec<bool>)
    requires
        well_formed(graph_of(succ)),
        forall|j: int| 0 <= j < starts.len() ==> #[trigger] starts[j] < succ.len(),
    ensures
        seen.len() == succ.len(),
        forall|v: int| 0 <= v < succ.len() ==> (seen[v] <==> reached_from(graph_of(succ), starts@, v)),
{
    let ghost g = graph_of(succ);
    let n = succ.len();
    let mut seen: Vec<bool> = Vec::new();
    while seen.len() < n
        invariant
            seen.len() <= n,
            forall|v: int| 0 <= v < seen.len() ==> !seen[v],
        decreases n - seen.len(),
    {
        seen.push(false);
    }
    let mut stack: Vec<usize> = Vec::new();
    let mut j: usize = 0;
    while j < starts.len()
        invariant
            n == succ.len(),
            g == graph_of(succ),
            well_formed(g),
            seen.len() == n,
            j <= starts.len(),
            forall|i: int| 0 <= i < starts.len() ==> #[trigger] starts[i] < n,
            forall|i: int| 0 <= i < stack.len() ==> #[trigger] stack[i] < n && seen[stack[i] as int],
            forall|v: int| 0 <= v < n && #[trigger] seen[v] ==> reached_from(g, starts@, v),
            forall|i: int| 0 <= i < j ==> #[trigger] seen[starts[i] as int],
            forall|v: int| 0 <= v < n && #[trigger] seen[v] ==> stack@.contains(v as usize),
        decreases starts.len() - j,
    {
        let s = starts[j];
        if !seen[s] {
            let ghost old_stack = stack@;
            let ghost old_seen = seen@;
            seen.set(s, true);
            stack.push(s);
            proof {
                lemma_single(g, s as int);
                assert(reaches(g, starts[j as int] as int, s as int));
                assert forall|v: int| 0 <= v < n && #[trigger] seen[v] implies stack@.contains(v as usize) by {
                    if v != s as int {
                        assert(old_seen[v]);
                        let k = choose|k: int| 0 <= k < old_stack.len() && old_stack[k] == v as usize;
                        assert(stack@[k] == v as usize);
                    } else {
                        assert(stack@[stack.len() - 1] == s);
                    }
                }
            }
        }
        j = j + 1;
    }
    // Every seen node is on the stack or has had all its successors seen.
    proof {
        lemma_count_bounds(seen@);
    }
    while stack.len() > 0
        invariant
            n == succ.len(),
            g == graph_of(succ),
            well_formed(g),
            seen.len() == n,
            forall|i: int| 0 <= i < starts.len() ==> #[trigger] starts[i] < n,
            forall|i: int| 0 <= i < starts.len() ==> #[trigger] seen[starts[i] as int],
            forall|i: int| 0 <= i < stack.len() ==> #[trigger] stack[i] < n && seen[stack[i] as int],
            forall|v: int| 0 <= v < n && #[trigger] seen[v] ==> reached_from(g, starts@, v),
            forall|u: int, w: int|
                0 <= u < n && seen[u] && !stack@.contains(u as usize) && #[trigger] edge(g, u, w) ==> seen[w],
        decreases 2 * count_false(seen@) + stack.len(),
    {
        let ghost full_stack = stack@;
        let u = stack.pop().unwrap();
        let ghost before = seen@;
        let ghost stack_before = stack@;
        assert(full_stack =~= stack_before.push(u));
        let row = &succ[u];
        assert(row@ == g[u as int]);
        let mut k: usize = 0;
        while k < row.len()
            invariant
                n == succ.len(),
                g == graph_of(succ),
                well_formed(g),
                row@ == g[u as int],
                u < n,
                seen[u as int],
                seen.len() == n,
                k <= row.len(),
                forall|i: int| 0 <= i < starts.len() ==> #[trigger] starts[i] < n,
                forall|i: int| 0 <= i < starts.len() ==> #[trigger] seen[starts[i] as int],
                forall|i: int| 0 <= i < stack.len() ==> #[trigger] stack[i] < n && seen[stack[i] as int],
                forall|v: int| 0 <= v < n && #[trigger] seen[v] ==> reached_from(g, starts@, v),
                forall|i: int| 0 <= i < k ==> seen[#[trigger] row[i] as int],
                forall|v: int| 0 <= v < n && before[v] ==> #[trigger] seen[v],
                forall|i: int| 0 <= i < stack_before.len() ==> stack@.contains(#[trigger] stack_before[i]),
                forall|v: int| 0 <= v < n && #[trigger] seen[v] && !before[v] ==> stack@.contains(v as usize),
                2 * count_false(seen@) + stack.len() <= 2 * count_false(before) + stack_before.len(),
                count_false(seen@) <= count_false(before),
                before.len() == n,
                forall|x: int, y: int|
                    0 <= x < n && before[x] && !stack_before.push(u).contains(x as usize) && #[trigger] edge(g, x, y) ==> before[y],
            decreases row.len() - k,
        {
            let w = row[k];
            proof {
                lemma_edge_of_row(g, u as int, k as int);
            }
            if !seen[w] {
                proof {
                    lemma_count_false_update(seen@, w as int);
                    // `u` is reached from a start, and `w` is one step further.
                    let j = choose|j: int| 0 <= j < starts.len() && reaches(g, #[trigger] starts@[j] as int, u as int);
                    let p = choose|p: Seq<int>| #[trigger] is_path(g, p) && p[0] == starts@[j] as int && p.last() == u as int;
                    lemma_extend(g, p, w as int);
                    assert(reaches(g, starts@[j] as int, w as int));
                }
                let ghost old_stack = stack@;
                seen.set(w, true);
                stack.push(w);
                proof {
                    assert forall|i: int| 0 <= i < stack_before.len() implies stack@.contains(#[trigger] stack_before[i]) by {
                        let m = choose|m: int| 0 <= m < old_stack.len() && old_stack[m] == stack_before[i];
                        assert(stack@[m] == stack_before[i]);
                    }
                    assert forall|v: int| 0 <= v < n && #[trigger] seen[v] && !before[v] implies stack@.contains(v as usize) by {
                        if v == w as int {
                            assert(stack@[stack.len() - 1] == w);
                        } else {
                            let m = choose|m: int| 0 <= m < old_stack.len() && old_stack[m] == v as usize;
                            assert(stack@[m] == v as usize);
                        }
                    }
                }
            }
            k = k + 1;
        }
        proof {
            assert forall|x: int, y: int|
                0 <= x < n && seen[x] && !stack@.contains(x as usize) && #[trigger] edge(g, x, y) implies seen[y] by {
                if x == u as int {
                    let kk = choose|kk: int| 0 <= kk < g[x].len() && g[x][kk] == y;
                    assert(seen[row[kk] as int]);
                } else if before[x] {
                    // `x` was not on the old stack: every entry of the old
                    // stack but `u` is still on it.
                    if stack_before.push(u).contains(x as usize) {
                        let m = choose|m: int| 0 <= m < stack_before.push(u).len() && stack_before.push(u)[m] == x as usize;
                        if m < stack_before.len() {
                            assert(stack_before[m] == x as usize);
                        }
                    }
                }
            }
            lemma_count_bounds(seen@);
        }
    }
    proof {
        let s = seen@;
        assert forall|v: int| 0 <= v < n implies (seen[v] <==> reached_from(g, starts@, v)) by {
            if reached_from(g, starts@, v) {
                let j = choose|j: int| 0 <= j < starts.len() && reaches(g, #[trigger] starts@[j] as int, v);
                let p = choose|p: Seq<int>| #[trigger] is_path(g, p) && p[0] == starts@[j] as int && p.last() == v;
                assert(s[starts@[j] as int]);
                lemma_forward_closed(g, s, p);
            }
        }
    }
    seen
}

/// Every node that can reach itself: a member of a strongly connected
/// component of more than one node, or a node with an edge to itself.
///
/// Decided node by node: a node is on a cycle exactly when it is reachable
/// from one of its own successors.
pub fn in_a_cycle(succ: &Vec<Vec<usize>>) -> (cyclic: Vec<bool>)
    requires
        well_formed(graph_of(succ)),
    ensures
        cyclic.len() == succ.len(),
        forall|v: int| 0 <= v < succ.len() ==> (cyclic[v] <==> on_cycle(graph_of(succ), v)),
{
    let ghost g = graph_of(succ);
    let mut cyclic: Vec<bool> = Vec::new();
    let mut v: usize = 0;
    while v < succ.len()
        invariant
            g == graph_of(succ),
            well_formed(g),
            v <= succ.len(),
            cyclic.len() == v,
            forall|x: int| 0 <= x < v ==> (cyclic[x] <==> on_cycle(g, x)),
        decreases succ.len() - v,
    {
        let row = &succ[v];
        assert(row@ == g[v as int]);
        assert forall|j: int| 0 <= j < row.len() implies #[trigger] row[j] < succ.len() by {
            assert(g[v as int][j] < g.len());
        }
        let seen = reachable_from(succ, row);
        proof {
            lemma_on_cycle_iff(g, v as int);
        }
        cyclic.push(seen[v]);
        v = v + 1;
    }
    cyclic
}

/// `marked`, and every node with a path to a marked node.
///
/// A least fixed point: passes over every node, marking any node with an edge
/// to a marked one, until a pass marks nothing.
pub fn close_over_callers(succ: &Vec<Vec<usize>>, marked: &Vec<bool>) -> (closed: Vec<bool>)
    requires
        well_formed(graph_of(succ)),
        marked.len() == succ.len(),
    ensures
        closed.len() == succ.len(),
        forall|v: int| 0 <= v < succ.len() ==> (closed[v] <==> reaches_marked(graph_of(succ), marked@, v)),
{
    let ghost g = graph_of(succ);
    let n = succ.len();
    let mut closed = marked.clone();
    proof {
        assert forall|v: int| 0 <= v < n && #[trigger] closed[v] implies reaches_marked(g, marked@, v) by {
            lemma_single(g, v);
        }
        lemma_count_bounds(closed@);
    }
    loop
        invariant
            n == succ.len(),
            g == graph_of(succ),
            well_formed(g),
            closed.len() == n,
            marked.len() == n,
            forall|v: int| 0 <= v < n && marked[v] ==> #[trigger] closed[v],
            forall|v: int| 0 <= v < n && #[trigger] closed[v] ==> reaches_marked(g, marked@, v),
        decreases count_false(closed@),
    {
        let ghost at_start = closed@;
        let mut changed = false;
        let mut v: usize = 0;
        while v < n
            invariant
                n == succ.len(),
                g == graph_of(succ),
                well_formed(g),
                closed.len() == n,
                marked.len() == n,
                at_start.len() == n,
                v <= n,
                forall|x: int| 0 <= x < n && marked[x] ==> #[trigger] closed[x],
                forall|x: int| 0 <= x < n && #[trigger] closed[x] ==> reaches_marked(g, marked@, x),
                !changed ==> closed@ == at_start,
                changed ==> count_false(closed@) < count_false(at_start),
                count_false(closed@) <= count_false(at_start),
                !changed ==> forall|x: int, y: int| 0 <= x < v && #[trigger] edge(g, x, y) && closed[y] ==> closed[x],
            decreases n - v,
        {
            if !closed[v] {
                let row = &succ[v];
                assert(row@ == g[v as int]);
                let mut k: usize = 0;
                let mut found = false;
                while k < row.len()
                    invariant
                        g == graph_of(succ),
                        well_formed(g),
                        row@ == g[v as int],
                        v < n,
                        n == succ.len(),
                        closed.len() == n,
                        k <= row.len(),
                        found ==> exists|i: int| 0 <= i < row.len() && closed[#[trigger] row[i] as int],
                        !found ==> forall|i: int| 0 <= i < k ==> !closed[#[trigger] row[i] as int],
                    decreases row.len() - k,
                {
                    proof {
                        lemma_edge_of_row(g, v as int, k as int);
                    }
                    if closed[row[k]] {
                        found = true;
                    }
                    k = k + 1;
                }
                if found {
                    proof {
                        let i = choose|i: int| 0 <= i < row.len() && closed[#[trigger] row[i] as int];
                        let w = row[i] as int;
                        lemma_edge_of_row(g, v as int, i);
                        let m = choose|m: int| 0 <= m < g.len() && m < marked.len() && #[trigger] marked@[m] && reaches(g, w, m);
                        let p = choose|p: Seq<int>| #[trigger] is_path(g, p) && p[0] == w && p.last() == m;
                        lemma_prepend(g, v as int, p);
                        assert(reaches(g, v as int, m));
                        lemma_count_false_update(closed@, v as int);
                    }
                    closed.set(v, true);
                    changed = true;
                } else {
                    proof {
                        assert forall|y: int| #[trigger] edge(g, v as int, y) implies !closed[y] by {
                            let kk = choose|kk: int| 0 <= kk < g[v as int].len() && g[v as int][kk] == y;
                            assert(!closed[row[kk] as int]);
                        }
                    }
                }
            }
            v = v + 1;
        }
        if !changed {
            proof {
                let s = closed@;
                assert forall|x: int| 0 <= x < n implies (closed[x] <==> reaches_marked(g, marked@, x)) by {
                    if reaches_marked(g, marked@, x) {
                        let m = choose|m: int| 0 <= m < g.len() && m < marked.len() && #[trigger] marked@[m] && reaches(g, x, m);
                        let p = choose|p: Seq<int>| #[trigger] is_path(g, p) && p[0] == x && p.last() == m;
                        assert forall|a: int, b: int| 0 <= a < g.len() && #[trigger] edge(g, a, b) && s[b] implies s[a] by {}
                        lemma_backward_closed(g, s, p);
                    }
                }
            }
            return closed;
        }
    }
}

} // verus!
