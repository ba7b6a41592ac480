//! Cycle search in a directed graph of numbered nodes.

use vstd::prelude::*;
use vstd::set_lib::set_int_range;

verus! {

/// The successors of each node; node `v` has the successors `adj[v]`.
pub type Successors = Vec<Vec<usize>>;

/// There is an edge from `a` to `b`.
pub open spec fn has_edge(adj: Seq<Vec<usize>>, a: int, b: int) -> bool {
    0 <= a < adj.len() && exists|k: int| 0 <= k < adj[a]@.len() && #[trigger] adj[a]@[k] == b
}

/// Every edge leads to a node of the graph.
pub open spec fn closed_graph(adj: Seq<Vec<usize>>) -> bool {
    forall|a: int, k: int| 0 <= a < adj.len() && 0 <= k < adj[a]@.len() ==> #[trigger] adj[a]@[k] < adj.len()
}

/// `p` follows the edges.
pub open spec fn node_walk(adj: Seq<Vec<usize>>, p: Seq<usize>) -> bool {
    forall|i: int| 0 <= i < p.len() - 1 ==> has_edge(adj, #[trigger] p[i] as int, p[i + 1] as int)
}

/// `p` follows the edges from a node back to itself and meets no other node
/// twice.
pub open spec fn node_cycle(adj: Seq<Vec<usize>>, p: Seq<usize>) -> bool {
    &&& p.len() >= 2
    &&& p.first() == p.last()
    &&& node_walk(adj, p)
    &&& p.drop_last().no_duplicates()
}

/// Each node of `order` comes after all its successors.
pub open spec fn finished(adj: Seq<Vec<usize>>, order: Seq<usize>) -> bool {
    forall|k: int, w: int|
        0 <= k < order.len() && #[trigger] has_edge(adj, order[k] as int, w) ==> exists|j: int|
            0 <= j < k && #[trigger] order[j] == w
}

spec fn search_inv(adj: Seq<Vec<usize>>, color: Seq<u8>, stack: Seq<usize>, order: Seq<usize>) -> bool {
    &&& closed_graph(adj)
    &&& color.len() == adj.len()
    &&& forall|i: int| 0 <= i < stack.len() ==> #[trigger] stack[i] < adj.len()
    &&& forall|v: usize| v < color.len() ==> (color[v as int] == 1 <==> #[trigger] stack.contains(v))
    &&& forall|v: usize| v < color.len() ==> (color[v as int] == 2 <==> #[trigger] order.contains(v))
    &&& forall|i: int| 0 <= i < order.len() ==> #[trigger] order[i] < adj.len()
    &&& forall|v: int| 0 <= v < color.len() ==> #[trigger] color[v] <= 2
    &&& color.len() <= usize::MAX
    &&& stack.no_duplicates()
    &&& node_walk(adj, stack)
    &&& finished(adj, order)
}

/// A sequence of distinct numbers below `n` has at most `n` elements.
proof fn distinct_below(s: Seq<usize>, n: int)
    requires
        s.no_duplicates(),
        0 <= n,
        forall|i: int| 0 <= i < s.len() ==> #[trigger] s[i] < n,
    ensures
        s.len() <= n,
{
    let t = s.map_values(|x: usize| x as int);
    assert(t.no_duplicates()) by {
        assert forall|i: int, j: int| 0 <= i < t.len() && 0 <= j < t.len() && i != j implies t[i] != t[j] by {
            assert(s[i] != s[j]);
        }
    }
    t.unique_seq_to_set();
    vstd::set_lib::lemma_int_range(0, n);
    assert(t.to_set().subset_of(set_int_range(0, n))) by {
        assert forall|x: int| t.to_set().contains(x) implies set_int_range(0, n).contains(x) by {
            let i = choose|i: int| 0 <= i < t.len() && t[i] == x;
            assert(s[i] < n);
        }
    }
    vstd::set_lib::lemma_len_subset(t.to_set(), set_int_range(0, n));
}

proof fn push_contains(s: Seq<usize>, v: usize, w: usize)
    ensures
        s.push(v).contains(w) <==> s.contains(w) || w == v,
{
    if s.contains(w) {
        let i = choose|i: int| 0 <= i < s.len() && s[i] == w;
        assert(s.push(v)[i] == w);
    }
    if w == v {
        assert(s.push(v)[s.len() as int] == w);
    }
}

/// The cycle that the edge from the end of the path `stack` to `w` closes.
fn close_path(adj: &Successors, stack: &Vec<usize>, w: usize) -> (c: Vec<usize>)
    requires
        node_walk(adj@, stack@),
        stack@.no_duplicates(),
        stack@.contains(w),
        has_edge(adj@, stack@.last() as int, w as int),
        forall|i: int| 0 <= i < stack@.len() ==> #[trigger] stack@[i] < adj@.len(),
    ensures
        node_cycle(adj@, c@),
        forall|i: int| 0 <= i < c@.len() ==> #[trigger] c@[i] < adj@.len(),
{
    let mut start: usize = 0;
    while start < stack.len() && stack[start] != w
        invariant
            start <= stack@.len(),
            forall|j: int| 0 <= j < start ==> #[trigger] stack@[j] != w,
        decreases stack@.len() - start,
    {
        start += 1;
    }
    proof {
        let i = choose|i: int| 0 <= i < stack@.len() && stack@[i] == w;
        assert(start < stack@.len());
    }
    let mut found: Vec<usize> = Vec::new();
    let mut i: usize = start;
    while i < stack.len()
        invariant
            start <= i <= stack@.len(),
            found@ == stack@.subrange(start as int, i as int),
        decreases stack@.len() - i,
    {
        found.push(stack[i]);
        i += 1;
        assert(stack@.subrange(start as int, i as int) =~= stack@.subrange(start as int, i - 1).push(stack@[i - 1]));
    }
    let ghost path = found@;
    found.push(w);
    proof {
        assert(found@.drop_last() =~= path);
        assert(path.no_duplicates());
        assert(found@[0] == path[0] && path[0] == stack@[start as int]);
        assert forall|q: int| 0 <= q < found@.len() - 1 implies has_edge(adj@, #[trigger] found@[q] as int, found@[q + 1] as int) by {
            assert(found@[q] == stack@[start + q]);
            if q < found@.len() - 2 {
                assert(found@[q + 1] == stack@[start + q + 1]);
            } else {
                assert(stack@[start + q] == stack@.last());
            }
        }
        assert forall|q: int| 0 <= q < found@.len() implies #[trigger] found@[q] < adj@.len() by {
            if q < path.len() {
                assert(found@[q] == stack@[start + q]);
            }
        }
    }
    found
}

/// Searches from the unseen node `v`. Nodes are marked 0 (unseen), 1 (on the
/// path `stack`) or 2 (done, listed in `order`).
fn visit(
    v: usize,
    adj: &Successors,
    color: &mut Vec<u8>,
    stack: &mut Vec<usize>,
    order: &mut Vec<usize>,
) -> (r: Option<Vec<usize>>)
    requires
        search_inv(adj@, old(color)@, old(stack)@, old(order)@),
        v < adj@.len(),
        old(color)@[v as int] == 0,
        old(stack)@.len() > 0 ==> has_edge(adj@, old(stack)@.last() as int, v as int),
    ensures
        match r {
            Some(c) => node_cycle(adj@, c@) && forall|i: int| 0 <= i < c@.len() ==> #[trigger] c@[i] < adj@.len(),
            None => search_inv(adj@, final(color)@, final(stack)@, final(order)@) && final(stack)@ == old(stack)@
                && final(color)@[v as int] == 2 && forall|w: int|
                0 <= w < adj@.len() && old(color)@[w] == 2 ==> #[trigger] final(color)@[w] == 2,
        },
    decreases adj@.len() - old(stack)@.len(),
{
    let ghost color0 = color@;
    let ghost stack0 = stack@;
    let ghost order0 = order@;
    proof {
        if stack0.contains(v) {
            assert(color0[v as int] == 1);
        }
    }
    color.set(v, 1);
    stack.push(v);
    proof {
        assert forall|i: int, j: int| 0 <= i < stack@.len() && 0 <= j < stack@.len() && i != j implies stack@[i] != stack@[j] by {
            if i == stack0.len() {
                assert(stack0.contains(stack0[j]));
            }
            if j == stack0.len() {
                assert(stack0.contains(stack0[i]));
            }
        }
        distinct_below(stack@, adj@.len() as int);
        assert forall|w: usize| w < color@.len() implies (color@[w as int] == 1 <==> #[trigger] stack@.contains(w)) by {
            push_contains(stack0, v, w);
            assert(color0[w as int] == 1 <==> stack0.contains(w));
        }
        assert forall|w: usize| w < color@.len() implies (color@[w as int] == 2 <==> #[trigger] order@.contains(w)) by {
            assert(color0[w as int] == 2 <==> order0.contains(w));
        }
        assert(search_inv(adj@, color@, stack@, order@));
    }
    let ghost stack1 = stack@;
    let n: usize = adj[v].len();
    let mut k: usize = 0;
    while k < n
        invariant
            search_inv(adj@, color@, stack@, order@),
            v < adj@.len(),
            n == adj@[v as int]@.len(),
            k <= n,
            stack@ == stack1,
            stack1 == stack0.push(v),
            stack1.len() <= adj@.len(),
            color@[v as int] == 1,
            forall|j: int| 0 <= j < k ==> color@[#[trigger] adj@[v as int]@[j] as int] == 2,
            forall|w: int| 0 <= w < adj@.len() && color0[w] == 2 ==> #[trigger] color@[w] == 2,
            stack0 == old(stack)@,
        decreases n - k,
    {
        let w: usize = adj[v][k];
        assert(w < adj@.len());
        assert(has_edge(adj@, v as int, w as int)) by {
            assert(adj@[v as int]@[k as int] == w);
        }
        let c: u8 = color[w];
        let ghost color1 = color@;
        if c == 0 {
            match visit(w, adj, color, stack, order) {
                Some(found) => {
                    return Some(found);
                },
                None => {
                    assert forall|j: int| 0 <= j < k + 1 implies color@[#[trigger] adj@[v as int]@[j] as int] == 2 by {
                        if j < k {
                            assert(color1[adj@[v as int]@[j] as int] == 2);
                            assert(adj@[v as int]@[j] < adj@.len());
                        }
                    }
                    assert(stack@[stack@.len() - 1] == v);
                    assert(stack@.contains(v));
                },
            }
        } else if c == 1 {
            assert(stack@.contains(w));
            let found = close_path(adj, stack, w);
            return Some(found);
        } else {
            assert(color@[w as int] == 2);
        }
        k += 1;
    }
    let ghost color2 = color@;
    let ghost order2 = order@;
    stack.pop();
    assert(stack@ =~= stack0);
    color.set(v, 2);
    order.push(v);
    proof {
        assert forall|w: usize| w < color@.len() implies (color@[w as int] == 1 <==> #[trigger] stack@.contains(w)) by {
            push_contains(stack0, v, w);
            assert(color2[w as int] == 1 <==> stack1.contains(w));
            if w == v && stack0.contains(v) {
                let i = choose|i: int| 0 <= i < stack0.len() && stack0[i] == v;
                assert(stack1[i] == v && stack1[stack0.len() as int] == v);
            }
        }
        assert forall|w: usize| w < color@.len() implies (color@[w as int] == 2 <==> #[trigger] order@.contains(w)) by {
            push_contains(order2, v, w);
            assert(color2[w as int] == 2 <==> order2.contains(w));
        }
        assert forall|q: int, w: int| 0 <= q < order@.len() && #[trigger] has_edge(adj@, order@[q] as int, w) implies exists|j: int|
            0 <= j < q && #[trigger] order@[j] == w by {
            if q < order2.len() {
                assert(has_edge(adj@, order2[q] as int, w));
                let j = choose|j: int| 0 <= j < q && #[trigger] order2[j] == w;
                assert(order@[j] == w);
            } else {
                let e = choose|e: int| 0 <= e < adj@[v as int]@.len() && #[trigger] adj@[v as int]@[e] == w;
                assert(color2[adj@[v as int]@[e] as int] == 2);
                assert(order2.contains(w as usize));
                let j = choose|j: int| 0 <= j < order2.len() && order2[j] == w as usize;
                assert(order@[j] == w);
            }
        }
        assert forall|w: int| 0 <= w < adj@.len() && color0[w] == 2 implies #[trigger] color@[w] == 2 by {
            assert(color2[w] == 2);
        }
        assert(node_walk(adj@, stack@)) by {
            assert forall|i: int| 0 <= i < stack0.len() - 1 implies has_edge(adj@, #[trigger] stack0[i] as int, stack0[i + 1] as int) by {
                assert(stack1[i] == stack0[i] && stack1[i + 1] == stack0[i + 1]);
            }
        }
    }
    None
}

/// Along the edges the position in `order` goes down.
proof fn walk_goes_down(adj: Seq<Vec<usize>>, order: Seq<usize>, p: Seq<usize>, k: int, i: int)
    requires
        finished(adj, order),
        node_walk(adj, p),
        p.len() >= 1,
        0 <= k < order.len(),
        order[k] == p[0],
        0 <= i < p.len(),
    ensures
        exists|j: int| 0 <= j <= k - i && #[trigger] order[j] == p[i],
    decreases i,
{
    if i > 0 {
        walk_goes_down(adj, order, p, k, i - 1);
        let j = choose|j: int| 0 <= j <= k - (i - 1) && #[trigger] order[j] == p[i - 1];
        assert(has_edge(adj, p[i - 1] as int, p[i - 1 + 1] as int));
        assert(has_edge(adj, order[j] as int, p[i] as int));
        let l = choose|l: int| 0 <= l < j && #[trigger] order[l] == p[i];
        assert(0 <= l <= k - i);
    }
}

/// A walk from a listed node back to itself does not exist.
proof fn no_walk_back(adj: Seq<Vec<usize>>, order: Seq<usize>, p: Seq<usize>, k: int)
    requires
        finished(adj, order),
        node_walk(adj, p),
        p.len() >= 2,
        0 <= k < order.len(),
        order[k] == p[0],
    ensures
        p.first() != p.last(),
    decreases k,
{
    if p.first() == p.last() {
        walk_goes_down(adj, order, p, k, p.len() - 1);
        let j = choose|j: int| 0 <= j <= k - (p.len() - 1) && #[trigger] order[j] == p[p.len() - 1];
        no_walk_back(adj, order, p, j);
    }
}

/// A cycle of the graph; none exactly where no walk leads back to its start.
pub fn find_cycle(adj: &Successors) -> (r: Option<Vec<usize>>)
    requires
        closed_graph(adj@),
    ensures
        match r {
            Some(c) => node_cycle(adj@, c@) && forall|i: int| 0 <= i < c@.len() ==> #[trigger] c@[i] < adj@.len(),
            None => forall|p: Seq<usize>| #[trigger] node_walk(adj@, p) && p.len() >= 2 ==> p.first() != p.last(),
        },
{
    let n: usize = adj.len();
    let mut color: Vec<u8> = Vec::new();
    let mut i: usize = 0;
    while i < n
        invariant
            i <= n,
            color@.len() == i,
            forall|v: int| 0 <= v < i ==> #[trigger] color@[v] == 0,
        decreases n - i,
    {
        color.push(0);
        i += 1;
    }
    let mut stack: Vec<usize> = Vec::new();
    let mut order: Vec<usize> = Vec::new();
    let mut v: usize = 0;
    while v < n
        invariant
            n == adj@.len(),
            v <= n,
            search_inv(adj@, color@, stack@, order@),
            stack@.len() == 0,
            forall|w: int| 0 <= w < v ==> #[trigger] color@[w] == 2,
        decreases n - v,
    {
        if color[v] == 0 {
            let ghost color1 = color@;
            let found = visit(v, adj, &mut color, &mut stack, &mut order);
            if found.is_some() {
                return found;
            }
            assert forall|w: int| 0 <= w < v + 1 implies #[trigger] color@[w] == 2 by {
                if w < v {
                    assert(color1[w] == 2);
                }
            }
        } else {
            assert(color@[v as int] != 1) by {
                if color@[v as int] == 1 {
                    assert(stack@.contains(v));
                }
            }
        }
        v += 1;
    }
    proof {
        assert forall|p: Seq<usize>| #[trigger] node_walk(adj@, p) && p.len() >= 2 implies p.first() != p.last() by {
            if p.first() == p.last() {
                assert(has_edge(adj@, p[0] as int, p[0int + 1] as int));
                assert(color@[p[0] as int] == 2);
                assert(order@.contains(p[0]));
                let k = choose|k: int| 0 <= k < order@.len() && order@[k] == p[0];
                no_walk_back(adj@, order@, p, k);
            }
        }
    }
    None
}

} // verus!
