//! Which agent waits for which, the search for deadlocks among them and the
//! choice of the branch to cancel.

use crate::digraph::{closed_graph, find_cycle, has_edge, node_cycle, node_walk, Successors};
use crate::table::Table;
use crate::text::{copy_str, join, joined, less_text, same_text, text_less, text_order, texts};
use std::time::Duration;
use vstd::prelude::*;

verus! {

/// Names an agent.
pub type AgentId = String;

/// One of the pairs leads from `a` to `b`.
pub open spec fn leads(es: Seq<(String, String)>, a: Seq<char>, b: Seq<char>) -> bool {
    exists|i: int| 0 <= i < es.len() && (#[trigger] es[i]).0@ == a && es[i].1@ == b
}

/// `p` follows the pairs.
pub open spec fn walk(es: Seq<(String, String)>, p: Seq<Seq<char>>) -> bool {
    forall|i: int| 0 <= i < p.len() - 1 ==> leads(es, #[trigger] p[i], p[i + 1])
}

/// `p` follows the pairs from an agent back to the same agent.
pub open spec fn closed_walk(es: Seq<(String, String)>, p: Seq<Seq<char>>) -> bool {
    p.len() >= 2 && p.first() == p.last() && walk(es, p)
}

/// `nodes` lists each agent of the first `n` pairs once, and `adj` holds the
/// pairs as edges between positions.
#[verifier::opaque]
spec fn indexed(es: Seq<(String, String)>, n: int, nodes: Seq<String>, adj: Seq<Vec<usize>>) -> bool {
    &&& adj.len() == nodes.len()
    &&& closed_graph(adj)
    &&& texts(nodes).no_duplicates()
    &&& forall|a: int, b: int|
        0 <= a < nodes.len() && 0 <= b < nodes.len() ==> (#[trigger] has_edge(adj, a, b) <==> leads(
            es.take(n),
            nodes[a]@,
            nodes[b]@,
        ))
    &&& forall|i: int|
        0 <= i < n ==> texts(nodes).contains((#[trigger] es[i]).0@) && texts(nodes).contains(es[i].1@)
}

/// The position of `name` in `nodes`, where it is put at the end if it is new.
fn intern(nodes: &mut Vec<String>, adj: &mut Successors, name: &String) -> (r: usize)
    requires
        old(adj)@.len() == old(nodes)@.len(),
        texts(old(nodes)@).no_duplicates(),
    ensures
        r < final(nodes)@.len(),
        final(nodes)@[r as int]@ == name@,
        final(adj)@.len() == final(nodes)@.len(),
        texts(final(nodes)@).no_duplicates(),
        final(nodes)@.len() >= old(nodes)@.len(),
        final(nodes)@.take(old(nodes)@.len() as int) == old(nodes)@,
        final(adj)@.take(old(adj)@.len() as int) == old(adj)@,
        forall|i: int| old(adj)@.len() <= i < final(adj)@.len() ==> (#[trigger] final(adj)@[i])@.len() == 0,
{
    let ghost nodes0 = nodes@;
    let ghost adj0 = adj@;
    for i in 0..nodes.len()
        invariant
            nodes@ == nodes0,
            adj@ == adj0,
            nodes0 == old(nodes)@,
            adj0 == old(adj)@,
            adj0.len() == nodes0.len(),
            texts(nodes0).no_duplicates(),
            forall|j: int| 0 <= j < i ==> #[trigger] nodes0[j]@ != name@,
    {
        if same_text(nodes[i].as_str(), name.as_str()) {
            assert(nodes@.take(nodes0.len() as int) =~= nodes0);
            assert(adj@.take(adj0.len() as int) =~= adj0);
            return i;
        }
    }
    nodes.push(name.clone());
    adj.push(Vec::new());
    assert(nodes@.take(nodes0.len() as int) =~= nodes0);
    assert(adj@.take(adj0.len() as int) =~= adj0);
    assert forall|i: int, j: int| 0 <= i < nodes@.len() && 0 <= j < nodes@.len() && i != j implies texts(nodes@)[i]
        != texts(nodes@)[j] by {
        if i < nodes0.len() && j < nodes0.len() {
            assert(texts(nodes0)[i] != texts(nodes0)[j]);
        } else if i < nodes0.len() {
            assert(nodes0[i]@ != name@);
        } else {
            assert(nodes0[j]@ != name@);
        }
    }
    nodes.len() - 1
}

proof fn leads_grows(es: Seq<(String, String)>, n: int, a: Seq<char>, b: Seq<char>)
    requires
        0 <= n < es.len(),
    ensures
        leads(es.take(n + 1), a, b) <==> leads(es.take(n), a, b) || (es[n].0@ == a && es[n].1@ == b),
{
    if leads(es.take(n), a, b) {
        let i = choose|i: int| 0 <= i < es.take(n).len() && (#[trigger] es.take(n)[i]).0@ == a && es.take(n)[i].1@ == b;
        assert(es.take(n + 1)[i].0@ == a);
    }
    if es[n].0@ == a && es[n].1@ == b {
        assert(es.take(n + 1)[n].0@ == a);
    }
    if leads(es.take(n + 1), a, b) {
        let i = choose|i: int|
            0 <= i < es.take(n + 1).len() && (#[trigger] es.take(n + 1)[i]).0@ == a && es.take(n + 1)[i].1@ == b;
        if i < n {
            assert(es.take(n)[i].0@ == a);
        }
    }
}

/// After new agents were listed the edges are still those of the pairs.
proof fn indexed_after_intern(
    es: Seq<(String, String)>,
    n: int,
    nodes0: Seq<String>,
    adj0: Seq<Vec<usize>>,
    nodes: Seq<String>,
    adj: Seq<Vec<usize>>,
)
    requires
        0 <= n <= es.len(),
        indexed(es, n, nodes0, adj0),
        adj.len() == nodes.len(),
        texts(nodes).no_duplicates(),
        nodes.len() >= nodes0.len(),
        nodes.take(nodes0.len() as int) == nodes0,
        adj.take(adj0.len() as int) == adj0,
        forall|i: int| adj0.len() <= i < adj.len() ==> (#[trigger] adj[i])@.len() == 0,
    ensures
        indexed(es, n, nodes, adj),
{
    reveal(indexed);
    assert forall|i: int| 0 <= i < nodes0.len() implies nodes[i] == nodes0[i] && adj[i] == #[trigger] adj0[i] by {
        assert(nodes.take(nodes0.len() as int)[i] == nodes[i]);
        assert(adj.take(adj0.len() as int)[i] == adj[i]);
    }
    assert forall|i: int| 0 <= i < n implies texts(nodes).contains((#[trigger] es[i]).0@) && texts(nodes).contains(es[i].1@) by {
        let a = texts(nodes0).index_of(es[i].0@);
        let b = texts(nodes0).index_of(es[i].1@);
        assert(texts(nodes0).contains(es[i].0@) && texts(nodes0).contains(es[i].1@));
        assert(adj[a] == adj0[a] && adj[b] == adj0[b]);
        assert(texts(nodes)[a] == es[i].0@);
        assert(texts(nodes)[b] == es[i].1@);
    }
    assert forall|a: int, b: int| 0 <= a < nodes.len() && 0 <= b < nodes.len() implies (#[trigger] has_edge(adj, a, b)
        <==> leads(es.take(n), nodes[a]@, nodes[b]@)) by {
        if leads(es.take(n), nodes[a]@, nodes[b]@) {
            let i = choose|i: int|
                0 <= i < es.take(n).len() && (#[trigger] es.take(n)[i]).0@ == nodes[a]@ && es.take(n)[i].1@ == nodes[b]@;
            assert(es[i].0@ == nodes[a]@ && es[i].1@ == nodes[b]@);
            let a2 = texts(nodes0).index_of(es[i].0@);
            let b2 = texts(nodes0).index_of(es[i].1@);
            assert(texts(nodes0).contains(es[i].0@) && texts(nodes0).contains(es[i].1@));
            assert(adj[a2] == adj0[a2] && adj[b2] == adj0[b2]);
            assert(texts(nodes)[a2] == texts(nodes)[a]);
            assert(texts(nodes)[b2] == texts(nodes)[b]);
            assert(a == a2 && b == b2);
            assert(has_edge(adj0, a, b));
            let k = choose|k: int| 0 <= k < adj0[a]@.len() && #[trigger] adj0[a]@[k] == b;
            assert(adj[a]@[k] == b);
        }
        if has_edge(adj, a, b) {
            let k = choose|k: int| 0 <= k < adj[a]@.len() && #[trigger] adj[a]@[k] == b;
            if a < adj0.len() {
                assert(adj[a] == adj0[a]);
                assert(adj0[a]@[k] < adj0.len());
                assert(has_edge(adj0, a, b));
                assert(adj[b] == adj0[b]);
            }
        }
    }
    assert(closed_graph(adj)) by {
        assert forall|a: int, k: int| 0 <= a < adj.len() && 0 <= k < adj[a]@.len() implies #[trigger] adj[a]@[k] < adj.len() by {
            if a < adj0.len() {
                assert(adj[a] == adj0[a]);
                assert(adj0[a]@[k] < adj0.len());
            }
        }
    }
}

/// Adding the edge of the next pair.
proof fn indexed_after_edge(
    es: Seq<(String, String)>,
    n: int,
    nodes: Seq<String>,
    adj0: Seq<Vec<usize>>,
    adj: Seq<Vec<usize>>,
    a: usize,
    b: usize,
)
    requires
        0 <= n < es.len(),
        indexed(es, n, nodes, adj0),
        a < nodes.len(),
        b < nodes.len(),
        nodes[a as int]@ == es[n].0@,
        nodes[b as int]@ == es[n].1@,
        adj.len() == adj0.len(),
        forall|i: int| 0 <= i < adj.len() && i != a ==> adj[i] == #[trigger] adj0[i],
        adj[a as int]@ == adj0[a as int]@.push(b),
    ensures
        indexed(es, n + 1, nodes, adj),
{
    reveal(indexed);
    assert forall|x: int, y: int| 0 <= x < nodes.len() && 0 <= y < nodes.len() implies (#[trigger] has_edge(adj, x, y)
        <==> leads(es.take(n + 1), nodes[x]@, nodes[y]@)) by {
        leads_grows(es, n, nodes[x]@, nodes[y]@);
        assert(has_edge(adj0, x, y) <==> leads(es.take(n), nodes[x]@, nodes[y]@));
        if has_edge(adj0, x, y) {
            let k = choose|k: int| 0 <= k < adj0[x]@.len() && #[trigger] adj0[x]@[k] == y;
            assert(adj[x]@[k] == y);
        }
        if has_edge(adj, x, y) {
            let k = choose|k: int| 0 <= k < adj[x]@.len() && #[trigger] adj[x]@[k] == y;
            if x != a {
                assert(adj0[x]@[k] == y);
            } else if k < adj0[x]@.len() {
                assert(adj0[x]@[k] == y);
            } else {
                assert(y == b);
            }
        }
        if es[n].0@ == nodes[x]@ && es[n].1@ == nodes[y]@ {
            assert(texts(nodes)[x] == texts(nodes)[a as int]);
            assert(texts(nodes)[y] == texts(nodes)[b as int]);
            assert(x == a && y == b);
            assert(adj[x]@[adj0[x]@.len() as int] == y);
        }
    }
    assert(texts(nodes)[a as int] == es[n].0@);
    assert(texts(nodes)[b as int] == es[n].1@);
    assert(closed_graph(adj)) by {
        assert forall|x: int, k: int| 0 <= x < adj.len() && 0 <= k < adj[x]@.len() implies #[trigger] adj[x]@[k] < adj.len() by {
            if x != a {
                assert(adj0[x]@[k] < adj0.len());
            } else if k < adj0[x]@.len() {
                assert(adj0[x]@[k] < adj0.len());
            }
        }
    }
}

/// A closed walk along the pairs is one along the edges.
proof fn walk_to_nodes(es: Seq<(String, String)>, nodes: Seq<String>, adj: Seq<Vec<usize>>, p: Seq<Seq<char>>)
    requires
        indexed(es, es.len() as int, nodes, adj),
        nodes.len() <= usize::MAX,
        closed_walk(es, p),
    ensures
        exists|q: Seq<usize>| #[trigger] node_walk(adj, q) && q.len() >= 2 && q.first() == q.last(),
{
    reveal(indexed);
    let q = Seq::new(p.len(), |i: int| texts(nodes).index_of(p[i]) as usize);
    assert(es.take(es.len() as int) =~= es);
    assert forall|i: int| 0 <= i < p.len() implies texts(nodes).contains(#[trigger] p[i]) by {
        let j = if i < p.len() - 1 { i } else { 0 };
        assert(leads(es, p[j], p[j + 1]));
        let e = choose|e: int| 0 <= e < es.len() && (#[trigger] es[e]).0@ == p[j] && es[e].1@ == p[j + 1];
        assert(texts(nodes).contains(es[e].0@));
        assert(p[i] == p[j]);
    }
    assert forall|i: int| 0 <= i < p.len() implies (#[trigger] q[i]) < nodes.len() && nodes[q[i] as int]@ == p[i] by {
        assert(texts(nodes).contains(p[i]));
        let k = texts(nodes).index_of(p[i]);
        assert(texts(nodes)[k] == p[i]);
    }
    assert forall|i: int| 0 <= i < q.len() - 1 implies has_edge(adj, #[trigger] q[i] as int, q[i + 1] as int) by {
        assert(leads(es, p[i], p[i + 1]));
        assert(q[i] < nodes.len() && q[i + 1] < nodes.len());
        assert(nodes[q[i] as int]@ == p[i] && nodes[q[i + 1] as int]@ == p[i + 1]);
    }
    assert(node_walk(adj, q));
    assert(q.first() == q.last());
}

/// A cycle along the edges names a cycle along the pairs.
proof fn cycle_to_names(
    es: Seq<(String, String)>,
    nodes: Seq<String>,
    adj: Seq<Vec<usize>>,
    c: Seq<usize>,
    names: Seq<Seq<char>>,
)
    requires
        indexed(es, es.len() as int, nodes, adj),
        node_cycle(adj, c),
        forall|i: int| 0 <= i < c.len() ==> #[trigger] c[i] < nodes.len(),
        names.len() == c.len(),
        forall|i: int| 0 <= i < c.len() ==> #[trigger] names[i] == nodes[c[i] as int]@,
    ensures
        closed_walk(es, names),
        names.drop_last().no_duplicates(),
{
    reveal(indexed);
    assert(es.take(es.len() as int) =~= es);
    assert forall|i: int| 0 <= i < names.len() - 1 implies leads(es, #[trigger] names[i], names[i + 1]) by {
        assert(has_edge(adj, c[i] as int, c[i + 1] as int));
        assert(c[i] < nodes.len() && c[i + 1] < nodes.len());
    }
    assert(names.first() == nodes[c[0] as int]@);
    assert(names.last() == nodes[c[c.len() - 1] as int]@);
    assert forall|i: int, j: int| 0 <= i < names.len() - 1 && 0 <= j < names.len() - 1 && i != j implies names.drop_last()[i]
        != names.drop_last()[j] by {
        assert(c.drop_last()[i] != c.drop_last()[j]);
        assert(c[i] != c[j]);
        assert(texts(nodes)[c[i] as int] != texts(nodes)[c[j] as int]);
    }
}

/// The agents of the pairs, each listed once, and the pairs as edges between
/// their positions.
fn index_pairs(edges: &Vec<(AgentId, AgentId)>) -> (r: (Vec<String>, Successors))
    ensures
        indexed(edges@, edges@.len() as int, r.0@, r.1@),
{
    let mut nodes: Vec<String> = Vec::new();
    let mut adj: Successors = Vec::new();
    proof {
        reveal(indexed);
    }
    for i in 0..edges.len()
        invariant
            indexed(edges@, i as int, nodes@, adj@),
            adj@.len() == nodes@.len(),
            texts(nodes@).no_duplicates(),
    {
        let ghost nodes0 = nodes@;
        let ghost adj0 = adj@;
        let a: usize = intern(&mut nodes, &mut adj, &edges[i].0);
        proof {
            indexed_after_intern(edges@, i as int, nodes0, adj0, nodes@, adj@);
        }
        let ghost nodes1 = nodes@;
        let ghost adj1 = adj@;
        let b: usize = intern(&mut nodes, &mut adj, &edges[i].1);
        proof {
            indexed_after_intern(edges@, i as int, nodes1, adj1, nodes@, adj@);
            assert(nodes@.take(nodes1.len() as int)[a as int] == nodes@[a as int]);
        }
        let ghost adj2 = adj@;
        adj[a].push(b);
        proof {
            indexed_after_edge(edges@, i as int, nodes@, adj2, adj@, a, b);
        }
    }
    (nodes, adj)
}

/// The names of the nodes `c`.
fn names_of(nodes: &Vec<String>, c: &Vec<usize>) -> (names: Vec<String>)
    requires
        forall|i: int| 0 <= i < c@.len() ==> #[trigger] c@[i] < nodes@.len(),
    ensures
        names@.len() == c@.len(),
        forall|i: int| 0 <= i < c@.len() ==> #[trigger] texts(names@)[i] == nodes@[c@[i] as int]@,
{
    let mut names: Vec<String> = Vec::new();
    for k in 0..c.len()
        invariant
            forall|i: int| 0 <= i < c@.len() ==> #[trigger] c@[i] < nodes@.len(),
            names@.len() == k,
            forall|i: int| 0 <= i < k ==> #[trigger] names@[i]@ == nodes@[c@[i] as int]@,
    {
        assert(c@[k as int] < nodes@.len());
        names.push(nodes[c[k]].clone());
    }
    assert forall|i: int| 0 <= i < c@.len() implies #[trigger] texts(names@)[i] == nodes@[c@[i] as int]@ by {
        assert(texts(names@)[i] == names@[i]@);
    }
    names
}

/// A cycle among the pairs, as the agents on it with the first one again at the
/// end; none exactly where no walk along the pairs leads back to its start.
pub fn detect_cycle(edges: &Vec<(AgentId, AgentId)>) -> (r: Option<Vec<AgentId>>)
    ensures
        match r {
            Some(c) => closed_walk(edges@, texts(c@)) && texts(c@).drop_last().no_duplicates(),
            None => forall|p: Seq<Seq<char>>| !closed_walk(edges@, p),
        },
{
    let (nodes, adj) = index_pairs(edges);
    proof {
        indexed_is_closed(edges@, nodes@, adj@);
    }
    match find_cycle(&adj) {
        Some(c) => {
            let names = names_of(&nodes, &c);
            proof {
                cycle_to_names(edges@, nodes@, adj@, c@, texts(names@));
            }
            Some(names)
        },
        None => {
            assert(nodes.len() <= usize::MAX);
            assert forall|p: Seq<Seq<char>>| !closed_walk(edges@, p) by {
                if closed_walk(edges@, p) {
                    walk_to_nodes(edges@, nodes@, adj@, p);
                }
            }
            None
        },
    }
}

proof fn indexed_is_closed(es: Seq<(String, String)>, nodes: Seq<String>, adj: Seq<Vec<usize>>)
    requires
        indexed(es, es.len() as int, nodes, adj),
    ensures
        closed_graph(adj),
        adj.len() == nodes.len(),
{
    reveal(indexed);
}

/// `waiter` waits until `waited` is done.
pub struct WaitEdge {
    pub waiter: AgentId,
    pub waited: AgentId,
    /// How long it waits; `None` waits without end.
    pub timeout: Option<Duration>,
}

impl WaitEdge {
    /// A wait without end.
    pub fn new(waiter: &str, waited: &str) -> (r: WaitEdge)
        ensures
            r.waiter@ == waiter@,
            r.waited@ == waited@,
            r.timeout is None,
    {
        WaitEdge { waiter: copy_str(waiter), waited: copy_str(waited), timeout: None }
    }

    /// The same wait, given up after `timeout`.
    pub fn with_timeout(self, timeout: Duration) -> (r: WaitEdge)
        ensures
            r == (WaitEdge { timeout: Some(timeout), ..self }),
    {
        WaitEdge { waiter: self.waiter, waited: self.waited, timeout: Some(timeout) }
    }
}

/// `a` waits for `b`.
pub open spec fn waits_for(es: Seq<WaitEdge>, a: Seq<char>, b: Seq<char>) -> bool {
    exists|i: int| 0 <= i < es.len() && (#[trigger] es[i]).waiter@ == a && es[i].waited@ == b
}

/// The agents of `p` wait for each other in turn, and the last one is the first.
pub open spec fn wait_loop(es: Seq<WaitEdge>, p: Seq<Seq<char>>) -> bool {
    &&& p.len() >= 2
    &&& p.first() == p.last()
    &&& forall|i: int| 0 <= i < p.len() - 1 ==> waits_for(es, #[trigger] p[i], p[i + 1])
}

/// What the search for a deadlock owes: a loop of waits that meets no agent
/// twice, or nothing where there is no loop at all.
pub open spec fn found_loop(es: Seq<WaitEdge>, r: Option<Vec<AgentId>>) -> bool {
    match r {
        Some(c) => wait_loop(es, texts(c@)) && texts(c@).drop_last().no_duplicates(),
        None => forall|p: Seq<Seq<char>>| !wait_loop(es, p),
    }
}

proof fn waits_as_pairs(es: Seq<WaitEdge>, ps: Seq<(String, String)>, a: Seq<char>, b: Seq<char>)
    requires
        ps.len() == es.len(),
        forall|i: int| 0 <= i < es.len() ==> (#[trigger] ps[i]).0@ == es[i].waiter@ && ps[i].1@ == es[i].waited@,
    ensures
        leads(ps, a, b) <==> waits_for(es, a, b),
{
    if leads(ps, a, b) {
        let i = choose|i: int| 0 <= i < ps.len() && (#[trigger] ps[i]).0@ == a && ps[i].1@ == b;
        assert(es[i].waiter@ == a);
    }
    if waits_for(es, a, b) {
        let i = choose|i: int| 0 <= i < es.len() && (#[trigger] es[i]).waiter@ == a && es[i].waited@ == b;
        assert(ps[i].0@ == a);
    }
}

/// The agents of a deadlock, the first one again at the end.
pub fn detect_wait_cycle(edges: &Vec<WaitEdge>) -> (r: Option<Vec<AgentId>>)
    ensures
        found_loop(edges@, r),
{
    let mut pairs: Vec<(AgentId, AgentId)> = Vec::new();
    for i in 0..edges.len()
        invariant
            pairs@.len() == i,
            forall|j: int|
                0 <= j < i ==> (#[trigger] pairs@[j]).0@ == edges@[j].waiter@ && pairs@[j].1@ == edges@[j].waited@,
    {
        pairs.push((edges[i].waiter.clone(), edges[i].waited.clone()));
    }
    let r = detect_cycle(&pairs);
    proof {
        assert forall|p: Seq<Seq<char>>| #[trigger] closed_walk(pairs@, p) <==> wait_loop(edges@, p) by {
            if closed_walk(pairs@, p) {
                assert forall|i: int| 0 <= i < p.len() - 1 implies waits_for(edges@, #[trigger] p[i], p[i + 1]) by {
                    assert(leads(pairs@, p[i], p[i + 1]));
                    waits_as_pairs(edges@, pairs@, p[i], p[i + 1]);
                }
            }
            if wait_loop(edges@, p) {
                assert forall|i: int| 0 <= i < p.len() - 1 implies leads(pairs@, #[trigger] p[i], p[i + 1]) by {
                    assert(waits_for(edges@, p[i], p[i + 1]));
                    waits_as_pairs(edges@, pairs@, p[i], p[i + 1]);
                }
            }
        }
        if r is None {
            assert forall|p: Seq<Seq<char>>| !wait_loop(edges@, p) by {
                assert(!closed_walk(pairs@, p));
            }
        }
    }
    r
}

/// The rank of an agent: the greater, the less important. An agent without a
/// rank is the least important.
pub open spec fn rank_of(priority: Map<Seq<char>, u32>, a: Seq<char>) -> u32 {
    if priority.contains_key(a) {
        priority[a]
    } else {
        u32::MAX
    }
}

/// `a` is cancelled before `b`: it is less important, or of the same rank and
/// later in the order of names.
pub open spec fn cancelled_before(priority: Map<Seq<char>, u32>, a: Seq<char>, b: Seq<char>) -> bool {
    rank_of(priority, a) > rank_of(priority, b) || (rank_of(priority, a) == rank_of(priority, b) && text_less(b, a))
}

/// The agent of a cycle that is cancelled: the least important named one.
pub open spec fn is_victim(cycle: Seq<Seq<char>>, priority: Map<Seq<char>, u32>, v: Seq<char>) -> bool {
    if exists|i: int| 0 <= i < cycle.len() && (#[trigger] cycle[i]).len() > 0 {
        &&& v.len() > 0
        &&& cycle.contains(v)
        &&& forall|i: int|
            0 <= i < cycle.len() && (#[trigger] cycle[i]).len() > 0 && cycle[i] != v ==> cancelled_before(
                priority,
                v,
                cycle[i],
            )
    } else {
        v == "unknown"@
    }
}

/// Which agent to cancel so that the cycle opens. Agents without a name are
/// passed over.
pub fn arbitrate_wait_cycle(cycle: &Vec<AgentId>, priority: &Table<u32>) -> (r: AgentId)
    requires
        priority.wf(),
    ensures
        is_victim(texts(cycle@), priority@, r@),
{
    let mut best: Option<usize> = None;
    let mut best_rank: u32 = 0;
    let ghost names = texts(cycle@);
    for i in 0..cycle.len()
        invariant
            priority.wf(),
            names == texts(cycle@),
            match best {
                Some(b) => b < i && names[b as int].len() > 0 && best_rank == rank_of(priority@, names[b as int])
                    && forall|j: int|
                    0 <= j < i && (#[trigger] names[j]).len() > 0 && names[j] != names[b as int] ==> cancelled_before(
                        priority@,
                        names[b as int],
                        names[j],
                    ),
                None => forall|j: int| 0 <= j < i ==> (#[trigger] names[j]).len() == 0,
            },
    {
        assert(names[i as int] == cycle@[i as int]@);
        let name = cycle[i].as_str();
        if !name.is_empty() {
            let rank: u32 = match priority.get(name) {
                Some(p) => *p,
                None => u32::MAX,
            };
            match best {
                Some(b) => {
                    assert(names[b as int] == cycle@[b as int]@);
                    let less = less_text(cycle[b].as_str(), name);
                    proof {
                        text_order(names[i as int], names[b as int], names[b as int]);
                        assert forall|j: int| 0 <= j < i && (#[trigger] names[j]).len() > 0 && cancelled_before(
                            priority@,
                            names[i as int],
                            names[b as int],
                        ) implies cancelled_before(priority@, names[i as int], names[j]) || names[j] == names[i as int] by {
                            text_order(names[j], names[b as int], names[i as int]);
                        }
                    }
                    if rank > best_rank || (rank == best_rank && less) {
                        best = Some(i);
                        best_rank = rank;
                    }
                },
                None => {
                    best = Some(i);
                    best_rank = rank;
                },
            }
        }
    }
    match best {
        Some(b) => {
            assert(names[b as int] == cycle@[b as int]@);
            cycle[b].clone()
        },
        None => copy_str("unknown"),
    }
}

/// What a deadlock is answered with: the branch to cancel, the cycle that it
/// opens, and a message.
pub struct WaitResolution {
    pub cancel: AgentId,
    pub cycle: Vec<AgentId>,
    pub reason: String,
}

/// The waits that were reported, and the ranks of the agents.
pub struct WaitGraph {
    pub edges: Vec<WaitEdge>,
    pub priority: Table<u32>,
}

impl WaitGraph {
    /// No agent has two ranks.
    pub open spec fn wf(self) -> bool {
        self.priority.wf()
    }

    /// No waits and no ranks.
    pub fn new() -> (r: WaitGraph)
        ensures
            r.wf(),
            r.edges@.len() == 0,
            r.priority@ == Map::<Seq<char>, u32>::empty(),
    {
        WaitGraph { edges: Vec::new(), priority: Table::new() }
    }

    /// Reports a wait.
    pub fn add(&mut self, waiter: &str, waited: &str, timeout: Option<Duration>)
        requires
            old(self).wf(),
        ensures
            final(self).wf(),
            final(self).priority == old(self).priority,
            final(self).edges@.len() == old(self).edges@.len() + 1,
            final(self).edges@.drop_last() == old(self).edges@,
            final(self).edges@.last().waiter@ == waiter@,
            final(self).edges@.last().waited@ == waited@,
            final(self).edges@.last().timeout == timeout,
    {
        let ghost before = self.edges@;
        self.edges.push(WaitEdge { waiter: copy_str(waiter), waited: copy_str(waited), timeout });
        assert(self.edges@.drop_last() =~= before);
    }

    /// Gives an agent a rank.
    pub fn set_priority(&mut self, agent: &str, priority: u32)
        requires
            old(self).wf(),
        ensures
            final(self).wf(),
            final(self).edges == old(self).edges,
            final(self).priority@ == old(self).priority@.insert(agent@, priority),
    {
        self.priority.insert(copy_str(agent), priority);
    }

    /// The waits in the order in which they were reported.
    pub fn edges(&self) -> (r: &Vec<WaitEdge>)
        ensures
            *r == self.edges,
    {
        &self.edges
    }

    /// The agents of a deadlock.
    pub fn cycle(&self) -> (r: Option<Vec<AgentId>>)
        ensures
            found_loop(self.edges@, r),
    {
        detect_wait_cycle(&self.edges)
    }

    /// The answer to a deadlock; none exactly where nobody waits in a loop.
    pub fn resolve(&self) -> (r: Option<WaitResolution>)
        requires
            self.wf(),
        ensures
            match r {
                Some(w) => {
                    &&& found_loop(self.edges@, Some(w.cycle))
                    &&& is_victim(texts(w.cycle@), self.priority@, w.cancel@)
                    &&& w.reason@ == "agent 等待图死锁：取消低优先分支 "@ + w.cancel@ + "（环："@ + joined(
                        texts(w.cycle@),
                        " → "@,
                    ) + "）"@
                },
                None => found_loop(self.edges@, None),
            },
    {
        match self.cycle() {
            Some(cycle) => {
                let cancel = arbitrate_wait_cycle(&cycle, &self.priority);
                let mut reason = copy_str("agent 等待图死锁：取消低优先分支 ");
                reason.append(cancel.as_str());
                reason.append("（环：");
                let path = join(&cycle, " → ");
                reason.append(path.as_str());
                reason.append("）");
                Some(WaitResolution { cancel, cycle, reason })
            },
            None => None,
        }
    }
}

/// Which agent is cancelled does not depend on how the search met the cycle:
/// the ranks and the names decide.
pub proof fn victim_is_unique(cycle: Seq<Seq<char>>, priority: Map<Seq<char>, u32>, v: Seq<char>, w: Seq<char>)
    requires
        is_victim(cycle, priority, v),
        is_victim(cycle, priority, w),
    ensures
        v == w,
{
    if v != w && exists|i: int| 0 <= i < cycle.len() && (#[trigger] cycle[i]).len() > 0 {
        let i = cycle.index_of(v);
        let j = cycle.index_of(w);
        assert(cycle[i] == v && cycle[j] == w);
        text_order(v, w, v);
    }
}

/// A wait that is reported never hides a deadlock: whoever waited in a loop
/// before still does.
pub proof fn loops_stay(before: Seq<WaitEdge>, after: Seq<WaitEdge>, p: Seq<Seq<char>>)
    requires
        before.len() <= after.len(),
        after.take(before.len() as int) == before,
        wait_loop(before, p),
    ensures
        wait_loop(after, p),
{
    assert forall|i: int| 0 <= i < p.len() - 1 implies waits_for(after, #[trigger] p[i], p[i + 1]) by {
        assert(waits_for(before, p[i], p[i + 1]));
        let e = choose|e: int| 0 <= e < before.len() && (#[trigger] before[e]).waiter@ == p[i] && before[e].waited@ == p[i + 1];
        assert(after.take(before.len() as int)[e] == after[e]);
    }
}

/// Whoever is to give way is in the loop and ranks no higher than anyone in it; among
/// equals it is the one whose name comes last. An agent without a rank gives way before
/// one that has any.
pub proof fn the_least_important_gives_way(cycle: Seq<Seq<char>>, priority: Map<Seq<char>, u32>, v: Seq<char>, i: int)
    requires
        is_victim(cycle, priority, v),
        0 <= i < cycle.len(),
        cycle[i].len() > 0,
    ensures
        cycle.contains(v) && v.len() > 0,
        priority.contains_key(v) && priority.contains_key(cycle[i]) ==> priority[v] >= priority[cycle[i]],
        priority.contains_key(v) && !priority.contains_key(cycle[i]) ==> priority[v] == u32::MAX,
        priority.contains_key(v) && priority.contains_key(cycle[i]) && priority[v] == priority[cycle[i]] && cycle[i] != v
            ==> text_less(cycle[i], v),
        !priority.contains_key(v) && !priority.contains_key(cycle[i]) && cycle[i] != v ==> text_less(cycle[i], v),
{
    assert(cycle[i] == v || cancelled_before(priority, v, cycle[i]));
}

/// Two agents that wait for each other, and one that waits for itself, are a loop; a
/// loop that is found is one whose agents each wait for the next, and where none is
/// found there is none.
pub proof fn loops_are_found(es: Seq<WaitEdge>, a: Seq<char>, b: Seq<char>, r: Option<Vec<AgentId>>, i: int, j: int)
    requires
        found_loop(es, r),
        0 <= i < es.len(),
        0 <= j < es.len(),
        es[i].waiter@ == a && es[i].waited@ == b,
        es[j].waiter@ == b && es[j].waited@ == a,
    ensures
        r is Some,
        r matches Some(c) && c@.len() >= 2 && c@[0]@ == c@[c@.len() - 1]@ && forall|k: int|
            0 <= k < c@.len() - 1 ==> exists|e: int|
                0 <= e < es.len() && (#[trigger] es[e]).waiter@ == (#[trigger] c@[k])@ && es[e].waited@ == c@[k + 1]@,
{
    let p = seq![a, b, a];
    assert(waits_for(es, a, b));
    assert(waits_for(es, b, a));
    assert(wait_loop(es, p)) by {
        assert forall|k: int| 0 <= k < p.len() - 1 implies waits_for(es, #[trigger] p[k], p[k + 1]) by {
            assert(k == 0 || k == 1);
        }
    }
    let c = r->0;
    let t = texts(c@);
    assert(wait_loop(es, t));
    assert(t[0] == c@[0]@ && t[t.len() - 1] == c@[c@.len() - 1]@);
    assert forall|k: int| 0 <= k < c@.len() - 1 implies exists|e: int|
        0 <= e < es.len() && (#[trigger] es[e]).waiter@ == (#[trigger] c@[k])@ && es[e].waited@ == c@[k + 1]@ by {
        assert(waits_for(es, t[k], t[k + 1]));
        assert(t[k] == c@[k]@ && t[k + 1] == c@[k + 1]@);
    }
}

} // verus!
