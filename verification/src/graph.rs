//! The token graph and the bounded depth-first search for arbitrage cycles.
//!
//! Nodes are tokens, edges are swaps through a pool; the graph itself is a
//! petgraph directed graph, which also fixes the order in which a node's
//! edges are walked (newest first). The search walks
//! simple paths out of a start token and reports every walk that returns to
//! it. Each edge carries an id; what the edge is worth (its price and
//! logarithmic weight) is kept by the caller under that id, and the caller
//! judges each reported cycle by it.

use crate::address::Address;
use crate::dex::Dex;
use petgraph::graph::{DiGraph, NodeIndex};
use petgraph::visit::EdgeRef;
use vstd::prelude::*;

verus! {

#[verifier::external_type_specification]
#[verifier::external_body]
#[verifier::reject_recursive_types(N)]
#[verifier::reject_recursive_types(E)]
#[verifier::reject_recursive_types(Ty)]
#[verifier::reject_recursive_types(Ix)]
pub struct ExGraph<N, E, Ty, Ix>(petgraph::graph::Graph<N, E, Ty, Ix>);

#[verifier::external_type_specification]
#[verifier::external_body]
pub struct ExDirected(petgraph::Directed);

/// The token of each node of a petgraph graph, by node index.
pub uninterp spec fn petgraph_nodes(g: DiGraph<(u32, u64, u64), usize>) -> Seq<(u32, u64, u64)>;

/// The edges of a petgraph graph, by edge index: (source, target, weight).
pub uninterp spec fn petgraph_edges(g: DiGraph<(u32, u64, u64), usize>) -> Seq<(usize, usize, usize)>;

/// `petgraph::graph::Graph::new`: a graph with no node and no edge.
#[verifier::external_body]
fn petgraph_new() -> (g: DiGraph<(u32, u64, u64), usize>)
    ensures
        petgraph_nodes(g) == Seq::<(u32, u64, u64)>::empty(),
        petgraph_edges(g) == Seq::<(usize, usize, usize)>::empty(),
{
    DiGraph::new()
}

/// The (target, weight) of the edges leaving node `a`, newest first: each
/// edge added is put in front of its source's list.
pub open spec fn spec_out_edges(es: Seq<(usize, usize, usize)>, a: int) -> Seq<(usize, usize)>
    decreases es.len(),
{
    if es.len() == 0 {
        Seq::empty()
    } else {
        let rest = spec_out_edges(es.drop_last(), a);
        if es.last().0 == a {
            seq![(es.last().1, es.last().2)] + rest
        } else {
            rest
        }
    }
}

/// `Graph::add_node`: appends a node with this weight and gives its index.
/// It panics when the graph already holds `u32::MAX` nodes, which
/// `requires` leaves out.
#[verifier::external_body]
fn petgraph_add_node(g: &mut DiGraph<(u32, u64, u64), usize>, weight: (u32, u64, u64)) -> (r: usize)
    requires
        petgraph_nodes(*old(g)).len() < u32::MAX,
    ensures
        petgraph_nodes(*final(g)) == petgraph_nodes(*old(g)).push(weight),
        petgraph_edges(*final(g)) == petgraph_edges(*old(g)),
        r == petgraph_nodes(*old(g)).len(),
{
    g.add_node(weight).index()
}

/// `Graph::add_edge`: appends an edge `a -> b` with this weight and gives
/// its index. It panics on a node that does not exist and when the graph
/// already holds `u32::MAX` edges, which `requires` leaves out.
#[verifier::external_body]
fn petgraph_add_edge(g: &mut DiGraph<(u32, u64, u64), usize>, a: usize, b: usize, weight: usize) -> (r:
    usize)
    requires
        a < petgraph_nodes(*old(g)).len(),
        b < petgraph_nodes(*old(g)).len(),
        a < u32::MAX,
        b < u32::MAX,
        petgraph_edges(*old(g)).len() < u32::MAX,
    ensures
        petgraph_edges(*final(g)) == petgraph_edges(*old(g)).push((a, b, weight)),
        petgraph_nodes(*final(g)) == petgraph_nodes(*old(g)),
        r == petgraph_edges(*old(g)).len(),
{
    g.add_edge(NodeIndex::new(a), NodeIndex::new(b), weight).index()
}

/// `Graph::edges` on a directed graph: the edges leaving node `a`, as
/// (target, weight), newest first. Each node keeps its outgoing edges in a
/// list that `add_edge` puts the new edge in front of, and the iterator
/// walks that list.
#[verifier::external_body]
fn petgraph_out_edges(g: &DiGraph<(u32, u64, u64), usize>, a: usize) -> (r: Vec<(usize, usize)>)
    requires
        a < petgraph_nodes(*g).len(),
        a < u32::MAX,
    ensures
        r@ == spec_out_edges(petgraph_edges(*g), a as int),
{
    g.edges(NodeIndex::new(a)).map(|e| (e.target().index(), *e.weight())).collect()
}

/// `Graph::node_weight`: the weight of an existing node.
#[verifier::external_body]
fn petgraph_node_weight(g: &DiGraph<(u32, u64, u64), usize>, a: usize) -> (r: (u32, u64, u64))
    requires
        a < petgraph_nodes(*g).len(),
        a < u32::MAX,
    ensures
        r == petgraph_nodes(*g)[a as int],
{
    *g.node_weight(NodeIndex::new(a)).unwrap()
}

/// `Graph::node_count`: the number of nodes.
#[verifier::external_body]
fn petgraph_node_count(g: &DiGraph<(u32, u64, u64), usize>) -> (r: usize)
    ensures
        r == petgraph_nodes(*g).len(),
{
    g.node_count()
}

/// `Graph::edge_count`: the number of edges.
#[verifier::external_body]
fn petgraph_edge_count(g: &DiGraph<(u32, u64, u64), usize>) -> (r: usize)
    ensures
        r == petgraph_edges(*g).len(),
{
    g.edge_count()
}

/// A swap from one token to another through a pool.
#[derive(Debug, Clone, Copy, PartialEq, Eq, Structural)]
pub struct GraphEdge {
    /// The node of the token received.
    pub target: usize,
    pub pool_address: Address,
    pub dex: Dex,
    /// Fee in hundredths of a bip.
    pub fee: u32,
    /// The number of the edge: the edges added before it.
    pub id: usize,
}

/// A directed multigraph of tokens, held in a petgraph graph whose nodes
/// carry the token's address words and whose edges carry their id. The
/// edges leaving a node are listed newest first, the order the search
/// follows.
pub struct ArbitrageGraph {
    graph: DiGraph<(u32, u64, u64), usize>,
    /// What each edge stands for, by id.
    edge_data: Vec<GraphEdge>,
}

/// A cycle the search found: tokens from the start back to it, and the
/// pool, DEX, fee and edge id of each hop.
#[derive(Debug, Clone, PartialEq, Eq)]
pub struct CycleCandidate {
    pub path: Vec<Address>,
    pub pools: Vec<Address>,
    pub dexes: Vec<Dex>,
    pub fees: Vec<u32>,
    pub edge_ids: Vec<usize>,
}

/// What a candidate holds.
pub struct CandidateView {
    pub path: Seq<Address>,
    pub pools: Seq<Address>,
    pub dexes: Seq<Dex>,
    pub fees: Seq<u32>,
    pub edge_ids: Seq<usize>,
}

/// The hops taken so far on a walk.
pub struct Hops {
    pub pools: Seq<Address>,
    pub dexes: Seq<Dex>,
    pub fees: Seq<u32>,
    pub edge_ids: Seq<usize>,
}

impl CycleCandidate {
    pub open spec fn view(&self) -> CandidateView {
        CandidateView {
            path: self.path@,
            pools: self.pools@,
            dexes: self.dexes@,
            fees: self.fees@,
            edge_ids: self.edge_ids@,
        }
    }
}

/// The hops after taking one more edge.
pub open spec fn hops_push(h: Hops, e: GraphEdge) -> Hops {
    Hops {
        pools: h.pools.push(e.pool_address),
        dexes: h.dexes.push(e.dex),
        fees: h.fees.push(e.fee),
        edge_ids: h.edge_ids.push(e.id),
    }
}

/// The graph's nodes are well formed: one edge list per token, every edge
/// leads to a token, and edge ids are below the edge count.
pub open spec fn graph_wf(tokens: Seq<Address>, adj: Seq<Seq<GraphEdge>>, edge_total: nat) -> bool {
    &&& adj.len() == tokens.len()
    &&& forall|n: int, k: int|
        0 <= n < adj.len() && 0 <= k < adj[n].len() ==> (#[trigger] adj[n][k]).target
            < tokens.len() && adj[n][k].id < edge_total
}

/// The cycles a walk reports from node `cur` at `depth`, having come along
/// `path` (tokens) and `hops`, with `visited` nodes closed.
pub open spec fn spec_visit(
    tokens: Seq<Address>,
    adj: Seq<Seq<GraphEdge>>,
    max_hops: int,
    start: int,
    cur: int,
    path: Seq<Address>,
    hops: Hops,
    visited: Set<int>,
    depth: int,
) -> Seq<CandidateView>
    decreases max_hops + 1 - depth, adj[cur].len() + 1,
{
    if depth > max_hops || !(0 <= cur < tokens.len()) {
        Seq::empty()
    } else {
        let path2 = path.push(tokens[cur]);
        let visited2 = if depth > 1 {
            visited.insert(cur)
        } else {
            visited
        };
        spec_edges(
            tokens,
            adj,
            max_hops,
            start,
            cur,
            path2,
            hops,
            visited2,
            depth,
            adj[cur].len() as int,
        )
    }
}

/// The cycles reported along the first `k` edges leaving `cur`, in order.
pub open spec fn spec_edges(
    tokens: Seq<Address>,
    adj: Seq<Seq<GraphEdge>>,
    max_hops: int,
    start: int,
    cur: int,
    path: Seq<Address>,
    hops: Hops,
    visited: Set<int>,
    depth: int,
    k: int,
) -> Seq<CandidateView>
    decreases max_hops + 1 - depth, k,
{
    if k <= 0 || depth > max_hops || !(0 <= cur < adj.len()) || k > adj[cur].len() {
        Seq::empty()
    } else {
        let before = spec_edges(tokens, adj, max_hops, start, cur, path, hops, visited, depth, k - 1);
        let e = adj[cur][k - 1];
        if e.target == start && depth >= 2 {
            let h = hops_push(hops, e);
            before.push(
                CandidateView {
                    path: path.push(tokens[start]),
                    pools: h.pools,
                    dexes: h.dexes,
                    fees: h.fees,
                    edge_ids: h.edge_ids,
                },
            )
        } else if !visited.contains(e.target as int) && depth < max_hops {
            before + spec_visit(
                tokens,
                adj,
                max_hops,
                start,
                e.target as int,
                path,
                hops_push(hops, e),
                visited,
                depth + 1,
            )
        } else {
            before
        }
    }
}

/// Every cycle reachable from `start` within `max_hops` hops, in the order
/// of the search.
pub open spec fn spec_cycles_from(
    tokens: Seq<Address>,
    adj: Seq<Seq<GraphEdge>>,
    max_hops: int,
    start: int,
) -> Seq<CandidateView> {
    spec_visit(
        tokens,
        adj,
        max_hops,
        start,
        start,
        Seq::empty(),
        Hops { pools: Seq::empty(), dexes: Seq::empty(), fees: Seq::empty(), edge_ids: Seq::empty() },
        Set::empty(),
        1,
    )
}

/// The index of a token, if it has a node.
pub open spec fn spec_index_of(tokens: Seq<Address>, token: Address) -> Option<int>
    decreases tokens.len(),
{
    if tokens.len() == 0 {
        None
    } else {
        match spec_index_of(tokens.drop_last(), token) {
            Some(i) => Some(i),
            None => if tokens.last() == token {
                Some(tokens.len() - 1)
            } else {
                None
            },
        }
    }
}

/// A copy of a vector of plain values.
pub fn copied<T: Copy>(v: &Vec<T>) -> (r: Vec<T>)
    ensures
        r@ == v@,
{
    let mut r: Vec<T> = Vec::new();
    let mut i: usize = 0;
    while i < v.len()
        invariant
            i <= v.len(),
            r@ == v@.subrange(0, i as int),
        decreases v.len() - i,
    {
        r.push(v[i]);
        i = i + 1;
    }
    assert(v@.subrange(0, v.len() as int) =~= v@);
    r
}

fn copied_push<T: Copy>(v: &Vec<T>, x: T) -> (r: Vec<T>)
    ensures
        r@ == v@.push(x),
{
    let mut r = copied(v);
    r.push(x);
    r
}

/// The token a node weight stands for.
pub open spec fn token_of(w: (u32, u64, u64)) -> Address {
    Address { high: w.0, mid: w.1, low: w.2 }
}

/// The edge list is consistent with the nodes and with what each id
/// stands for: every edge joins existing nodes, carries its own index as
/// its id, and its data names its target and id.
pub open spec fn store_wf(
    nodes: Seq<(u32, u64, u64)>,
    edges: Seq<(usize, usize, usize)>,
    data: Seq<GraphEdge>,
) -> bool {
    &&& nodes.len() < u32::MAX
    &&& edges.len() < u32::MAX
    &&& data.len() == edges.len()
    &&& forall|i: int|
        0 <= i < edges.len() ==> (#[trigger] edges[i]).0 < nodes.len() && edges[i].1 < nodes.len()
            && edges[i].2 == i && data[i].target == edges[i].1 && data[i].id == i
}

/// Every edge listed as leaving `a` is an edge of the list whose source is
/// `a`: its weight indexes that edge and its target is that edge's.
proof fn lemma_out_edges_from_list(es: Seq<(usize, usize, usize)>, a: int)
    requires
        forall|i: int| 0 <= i < es.len() ==> (#[trigger] es[i]).2 == i,
    ensures
        forall|k: int|
            0 <= k < spec_out_edges(es, a).len() ==> (#[trigger] spec_out_edges(es, a)[k]).1 < es.len()
                && es[spec_out_edges(es, a)[k].1 as int].1 == spec_out_edges(es, a)[k].0
                && es[spec_out_edges(es, a)[k].1 as int].0 == a,
    decreases es.len(),
{
    if es.len() > 0 {
        let rest = es.drop_last();
        assert forall|i: int| 0 <= i < rest.len() implies (#[trigger] rest[i]).2 == i by {
            assert(rest[i] == es[i]);
        }
        lemma_out_edges_from_list(rest, a);
        let out = spec_out_edges(es, a);
        let out_rest = spec_out_edges(rest, a);
        assert forall|k: int| 0 <= k < out.len() implies (#[trigger] out[k]).1 < es.len()
            && es[out[k].1 as int].1 == out[k].0 && es[out[k].1 as int].0 == a by {
            if es.last().0 == a {
                if k > 0 {
                    assert(out[k] == out_rest[k - 1]);
                    assert(es[out[k].1 as int] == rest[out[k].1 as int]);
                } else {
                    assert(es.last().2 == es.len() - 1);
                }
            } else {
                assert(out[k] == out_rest[k]);
                assert(es[out[k].1 as int] == rest[out[k].1 as int]);
            }
        }
    }
}

/// No edge leaves a node that every edge's source is below.
proof fn lemma_out_edges_none(es: Seq<(usize, usize, usize)>, a: int)
    requires
        forall|i: int| 0 <= i < es.len() ==> (#[trigger] es[i]).0 < a,
    ensures
        spec_out_edges(es, a) == Seq::<(usize, usize)>::empty(),
    decreases es.len(),
{
    if es.len() > 0 {
        let rest = es.drop_last();
        assert forall|i: int| 0 <= i < rest.len() implies (#[trigger] rest[i]).0 < a by {
            assert(rest[i] == es[i]);
        }
        lemma_out_edges_none(rest, a);
    }
}

impl ArbitrageGraph {
    /// The tokens, by node.
    pub closed spec fn tokens(&self) -> Seq<Address> {
        petgraph_nodes(self.graph).map_values(|w: (u32, u64, u64)| token_of(w))
    }

    /// The edges leaving each node, newest first.
    pub closed spec fn adjacency(&self) -> Seq<Seq<GraphEdge>> {
        Seq::new(
            petgraph_nodes(self.graph).len(),
            |n: int|
                spec_out_edges(petgraph_edges(self.graph), n).map_values(
                    |p: (usize, usize)| self.edge_data@[p.1 as int],
                ),
        )
    }

    /// The number of edges.
    pub closed spec fn edge_total(&self) -> nat {
        petgraph_edges(self.graph).len()
    }

    pub closed spec fn wf(&self) -> bool {
        &&& graph_wf(self.tokens(), self.adjacency(), self.edge_total())
        &&& store_wf(petgraph_nodes(self.graph), petgraph_edges(self.graph), self.edge_data@)
    }

    /// The store's consistency gives the graph's.
    proof fn lemma_store_gives_graph(&self)
        requires
            store_wf(petgraph_nodes(self.graph), petgraph_edges(self.graph), self.edge_data@),
        ensures
            graph_wf(self.tokens(), self.adjacency(), self.edge_total()),
    {
        let es = petgraph_edges(self.graph);
        let adj = self.adjacency();
        assert forall|n: int, k: int| 0 <= n < adj.len() && 0 <= k < adj[n].len() implies (
        #[trigger] adj[n][k]).target < self.tokens().len() && adj[n][k].id < self.edge_total() by {
            lemma_out_edges_from_list(es, n);
            let out = spec_out_edges(es, n);
            assert(adj[n][k] == self.edge_data@[out[k].1 as int]);
            assert(es[out[k].1 as int].2 == out[k].1);
        }
    }

    /// An empty graph.
    pub fn new() -> (r: Self)
        ensures
            r.wf(),
            r.tokens() == Seq::<Address>::empty(),
            r.tokens().no_duplicates(),
            r.adjacency() == Seq::<Seq<GraphEdge>>::empty(),
            r.edge_total() == 0,
    {
        let r = ArbitrageGraph { graph: petgraph_new(), edge_data: Vec::new() };
        assert(r.adjacency() =~= Seq::<Seq<GraphEdge>>::empty());
        assert(r.tokens() =~= Seq::<Address>::empty());
        proof {
            r.lemma_store_gives_graph();
        }
        r
    }

    /// The node of a token, if it has one.
    pub fn get_node(&self, token: Address) -> (r: Option<usize>)
        requires
            self.wf(),
        ensures
            r matches Some(i) ==> spec_index_of(self.tokens(), token) == Some(i as int),
            r is None ==> spec_index_of(self.tokens(), token) is None,
    {
        let n = petgraph_node_count(&self.graph);
        let ghost tokens = self.tokens();
        let mut i: usize = 0;
        while i < n
            invariant
                self.wf(),
                tokens == self.tokens(),
                n == tokens.len(),
                i <= n,
                spec_index_of(tokens.subrange(0, i as int), token) is None,
            decreases n - i,
        {
            assert(tokens.subrange(0, i + 1).drop_last() =~= tokens.subrange(0, i as int));
            let w = petgraph_node_weight(&self.graph, i);
            assert(tokens[i as int] == token_of(petgraph_nodes(self.graph)[i as int]));
            if w.0 == token.high && w.1 == token.mid && w.2 == token.low {
                proof {
                    lemma_index_of_prefix(tokens, token, i as int + 1);
                }
                return Some(i);
            }
            i = i + 1;
        }
        assert(tokens.subrange(0, i as int) =~= tokens);
        None
    }

    /// The token of a node, if the node exists.
    pub fn get_token(&self, node: usize) -> (r: Option<Address>)
        requires
            self.wf(),
        ensures
            r == if node < self.tokens().len() {
                Some(self.tokens()[node as int])
            } else {
                None::<Address>
            },
    {
        if node < petgraph_node_count(&self.graph) {
            let w = petgraph_node_weight(&self.graph, node);
            Some(Address { high: w.0, mid: w.1, low: w.2 })
        } else {
            None
        }
    }

    /// The token of a node that exists.
    fn token_at(&self, node: usize) -> (r: Address)
        requires
            self.wf(),
            node < self.tokens().len(),
        ensures
            r == self.tokens()[node as int],
    {
        let w = petgraph_node_weight(&self.graph, node);
        Address { high: w.0, mid: w.1, low: w.2 }
    }

    /// The edges leaving a node that exists, newest first.
    fn out_edges(&self, node: usize) -> (r: Vec<GraphEdge>)
        requires
            self.wf(),
            node < self.tokens().len(),
        ensures
            r@ == self.adjacency()[node as int],
    {
        let pairs = petgraph_out_edges(&self.graph, node);
        let ghost es = petgraph_edges(self.graph);
        proof {
            lemma_out_edges_from_list(es, node as int);
        }
        let mut r: Vec<GraphEdge> = Vec::new();
        let mut k: usize = 0;
        while k < pairs.len()
            invariant
                self.wf(),
                es == petgraph_edges(self.graph),
                pairs@ == spec_out_edges(es, node as int),
                forall|t: int|
                    0 <= t < pairs@.len() ==> (#[trigger] pairs@[t]).1 < es.len(),
                k <= pairs.len(),
                r@ == pairs@.subrange(0, k as int).map_values(
                    |p: (usize, usize)| self.edge_data@[p.1 as int],
                ),
            decreases pairs.len() - k,
        {
            let p = pairs[k];
            assert(p.1 < es.len());
            r.push(self.edge_data[p.1]);
            k = k + 1;
            assert(r@ =~= pairs@.subrange(0, k as int).map_values(
                |p: (usize, usize)| self.edge_data@[p.1 as int],
            ));
        }
        assert(pairs@.subrange(0, k as int) =~= pairs@);
        r
    }

    /// The number of nodes (tokens).
    pub fn node_count(&self) -> (r: usize)
        ensures
            r == self.tokens().len(),
    {
        petgraph_node_count(&self.graph)
    }

    /// The number of edges (swap directions).
    pub fn edge_count(&self) -> (r: usize)
        ensures
            r == self.edge_total(),
    {
        petgraph_edge_count(&self.graph)
    }

    /// The node of a token, made when the token has none.
    fn get_or_create_node(&mut self, token: Address) -> (r: usize)
        requires
            old(self).wf(),
            old(self).tokens().len() + 1 < u32::MAX,
        ensures
            final(self).wf(),
            final(self).edge_total() == old(self).edge_total(),
            final(self).tokens().len() <= old(self).tokens().len() + 1,
            old(self).tokens().no_duplicates() ==> final(self).tokens().no_duplicates(),
            spec_index_of(old(self).tokens(), token) is Some ==> final(self).tokens() == old(
                self,
            ).tokens() && final(self).adjacency() == old(self).adjacency() && Some(r as int)
                == spec_index_of(old(self).tokens(), token),
            spec_index_of(old(self).tokens(), token) is None ==> final(self).tokens() == old(
                self,
            ).tokens().push(token) && final(self).adjacency() == old(self).adjacency().push(
                Seq::empty(),
            ) && r == old(self).tokens().len(),
            r < final(self).tokens().len(),
            final(self).tokens()[r as int] == token,
    {
        match self.get_node(token) {
            Some(n) => {
                proof {
                    lemma_index_of_found(self.tokens(), token);
                }
                n
            },
            None => {
                let ghost old_adj = self.adjacency();
                let ghost old_tokens = self.tokens();
                let ghost es = petgraph_edges(self.graph);
                let ghost count = petgraph_nodes(self.graph).len();
                proof {
                    assert forall|i: int| 0 <= i < es.len() implies (#[trigger] es[i]).0 < count by {}
                    lemma_out_edges_none(es, count as int);
                }
                let n = petgraph_add_node(&mut self.graph, (token.high, token.mid, token.low));
                assert(petgraph_edges(self.graph) == es);
                proof {
                    assert forall|k: int| 0 <= k <= count implies #[trigger] self.adjacency()[k]
                        == old_adj.push(Seq::empty())[k] by {
                        if k == count {
                            assert(self.adjacency()[k] =~= Seq::<GraphEdge>::empty());
                        }
                    }
                    assert(self.tokens() =~= old_tokens.push(token));
                    if old_tokens.contains(token) {
                        let j = choose|j: int| 0 <= j < old_tokens.len() && old_tokens[j] == token;
                        lemma_index_of_has(old_tokens, token, j);
                    }
                    assert(old_tokens.no_duplicates() ==> self.tokens().no_duplicates()) by {
                        if old_tokens.no_duplicates() {
                            assert forall|a: int, b: int| 0 <= a < b < self.tokens().len() implies self.tokens()[a]
                                != self.tokens()[b] by {
                                if b == old_tokens.len() {
                                    assert(old_tokens[a] == self.tokens()[a]);
                                }
                            }
                        }
                    }
                    assert(self.adjacency() =~= old_adj.push(Seq::empty()));
                    self.lemma_store_gives_graph();
                }
                n
            },
        }
    }

    /// Add an edge `from -> to`, listed first among the edges of `from`.
    fn add_edge(&mut self, from: usize, to: usize, pool_address: Address, dex: Dex, fee: u32) -> (r:
        usize)
        requires
            old(self).wf(),
            from < old(self).tokens().len(),
            to < old(self).tokens().len(),
            old(self).edge_total() + 1 < u32::MAX,
        ensures
            final(self).wf(),
            r == old(self).edge_total(),
            final(self).edge_total() == old(self).edge_total() + 1,
            final(self).tokens() == old(self).tokens(),
            final(self).adjacency() == old(self).adjacency().update(
                from as int,
                old(self).adjacency()[from as int].insert(
                    0,
                    GraphEdge { target: to, pool_address, dex, fee, id: r },
                ),
            ),
    {
        let id = petgraph_edge_count(&self.graph);
        let e = GraphEdge { target: to, pool_address, dex, fee, id };
        let ghost old_adj = self.adjacency();
        let ghost old_es = petgraph_edges(self.graph);
        let ghost old_data = self.edge_data@;
        let ghost nodes = petgraph_nodes(self.graph);
        proof {
            lemma_out_edges_from_list(old_es, from as int);
        }
        self.edge_data.push(e);
        petgraph_add_edge(&mut self.graph, from, to, id);
        proof {
            let es = petgraph_edges(self.graph);
            assert(es.drop_last() =~= old_es);
            assert forall|n: int| 0 <= n < nodes.len() implies #[trigger] spec_out_edges(es, n) == if n
                == from as int {
                seq![(to, id)] + spec_out_edges(old_es, n)
            } else {
                spec_out_edges(old_es, n)
            } by {}
            assert forall|n: int| 0 <= n < nodes.len() implies #[trigger] self.adjacency()[n] == (
            if n == from as int {
                old_adj[n].insert(0, e)
            } else {
                old_adj[n]
            }) by {
                lemma_out_edges_from_list(old_es, n);
                let out_old = spec_out_edges(old_es, n);
                assert forall|k: int| 0 <= k < out_old.len() implies self.edge_data@[(
                #[trigger] out_old[k]).1 as int] == old_data[out_old[k].1 as int] by {}
                if n == from as int {
                    assert(self.adjacency()[n] =~= old_adj[n].insert(0, e));
                } else {
                    assert(self.adjacency()[n] =~= old_adj[n]);
                }
            }
            assert(self.adjacency() =~= old_adj.update(from as int, old_adj[from as int].insert(0, e)));
            assert(self.tokens() =~= old(self).tokens());
            assert forall|i: int| 0 <= i < es.len() implies (#[trigger] es[i]).0 < nodes.len()
                && es[i].1 < nodes.len() && es[i].2 == i && self.edge_data@[i].target == es[i].1
                && self.edge_data@[i].id == i by {
                if i < old_es.len() {
                    assert(es[i] == old_es[i]);
                    assert(self.edge_data@[i] == old_data[i]);
                }
            }
            self.lemma_store_gives_graph();
        }
        id
    }

    /// Add a pool: an edge token0 -> token1 when `forward` (a usable price
    /// that way) and an edge token1 -> token0 when `backward`. Returns the
    /// ids of the edges added.
    pub fn add_pool(
        &mut self,
        pool_address: Address,
        dex: Dex,
        fee: u32,
        token0: Address,
        token1: Address,
        forward: bool,
        backward: bool,
    ) -> (r: (Option<usize>, Option<usize>))
        requires
            old(self).wf(),
            old(self).tokens().len() + 2 < u32::MAX,
            old(self).edge_total() + 2 < u32::MAX,
        ensures
            final(self).wf(),
            final(self).tokens().len() <= old(self).tokens().len() + 2,
            old(self).tokens().no_duplicates() ==> final(self).tokens().no_duplicates(),
            spec_index_of(final(self).tokens(), token0) is Some,
            spec_index_of(final(self).tokens(), token1) is Some,
            final(self).edge_total() == old(self).edge_total() + (if forward { 1int } else { 0 }) + (
            if backward {
                1int
            } else {
                0
            }),
            forward <==> r.0 is Some,
            backward <==> r.1 is Some,
            r.0 matches Some(id) ==> id == old(self).edge_total(),
    {
        let n0 = self.get_or_create_node(token0);
        let n1 = self.get_or_create_node(token1);
        let mut first: Option<usize> = None;
        let mut second: Option<usize> = None;
        if forward {
            first = Some(self.add_edge(n0, n1, pool_address, dex, fee));
        }
        if backward {
            second = Some(self.add_edge(n1, n0, pool_address, dex, fee));
        }
        proof {
            lemma_index_of_has(self.tokens(), token0, n0 as int);
            lemma_index_of_has(self.tokens(), token1, n1 as int);
        }
        (first, second)
    }

}

impl ArbitrageGraph {
    /// Every cycle through `start_token` of at most `max_hops` hops, in
    /// the order the depth-first search meets them (none when the token has
    /// no node).
    pub fn find_cycles_from(&self, start_token: Address, max_hops: usize) -> (r: Vec<CycleCandidate>)
        requires
            self.wf(),
            max_hops < usize::MAX,
        ensures
            r@.map_values(|c: CycleCandidate| c.view()) == match spec_index_of(self.tokens(), start_token) {
                Some(s) => spec_cycles_from(self.tokens(), self.adjacency(), max_hops as int, s),
                None => Seq::<CandidateView>::empty(),
            },
    {
        let mut cycles: Vec<CycleCandidate> = Vec::new();
        match self.get_node(start_token) {
            None => {
                assert(cycles@.map_values(|c: CycleCandidate| c.view()) =~= Seq::<CandidateView>::empty());
                cycles
            },
            Some(s) => {
                proof {
                    lemma_index_of_found(self.tokens(), start_token);
                }
                let visited: Vec<bool> = bool_vec(self.node_count());
                assert(set_of(visited@) =~= Set::<int>::empty());
                self.dfs_find_cycles(
                    s,
                    s,
                    Vec::new(),
                    Vec::new(),
                    Vec::new(),
                    Vec::new(),
                    Vec::new(),
                    visited,
                    &mut cycles,
                    1,
                    max_hops,
                );
                assert(cycles@.map_values(|c: CycleCandidate| c.view()) =~= Seq::<CandidateView>::empty()
                    + spec_cycles_from(self.tokens(), self.adjacency(), max_hops as int, s as int));
                cycles
            },
        }
    }

    fn dfs_find_cycles(
        &self,
        start: usize,
        cur: usize,
        path: Vec<Address>,
        pools: Vec<Address>,
        dexes: Vec<Dex>,
        fees: Vec<u32>,
        edge_ids: Vec<usize>,
        visited: Vec<bool>,
        cycles: &mut Vec<CycleCandidate>,
        depth: usize,
        max_hops: usize,
    )
        requires
            self.wf(),
            start < self.tokens().len(),
            visited@.len() == self.tokens().len(),
            1 <= depth <= max_hops + 1,
            max_hops < usize::MAX,
        ensures
            final(cycles)@.map_values(|c: CycleCandidate| c.view()) == old(cycles)@.map_values(
                |c: CycleCandidate| c.view(),
            ) + spec_visit(
                self.tokens(),
                self.adjacency(),
                max_hops as int,
                start as int,
                cur as int,
                path@,
                Hops { pools: pools@, dexes: dexes@, fees: fees@, edge_ids: edge_ids@ },
                set_of(visited@),
                depth as int,
            ),
        decreases max_hops + 1 - depth, self.adjacency()[cur as int].len() + 1,
    {
        let ghost old_view = cycles@.map_values(|c: CycleCandidate| c.view());
        let ghost hops = Hops { pools: pools@, dexes: dexes@, fees: fees@, edge_ids: edge_ids@ };
        if depth > max_hops || cur >= self.node_count() {
            assert(cycles@.map_values(|c: CycleCandidate| c.view()) =~= old_view + Seq::<CandidateView>::empty());
            return ;
        }
        let mut path = path;
        path.push(self.token_at(cur));
        let ghost vis0 = set_of(visited@);
        let mut visited = visited;
        if depth > 1 {
            visited.set(cur, true);
            assert(set_of(visited@) =~= vis0.insert(cur as int));
        }
        let out = self.out_edges(cur);
        let deg = out.len();
        assert(self.adjacency()[cur as int] == out@);
        // walk the edges in list order, i.e. index 0 first
        let mut j: usize = 0;
        while j < deg
            invariant
                self.wf(),
                j <= deg,
                deg == out@.len(),
                out@ == self.adjacency()[cur as int],
                cur < self.tokens().len(),
                start < self.tokens().len(),
                1 <= depth <= max_hops,
                max_hops < usize::MAX,
                visited@.len() == self.tokens().len(),
                hops == (Hops { pools: pools@, dexes: dexes@, fees: fees@, edge_ids: edge_ids@ }),
                cycles@.map_values(|c: CycleCandidate| c.view()) == old_view + spec_edges(
                    self.tokens(),
                    self.adjacency(),
                    max_hops as int,
                    start as int,
                    cur as int,
                    path@,
                    hops,
                    set_of(visited@),
                    depth as int,
                    j as int,
                ),
            decreases deg - j,
        {
            let e = out[j];
            let ghost before = cycles@.map_values(|c: CycleCandidate| c.view());
            let ghost sv = set_of(visited@);
            let ghost prev = spec_edges(
                self.tokens(),
                self.adjacency(),
                max_hops as int,
                start as int,
                cur as int,
                path@,
                hops,
                sv,
                depth as int,
                j as int,
            );
            let ghost next = spec_edges(
                self.tokens(),
                self.adjacency(),
                max_hops as int,
                start as int,
                cur as int,
                path@,
                hops,
                sv,
                depth as int,
                j as int + 1,
            );
            assert(self.adjacency()[cur as int][j as int] == e);
            assert(e.target < self.tokens().len());
            if e.target == start && depth >= 2 {
                let c = CycleCandidate {
                    path: copied_push(&path, self.token_at(start)),
                    pools: copied_push(&pools, e.pool_address),
                    dexes: copied_push(&dexes, e.dex),
                    fees: copied_push(&fees, e.fee),
                    edge_ids: copied_push(&edge_ids, e.id),
                };
                assert(c.path@ == path@.push(self.tokens()[start as int]));
                assert(c.pools@ == pools@.push(e.pool_address));
                assert(c.edge_ids@ == edge_ids@.push(e.id));
                cycles.push(c);
                let ghost h2 = hops_push(hops, e);
                assert(h2.pools == pools@.push(e.pool_address));
                assert(c.view() == CandidateView {
                    path: path@.push(self.tokens()[start as int]),
                    pools: h2.pools,
                    dexes: h2.dexes,
                    fees: h2.fees,
                    edge_ids: h2.edge_ids,
                });
                assert(next == prev.push(c.view()));
                assert(cycles@.map_values(|c: CycleCandidate| c.view()) =~= before.push(c.view()));
                assert(cycles@.map_values(|c: CycleCandidate| c.view()) =~= old_view + next);
            } else if !visited[e.target] && depth < max_hops {
                assert(!sv.contains(e.target as int));
                let ghost h2 = hops_push(hops, e);
                self.dfs_find_cycles(
                    start,
                    e.target,
                    copied(&path),
                    copied_push(&pools, e.pool_address),
                    copied_push(&dexes, e.dex),
                    copied_push(&fees, e.fee),
                    copied_push(&edge_ids, e.id),
                    copied(&visited),
                    cycles,
                    depth + 1,
                    max_hops,
                );
                assert(set_of(visited@) == sv);
                let ghost after = cycles@.map_values(|c: CycleCandidate| c.view());
                let ghost sub = spec_visit(
                    self.tokens(),
                    self.adjacency(),
                    max_hops as int,
                    start as int,
                    e.target as int,
                    path@,
                    h2,
                    sv,
                    depth + 1,
                );
                assert(after == before + sub);
                assert(next == prev + sub);
                assert(cycles@.map_values(|c: CycleCandidate| c.view()) =~= old_view + next);
            } else {
                assert(visited[e.target as int] ==> sv.contains(e.target as int));
                assert(next == prev);
            }
            j = j + 1;
        }
    }
}


/// The structural conditions a cycle must meet: at least two hops, back
/// where it started, one pool per hop, no token visited twice on the way
/// (the start included), and no pool used twice.
pub open spec fn spec_cycle_structure_valid(path: Seq<Address>, pools: Seq<Address>) -> bool {
    &&& path.len() >= 3
    &&& path[0] == path.last()
    &&& path.len() == pools.len() + 1
    &&& forall|i: int, j: int| 1 <= i < j < path.len() - 1 ==> path[i] != path[j]
    &&& forall|i: int| 1 <= i < path.len() - 1 ==> #[trigger] path[i] != path[0]
    &&& forall|i: int, j: int| 0 <= i < j < pools.len() ==> pools[i] != pools[j]
}

/// Whether all elements of `v` in `lo..hi` differ from each other.
fn all_distinct(v: &Vec<Address>, lo: usize, hi: usize) -> (r: bool)
    requires
        lo <= hi <= v.len(),
    ensures
        r == forall|i: int, j: int| lo <= i < j < hi ==> v@[i] != v@[j],
{
    let mut j: usize = lo;
    while j < hi
        invariant
            lo <= j <= hi,
            hi <= v.len(),
            forall|a: int, b: int| lo <= a < b < j ==> v@[a] != v@[b],
        decreases hi - j,
    {
        let mut i: usize = lo;
        while i < j
            invariant
                lo <= i <= j,
                j < hi,
                hi <= v.len(),
                forall|a: int| lo <= a < i ==> v@[a] != v@[j as int],
            decreases j - i,
        {
            if v[i] == v[j] {
                return false;
            }
            i = i + 1;
        }
        j = j + 1;
    }
    true
}

/// Whether a cycle meets the structural conditions.
pub fn cycle_structure_valid(path: &Vec<Address>, pools: &Vec<Address>) -> (r: bool)
    ensures
        r == spec_cycle_structure_valid(path@, pools@),
{
    let n = path.len();
    if n < 3 {
        return false;
    }
    if path[0] != path[n - 1] {
        return false;
    }
    if n - 1 != pools.len() {
        return false;
    }
    if !all_distinct(path, 1, n - 1) {
        return false;
    }
    let start = path[0];
    let mut i: usize = 1;
    while i < n - 1
        invariant
            n == path.len(),
            n >= 3,
            1 <= i <= n - 1,
            start == path@[0],
            forall|k: int| 1 <= k < i ==> #[trigger] path@[k] != path@[0],
        decreases n - 1 - i,
    {
        if path[i] == start {
            return false;
        }
        i = i + 1;
    }
    all_distinct(pools, 0, pools.len())
}

/// Whether a cycle goes through more than one DEX.
pub fn is_cross_dex(dexes: &Vec<Dex>) -> (r: bool)
    ensures
        r == (dexes@.len() > 0 && exists|i: int| 0 <= i < dexes@.len() && #[trigger] dexes@[i] != dexes@[0]),
{
    if dexes.len() == 0 {
        return false;
    }
    let first = dexes[0];
    let mut i: usize = 0;
    while i < dexes.len()
        invariant
            i <= dexes.len(),
            dexes@.len() > 0,
            first == dexes@[0],
            forall|k: int| 0 <= k < i ==> #[trigger] dexes@[k] == dexes@[0],
        decreases dexes.len() - i,
    {
        if dexes[i] != first {
            return true;
        }
        i = i + 1;
    }
    false
}

/// Whether address `a` sorts before `b` (byte order).
pub open spec fn address_lt(a: Address, b: Address) -> bool {
    a.high < b.high || (a.high == b.high && (a.mid < b.mid || (a.mid == b.mid && a.low < b.low)))
}

/// Whether `a` sorts before `b`.
pub fn address_less(a: Address, b: Address) -> (r: bool)
    ensures
        r == address_lt(a, b),
{
    a.high < b.high || (a.high == b.high && (a.mid < b.mid || (a.mid == b.mid && a.low < b.low)))
}

/// The sequence is sorted in byte order (repeats allowed).
pub open spec fn sorted_addresses(s: Seq<Address>) -> bool {
    forall|i: int, j: int| 0 <= i < j < s.len() ==> !address_lt(s[j], s[i])
}

/// The signature of a cycle: its pools in byte order, so that the same pools
/// taken from a different start give the same signature.
pub fn cycle_signature(pools: &Vec<Address>) -> (r: Vec<Address>)
    ensures
        sorted_addresses(r@),
        r@.to_multiset() == pools@.to_multiset(),
{
    let mut r: Vec<Address> = Vec::new();
    let mut i: usize = 0;
    assert(pools@.subrange(0, 0) =~= Seq::<Address>::empty());
    assert(r@ =~= Seq::<Address>::empty());
    proof {
        vstd::seq_lib::to_multiset_len(Seq::<Address>::empty());
        vstd::multiset::lemma_multiset_empty_len(Seq::<Address>::empty().to_multiset());
    }
    while i < pools.len()
        invariant
            i <= pools.len(),
            sorted_addresses(r@),
            r@.to_multiset() == pools@.subrange(0, i as int).to_multiset(),
        decreases pools.len() - i,
    {
        let x = pools[i];
        let mut pos: usize = 0;
        while pos < r.len()
            invariant
                pos <= r.len(),
                sorted_addresses(r@),
                forall|k: int| 0 <= k < pos ==> !address_lt(x, #[trigger] r@[k]),
            ensures
                pos <= r.len(),
                forall|k: int| 0 <= k < pos ==> !address_lt(x, #[trigger] r@[k]),
                pos < r.len() ==> address_lt(x, r@[pos as int]),
            decreases r.len() - pos,
        {
            if address_less(x, r[pos]) {
                break;
            }
            pos = pos + 1;
        }
        let ghost old_r = r@;
        r.insert(pos, x);
        proof {
            assert(r@ == old_r.insert(pos as int, x));
            assert forall|a: int, b: int| 0 <= a < b < r@.len() implies !address_lt(#[trigger] r@[b], #[trigger] r@[a]) by {
                if b < pos {
                    assert(r@[a] == old_r[a] && r@[b] == old_r[b]);
                } else if b == pos {
                    assert(r@[a] == old_r[a] && r@[b] == x);
                } else if a == pos {
                    assert(r@[a] == x && r@[b] == old_r[b - 1]);
                    if b - 1 > pos {
                        assert(!address_lt(old_r[b - 1], old_r[pos as int]));
                    }
                } else if a < pos {
                    assert(r@[a] == old_r[a] && r@[b] == old_r[b - 1]);
                } else {
                    assert(r@[a] == old_r[a - 1] && r@[b] == old_r[b - 1]);
                }
            }
            assert(pools@.subrange(0, i + 1) =~= pools@.subrange(0, i as int).push(x));
            vstd::seq_lib::to_multiset_insert(old_r, pos as int, x);
            vstd::seq_lib::to_multiset_build(pools@.subrange(0, i as int), x);
        }
        i = i + 1;
    }
    assert(pools@.subrange(0, pools.len() as int) =~= pools@);
    r
}

/// Which cycles are the first with their signature: `keep[i]` holds when
/// no earlier cycle has the same signature.
pub fn first_occurrences(signatures: &Vec<Vec<Address>>) -> (keep: Vec<bool>)
    ensures
        keep@.len() == signatures@.len(),
        forall|i: int|
            0 <= i < signatures@.len() ==> (#[trigger] keep@[i] <==> forall|j: int|
                0 <= j < i ==> signatures@[j]@ != signatures@[i]@),
{
    let mut keep: Vec<bool> = Vec::new();
    let n = signatures.len();
    let mut i: usize = 0;
    while i < n
        invariant
            n == signatures@.len(),
            i <= n,
            keep@.len() == i,
            forall|k: int|
                0 <= k < i ==> (#[trigger] keep@[k] <==> forall|j: int|
                    0 <= j < k ==> signatures@[j]@ != signatures@[k]@),
        decreases n - i,
    {
        let mut fresh = true;
        let mut j: usize = 0;
        while j < i
            invariant
                n == signatures@.len(),
                j <= i,
                i < n,
                fresh == forall|t: int| 0 <= t < j ==> signatures@[t]@ != signatures@[i as int]@,
            decreases i - j,
        {
            if vec_eq(&signatures[j], &signatures[i]) {
                fresh = false;
            }
            j = j + 1;
        }
        keep.push(fresh);
        i = i + 1;
    }
    keep
}

/// Whether two address sequences are equal.
fn vec_eq(a: &Vec<Address>, b: &Vec<Address>) -> (r: bool)
    ensures
        r == (a@ == b@),
{
    if a.len() != b.len() {
        return false;
    }
    let mut i: usize = 0;
    while i < a.len()
        invariant
            a.len() == b.len(),
            i <= a.len(),
            forall|k: int| 0 <= k < i ==> a@[k] == b@[k],
        decreases a.len() - i,
    {
        if a[i] != b[i] {
            return false;
        }
        i = i + 1;
    }
    assert(a@ =~= b@);
    true
}


/// A reported cycle is a closed walk from the start token: one token more
/// than hops, every hop with its pool, DEX, fee and edge, at least two and
/// at most `max_hops` hops.
pub open spec fn cycle_shape_ok(c: CandidateView, start_token: Address, max_hops: int) -> bool {
    &&& c.path.len() == c.pools.len() + 1
    &&& c.dexes.len() == c.pools.len()
    &&& c.fees.len() == c.pools.len()
    &&& c.edge_ids.len() == c.pools.len()
    &&& c.path[0] == start_token
    &&& c.path.last() == start_token
    &&& 2 <= c.pools.len() <= max_hops
}

/// Every cycle the search reports is a closed walk from the start token of
/// two to `max_hops` hops.
pub proof fn law_cycles_are_closed_walks(
    tokens: Seq<Address>,
    adj: Seq<Seq<GraphEdge>>,
    max_hops: int,
    start: int,
)
    requires
        0 <= start < tokens.len(),
    ensures
        forall|i: int|
            0 <= i < spec_cycles_from(tokens, adj, max_hops, start).len() ==> cycle_shape_ok(
                #[trigger] spec_cycles_from(tokens, adj, max_hops, start)[i],
                tokens[start],
                max_hops,
            ),
{
    lemma_visit_shape(
        tokens,
        adj,
        max_hops,
        start,
        start,
        Seq::empty(),
        Hops { pools: Seq::empty(), dexes: Seq::empty(), fees: Seq::empty(), edge_ids: Seq::empty() },
        Set::empty(),
        1,
    );
}

proof fn lemma_visit_shape(
    tokens: Seq<Address>,
    adj: Seq<Seq<GraphEdge>>,
    max_hops: int,
    start: int,
    cur: int,
    path: Seq<Address>,
    hops: Hops,
    visited: Set<int>,
    depth: int,
)
    requires
        0 <= start < tokens.len(),
        depth >= 1,
        path.len() == depth - 1,
        hops.pools.len() == depth - 1,
        hops.dexes.len() == depth - 1,
        hops.fees.len() == depth - 1,
        hops.edge_ids.len() == depth - 1,
        depth == 1 ==> cur == start,
        depth > 1 ==> path[0] == tokens[start],
    ensures
        forall|i: int|
            0 <= i < spec_visit(tokens, adj, max_hops, start, cur, path, hops, visited, depth).len()
                ==> cycle_shape_ok(
                #[trigger] spec_visit(tokens, adj, max_hops, start, cur, path, hops, visited, depth)[i],
                tokens[start],
                max_hops,
            ),
    decreases max_hops + 1 - depth, adj[cur].len() + 1,
{
    if depth > max_hops || !(0 <= cur < tokens.len()) {
    } else {
        let path2 = path.push(tokens[cur]);
        let visited2 = if depth > 1 {
            visited.insert(cur)
        } else {
            visited
        };
        assert(path2[0] == tokens[start]);
        assert(spec_visit(tokens, adj, max_hops, start, cur, path, hops, visited, depth) == spec_edges(
            tokens,
            adj,
            max_hops,
            start,
            cur,
            path2,
            hops,
            visited2,
            depth,
            adj[cur].len() as int,
        ));
        lemma_edges_shape(
            tokens,
            adj,
            max_hops,
            start,
            cur,
            path2,
            hops,
            visited2,
            depth,
            adj[cur].len() as int,
        );
    }
}

proof fn lemma_edges_shape(
    tokens: Seq<Address>,
    adj: Seq<Seq<GraphEdge>>,
    max_hops: int,
    start: int,
    cur: int,
    path: Seq<Address>,
    hops: Hops,
    visited: Set<int>,
    depth: int,
    k: int,
)
    requires
        0 <= start < tokens.len(),
        depth >= 1,
        path.len() == depth,
        hops.pools.len() == depth - 1,
        hops.dexes.len() == depth - 1,
        hops.fees.len() == depth - 1,
        hops.edge_ids.len() == depth - 1,
        path[0] == tokens[start],
    ensures
        forall|i: int|
            0 <= i < spec_edges(tokens, adj, max_hops, start, cur, path, hops, visited, depth, k).len()
                ==> cycle_shape_ok(
                #[trigger] spec_edges(tokens, adj, max_hops, start, cur, path, hops, visited, depth, k)[i],
                tokens[start],
                max_hops,
            ),
    decreases max_hops + 1 - depth, k,
{
    if k <= 0 || depth > max_hops || !(0 <= cur < adj.len()) || k > adj[cur].len() {
    } else {
        lemma_edges_shape(tokens, adj, max_hops, start, cur, path, hops, visited, depth, k - 1);
        let before = spec_edges(tokens, adj, max_hops, start, cur, path, hops, visited, depth, k - 1);
        let e = adj[cur][k - 1];
        let r = spec_edges(tokens, adj, max_hops, start, cur, path, hops, visited, depth, k);
        if e.target == start && depth >= 2 {
            assert forall|i: int| 0 <= i < r.len() implies cycle_shape_ok(#[trigger] r[i], tokens[start], max_hops) by {
                if i < before.len() {
                    assert(r[i] == before[i]);
                }
            }
        } else if !visited.contains(e.target as int) && depth < max_hops {
            let sub = spec_visit(
                tokens,
                adj,
                max_hops,
                start,
                e.target as int,
                path,
                hops_push(hops, e),
                visited,
                depth + 1,
            );
            lemma_visit_shape(
                tokens,
                adj,
                max_hops,
                start,
                e.target as int,
                path,
                hops_push(hops, e),
                visited,
                depth + 1,
            );
            assert forall|i: int| 0 <= i < r.len() implies cycle_shape_ok(#[trigger] r[i], tokens[start], max_hops) by {
                if i < before.len() {
                    assert(r[i] == before[i]);
                } else {
                    assert(r[i] == sub[i - before.len()]);
                }
            }
        }
    }
}

/// The set of nodes marked in a vector of flags.
pub open spec fn set_of(flags: Seq<bool>) -> Set<int> {
    Set::new(|i: int| 0 <= i < flags.len() && flags[i])
}

/// `n` flags, all false.
fn bool_vec(n: usize) -> (r: Vec<bool>)
    ensures
        r@.len() == n,
        forall|i: int| 0 <= i < n ==> !r@[i],
{
    let mut r: Vec<bool> = Vec::new();
    let mut i: usize = 0;
    while i < n
        invariant
            i <= n,
            r@.len() == i,
            forall|j: int| 0 <= j < i ==> !r@[j],
        decreases n - i,
    {
        r.push(false);
        i = i + 1;
    }
    r
}

proof fn lemma_index_of_prefix(tokens: Seq<Address>, token: Address, n: int)
    requires
        0 <= n <= tokens.len(),
        spec_index_of(tokens.subrange(0, n), token) is Some,
    ensures
        spec_index_of(tokens, token) == spec_index_of(tokens.subrange(0, n), token),
    decreases tokens.len() - n,
{
    if n < tokens.len() {
        assert(tokens.subrange(0, n + 1).drop_last() =~= tokens.subrange(0, n));
        lemma_index_of_prefix(tokens, token, n + 1);
    } else {
        assert(tokens.subrange(0, n) =~= tokens);
    }
}

proof fn lemma_index_of_found(tokens: Seq<Address>, token: Address)
    ensures
        spec_index_of(tokens, token) matches Some(i) ==> 0 <= i < tokens.len() && tokens[i] == token,
    decreases tokens.len(),
{
    if tokens.len() > 0 {
        lemma_index_of_found(tokens.drop_last(), token);
    }
}

proof fn lemma_index_of_has(tokens: Seq<Address>, token: Address, i: int)
    requires
        0 <= i < tokens.len(),
        tokens[i] == token,
    ensures
        spec_index_of(tokens, token) is Some,
    decreases tokens.len(),
{
    if i < tokens.len() - 1 {
        lemma_index_of_has(tokens.drop_last(), token, i);
    }
}

/// The name shown for a DEX.
pub open spec fn spec_dex_name(d: Dex) -> Seq<char> {
    match d {
        Dex::UniswapV3 => "Uniswap V3"@,
        Dex::UniswapV4 => "Uniswap V4"@,
        Dex::PancakeSwapV3 => "PancakeSwap V3"@,
        Dex::LFJ => "LFJ"@,
        Dex::Kuru => "Kuru"@,
    }
}

/// Names joined by " -> ".
pub open spec fn spec_joined(names: Seq<Seq<char>>) -> Seq<char>
    decreases names.len(),
{
    if names.len() == 0 {
        Seq::empty()
    } else if names.len() == 1 {
        names[0]
    } else {
        spec_joined(names.drop_last()) + " -> "@ + names.last()
    }
}

/// The DEXes of a cycle, "Uniswap V3 -> LFJ -> ...".
pub fn dex_path(dexes: &Vec<Dex>) -> (r: String)
    ensures
        r@ == spec_joined(dexes@.map_values(|d: Dex| spec_dex_name(d))),
{
    let ghost names = dexes@.map_values(|d: Dex| spec_dex_name(d));
    let mut s = String::new();
    let mut i: usize = 0;
    while i < dexes.len()
        invariant
            i <= dexes@.len(),
            names == dexes@.map_values(|d: Dex| spec_dex_name(d)),
            s@ == spec_joined(names.take(i as int)),
        decreases dexes.len() - i,
    {
        proof {
            assert(names.take(i + 1).drop_last() == names.take(i as int));
            assert(names.take(i + 1).last() == spec_dex_name(dexes@[i as int]));
            if i == 0 {
                assert(names.take(1) == seq![spec_dex_name(dexes@[0])]);
            }
        }
        if i > 0 {
            crate::text::push_str(&mut s, " -> ");
        }
        crate::text::push_str(&mut s, dexes[i].display_name());
        i = i + 1;
    }
    assert(names.take(dexes@.len() as int) == names);
    s
}

/// The tokens of a cycle by symbol, "WMON -> USDC -> WMON".
pub fn token_path(path: &Vec<Address>) -> (r: String)
    ensures
        r@ == spec_joined(path@.map_values(|a: Address| crate::tokens::spec_symbol(a))),
{
    let ghost names = path@.map_values(|a: Address| crate::tokens::spec_symbol(a));
    let mut s = String::new();
    let mut i: usize = 0;
    while i < path.len()
        invariant
            i <= path@.len(),
            names == path@.map_values(|a: Address| crate::tokens::spec_symbol(a)),
            s@ == spec_joined(names.take(i as int)),
        decreases path.len() - i,
    {
        proof {
            assert(names.take(i + 1).drop_last() == names.take(i as int));
            assert(names.take(i + 1).last() == crate::tokens::spec_symbol(path@[i as int]));
            if i == 0 {
                assert(names.take(1) == seq![crate::tokens::spec_symbol(path@[0])]);
            }
        }
        if i > 0 {
            crate::text::push_str(&mut s, " -> ");
        }
        crate::text::push_str(&mut s, crate::tokens::symbol(path[i]));
        i = i + 1;
    }
    assert(names.take(path@.len() as int) == names);
    s
}

/// A cycle's path is simple: apart from returning to it at the end, no
/// token appears twice, and the start token does not come back before the
/// end.
pub open spec fn path_is_simple(path: Seq<Address>) -> bool {
    &&& forall|i: int, j: int| 1 <= i < j < path.len() - 1 ==> path[i] != path[j]
    &&& forall|i: int| 1 <= i < path.len() - 1 ==> #[trigger] path[i] != path[0]
}

/// What a walk has seen: it began at the start token, no token twice, the
/// start node is not closed, and every token after the first belongs to a
/// closed node.
pub open spec fn walk_inv(tokens: Seq<Address>, start: int, path: Seq<Address>, visited: Set<int>) -> bool {
    &&& path.len() >= 1
    &&& path[0] == tokens[start]
    &&& !visited.contains(start)
    &&& forall|i: int, j: int| 0 <= i < j < path.len() ==> path[i] != path[j]
    &&& forall|j: int, x: int|
        1 <= j < path.len() && 0 <= x < tokens.len() && !visited.contains(x) ==> #[trigger] path[j]
            != #[trigger] tokens[x]
}

/// Every cycle the search reports is simple: no token but the start
/// appears twice on it, and the start only at both ends. This holds on a
/// graph of distinct tokens where no edge leads from the start token back
/// to itself (a pool joining a token to itself).
pub proof fn law_cycles_are_simple(tokens: Seq<Address>, adj: Seq<Seq<GraphEdge>>, max_hops: int, start: int)
    requires
        0 <= start < tokens.len(),
        tokens.no_duplicates(),
        forall|k: int| 0 <= k < adj[start].len() ==> (#[trigger] adj[start][k]).target != start,
    ensures
        forall|i: int|
            0 <= i < spec_cycles_from(tokens, adj, max_hops, start).len() ==> path_is_simple(
                (#[trigger] spec_cycles_from(tokens, adj, max_hops, start)[i]).path,
            ),
{
    lemma_visit_simple(
        tokens,
        adj,
        max_hops,
        start,
        start,
        Seq::empty(),
        Hops { pools: Seq::empty(), dexes: Seq::empty(), fees: Seq::empty(), edge_ids: Seq::empty() },
        Set::empty(),
        1,
    );
}

proof fn lemma_visit_simple(
    tokens: Seq<Address>,
    adj: Seq<Seq<GraphEdge>>,
    max_hops: int,
    start: int,
    cur: int,
    path: Seq<Address>,
    hops: Hops,
    visited: Set<int>,
    depth: int,
)
    requires
        0 <= start < tokens.len(),
        tokens.no_duplicates(),
        forall|k: int| 0 <= k < adj[start].len() ==> (#[trigger] adj[start][k]).target != start,
        depth >= 1,
        depth == 1 ==> cur == start && path.len() == 0 && !visited.contains(start),
        depth > 1 && 0 <= cur < tokens.len() ==> walk_inv(tokens, start, path.push(tokens[cur]), visited.insert(cur)),
    ensures
        forall|i: int|
            0 <= i < spec_visit(tokens, adj, max_hops, start, cur, path, hops, visited, depth).len()
                ==> path_is_simple(
                (#[trigger] spec_visit(tokens, adj, max_hops, start, cur, path, hops, visited, depth)[i]).path,
            ),
    decreases max_hops + 1 - depth, adj[cur].len() + 1,
{
    if depth > max_hops || !(0 <= cur < tokens.len()) {
    } else {
        let path2 = path.push(tokens[cur]);
        let visited2 = if depth > 1 {
            visited.insert(cur)
        } else {
            visited
        };
        if depth == 1 {
            assert(path2 =~= seq![tokens[start]]);
        }
        assert(walk_inv(tokens, start, path2, visited2));
        assert(spec_visit(tokens, adj, max_hops, start, cur, path, hops, visited, depth) == spec_edges(
            tokens,
            adj,
            max_hops,
            start,
            cur,
            path2,
            hops,
            visited2,
            depth,
            adj[cur].len() as int,
        ));
        lemma_edges_simple(tokens, adj, max_hops, start, cur, path2, hops, visited2, depth, adj[cur].len() as int);
    }
}

proof fn lemma_edges_simple(
    tokens: Seq<Address>,
    adj: Seq<Seq<GraphEdge>>,
    max_hops: int,
    start: int,
    cur: int,
    path: Seq<Address>,
    hops: Hops,
    visited: Set<int>,
    depth: int,
    k: int,
)
    requires
        0 <= start < tokens.len(),
        tokens.no_duplicates(),
        forall|k: int| 0 <= k < adj[start].len() ==> (#[trigger] adj[start][k]).target != start,
        depth >= 1,
        depth == 1 ==> cur == start,
        walk_inv(tokens, start, path, visited),
    ensures
        forall|i: int|
            0 <= i < spec_edges(tokens, adj, max_hops, start, cur, path, hops, visited, depth, k).len()
                ==> path_is_simple(
                (#[trigger] spec_edges(tokens, adj, max_hops, start, cur, path, hops, visited, depth, k)[i]).path,
            ),
    decreases max_hops + 1 - depth, k,
{
    if k <= 0 || depth > max_hops || !(0 <= cur < adj.len()) || k > adj[cur].len() {
    } else {
        lemma_edges_simple(tokens, adj, max_hops, start, cur, path, hops, visited, depth, k - 1);
        let before = spec_edges(tokens, adj, max_hops, start, cur, path, hops, visited, depth, k - 1);
        let e = adj[cur][k - 1];
        let r = spec_edges(tokens, adj, max_hops, start, cur, path, hops, visited, depth, k);
        if e.target == start && depth >= 2 {
            let c = path.push(tokens[start]);
            assert(path_is_simple(c)) by {
                assert forall|i: int, j: int| 1 <= i < j < c.len() - 1 implies c[i] != c[j] by {
                    assert(c[i] == path[i] && c[j] == path[j]);
                }
                assert forall|i: int| 1 <= i < c.len() - 1 implies #[trigger] c[i] != c[0] by {
                    assert(c[i] == path[i] && c[0] == path[0]);
                }
            }
            assert forall|i: int| 0 <= i < r.len() implies path_is_simple(#[trigger] r[i].path) by {
                if i < before.len() {
                    assert(r[i] == before[i]);
                } else {
                    assert(r[i].path == c);
                }
            }
        } else if !visited.contains(e.target as int) && depth < max_hops {
            let t = e.target as int;
            if depth == 1 {
                assert(adj[start][k - 1].target != start);
            }
            assert(t != start);
            if 0 <= t < tokens.len() {
                let p3 = path.push(tokens[t]);
                let v3 = visited.insert(t);
                assert(tokens[t] != tokens[start]) by {
                    assert(tokens.no_duplicates());
                }
                assert forall|i: int, j: int| 0 <= i < j < p3.len() implies p3[i] != p3[j] by {
                    if j == p3.len() - 1 {
                        assert(p3[j] == tokens[t]);
                        assert(p3[i] == path[i]);
                        if i >= 1 {
                            assert(path[i] != tokens[t]);
                        }
                    } else {
                        assert(p3[i] == path[i] && p3[j] == path[j]);
                    }
                }
                assert forall|j: int, x: int|
                    1 <= j < p3.len() && 0 <= x < tokens.len() && !v3.contains(x) implies #[trigger] p3[j]
                        != #[trigger] tokens[x] by {
                    if j == p3.len() - 1 {
                        assert(x != t);
                        assert(tokens[t] != tokens[x]);
                    } else {
                        assert(p3[j] == path[j]);
                        assert(path[j] != tokens[x]);
                    }
                }
                assert(walk_inv(tokens, start, p3, v3));
            }
            lemma_visit_simple(tokens, adj, max_hops, start, t, path, hops_push(hops, e), visited, depth + 1);
            let sub = spec_visit(tokens, adj, max_hops, start, t, path, hops_push(hops, e), visited, depth + 1);
            assert forall|i: int| 0 <= i < r.len() implies path_is_simple(#[trigger] r[i].path) by {
                if i < before.len() {
                    assert(r[i] == before[i]);
                } else {
                    assert(r[i] == sub[i - before.len()]);
                }
            }
        } else {
            assert(r == before);
        }
    }
}

/// The cycles found along the first `j` edges of a node come first among
/// those found along the first `k` (for `j <= k`).
proof fn lemma_edges_prefix(
    tokens: Seq<Address>,
    adj: Seq<Seq<GraphEdge>>,
    max_hops: int,
    start: int,
    cur: int,
    path: Seq<Address>,
    hops: Hops,
    visited: Set<int>,
    depth: int,
    j: int,
    k: int,
)
    requires
        0 <= j <= k,
        0 <= cur < adj.len(),
        k <= adj[cur].len(),
        depth <= max_hops,
    ensures
        spec_edges(tokens, adj, max_hops, start, cur, path, hops, visited, depth, j).len() <= spec_edges(
            tokens,
            adj,
            max_hops,
            start,
            cur,
            path,
            hops,
            visited,
            depth,
            k,
        ).len(),
        spec_edges(tokens, adj, max_hops, start, cur, path, hops, visited, depth, k).subrange(
            0,
            spec_edges(tokens, adj, max_hops, start, cur, path, hops, visited, depth, j).len() as int,
        ) == spec_edges(tokens, adj, max_hops, start, cur, path, hops, visited, depth, j),
    decreases k - j,
{
    let a = spec_edges(tokens, adj, max_hops, start, cur, path, hops, visited, depth, j);
    if j == k {
        assert(a.subrange(0, a.len() as int) =~= a);
    } else {
        lemma_edges_prefix(tokens, adj, max_hops, start, cur, path, hops, visited, depth, j, k - 1);
        let b = spec_edges(tokens, adj, max_hops, start, cur, path, hops, visited, depth, k - 1);
        let c = spec_edges(tokens, adj, max_hops, start, cur, path, hops, visited, depth, k);
        assert(c.subrange(0, b.len() as int) =~= b);
        assert(c.subrange(0, a.len() as int) =~= b.subrange(0, a.len() as int));
    }
}

/// The search finds every two-hop round trip: when an edge leads from the
/// start token to another token and an edge leads from that token back,
/// and at least two hops are allowed, the cycle through those two edges is
/// reported, with its two pools in order.
pub proof fn law_two_hop_cycles_found(
    tokens: Seq<Address>,
    adj: Seq<Seq<GraphEdge>>,
    max_hops: int,
    start: int,
    k1: int,
    k2: int,
)
    requires
        0 <= start < tokens.len(),
        adj.len() == tokens.len(),
        max_hops >= 2,
        0 <= k1 < adj[start].len(),
        adj[start][k1].target != start,
        adj[start][k1].target < tokens.len(),
        0 <= k2 < adj[adj[start][k1].target as int].len(),
        adj[adj[start][k1].target as int][k2].target == start,
    ensures
        exists|i: int|
            0 <= i < spec_cycles_from(tokens, adj, max_hops, start).len() && (#[trigger] spec_cycles_from(
                tokens,
                adj,
                max_hops,
                start,
            )[i]).path == seq![tokens[start], tokens[adj[start][k1].target as int], tokens[start]]
                && spec_cycles_from(tokens, adj, max_hops, start)[i].pools == seq![
                adj[start][k1].pool_address,
                adj[adj[start][k1].target as int][k2].pool_address,
            ],
{
    let e1 = adj[start][k1];
    let x = e1.target as int;
    let e2 = adj[x][k2];
    let h0 = Hops { pools: Seq::empty(), dexes: Seq::empty(), fees: Seq::empty(), edge_ids: Seq::empty() };
    let p1 = Seq::<Address>::empty().push(tokens[start]);
    let top = spec_cycles_from(tokens, adj, max_hops, start);
    assert(top == spec_edges(tokens, adj, max_hops, start, start, p1, h0, Set::empty(), 1, adj[start].len() as int));
    let pre = spec_edges(tokens, adj, max_hops, start, start, p1, h0, Set::empty(), 1, k1);
    let h1 = hops_push(h0, e1);
    let sub = spec_visit(tokens, adj, max_hops, start, x, p1, h1, Set::empty(), 2);
    let upto1 = spec_edges(tokens, adj, max_hops, start, start, p1, h0, Set::empty(), 1, k1 + 1);
    assert(upto1 == pre + sub);
    let p2 = p1.push(tokens[x]);
    let v2 = Set::<int>::empty().insert(x);
    assert(sub == spec_edges(tokens, adj, max_hops, start, x, p2, h1, v2, 2, adj[x].len() as int));
    let pre2 = spec_edges(tokens, adj, max_hops, start, x, p2, h1, v2, 2, k2);
    let h2 = hops_push(h1, e2);
    let cand = CandidateView {
        path: p2.push(tokens[start]),
        pools: h2.pools,
        dexes: h2.dexes,
        fees: h2.fees,
        edge_ids: h2.edge_ids,
    };
    let upto2 = spec_edges(tokens, adj, max_hops, start, x, p2, h1, v2, 2, k2 + 1);
    assert(upto2 == pre2.push(cand));
    lemma_edges_prefix(tokens, adj, max_hops, start, x, p2, h1, v2, 2, k2 + 1, adj[x].len() as int);
    assert(sub[pre2.len() as int] == upto2[pre2.len() as int]);
    lemma_edges_prefix(tokens, adj, max_hops, start, start, p1, h0, Set::empty(), 1, k1 + 1, adj[start].len() as int);
    let idx: int = pre.len() as int + pre2.len() as int;
    assert(top[idx] == upto1[idx]);
    assert(upto1[idx] == sub[pre2.len() as int]);
    assert(top[idx].path =~= seq![tokens[start], tokens[x], tokens[start]]);
    assert(top[idx].pools =~= seq![e1.pool_address, e2.pool_address]);
}

} // verus!
