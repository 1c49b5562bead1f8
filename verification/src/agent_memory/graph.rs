use vstd::prelude::*;

use crate::text::{owned, str_eq};

verus! {

broadcast use vstd::seq_lib::group_seq_properties;

struct GraphNode {
    id: String,
    label: String,
}

struct GraphEdge {
    from: String,
    to: String,
    relationship: String,
}

/// The targets of the edges of `edges` that leave `id`, in insertion order.
pub open spec fn neighbors_spec(
    edges: Seq<(Seq<char>, Seq<char>, Seq<char>)>,
    id: Seq<char>,
) -> Seq<Seq<char>>
    decreases edges.len(),
{
    if edges.len() == 0 {
        Seq::empty()
    } else {
        let rest = neighbors_spec(edges.drop_last(), id);
        if edges.last().0 == id {
            rest.push(edges.last().1)
        } else {
            rest
        }
    }
}

/// Law: the neighbours of `id` are the targets of the edges that leave
/// `id`, one per such edge (an edge repeated gives its target again), in
/// the order the edges were added.
pub proof fn lemma_neighbors_are_out_edges(edges: Seq<(Seq<char>, Seq<char>, Seq<char>)>, id: Seq<char>)
    ensures
        neighbors_spec(edges, id) == edges.filter(
            |e: (Seq<char>, Seq<char>, Seq<char>)| e.0 == id,
        ).map_values(|e: (Seq<char>, Seq<char>, Seq<char>)| e.1),
    decreases edges.len(),
{
    let p = |e: (Seq<char>, Seq<char>, Seq<char>)| e.0 == id;
    let f = |e: (Seq<char>, Seq<char>, Seq<char>)| e.1;
    reveal(Seq::filter);
    if edges.len() > 0 {
        lemma_neighbors_are_out_edges(edges.drop_last(), id);
        let sub = edges.drop_last().filter(p);
        if p(edges.last()) {
            assert(edges.filter(p) == sub.push(edges.last()));
            assert(sub.push(edges.last()).map_values(f) =~= sub.map_values(f).push(edges.last().1));
        } else {
            assert(edges.filter(p) == sub);
        }
    }
}

/// Law: adding an edge from `from` to `to` adds `to` at the end of the
/// neighbours of `from`, even when `to` is already one of them, and leaves
/// the neighbours of every other node as they were.
pub proof fn lemma_neighbors_after_edge(
    edges: Seq<(Seq<char>, Seq<char>, Seq<char>)>,
    from: Seq<char>,
    to: Seq<char>,
    rel: Seq<char>,
    id: Seq<char>,
)
    ensures
        id == from ==> neighbors_spec(edges.push((from, to, rel)), id) == neighbors_spec(edges, id).push(
            to,
        ),
        id != from ==> neighbors_spec(edges.push((from, to, rel)), id) == neighbors_spec(edges, id),
        neighbors_spec(edges.push((from, to, rel)), id).len() == neighbors_spec(edges, id).len() + (
        if id == from {
            1int
        } else {
            0int
        }),
{
    assert(edges.push((from, to, rel)).drop_last() =~= edges);
}

/// Graph-based memory structure for relationships: nodes with labels, keyed
/// by id, and directed edges between existing nodes.
pub struct MemoryGraph {
    nodes: Vec<GraphNode>,
    edges: Vec<GraphEdge>,
}

impl MemoryGraph {
    /// The node ids, in order of first insertion.
    closed spec fn ids(&self) -> Seq<Seq<char>> {
        self.nodes@.map_values(|n: GraphNode| n.id@)
    }

    /// The position of node `k`.
    closed spec fn index_of(&self, k: Seq<char>) -> int {
        choose|i: int| 0 <= i < self.nodes@.len() && self.nodes@[i].id@ == k
    }

    proof fn lemma_index_of(&self, k: Seq<char>)
        requires
            self.ids().no_duplicates(),
            self.ids().contains(k),
        ensures
            0 <= self.index_of(k) < self.nodes@.len(),
            self.nodes@[self.index_of(k)].id@ == k,
            forall|j: int| 0 <= j < self.nodes@.len() && self.nodes@[j].id@ == k ==> j == self.index_of(k),
    {
        let w = choose|w: int| 0 <= w < self.ids().len() && self.ids()[w] == k;
        assert(self.nodes@[w].id@ == k);
        let i = self.index_of(k);
        assert(self.ids()[i] == k);
        assert forall|j: int| 0 <= j < self.nodes@.len() && self.nodes@[j].id@ == k implies j == i by {
            assert(self.ids()[j] == k);
        }
    }

    /// The nodes: each id mapped to its label.
    pub closed spec fn node_map(&self) -> Map<Seq<char>, Seq<char>> {
        Map::new(|k: Seq<char>| self.ids().contains(k), |k: Seq<char>| self.nodes@[self.index_of(k)].label@)
    }

    /// The edges, as `(from, to, relationship)`, in insertion order.
    pub closed spec fn edge_seq(&self) -> Seq<(Seq<char>, Seq<char>, Seq<char>)> {
        self.edges@.map_values(|e: GraphEdge| (e.from@, e.to@, e.relationship@))
    }

    /// Every edge joins two nodes of the graph.
    closed spec fn edges_join_nodes(&self) -> bool {
        forall|i: int|
            0 <= i < self.edges@.len() ==> self.ids().contains(#[trigger] self.edges@[i].from@)
                && self.ids().contains(self.edges@[i].to@)
    }

    /// Ids are unique, and every edge joins two nodes of the graph.
    pub closed spec fn wf(&self) -> bool {
        &&& self.ids().no_duplicates()
        &&& self.edges_join_nodes()
    }

    /// An empty graph.
    pub fn new() -> (r: Self)
        ensures
            r.wf(),
            r.node_map() == Map::<Seq<char>, Seq<char>>::empty(),
            r.edge_seq() == Seq::<(Seq<char>, Seq<char>, Seq<char>)>::empty(),
    {
        let r = MemoryGraph { nodes: Vec::new(), edges: Vec::new() };
        assert(r.node_map() =~= Map::<Seq<char>, Seq<char>>::empty());
        assert(r.edge_seq() =~= Seq::<(Seq<char>, Seq<char>, Seq<char>)>::empty());
        r
    }

    fn find(&self, id: &str) -> (r: Option<usize>)
        requires
            self.wf(),
        ensures
            match r {
                Some(i) => i < self.nodes@.len() && self.nodes@[i as int].id@ == id@
                    && self.index_of(id@) == i && self.ids().contains(id@),
                None => !self.ids().contains(id@),
            },
    {
        let mut i: usize = 0;
        while i < self.nodes.len()
            invariant
                self.wf(),
                i <= self.nodes@.len(),
                forall|j: int| 0 <= j < i ==> self.nodes@[j].id@ != id@,
            decreases self.nodes.len() - i,
        {
            if str_eq(self.nodes[i].id.as_str(), id) {
                proof {
                    assert(self.ids()[i as int] == id@);
                    self.lemma_index_of(id@);
                }
                return Some(i);
            }
            i = i + 1;
        }
        proof {
            if self.ids().contains(id@) {
                let k = choose|k: int| 0 <= k < self.ids().len() && self.ids()[k] == id@;
                assert(self.nodes@[k].id@ == id@);
            }
        }
        None
    }

    /// Adds a node, or replaces the label of the node with the same id.
    #[verifier::spinoff_prover]
    #[verifier::rlimit(30)]
    pub fn add_node(&mut self, id: &str, label: &str)
        requires
            old(self).wf(),
        ensures
            final(self).wf(),
            final(self).node_map() == old(self).node_map().insert(id@, label@),
            final(self).edge_seq() == old(self).edge_seq(),
    {
        let node = GraphNode { id: owned(id), label: owned(label) };
        let ghost before = self.nodes@;
        match self.find(id) {
            Some(i) => {
                self.nodes.set(i, node);
                assert(self.ids() =~= old(self).ids());
                assert forall|k: Seq<char>| #[trigger] self.ids().contains(k) implies self.index_of(k)
                    == old(self).index_of(k) by {
                    self.lemma_index_of(k);
                    old(self).lemma_index_of(k);
                    assert(self.nodes@[old(self).index_of(k)].id@ == k);
                }
                assert(self.node_map() =~= old(self).node_map().insert(id@, label@));
                assert(self.ids().no_duplicates());
            },
            None => {
                self.nodes.push(node);
                assert(self.ids() =~= old(self).ids().push(id@));
                assert(self.ids().no_duplicates()) by {
                    assert forall|a: int, b: int|
                        0 <= a < self.ids().len() && 0 <= b < self.ids().len() && a != b implies self.ids()[a]
                        != self.ids()[b] by {
                        if a == before.len() {
                            assert(old(self).ids()[b] == self.ids()[b]);
                        } else if b == before.len() {
                            assert(old(self).ids()[a] == self.ids()[a]);
                        } else {
                            assert(old(self).ids()[a] == self.ids()[a]);
                            assert(old(self).ids()[b] == self.ids()[b]);
                        }
                    }
                }
                assert forall|k: Seq<char>| #[trigger] old(self).ids().contains(k) implies self.index_of(k)
                    == old(self).index_of(k) by {
                    self.lemma_index_of(k);
                    old(self).lemma_index_of(k);
                    assert(self.nodes@[old(self).index_of(k)].id@ == k);
                }
                let ghost n = before.len() as int;
                assert(self.ids()[n] == id@);
                proof {
                    self.lemma_index_of(id@);
                }
                assert(self.index_of(id@) == n);
                assert(self.node_map() =~= old(self).node_map().insert(id@, label@));
            },
        }
        assert forall|x: Seq<char>| old(self).ids().contains(x) implies #[trigger] self.ids().contains(x) by {
            let j = choose|j: int| 0 <= j < old(self).ids().len() && old(self).ids()[j] == x;
            assert(self.ids()[j] == x);
        }
        assert(self.edges@ == old(self).edges@);
        assert forall|i: int| 0 <= i < self.edges@.len() implies self.ids().contains(
            #[trigger] self.edges@[i].from@,
        ) && self.ids().contains(self.edges@[i].to@) by {
            assert(old(self).ids().contains(old(self).edges@[i].from@));
            assert(old(self).ids().contains(old(self).edges@[i].to@));
        }
        assert(self.edges_join_nodes());
        assert(self.edge_seq() =~= old(self).edge_seq());
    }

    /// Adds an edge when both ends are nodes of the graph, and tells whether
    /// it did.
    pub fn add_edge(&mut self, from: &str, to: &str, relationship: &str) -> (r: bool)
        requires
            old(self).wf(),
        ensures
            final(self).wf(),
            r == (old(self).node_map().dom().contains(from@) && old(self).node_map().dom().contains(
                to@,
            )),
            final(self).node_map() == old(self).node_map(),
            final(self).edge_seq() == if r {
                old(self).edge_seq().push((from@, to@, relationship@))
            } else {
                old(self).edge_seq()
            },
    {
        if self.find(from).is_none() || self.find(to).is_none() {
            return false;
        }
        let e = GraphEdge { from: owned(from), to: owned(to), relationship: owned(relationship) };
        self.edges.push(e);
        assert(self.edge_seq() =~= old(self).edge_seq().push((from@, to@, relationship@)));
        assert(self.node_map() =~= old(self).node_map());
        true
    }

    /// The ids of the targets of the edges that leave `id`, in the order the
    /// edges were added (with repeats for repeated edges). Each is a node of
    /// the graph.
    pub fn neighbors(&self, id: &str) -> (r: Vec<&str>)
        requires
            self.wf(),
        ensures
            r@.map_values(|s: &str| s@) == neighbors_spec(self.edge_seq(), id@),
            forall|i: int| 0 <= i < r@.len() ==> self.node_map().dom().contains(#[trigger] r@[i]@),
    {
        let mut r: Vec<&str> = Vec::new();
        let mut i: usize = 0;
        while i < self.edges.len()
            invariant
                self.wf(),
                i <= self.edges@.len(),
                r@.map_values(|s: &str| s@) == neighbors_spec(self.edge_seq().take(i as int), id@),
                forall|j: int| 0 <= j < r@.len() ==> self.node_map().dom().contains(#[trigger] r@[j]@),
            decreases self.edges.len() - i,
        {
            assert(self.edge_seq().take(i + 1).drop_last() =~= self.edge_seq().take(i as int));
            let e = &self.edges[i];
            if str_eq(e.from.as_str(), id) {
                let ghost before = r@;
                r.push(e.to.as_str());
                assert(r@.map_values(|s: &str| s@) =~= before.map_values(|s: &str| s@).push(e.to@));
                assert(self.ids().contains(self.edges@[i as int].to@));
            }
            i = i + 1;
        }
        assert(self.edge_seq().take(self.edges@.len() as int) =~= self.edge_seq());
        r
    }

    /// Whether a node has id `id`.
    pub fn has_node(&self, id: &str) -> (r: bool)
        requires
            self.wf(),
        ensures
            r == self.node_map().dom().contains(id@),
    {
        self.find(id).is_some()
    }

    /// The label of node `id`.
    pub fn node_label(&self, id: &str) -> (r: Option<&str>)
        requires
            self.wf(),
        ensures
            match r {
                Some(l) => self.node_map().dom().contains(id@) && l@ == self.node_map()[id@],
                None => !self.node_map().dom().contains(id@),
            },
    {
        match self.find(id) {
            Some(i) => Some(self.nodes[i].label.as_str()),
            None => None,
        }
    }

    /// A graph has finitely many nodes.
    pub proof fn lemma_nodes_finite(&self)
        ensures
            self.node_map().dom().finite(),
    {
        assert(self.node_map().dom() =~= self.ids().to_set());
        vstd::seq_lib::seq_to_set_is_finite(self.ids());
    }

    /// The number of nodes.
    pub fn node_count(&self) -> (r: usize)
        requires
            self.wf(),
        ensures
            r == self.node_map().dom().len(),
            self.node_map().dom().finite(),
    {
        proof {
            self.lemma_nodes_finite();
            self.ids().unique_seq_to_set();
            assert(self.node_map().dom() =~= self.ids().to_set());
        }
        self.nodes.len()
    }

    /// The number of edges.
    pub fn edge_count(&self) -> (r: usize)
        ensures
            r == self.edge_seq().len(),
    {
        self.edges.len()
    }
}

impl Default for MemoryGraph {
    /// An empty graph.
    fn default() -> (r: Self)
        ensures
            r.wf(),
            r.node_map() == Map::<Seq<char>, Seq<char>>::empty(),
            r.edge_seq() == Seq::<(Seq<char>, Seq<char>, Seq<char>)>::empty(),
    {
        MemoryGraph::new()
    }
}

}
