use vstd::prelude::*;

use super::error::GraphError;
use crate::text::{owned, strings_view};

verus! {

/// What a [`Node`] wants to happen after it runs.
#[derive(Debug, Clone, PartialEq, Eq)]
pub enum NodeOutcome {
    /// Continue execution at the named node.
    Goto(String),
    /// Stop execution; this turn is complete.
    Halt,
}

impl NodeOutcome {
    /// Shorthand for `NodeOutcome::Goto(name)`.
    pub fn goto(name: &str) -> (r: Self)
        ensures
            r matches NodeOutcome::Goto(n) && n@ == name@,
    {
        NodeOutcome::Goto(owned(name))
    }
}

/// The view of an outcome: the node to go to, or `None` to halt.
pub open spec fn outcome_view(o: NodeOutcome) -> Option<Seq<char>> {
    match o {
        NodeOutcome::Goto(n) => Some(n@),
        NodeOutcome::Halt => None,
    }
}

/// A single step in an [`AgentGraph`]: reads and writes the shared context
/// and names the node to run next, or halts.
pub trait Node<C> {
    /// The name of the node. A node written without a specification gets
    /// an unknown name here, which its `name` cannot be proved to meet.
    open spec fn name_spec(&self) -> Seq<char> {
        arbitrary()
    }

    /// Whether a run of the node may turn context `before` into `after` and
    /// go on to `next` (`None` to halt). A relation, so that a node may
    /// depend on the outside (a model's answer). A node written without a
    /// specification allows any step.
    open spec fn step_allows(&self, before: C, after: C, next: Option<Seq<char>>) -> bool {
        true
    }

    /// The name other nodes use in their `NodeOutcome::Goto` to reach this node.
    fn name(&self) -> (r: &str)
        ensures
            r@ == self.name_spec(),
    ;

    /// Runs this node's logic against the shared context.
    fn run(&self, ctx: &mut C) -> (r: NodeOutcome)
        ensures
            self.step_allows(*old(ctx), *final(ctx), outcome_view(r)),
    ;
}

/// Default cap on the number of node executions per [`AgentGraph::run`] call.
pub const DEFAULT_STEP_BUDGET: usize = 1000;

/// The shape of a graph: its entry node, the names of its nodes and its
/// step budget.
pub struct GraphView {
    pub entry: Seq<char>,
    pub names: Seq<Seq<char>>,
    pub budget: nat,
}

/// The end of a run.
pub enum RunView {
    /// A node halted; the nodes visited, in order.
    Halted(Seq<Seq<char>>),
    /// An outcome named a node that is not in the graph.
    Unknown(Seq<char>),
    /// The budget was used up before a node halted.
    BudgetExceeded(nat),
    /// The entry node is not in the graph.
    MissingEntry(Seq<char>),
    /// More nodes ran than outcomes were given.
    Unfinished,
}

/// Runs the graph from node `cur`, having visited `path`, where the nodes
/// that run return `outs` in order (`None` for halt, `Some(n)` for goto `n`).
pub open spec fn walk(
    g: GraphView,
    cur: Seq<char>,
    path: Seq<Seq<char>>,
    outs: Seq<Option<Seq<char>>>,
) -> RunView
    decreases outs.len(),
{
    if path.len() >= g.budget {
        RunView::BudgetExceeded(g.budget)
    } else if !g.names.contains(cur) {
        RunView::Unknown(cur)
    } else if outs.len() == 0 {
        RunView::Unfinished
    } else {
        match outs[0] {
            None => RunView::Halted(path.push(cur)),
            Some(next) => walk(g, next, path.push(cur), outs.drop_first()),
        }
    }
}

/// The end of a run of `g` in which the nodes return `outs`.
pub open spec fn run_spec(g: GraphView, outs: Seq<Option<Seq<char>>>) -> RunView {
    if !g.names.contains(g.entry) {
        RunView::MissingEntry(g.entry)
    } else {
        walk(g, g.entry, Seq::empty(), outs)
    }
}

proof fn lemma_walk_within_budget(
    g: GraphView,
    cur: Seq<char>,
    path: Seq<Seq<char>>,
    outs: Seq<Option<Seq<char>>>,
)
    requires
        forall|k: int| 0 <= k < path.len() ==> g.names.contains(#[trigger] path[k]),
    ensures
        walk(g, cur, path, outs) matches RunView::Halted(p) ==> {
            &&& path.len() < p.len() <= g.budget
            &&& p.take(path.len() as int) == path
            &&& p[path.len() as int] == cur
            &&& forall|k: int| 0 <= k < p.len() ==> g.names.contains(#[trigger] p[k])
        },
    decreases outs.len(),
{
    if path.len() < g.budget && g.names.contains(cur) && outs.len() > 0 {
        let p2 = path.push(cur);
        assert(p2.take(path.len() as int) =~= path);
        assert forall|k: int| 0 <= k < p2.len() implies g.names.contains(#[trigger] p2[k]) by {
            if k < path.len() {
                assert(p2[k] == path[k]);
            }
        }
        if let Some(next) = outs[0] {
            lemma_walk_within_budget(g, next, p2, outs.drop_first());
            match walk(g, next, p2, outs.drop_first()) {
                RunView::Halted(p) => {
                    assert(p.take(path.len() as int) =~= p.take(p2.len() as int).take(path.len() as int));
                    assert(p[path.len() as int] == p.take(p2.len() as int)[path.len() as int]);
                },
                _ => {},
            }
        }
    }
}

/// Law: every run that halts stays within the step budget: it visited at
/// least one and at most `budget` nodes, starting with the entry node, and
/// every node it visited is a node of the graph.
pub proof fn lemma_run_within_budget(g: GraphView, outs: Seq<Option<Seq<char>>>)
    ensures
        run_spec(g, outs) matches RunView::Halted(p) ==> {
            &&& 1 <= p.len() <= g.budget
            &&& p[0] == g.entry
            &&& forall|k: int| 0 <= k < p.len() ==> g.names.contains(#[trigger] p[k])
        },
{
    if g.names.contains(g.entry) {
        lemma_walk_within_budget(g, g.entry, Seq::empty(), outs);
    }
}

/// The view of what `AgentGraph::run` returns.
pub open spec fn run_view(r: Result<Vec<String>, GraphError>) -> RunView {
    match r {
        Ok(path) => RunView::Halted(strings_view(path@)),
        Err(GraphError::UnknownNode(n)) => RunView::Unknown(n@),
        Err(GraphError::StepBudgetExceeded { limit }) => RunView::BudgetExceeded(limit as nat),
        Err(GraphError::MissingEntryNode(n)) => RunView::MissingEntry(n@),
    }
}

/// A named graph of [`Node`]s executed as a state machine: each node decides
/// the next node to run (or that the run should halt). Cycles are allowed
/// and guarded by a step budget.
/// Nodes of different types are kept as boxed trait objects
/// (`N = Box<dyn Node<C>>`).
#[verifier::reject_recursive_types(C)]
pub struct AgentGraph<C, N> {
    entry: String,
    nodes: Vec<NamedNode<N>>,
    step_budget: usize,
    ctx: core::marker::PhantomData<C>,
}

/// A node and the name it is registered under.
struct NamedNode<N> {
    name: String,
    node: N,
}

impl<C, N: Node<C>> AgentGraph<C, N> {
    /// The names of the nodes, in the order they were first added.
    pub closed spec fn names(&self) -> Seq<Seq<char>> {
        self.nodes@.map_values(|p: NamedNode<N>| p.name@)
    }

    /// The node named `n`.
    pub closed spec fn node(&self, n: Seq<char>) -> N {
        self.nodes@[self.index_of(n)].node
    }

    /// The shape of the graph.
    pub closed spec fn shape(&self) -> GraphView {
        GraphView { entry: self.entry@, names: self.names(), budget: self.step_budget as nat }
    }

    /// The names in the shape are the names of the nodes.
    pub proof fn lemma_shape_names(&self)
        ensures
            self.shape().names == self.names(),
    {
    }

    /// The position of the node named `n`.
    closed spec fn index_of(&self, n: Seq<char>) -> int {
        choose|i: int| 0 <= i < self.nodes@.len() && self.nodes@[i].name@ == n
    }

    /// Whether a run from node `cur`, having visited `path`, with context
    /// `ctx`, may end with `end` and leave context `last`: each node that
    /// runs is the one its predecessor named and takes a step it allows;
    /// the run ends when a node halts, when a name is not in the graph, or
    /// when `budget` nodes have run.
    pub open spec fn run_from_allows(
        &self,
        cur: Seq<char>,
        path: Seq<Seq<char>>,
        ctx: C,
        end: RunView,
        last: C,
    ) -> bool
        decreases self.shape().budget - path.len(),
    {
        if path.len() >= self.shape().budget {
            end == RunView::BudgetExceeded(self.shape().budget) && last == ctx
        } else if !self.names().contains(cur) {
            end == RunView::Unknown(cur) && last == ctx
        } else {
            exists|c2: C, next: Option<Seq<char>>|
                #![trigger self.node(cur).step_allows(ctx, c2, next)]
                self.node(cur).step_allows(ctx, c2, next) && match next {
                    None => end == RunView::Halted(path.push(cur)) && last == c2,
                    Some(n) => self.run_from_allows(n, path.push(cur), c2, end, last),
                }
        }
    }

    /// Whether a run from the entry node with context `ctx` may end with
    /// `end` and leave context `last`; without an entry node nothing runs.
    pub open spec fn run_allows(&self, ctx: C, end: RunView, last: C) -> bool {
        if !self.names().contains(self.shape().entry) {
            end == RunView::MissingEntry(self.shape().entry) && last == ctx
        } else {
            self.run_from_allows(self.shape().entry, Seq::empty(), ctx, end, last)
        }
    }

    proof fn lemma_index_of(&self, i: int)
        requires
            self.wf(),
            0 <= i < self.nodes@.len(),
        ensures
            self.index_of(self.nodes@[i].name@) == i,
    {
        let n = self.nodes@[i].name@;
        assert(self.nodes@[i].name@ == n);
        let k = self.index_of(n);
        if k != i {
            if k < i {
                assert(self.nodes@[k].name@ != self.nodes@[i].name@);
            } else {
                assert(self.nodes@[i].name@ != self.nodes@[k].name@);
            }
        }
    }

    /// No name occurs twice.
    pub closed spec fn wf(&self) -> bool {
        forall|i: int, j: int|
            0 <= i < j < self.nodes@.len() ==> self.nodes@[i].name@ != self.nodes@[j].name@
    }

    /// A graph with no nodes that starts execution at the node named `entry`.
    pub fn new(entry: &str) -> (r: Self)
        ensures
            r.wf(),
            r.shape() == (GraphView {
                entry: entry@,
                names: Seq::empty(),
                budget: DEFAULT_STEP_BUDGET as nat,
            }),
            r.names() == Seq::<Seq<char>>::empty(),
    {
        let r = AgentGraph {
            entry: owned(entry),
            nodes: Vec::new(),
            step_budget: DEFAULT_STEP_BUDGET,
            ctx: core::marker::PhantomData,
        };
        assert(r.names() =~= Seq::<Seq<char>>::empty());
        r
    }

    /// Overrides the step budget.
    pub fn with_step_budget(self, budget: usize) -> (r: Self)
        ensures
            r.wf() == self.wf(),
            r.shape() == (GraphView { budget: budget as nat, ..self.shape() }),
            r.names() == self.names(),
            forall|m: Seq<char>| #[trigger] r.node(m) == self.node(m),
    {
        let r = AgentGraph { entry: self.entry, nodes: self.nodes, step_budget: budget, ctx: self.ctx };
        assert(r.nodes@ == self.nodes@);
        r
    }

    /// Index of the node named `name`.
    fn find(&self, name: &str) -> (r: Option<usize>)
        requires
            self.wf(),
        ensures
            match r {
                Some(i) => i < self.nodes@.len() && self.nodes@[i as int].name@ == name@
                    && self.names().contains(name@) && self.names()[i as int] == name@,
                None => !self.names().contains(name@),
            },
    {
        let mut i: usize = 0;
        while i < self.nodes.len()
            invariant
                i <= self.nodes@.len(),
                forall|j: int| 0 <= j < i ==> self.nodes@[j].name@ != name@,
            decreases self.nodes.len() - i,
        {
            if crate::text::str_eq(self.nodes[i].name.as_str(), name) {
                assert(self.names()[i as int] == name@);
                return Some(i);
            }
            i = i + 1;
        }
        proof {
            if self.names().contains(name@) {
                let k = choose|k: int| 0 <= k < self.names().len() && self.names()[k] == name@;
                assert(self.nodes@[k].name@ == name@);
            }
        }
        None
    }

    /// Adds a node under its own name, replacing a node of the same name.
    pub fn add_node(&mut self, node: N) -> (r: &mut Self)
        requires
            old(self).wf(),
        ensures
            r.wf(),
            r.shape().entry == old(self).shape().entry,
            r.shape().budget == old(self).shape().budget,
            if old(self).names().contains(node.name_spec()) {
                r.names() == old(self).names()
            } else {
                r.names() == old(self).names().push(node.name_spec())
            },
            r.node(node.name_spec()) == node,
            forall|m: Seq<char>|
                #![trigger r.node(m)]
                m != node.name_spec() && old(self).names().contains(m) ==> r.node(m) == old(self).node(m),
            *final(self) == *final(r),
    {
        let name = owned(node.name());
        let ghost n = name@;
        let ghost the_node = node;
        let ghost before = self.nodes@;
        let ghost mut changed: int = 0;
        match self.find(name.as_str()) {
            Some(i) => {
                proof {
                    changed = i as int;
                }
                self.nodes.set(i, NamedNode { name, node });
                assert forall|k: int| 0 <= k < self.nodes@.len() implies #[trigger] self.nodes@[k].name@
                    == before[k].name@ by {
                    if k == i {
                    }
                }
                assert(self.names() =~= old(self).names());
            },
            None => {
                proof {
                    changed = before.len() as int;
                }
                self.nodes.push(NamedNode { name, node });
                assert forall|k: int| 0 <= k < before.len() implies #[trigger] self.nodes@[k].name@
                    == before[k].name@ by {
                }
                assert(self.nodes@[before.len() as int].name@ == n);
                assert(self.names() =~= old(self).names().push(n));
                assert forall|a: int, b: int| 0 <= a < b < self.nodes@.len() implies self.nodes@[a].name@
                    != self.nodes@[b].name@ by {
                    if b == before.len() {
                        assert(old(self).names()[a] == before[a].name@);
                    }
                }
            },
        }
        assert(if old(self).names().contains(n) {
            self.names() == old(self).names()
        } else {
            self.names() == old(self).names().push(n)
        });
        assert(self.nodes@[changed].name@ == n);
        assert(self.nodes@[changed].node == the_node);
        proof {
            self.lemma_index_of(changed);
        }
        assert(forall|k: int| 0 <= k < before.len() && k != changed ==> self.nodes@[k] == before[k]);
        assert forall|m: Seq<char>| m != n && old(self).names().contains(m) implies #[trigger] self.node(m)
            == old(self).node(m) by {
            let k = choose|k: int| 0 <= k < old(self).names().len() && old(self).names()[k] == m;
            assert(old(self).nodes@[k].name@ == m);
            old(self).lemma_index_of(k);
            assert(k != changed);
            assert(self.nodes@[k] == before[k]);
            self.lemma_index_of(k);
        }
        self
    }

    /// Runs the graph from the entry node until a node halts, returning the
    /// names of the nodes visited in order. Fails with `MissingEntryNode`
    /// when the entry node was never added, `UnknownNode` when an outcome
    /// names a node that was never added, and `StepBudgetExceeded` when the
    /// budget is used up before a node halts. The result and the context
    /// left are ones that `run_allows`: each node runs on the context its
    /// predecessor left, and the next node is the one it names.
    pub fn run(&self, ctx: &mut C) -> (r: Result<Vec<String>, GraphError>)
        requires
            self.wf(),
        ensures
            exists|outs: Seq<Option<Seq<char>>>| run_spec(self.shape(), outs) == run_view(r),
            !self.names().contains(self.shape().entry) <==> r matches Err(
                GraphError::MissingEntryNode(_),
            ),
            self.run_allows(*old(ctx), run_view(r), *final(ctx)),
    {
        if self.find(self.entry.as_str()).is_none() {
            let r = Err(GraphError::MissingEntryNode(owned(self.entry.as_str())));
            assert(run_spec(self.shape(), Seq::empty()) == run_view(r));
            assert(self.run_allows(*old(ctx), run_view(r), *ctx));
            return r;
        }
        let ghost g = self.shape();
        let ghost ctx0 = *ctx;
        let mut path: Vec<String> = Vec::new();
        let mut current = owned(self.entry.as_str());
        let ghost mut outs: Seq<Option<Seq<char>>> = Seq::empty();
        assert(strings_view(path@) =~= Seq::<Seq<char>>::empty());
        assert forall|rest: Seq<Option<Seq<char>>>|
            run_spec(g, outs + rest) == #[trigger] walk(g, current@, strings_view(path@), rest) by {
            assert(outs + rest =~= rest);
        }
        loop
            invariant
                self.wf(),
                g == self.shape(),
                g.names.contains(g.entry),
                path@.len() <= g.budget,
                ctx0 == *old(ctx),
                forall|e: RunView, l: C|
                    #[trigger] self.run_from_allows(current@, strings_view(path@), *ctx, e, l)
                        ==> self.run_allows(ctx0, e, l),
                forall|rest: Seq<Option<Seq<char>>>|
                    run_spec(g, outs + rest) == #[trigger] walk(
                        g,
                        current@,
                        strings_view(path@),
                        rest,
                    ),
            decreases g.budget - path@.len(),
        {
            let ghost pv = strings_view(path@);
            if path.len() >= self.step_budget {
                let r = Err(GraphError::StepBudgetExceeded { limit: self.step_budget });
                assert(self.run_from_allows(current@, pv, *ctx, RunView::BudgetExceeded(g.budget), *ctx));
                assert(run_spec(g, outs + Seq::empty()) == walk(g, current@, pv, Seq::empty()));
                assert(outs + Seq::<Option<Seq<char>>>::empty() =~= outs);
                return r;
            }
            let i = match self.find(current.as_str()) {
                Some(i) => i,
                None => {
                    assert(self.run_from_allows(current@, pv, *ctx, RunView::Unknown(current@), *ctx));
                    let r = Err(GraphError::UnknownNode(current));
                    assert(run_spec(g, outs + Seq::empty()) == walk(g, current@, pv, Seq::empty()));
                    assert(outs + Seq::<Option<Seq<char>>>::empty() =~= outs);
                    return r;
                },
            };
            assert(g.names[i as int] == current@);
            proof {
                self.lemma_index_of(i as int);
            }
            let ghost c_before = *ctx;
            path.push(owned(current.as_str()));
            let ghost pv2 = strings_view(path@);
            assert(pv2 =~= pv.push(current@));
            let outcome = self.nodes[i].node.run(ctx);
            assert(self.node(current@).step_allows(c_before, *ctx, outcome_view(outcome)));
            match outcome {
                NodeOutcome::Halt => {
                    assert(self.run_from_allows(current@, pv, c_before, RunView::Halted(pv2), *ctx));
                    let r = Ok(path);
                    let ghost o = seq![None::<Seq<char>>];
                    assert(run_spec(g, outs + o) == walk(g, current@, pv, o));
                    assert(walk(g, current@, pv, o) == RunView::Halted(pv2));
                    return r;
                },
                NodeOutcome::Goto(next) => {
                    let ghost step: Option<Seq<char>> = Some(next@);
                    proof {
                        assert forall|rest: Seq<Option<Seq<char>>>|
                            run_spec(g, (outs.push(step)) + rest) == #[trigger] walk(
                                g,
                                next@,
                                pv2,
                                rest,
                            ) by {
                            assert(outs.push(step) + rest =~= outs + (seq![step] + rest));
                            assert((seq![step] + rest).drop_first() =~= rest);
                            assert(run_spec(g, outs + (seq![step] + rest)) == walk(
                                g,
                                current@,
                                pv,
                                seq![step] + rest,
                            ));
                        }
                        outs = outs.push(step);
                        assert forall|e: RunView, l: C|
                            #[trigger] self.run_from_allows(next@, pv2, *ctx, e, l) implies self.run_allows(
                            ctx0,
                            e,
                            l,
                        ) by {
                            assert(self.node(current@).step_allows(c_before, *ctx, step));
                            assert(self.run_from_allows(current@, pv, c_before, e, l));
                        }
                    }
                    current = next;
                },
            }
        }
    }
}

}
