/// Handlers of different closure types, boxed.
type Handler = Box<dyn Fn(&str) -> Result<String, String>>;

use tpt_ai_agents::agent_graph::{
    AgentGraph, GraphError, Node, NodeOutcome, ToolDispatchError, ToolRegistry,
};

struct Echo(&'static str, &'static str);
impl Node<Vec<String>> for Echo {
    fn name(&self) -> &str {
        self.0
    }
    fn run(&self, ctx: &mut Vec<String>) -> NodeOutcome {
        ctx.push(self.0.to_string());
        if self.1.is_empty() {
            NodeOutcome::Halt
        } else {
            NodeOutcome::goto(self.1)
        }
    }
}

#[test]
fn runs_a_linear_chain() {
    let mut graph = AgentGraph::new("a");
    graph.add_node(Echo("a", "b"));
    graph.add_node(Echo("b", ""));

    let mut ctx = Vec::new();
    let path = graph.run(&mut ctx).unwrap();
    assert_eq!(path, vec!["a", "b"]);
    assert_eq!(ctx, vec!["a", "b"]);
}

#[test]
fn missing_entry_node_is_an_error() {
    let graph: AgentGraph<Vec<String>, Echo> = AgentGraph::new("missing");
    let mut ctx = Vec::new();
    assert_eq!(
        graph.run(&mut ctx),
        Err(GraphError::MissingEntryNode("missing".to_string()))
    );
}

#[test]
fn goto_unknown_node_is_an_error() {
    let mut graph = AgentGraph::new("a");
    graph.add_node(Echo("a", "nowhere"));
    let mut ctx = Vec::new();
    assert_eq!(
        graph.run(&mut ctx),
        Err(GraphError::UnknownNode("nowhere".to_string()))
    );
}

#[test]
fn cycles_hit_the_step_budget() {
    let mut graph = AgentGraph::new("a").with_step_budget(5);
    graph.add_node(Echo("a", "a"));
    let mut ctx = Vec::new();
    assert_eq!(
        graph.run(&mut ctx),
        Err(GraphError::StepBudgetExceeded { limit: 5 })
    );
}

#[test]
fn re_adding_a_node_replaces_it() {
    let mut graph = AgentGraph::new("a");
    graph.add_node(Echo("a", "b"));
    graph.add_node(Echo("a", ""));
    graph.add_node(Echo("b", ""));

    let mut ctx = Vec::new();
    let path = graph.run(&mut ctx).unwrap();
    assert_eq!(path, vec!["a"]);
}

struct Counter {
    count: u32,
}

struct Increment;
impl Node<Counter> for Increment {
    fn name(&self) -> &str {
        "increment"
    }
    fn run(&self, ctx: &mut Counter) -> NodeOutcome {
        ctx.count += 1;
        if ctx.count < 3 {
            NodeOutcome::goto("increment")
        } else {
            NodeOutcome::Halt
        }
    }
}

#[test]
fn self_loop_runs_until_halt() {
    let mut graph = AgentGraph::new("increment");
    graph.add_node(Increment);
    let mut ctx = Counter { count: 0 };
    let path = graph.run(&mut ctx).unwrap();
    assert_eq!(ctx.count, 3);
    assert_eq!(path, vec!["increment", "increment", "increment"]);
}

#[test]
fn zero_budget_runs_nothing() {
    let mut graph = AgentGraph::new("a").with_step_budget(0);
    graph.add_node(Echo("a", ""));
    let mut ctx = Vec::new();
    assert_eq!(
        graph.run(&mut ctx),
        Err(GraphError::StepBudgetExceeded { limit: 0 })
    );
    assert!(ctx.is_empty());
}

#[test]
fn graph_error_messages() {
    assert_eq!(
        GraphError::UnknownNode("x".to_string()).message(),
        "node `x` was not added to the graph"
    );
    assert_eq!(
        GraphError::StepBudgetExceeded { limit: 1000 }.message(),
        "graph execution exceeded its step budget of 1000"
    );
    assert_eq!(
        GraphError::MissingEntryNode("e".to_string()).message(),
        "entry node `e` was not added to the graph"
    );
}

#[test]
fn dispatches_registered_tool() {
    let mut registry = ToolRegistry::new();
    registry.register("echo", |args: &str| Ok(args.to_string()));
    assert_eq!(registry.dispatch("echo", "hello").unwrap(), "hello");
}

#[test]
fn unknown_tool_is_an_error() {
    let registry: ToolRegistry<Handler> = ToolRegistry::new();
    assert_eq!(
        registry.dispatch("missing", "{}"),
        Err(ToolDispatchError::UnknownTool("missing".to_string()))
    );
}

#[test]
fn handler_error_is_propagated() {
    let mut registry = ToolRegistry::new();
    registry.register("fails", |_: &str| Err("bad args".to_string()));
    assert_eq!(
        registry.dispatch("fails", "{}"),
        Err(ToolDispatchError::Handler("bad args".to_string()))
    );
}

#[test]
fn contains_reflects_registration() {
    let mut registry: ToolRegistry<Handler> = ToolRegistry::new();
    assert!(!registry.contains("echo"));
    registry.register("echo", Box::new(|args: &str| Ok(args.to_string())));
    assert!(registry.contains("echo"));
}

#[test]
fn re_registering_replaces_handler() {
    let registry = ToolRegistry::new();
    let mut registry: ToolRegistry<Handler> = registry;
    registry.register("echo", Box::new(|_: &str| Ok("first".to_string())));
    registry.register("echo", Box::new(|_: &str| Ok("second".to_string())));
    assert_eq!(registry.dispatch("echo", "{}").unwrap(), "second");
}

#[test]
fn tool_dispatch_error_messages() {
    assert_eq!(
        ToolDispatchError::UnknownTool("t".to_string()).message(),
        "no tool registered under the name `t`"
    );
    assert_eq!(
        ToolDispatchError::Handler("boom".to_string()).message(),
        "tool handler failed: boom"
    );
}

#[test]
fn a_halting_run_starts_at_the_entry_and_stays_within_budget() {
    let mut graph: AgentGraph<Vec<String>, Echo> = AgentGraph::new("a").with_step_budget(3);
    graph.add_node(Echo("a", "b"));
    graph.add_node(Echo("b", ""));
    let mut ctx = Vec::new();
    let path = graph.run(&mut ctx).unwrap();
    assert_eq!(path, vec!["a".to_string(), "b".to_string()]);
    assert!(path.len() <= 3);
}
