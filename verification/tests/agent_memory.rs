use tpt_ai_agents::agent_memory::MemoryGraph;

#[test]
fn test_add_node_and_edge() {
    let mut graph = MemoryGraph::new();
    graph.add_node("a", "Alice");
    graph.add_node("b", "Bob");
    assert!(graph.add_edge("a", "b", "knows"));
    assert_eq!(graph.node_count(), 2);
    assert_eq!(graph.edge_count(), 1);
}

#[test]
fn test_add_edge_validates_nodes() {
    let mut graph = MemoryGraph::new();
    graph.add_node("a", "Alice");
    assert!(!graph.add_edge("a", "missing", "knows"));
    assert_eq!(graph.edge_count(), 0);
}

#[test]
fn test_neighbors_returns_ids() {
    let mut graph = MemoryGraph::new();
    graph.add_node("a", "Alice");
    graph.add_node("b", "Bob");
    graph.add_node("c", "Charlie");
    graph.add_edge("a", "b", "knows");
    graph.add_edge("a", "c", "knows");
    let neighbors = graph.neighbors("a");
    assert_eq!(neighbors.len(), 2);
    assert!(neighbors.contains(&"b"));
    assert!(neighbors.contains(&"c"));
}

#[test]
fn test_node_label() {
    let mut graph = MemoryGraph::new();
    graph.add_node("a", "Alice");
    assert_eq!(graph.node_label("a"), Some("Alice"));
    assert_eq!(graph.node_label("missing"), None);
}

#[test]
fn re_adding_a_node_replaces_its_label() {
    let mut graph = MemoryGraph::new();
    graph.add_node("a", "Alice");
    graph.add_node("a", "Ada");
    assert_eq!(graph.node_count(), 1);
    assert_eq!(graph.node_label("a"), Some("Ada"));
    assert!(graph.has_node("a"));
    assert!(!graph.has_node("b"));
}

#[test]
fn neighbors_keep_edge_order_and_direction() {
    let mut graph = MemoryGraph::new();
    graph.add_node("a", "A");
    graph.add_node("b", "B");
    graph.add_edge("a", "b", "x");
    graph.add_edge("b", "a", "y");
    graph.add_edge("a", "a", "z");
    assert_eq!(graph.neighbors("a"), vec!["b", "a"]);
    assert_eq!(graph.neighbors("b"), vec!["a"]);
    assert!(graph.neighbors("c").is_empty());
}

use tpt_ai_agents::agent_memory::{entry_id, keyword_match, MemoryError};

#[test]
fn test_unique_ids() {
    assert_ne!(entry_id(0), entry_id(1));
    assert_ne!(entry_id(1), entry_id(10));
    assert_eq!(entry_id(42), "mem_42");
}

#[test]
fn keyword_matches_content_or_tags() {
    let tags = vec!["pref".to_string(), "ui".to_string()];
    assert!(keyword_match("dark mode preference", &tags, "dark"));
    assert!(keyword_match("light theme", &tags, "pre"));
    assert!(!keyword_match("light theme", &tags, "dark"));
    assert!(keyword_match("anything", &Vec::new(), ""));
}

#[test]
fn test_insert_and_search() {
    let entries = [
        ("dark mode preference", vec!["pref".to_string()]),
        ("light theme", vec!["theme".to_string()]),
    ];
    let hits: Vec<&str> = entries
        .iter()
        .filter(|(content, tags)| keyword_match(content, tags, "dark"))
        .map(|(content, _)| *content)
        .collect();
    assert_eq!(hits, vec!["dark mode preference"]);
}

#[test]
fn memory_error_messages() {
    assert_eq!(MemoryError::Storage("x".to_string()).message(), "storage error: x");
    assert_eq!(MemoryError::Serialization("y".to_string()).message(), "serialization error: y");
    assert_eq!(MemoryError::NotFound("z".to_string()).message(), "not found: z");
    assert_eq!(MemoryError::Concurrency("w".to_string()).message(), "concurrency error: w");
}
