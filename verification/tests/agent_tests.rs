use lau_quantum_topology_agents::agent::{AgentBoundary, AgentNetwork};

#[test]
fn test_agent_creation() {
    let a = AgentBoundary::new("a1", 3);
    assert_eq!(a.id, "a1");
    assert_eq!(a.dimension(), 3);
}

#[test]
fn test_connect() {
    let mut a = AgentBoundary::new("a", 2);
    let mut b = AgentBoundary::new("b", 2);
    a.connect_to(&mut b);
    assert!(a.output_channels.contains(&"b".to_string()));
    assert!(b.input_channels.contains(&"a".to_string()));
}

#[test]
fn test_network_creation() {
    let net = AgentNetwork::new(2);
    assert!(net.is_empty());
}

#[test]
fn test_network_add_agent() {
    let mut net = AgentNetwork::new(2);
    net.add_agent(AgentBoundary::new("a1", 2));
    assert_eq!(net.len(), 1);
}

#[test]
fn test_network_get_agent() {
    let mut net = AgentNetwork::new(2);
    net.add_agent(AgentBoundary::new("a1", 2));
    assert!(net.get_agent("a1").is_some());
    assert!(net.get_agent("missing").is_none());
}

#[test]
fn test_network_total_dimension() {
    let mut net = AgentNetwork::new(2);
    net.add_agent(AgentBoundary::new("a", 2));
    net.add_agent(AgentBoundary::new("b", 3));
    assert_eq!(net.total_dimension(), 6);
}

#[test]
fn agent_test_display() {
    let a = AgentBoundary::new("x", 4);
    assert!(a.to_string().contains("x"));
}

#[test]
fn agent_display_text_is_exact() {
    assert_eq!(AgentBoundary::new("researcher", 40).to_string(), "Agent(researcher, dim=40)");
}

#[test]
fn new_agent_has_no_channels() {
    let a = AgentBoundary::new("a", 5);
    assert!(a.input_channels.is_empty());
    assert!(a.output_channels.is_empty());
    assert_eq!(a.state_dimension, 5);
}

#[test]
fn connecting_twice_lists_once() {
    let mut a = AgentBoundary::new("a", 2);
    let mut b = AgentBoundary::new("b", 2);
    a.connect_to(&mut b);
    a.connect_to(&mut b);
    assert_eq!(a.output_channels, vec!["b".to_string()]);
    assert_eq!(b.input_channels, vec!["a".to_string()]);
    assert!(a.input_channels.is_empty());
    assert!(b.output_channels.is_empty());
}

#[test]
fn connections_keep_their_order() {
    let mut a = AgentBoundary::new("a", 2);
    let mut b = AgentBoundary::new("b", 2);
    let mut c = AgentBoundary::new("c", 2);
    a.connect_to(&mut b);
    a.connect_to(&mut c);
    b.connect_to(&mut c);
    assert_eq!(a.output_channels, vec!["b".to_string(), "c".to_string()]);
    assert_eq!(c.input_channels, vec!["a".to_string(), "b".to_string()]);
}

#[test]
fn empty_network_has_dimension_zero() {
    assert_eq!(AgentNetwork::new(2).total_dimension(), 0);
}

#[test]
fn adding_an_agent_multiplies_the_dimension() {
    let mut net = AgentNetwork::new(2);
    net.add_agent(AgentBoundary::new("a", 4));
    assert_eq!(net.total_dimension(), 4);
    net.add_agent(AgentBoundary::new("b", 5));
    assert_eq!(net.total_dimension(), 20);
    net.add_agent(AgentBoundary::new("c", 0));
    assert_eq!(net.total_dimension(), 0);
}

#[test]
fn lookups_find_the_first_agent_with_the_id() {
    let mut net = AgentNetwork::new(1);
    net.add_agent(AgentBoundary::new("a", 2));
    net.add_agent(AgentBoundary::new("b", 3));
    net.add_agent(AgentBoundary::new("b", 9));
    assert_eq!(net.agent_index("b"), Some(1));
    assert_eq!(net.agent_index("z"), None);
    assert_eq!(net.get_agent("b").unwrap().state_dimension, 3);
}

#[test]
fn get_agent_mut_changes_only_that_agent() {
    let mut net = AgentNetwork::new(1);
    net.add_agent(AgentBoundary::new("a", 2));
    net.add_agent(AgentBoundary::new("b", 3));
    if let Some(agent) = net.get_agent_mut("b") {
        agent.state_dimension = 7;
    }
    assert!(net.get_agent_mut("missing").is_none());
    assert_eq!(net.get_agent("a").unwrap().state_dimension, 2);
    assert_eq!(net.get_agent("b").unwrap().state_dimension, 7);
    assert_eq!(net.algebra_dimension, 1);
}
