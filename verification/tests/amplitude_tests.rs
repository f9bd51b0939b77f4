use lau_quantum_topology_agents::amplitude::{amplitude_rule, AmplitudeRule};
use lau_quantum_topology_agents::cobordism::{BoundaryComponent, Cobordism, Orientation};

fn make_boundary(dim: usize) -> BoundaryComponent {
    BoundaryComponent { label: "b".into(), dimension: dim, orientation: Orientation::Ingoing }
}

#[test]
fn closed_cobordism_is_normalized() {
    let c = Cobordism::new(vec![], vec![], 0, 0, 0);
    assert_eq!(amplitude_rule(&c), AmplitudeRule::Normalized);
}

#[test]
fn square_cobordism_uses_the_trace() {
    let c = Cobordism::identity(vec![make_boundary(2)]);
    assert_eq!(amplitude_rule(&c), AmplitudeRule::Trace);
}

#[test]
fn zero_dimensional_boundaries_use_the_trace() {
    let c = Cobordism::identity(vec![make_boundary(0)]);
    assert_eq!(amplitude_rule(&c), AmplitudeRule::Trace);
}

#[test]
fn unequal_dimensions_vanish() {
    let c = Cobordism::new(vec![make_boundary(2)], vec![make_boundary(3)], 0, 3, 2);
    assert_eq!(amplitude_rule(&c), AmplitudeRule::Vanishing);
}
