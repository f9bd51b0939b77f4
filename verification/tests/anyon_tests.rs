use lau_quantum_topology_agents::anyon::{braid_coefficient_index, AnyonSystem, AnyonType};

#[test]
fn test_vacuum_type() {
    let v = AnyonType::vacuum();
    assert_eq!(v.label, "1");
    assert_eq!(v.quantum_dimension, 1);
}

#[test]
fn test_sigma_type() {
    let s = AnyonType::sigma();
    assert_eq!(s.quantum_dimension, 2);
}

#[test]
fn test_ising_creation() {
    let sys = AnyonSystem::ising();
    assert_eq!(sys.num_types(), 3);
}

#[test]
fn test_fibonacci_creation() {
    let sys = AnyonSystem::fibonacci();
    assert_eq!(sys.num_types(), 2);
}

#[test]
fn test_ising_fusion_ss() {
    let sys = AnyonSystem::ising();
    let channels = sys.fuse("σ", "σ");
    assert_eq!(channels.len(), 2);
    assert!(channels.contains(&"1".to_string()));
    assert!(channels.contains(&"ψ".to_string()));
}

#[test]
fn test_ising_fusion_psi_psi() {
    let sys = AnyonSystem::ising();
    let channels = sys.fuse("ψ", "ψ");
    assert_eq!(channels, vec!["1".to_string()]);
}

#[test]
fn test_ising_fusion_sigma_psi() {
    let sys = AnyonSystem::ising();
    let channels = sys.fuse("σ", "ψ");
    assert_eq!(channels, vec!["σ".to_string()]);
}

#[test]
fn test_fibonacci_fusion() {
    let sys = AnyonSystem::fibonacci();
    let channels = sys.fuse("τ", "τ");
    assert_eq!(channels.len(), 2);
}

#[test]
fn test_get_type() {
    let sys = AnyonSystem::ising();
    assert!(sys.get_type("σ").is_some());
    assert!(sys.get_type("missing").is_none());
}

#[test]
fn anyon_test_display() {
    let sys = AnyonSystem::ising();
    assert!(sys.to_string().contains("3 types"));
}

#[test]
fn anyon_display_text_is_exact() {
    assert_eq!(AnyonSystem::ising().to_string(), "AnyonSystem(3 types)");
    assert_eq!(AnyonSystem::fibonacci().to_string(), "AnyonSystem(2 types)");
}

#[test]
fn new_type_keeps_label_and_dimension() {
    let t = AnyonType::new("ψ", 1);
    assert_eq!(t.label, "ψ");
    assert_eq!(t.quantum_dimension, 1);
}

#[test]
fn ising_types_in_order() {
    let sys = AnyonSystem::ising();
    let labels: Vec<&str> = sys.anyon_types.iter().map(|t| t.label.as_str()).collect();
    assert_eq!(labels, vec!["1", "ψ", "σ"]);
    let dims: Vec<usize> = sys.anyon_types.iter().map(|t| t.quantum_dimension).collect();
    assert_eq!(dims, vec![1, 1, 2]);
    assert_eq!(sys.fusion_rules.len(), 9);
}

#[test]
fn sigma_sigma_channels_in_rule_order() {
    let sys = AnyonSystem::ising();
    assert_eq!(sys.fuse("σ", "σ"), vec!["1".to_string(), "ψ".to_string()]);
}

#[test]
fn fibonacci_tau_tau_channels() {
    let sys = AnyonSystem::fibonacci();
    assert_eq!(sys.fuse("τ", "τ"), vec!["1".to_string(), "τ".to_string()]);
    assert_eq!(sys.fuse("1", "τ"), vec!["τ".to_string()]);
}

#[test]
fn fibonacci_has_no_rule_for_tau_then_vacuum() {
    let sys = AnyonSystem::fibonacci();
    assert!(sys.fuse("τ", "1").is_empty());
}

#[test]
fn unknown_labels_have_no_channels() {
    let sys = AnyonSystem::ising();
    assert!(sys.fuse("σ", "missing").is_empty());
    assert!(sys.fuse("", "").is_empty());
}

#[test]
fn ising_fusion_is_commutative_on_every_pair() {
    let sys = AnyonSystem::ising();
    for a in ["1", "ψ", "σ"] {
        for b in ["1", "ψ", "σ"] {
            assert_eq!(sys.fuse(a, b), sys.fuse(b, a));
        }
    }
}

#[test]
fn ising_vacuum_is_unit() {
    let sys = AnyonSystem::ising();
    for x in ["1", "ψ", "σ"] {
        assert_eq!(sys.fuse("1", x), vec![x.to_string()]);
        assert_eq!(sys.fuse(x, "1"), vec![x.to_string()]);
    }
}

#[test]
fn fusion_outputs_are_types_of_the_model() {
    for sys in [AnyonSystem::ising(), AnyonSystem::fibonacci()] {
        for rule in &sys.fusion_rules {
            assert!(sys.get_type(&rule.input_a).is_some());
            assert!(sys.get_type(&rule.input_b).is_some());
            for out in &rule.outputs {
                assert!(sys.get_type(out).is_some());
            }
        }
    }
}

#[test]
fn get_type_returns_first_match() {
    let mut sys = AnyonSystem::ising();
    sys.anyon_types.push(AnyonType::new("σ", 7));
    assert_eq!(sys.get_type("σ").unwrap().quantum_dimension, 2);
    assert_eq!(sys.get_type("ψ").unwrap().quantum_dimension, 1);
}

#[test]
fn braid_index_inside_and_outside_the_state() {
    assert_eq!(braid_coefficient_index(3, 0, 1, 3, 3), Some((0, 1)));
    assert_eq!(braid_coefficient_index(3, 10, 11, 3, 3), None);
    assert_eq!(braid_coefficient_index(3, 2, 3, 3, 3), None);
}

#[test]
fn braid_index_clamps_to_the_table() {
    assert_eq!(braid_coefficient_index(5, 4, 3, 3, 2), Some((2, 1)));
    assert_eq!(braid_coefficient_index(5, 0, 0, 1, 1), Some((0, 0)));
}
