use lau_quantum_topology_agents::anyon::AnyonSystem;
use lau_quantum_topology_agents::protection::{ProtectionLevel, TopologicalProtection};

fn ising_protection(distance: usize) -> TopologicalProtection {
    TopologicalProtection::new(AnyonSystem::ising(), distance)
}

#[test]
fn test_creation() {
    let tp = ising_protection(3);
    assert_eq!(tp.code_distance, 3);
    assert_eq!(tp.level, ProtectionLevel::Level2);
}

#[test]
fn test_level_none() {
    let tp = ising_protection(0);
    assert_eq!(tp.level, ProtectionLevel::Unprotected);
}

#[test]
fn test_level_1() {
    let tp = ising_protection(1);
    assert_eq!(tp.level, ProtectionLevel::Level1);
}

#[test]
fn test_level_max() {
    let tp = ising_protection(5);
    assert_eq!(tp.level, ProtectionLevel::Maximum);
}

#[test]
fn test_error_capacity() {
    let tp = ising_protection(5);
    assert_eq!(tp.error_capacity(), 2);
}

#[test]
fn test_error_capacity_odd() {
    let tp = ising_protection(3);
    assert_eq!(tp.error_capacity(), 1);
}

#[test]
fn test_fibonacci_protection() {
    let tp = TopologicalProtection::new(AnyonSystem::fibonacci(), 3);
    assert_eq!(tp.error_capacity(), 1);
}

#[test]
fn level_thresholds() {
    let levels: Vec<ProtectionLevel> = (0..8).map(|d| ising_protection(d).level).collect();
    assert_eq!(
        levels,
        vec![
            ProtectionLevel::Unprotected,
            ProtectionLevel::Level1,
            ProtectionLevel::Level1,
            ProtectionLevel::Level2,
            ProtectionLevel::Level2,
            ProtectionLevel::Maximum,
            ProtectionLevel::Maximum,
            ProtectionLevel::Maximum,
        ]
    );
}

#[test]
fn capacity_of_distance_one_is_zero() {
    assert_eq!(ising_protection(1).error_capacity(), 0);
    assert_eq!(ising_protection(4).error_capacity(), 1);
}

#[test]
fn encode_repeats_each_entry() {
    let tp = ising_protection(3);
    let encoded = tp.encode(&[1.0_f64, 0.0]);
    assert_eq!(encoded, vec![1.0, 1.0, 1.0, 0.0, 0.0, 0.0]);
}

#[test]
fn encode_with_distance_zero_keeps_one_copy() {
    let tp = ising_protection(0);
    assert_eq!(tp.copies(), 1);
    assert_eq!(tp.encode(&[4, 5, 6]), vec![4, 5, 6]);
}

#[test]
fn encode_empty_state() {
    let tp = ising_protection(5);
    assert!(tp.encode::<i32>(&[]).is_empty());
}

#[test]
fn blocks_of_an_encoding_are_copies() {
    let tp = ising_protection(2);
    let encoded = tp.encode(&[7, 8, 9]);
    assert_eq!(tp.blocks(&encoded), vec![vec![7, 7], vec![8, 8], vec![9, 9]]);
}

#[test]
fn blocks_drop_a_trailing_partial_block() {
    let tp = ising_protection(3);
    assert_eq!(tp.blocks(&[1, 2, 3, 4, 5]), vec![vec![1, 2, 3]]);
}

#[test]
fn new_keeps_the_anyon_system() {
    let tp = TopologicalProtection::new(AnyonSystem::fibonacci(), 4);
    assert_eq!(tp.anyon_system.num_types(), 2);
    assert_eq!(tp.code_distance, 4);
}
