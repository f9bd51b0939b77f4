use lau_quantum_topology_agents::tqft::{assigned_dimension, TQFTAxiomReport};

fn report(flags: [bool; 6]) -> TQFTAxiomReport {
    TQFTAxiomReport {
        algebra_valid: flags[0],
        functoriality: flags[1],
        monoidality: flags[2],
        algebra_commutative: flags[3],
        algebra_associative: flags[4],
        frobenius_condition: flags[5],
    }
}

#[test]
fn all_pass_when_every_axiom_holds() {
    assert!(report([true; 6]).all_pass());
}

#[test]
fn any_failed_axiom_fails_the_report() {
    for k in 0..6 {
        let mut flags = [true; 6];
        flags[k] = false;
        assert!(!report(flags).all_pass());
    }
}

#[test]
fn assigned_dimension_is_the_product() {
    assert_eq!(assigned_dimension(3, 2), 6);
    assert_eq!(assigned_dimension(2, 2), 4);
    assert_eq!(assigned_dimension(0, 5), 0);
}

