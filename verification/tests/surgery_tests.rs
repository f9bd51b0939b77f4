use lau_quantum_topology_agents::cobordism::{BoundaryComponent, Cobordism, Orientation};
use lau_quantum_topology_agents::surgery::cut;

fn make_boundary(dim: usize) -> BoundaryComponent {
    BoundaryComponent { label: "b".into(), dimension: dim, orientation: Orientation::Ingoing }
}

#[test]
fn test_cut_cobordism() {
    let c = Cobordism::identity(vec![make_boundary(4)]);
    let (c1, _c2) = cut(&c, 2);
    // The first piece takes the first 2 columns
    assert_eq!(c1.input_dimension(), 2);
    assert_eq!(c1.output_dimension(), 4);
}

#[test]
fn cut_pieces_share_outputs_and_split_inputs() {
    let c = Cobordism::new(
        vec![make_boundary(3), make_boundary(2)],
        vec![BoundaryComponent { label: "o".into(), dimension: 6, orientation: Orientation::Outgoing }],
        2,
        6,
        5,
    );
    let (c1, c2) = cut(&c, 4);
    assert_eq!(c1.input_dimension(), 4);
    assert_eq!(c2.input_dimension(), 1);
    assert_eq!(c1.output_dimension(), 6);
    assert_eq!(c2.output_dimension(), 6);
    assert_eq!(c1.genus, 2);
    assert_eq!(c2.genus, 2);
    assert_eq!(c1.incoming[0].label, "cut_in1");
    assert_eq!(c2.incoming[0].label, "cut_in2");
    assert_eq!(c1.outgoing[0].label, "cut_out1");
    assert_eq!(c2.outgoing[0].label, "cut_out2");
    assert_eq!(c1.incoming[0].orientation, Orientation::Ingoing);
    assert_eq!(c1.outgoing[0].orientation, Orientation::Outgoing);
}

#[test]
fn cut_beyond_inputs_leaves_second_piece_without_inputs() {
    let c = Cobordism::identity(vec![make_boundary(3)]);
    let (c1, c2) = cut(&c, 10);
    assert_eq!(c1.input_dimension(), 3);
    assert!(c2.incoming.is_empty());
    assert_eq!(c2.input_dimension(), 0);
    assert_eq!(c2.outgoing.len(), 1);
}

#[test]
fn cut_at_zero_leaves_first_piece_without_inputs() {
    let c = Cobordism::identity(vec![make_boundary(3)]);
    let (c1, c2) = cut(&c, 0);
    assert!(c1.incoming.is_empty());
    assert_eq!(c2.input_dimension(), 3);
}

#[test]
fn test_glue_cobordisms() {
    let id1 = Cobordism::identity(vec![make_boundary(2)]);
    let id2 = Cobordism::identity(vec![make_boundary(2)]);
    // A connected sum is the disjoint union of the two pieces.
    let result = id1.tensor(&id2);
    assert_eq!(result.input_dimension(), 4);
}

#[test]
fn test_connected_sum() {
    let c1 = Cobordism::identity(vec![make_boundary(2)]);
    let c2 = Cobordism::identity(vec![make_boundary(3)]);
    let sum = c1.tensor(&c2);
    assert_eq!(sum.input_dimension(), 5);
}
