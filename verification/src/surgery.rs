//! Surgery — cutting agent interactions apart.
//!
//! Cutting a cobordism splits its input space in two: the first piece keeps
//! the first `cut` input dimensions (the leading columns of the linear map),
//! the second piece keeps the rest. Both pieces keep every output dimension
//! and the genus of the original.
use vstd::prelude::*;

use crate::cobordism::{total_dimension, BoundaryComponent, Cobordism, Orientation};

verus! {

/// The boundary components `bs` consist of exactly one component with the
/// given label, dimension and orientation.
pub open spec fn is_single_boundary(
    bs: Seq<BoundaryComponent>,
    label: Seq<char>,
    dimension: nat,
    orientation: Orientation,
) -> bool {
    &&& bs.len() == 1
    &&& bs[0].label@ == label
    &&& bs[0].dimension == dimension
    &&& bs[0].orientation == orientation
}

/// The inputs of a cut piece: one ingoing component of the piece's width,
/// or none when the piece has no input dimensions.
pub open spec fn cut_inputs(bs: Seq<BoundaryComponent>, label: Seq<char>, width: nat) -> bool {
    if width > 0 {
        is_single_boundary(bs, label, width, Orientation::Ingoing)
    } else {
        bs.len() == 0
    }
}

/// The number of input dimensions that the first piece of a cut keeps.
pub open spec fn cut_width(input_dimension: nat, cut: nat) -> nat {
    if cut <= input_dimension {
        cut
    } else {
        input_dimension
    }
}

/// The first piece of a cut keeps `min(cut, n)` of the `n` input dimensions
/// and the second piece the remaining `n - min(cut, n)`.
pub proof fn law_cut_widths(n: nat, cut: nat, first: Seq<BoundaryComponent>, second: Seq<BoundaryComponent>)
    requires
        cut_inputs(first, "cut_in1"@, cut_width(n, cut)),
        cut_inputs(second, "cut_in2"@, (n - cut_width(n, cut)) as nat),
    ensures
        cut <= n ==> total_dimension(first) == cut && total_dimension(second) == n - cut,
        cut > n ==> total_dimension(first) == n && total_dimension(second) == 0,
{
    reveal_with_fuel(total_dimension, 2);
}

fn boundary(label: &str, dimension: usize, orientation: Orientation) -> (b: BoundaryComponent)
    ensures
        b.label@ == label@,
        b.dimension == dimension,
        b.orientation == orientation,
{
    BoundaryComponent { label: label.to_owned(), dimension, orientation }
}

/// Cut a cobordism along a submanifold after its first `cut_dim` input
/// dimensions. Returns the two pieces.
pub fn cut(cobordism: &Cobordism, cut_dim: usize) -> (pieces: (Cobordism, Cobordism))
    requires
        cobordism@.wf(),
    ensures
        ({
            let n = cobordism@.input_dimension();
            let m = cobordism@.output_dimension();
            let left = cut_width(n, cut_dim as nat);
            &&& cut_inputs(pieces.0@.incoming, "cut_in1"@, left)
            &&& is_single_boundary(pieces.0@.outgoing, "cut_out1"@, m, Orientation::Outgoing)
            &&& pieces.0@.genus == cobordism@.genus
            &&& cut_inputs(pieces.1@.incoming, "cut_in2"@, (n - left) as nat)
            &&& is_single_boundary(pieces.1@.outgoing, "cut_out2"@, m, Orientation::Outgoing)
            &&& pieces.1@.genus == cobordism@.genus
        }),
        pieces.0@.input_dimension() + pieces.1@.input_dimension() == cobordism@.input_dimension(),
        pieces.0@.input_dimension() == if (cut_dim as nat) <= cobordism@.input_dimension() {
            cut_dim as nat
        } else {
            cobordism@.input_dimension()
        },
        pieces.0@.output_dimension() == cobordism@.output_dimension(),
        pieces.1@.output_dimension() == cobordism@.output_dimension(),
        pieces.0@.wf(),
        pieces.1@.wf(),
{
    let n = cobordism.input_dimension();
    let m = cobordism.output_dimension();
    let left = if cut_dim < n {
        cut_dim
    } else {
        n
    };
    let right = n - left;
    let mut in1: Vec<BoundaryComponent> = Vec::new();
    if left > 0 {
        in1.push(boundary("cut_in1", left, Orientation::Ingoing));
    }
    let mut out1: Vec<BoundaryComponent> = Vec::new();
    out1.push(boundary("cut_out1", m, Orientation::Outgoing));
    let mut in2: Vec<BoundaryComponent> = Vec::new();
    if right > 0 {
        in2.push(boundary("cut_in2", right, Orientation::Ingoing));
    }
    let mut out2: Vec<BoundaryComponent> = Vec::new();
    out2.push(boundary("cut_out2", m, Orientation::Outgoing));
    proof {
        reveal_with_fuel(total_dimension, 2);
    }
    let c1 = Cobordism::new(in1, out1, cobordism.genus, m, left);
    let c2 = Cobordism::new(in2, out2, cobordism.genus, m, right);
    (c1, c2)
}

} // verus!
