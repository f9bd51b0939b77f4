//! Cobordisms — manifolds connecting agent boundaries.
//!
//! A cobordism M from Σ_in to Σ_out is a manifold whose boundary is
//! ∂M = Σ_in ⊔ Σ_out. This module holds its topological data: the incoming
//! and outgoing boundary components and the genus. The numeric linear map
//! that a TQFT assigns to M is an `(output dimension) × (input dimension)`
//! matrix; its shape is fixed by the boundary data kept here.
use vstd::prelude::*;
use vstd::string::*;

use crate::text::{decimal, decimal_string};

verus! {

/// Orientation of a boundary component.
#[derive(Clone, Copy, Debug, PartialEq, Eq, Structural)]
pub enum Orientation {
    Ingoing,
    Outgoing,
}

/// A boundary component (agent interface channel).
#[derive(Clone, Debug)]
pub struct BoundaryComponent {
    /// Label for this boundary
    pub label: String,
    /// Dimension of the vector space assigned to this boundary
    pub dimension: usize,
    /// Orientation
    pub orientation: Orientation,
}

/// Sum of the dimensions of a sequence of boundary components.
pub open spec fn total_dimension(bs: Seq<BoundaryComponent>) -> nat
    decreases bs.len(),
{
    if bs.len() == 0 {
        0
    } else {
        total_dimension(bs.drop_last()) + bs.last().dimension as nat
    }
}

/// The dimension sum of a prefix never exceeds the sum of the whole sequence.
pub proof fn lemma_total_dimension_prefix(bs: Seq<BoundaryComponent>, i: int)
    requires
        0 <= i <= bs.len(),
    ensures
        total_dimension(bs.take(i)) <= total_dimension(bs),
    decreases bs.len() - i,
{
    if i < bs.len() {
        lemma_total_dimension_prefix(bs, i + 1);
        assert(bs.take(i + 1).drop_last() =~= bs.take(i));
    } else {
        assert(bs.take(i) =~= bs);
    }
}

/// The dimension sum of a concatenation is the sum of the dimension sums.
pub proof fn lemma_total_dimension_concat(a: Seq<BoundaryComponent>, b: Seq<BoundaryComponent>)
    ensures
        total_dimension(a + b) == total_dimension(a) + total_dimension(b),
    decreases b.len(),
{
    if b.len() == 0 {
        assert(a + b =~= a);
    } else {
        lemma_total_dimension_concat(a, b.drop_last());
        assert((a + b).drop_last() =~= a + b.drop_last());
    }
}

/// The text of the error reported when two boundary sequences differ in length.
pub open spec fn count_mismatch_message() -> Seq<char> {
    "Boundary mismatch: output count != input count"@
}

/// The text of the error reported when two paired boundaries differ in dimension.
pub open spec fn dimension_mismatch_message(output_dimension: nat, input_dimension: nat) -> Seq<
    char,
> {
    "Dimension mismatch: "@ + decimal(output_dimension) + " != "@ + decimal(input_dimension)
}

/// The dimension-mismatch error text.
fn dimension_mismatch_text(output_dimension: usize, input_dimension: usize) -> (text: String)
    ensures
        text@ == dimension_mismatch_message(output_dimension as nat, input_dimension as nat),
{
    let mut text = "Dimension mismatch: ".to_owned();
    text.append(decimal_string(output_dimension).as_str());
    text.append(" != ");
    text.append(decimal_string(input_dimension).as_str());
    text
}

/// Every intermediate value of `2 - 2 * g - b` fits in an `i32`.
pub open spec fn euler_terms_in_range(g: i32, b: i32) -> bool {
    &&& i32::MIN <= 2 * g <= i32::MAX
    &&& i32::MIN <= 2 - 2 * g <= i32::MAX
    &&& i32::MIN <= 2 - 2 * g - b <= i32::MAX
}

/// The topological data of a cobordism, as a mathematical value.
pub struct CobordismModel {
    pub incoming: Seq<BoundaryComponent>,
    pub outgoing: Seq<BoundaryComponent>,
    pub genus: nat,
}

impl CobordismModel {
    pub open spec fn input_dimension(self) -> nat {
        total_dimension(self.incoming)
    }

    pub open spec fn output_dimension(self) -> nat {
        total_dimension(self.outgoing)
    }

    /// Both dimension sums fit in a machine word.
    pub open spec fn wf(self) -> bool {
        &&& self.input_dimension() <= usize::MAX
        &&& self.output_dimension() <= usize::MAX
    }

    /// χ = 2 - 2g - b where b counts all boundary components.
    pub open spec fn euler_characteristic(self) -> int {
        2 - 2 * self.genus - (self.incoming.len() + self.outgoing.len())
    }

    pub open spec fn is_closed(self) -> bool {
        self.incoming.len() == 0 && self.outgoing.len() == 0
    }

    /// `self` can be followed by `other`: the outputs of `self` pair one to one,
    /// dimension for dimension, with the inputs of `other`.
    pub open spec fn composable(self, other: CobordismModel) -> bool {
        &&& self.outgoing.len() == other.incoming.len()
        &&& forall|i: int|
            0 <= i < self.outgoing.len() ==> #[trigger] self.outgoing[i].dimension
                == other.incoming[i].dimension
    }

    /// `other ∘ self`: the inputs of `self`, the outputs of `other`, genera added.
    pub open spec fn compose(self, other: CobordismModel) -> CobordismModel {
        CobordismModel {
            incoming: self.incoming,
            outgoing: other.outgoing,
            genus: self.genus + other.genus,
        }
    }

    /// The disjoint union `self ⊔ other`.
    pub open spec fn tensor(self, other: CobordismModel) -> CobordismModel {
        CobordismModel {
            incoming: self.incoming + other.incoming,
            outgoing: self.outgoing + other.outgoing,
            genus: self.genus + other.genus,
        }
    }
}

/// The cylinder Σ × [0,1] over the boundary components `bs`.
pub open spec fn identity_model(bs: Seq<BoundaryComponent>) -> CobordismModel {
    CobordismModel { incoming: bs, outgoing: bs, genus: 0 }
}

/// Gluing along a cylinder changes nothing: `M ∘ id = M`.
pub proof fn law_identity_left_unit(c: CobordismModel)
    ensures
        identity_model(c.incoming).composable(c),
        identity_model(c.incoming).compose(c) == c,
{
}

/// Gluing a cylinder after a cobordism changes nothing: `id ∘ M = M`.
pub proof fn law_identity_right_unit(c: CobordismModel)
    ensures
        c.composable(identity_model(c.outgoing)),
        c.compose(identity_model(c.outgoing)) == c,
{
}

/// Composition is associative: `(c ∘ b) ∘ a = c ∘ (b ∘ a)`.
pub proof fn law_compose_associative(a: CobordismModel, b: CobordismModel, c: CobordismModel)
    requires
        a.composable(b),
        b.composable(c),
    ensures
        a.compose(b).composable(c),
        a.composable(b.compose(c)),
        a.compose(b).compose(c) == a.compose(b.compose(c)),
{
}

/// The boundary sums of two sequences that pair up dimension for dimension
/// are equal.
proof fn lemma_paired_total_dimension(xs: Seq<BoundaryComponent>, ys: Seq<BoundaryComponent>)
    requires
        xs.len() == ys.len(),
        forall|i: int| 0 <= i < xs.len() ==> #[trigger] xs[i].dimension == ys[i].dimension,
    ensures
        total_dimension(xs) == total_dimension(ys),
    decreases xs.len(),
{
    if xs.len() > 0 {
        lemma_paired_total_dimension(xs.drop_last(), ys.drop_last());
    }
}

/// When `b` can follow `a`, the output space of `a` has the dimension of the
/// input space of `b`, so the linear map of `b` can be applied after that of
/// `a`; the composite runs from the inputs of `a` to the outputs of `b`.
pub proof fn law_compose_dimensions(a: CobordismModel, b: CobordismModel)
    requires
        a.composable(b),
    ensures
        a.output_dimension() == b.input_dimension(),
        a.compose(b).input_dimension() == a.input_dimension(),
        a.compose(b).output_dimension() == b.output_dimension(),
        a.compose(b).genus == a.genus + b.genus,
{
    lemma_paired_total_dimension(a.outgoing, b.incoming);
}

/// Disjoint union is associative.
pub proof fn law_tensor_associative(a: CobordismModel, b: CobordismModel, c: CobordismModel)
    ensures
        a.tensor(b).tensor(c) == a.tensor(b.tensor(c)),
{
    assert(a.incoming + b.incoming + c.incoming =~= a.incoming + (b.incoming + c.incoming));
    assert(a.outgoing + b.outgoing + c.outgoing =~= a.outgoing + (b.outgoing + c.outgoing));
}

/// The state spaces of a disjoint union are the direct sums of the state
/// spaces of its parts.
pub proof fn law_tensor_dimensions(a: CobordismModel, b: CobordismModel)
    ensures
        a.tensor(b).input_dimension() == a.input_dimension() + b.input_dimension(),
        a.tensor(b).output_dimension() == a.output_dimension() + b.output_dimension(),
{
    lemma_total_dimension_concat(a.incoming, b.incoming);
    lemma_total_dimension_concat(a.outgoing, b.outgoing);
}

/// The empty cobordism ∅ → ∅ of genus 0.
pub open spec fn empty_model() -> CobordismModel {
    CobordismModel { incoming: Seq::empty(), outgoing: Seq::empty(), genus: 0 }
}

/// The empty cobordism is a unit for disjoint union: `M ⊔ ∅ = ∅ ⊔ M = M`.
pub proof fn law_tensor_unit(c: CobordismModel)
    ensures
        c.tensor(empty_model()) == c,
        empty_model().tensor(c) == c,
{
    assert(c.incoming + Seq::<BoundaryComponent>::empty() =~= c.incoming);
    assert(c.outgoing + Seq::<BoundaryComponent>::empty() =~= c.outgoing);
    assert(Seq::<BoundaryComponent>::empty() + c.incoming =~= c.incoming);
    assert(Seq::<BoundaryComponent>::empty() + c.outgoing =~= c.outgoing);
}

/// The Euler characteristic of a disjoint union: χ(a ⊔ b) = χ(a) + χ(b) − 2.
pub proof fn law_tensor_euler_characteristic(a: CobordismModel, b: CobordismModel)
    ensures
        a.tensor(b).euler_characteristic() == a.euler_characteristic() + b.euler_characteristic()
            - 2,
{
}

/// Interchange: gluing two disjoint unions part by part is the disjoint union
/// of the glued parts, `(c ⊔ d) ∘ (a ⊔ b) = (c ∘ a) ⊔ (d ∘ b)`.
pub proof fn law_interchange(
    a: CobordismModel,
    b: CobordismModel,
    c: CobordismModel,
    d: CobordismModel,
)
    requires
        a.composable(c),
        b.composable(d),
    ensures
        a.tensor(b).composable(c.tensor(d)),
        a.tensor(b).compose(c.tensor(d)) == a.compose(c).tensor(b.compose(d)),
{
    let outs = a.outgoing + b.outgoing;
    let ins = c.incoming + d.incoming;
    assert forall|i: int| 0 <= i < outs.len() implies #[trigger] outs[i].dimension
        == ins[i].dimension by {
        if i < a.outgoing.len() {
            assert(outs[i] == a.outgoing[i]);
            assert(ins[i] == c.incoming[i]);
        } else {
            assert(outs[i] == b.outgoing[i - a.outgoing.len()]);
            assert(ins[i] == d.incoming[i - c.incoming.len()]);
        }
    }
}

/// A cylinder has equal input and output spaces, Euler characteristic
/// 2 − 2·(number of boundary components), and is closed only over no boundary.
pub proof fn law_identity_shape(bs: Seq<BoundaryComponent>)
    ensures
        identity_model(bs).input_dimension() == identity_model(bs).output_dimension(),
        identity_model(bs).euler_characteristic() == 2 - 2 * bs.len(),
        identity_model(bs).is_closed() <==> bs.len() == 0,
{
}

/// Entry `(i, j)` of the block diagonal matrix with blocks `a` (an
/// `ar × ac` matrix) and `b` (a `br × bc` matrix), both stored column by
/// column: `a` in the upper left, `b` in the lower right, `zero` elsewhere.
pub open spec fn block_diagonal_entry<T>(
    a: Seq<T>,
    ar: int,
    ac: int,
    b: Seq<T>,
    br: int,
    bc: int,
    zero: T,
    i: int,
    j: int,
) -> T {
    if i < ar && j < ac {
        a[j * ar + i]
    } else if i >= ar && j >= ac {
        b[(j - ac) * br + (i - ar)]
    } else {
        zero
    }
}

/// Position `k` of the block diagonal matrix `a ⊕ b` stored column by column.
pub open spec fn block_diagonal_at<T>(
    a: Seq<T>,
    ar: int,
    ac: int,
    b: Seq<T>,
    br: int,
    bc: int,
    zero: T,
    k: int,
) -> T {
    block_diagonal_entry(a, ar, ac, b, br, bc, zero, k % (ar + br), k / (ar + br))
}

/// The block diagonal matrix `a ⊕ b`, stored column by column.
pub open spec fn block_diagonal_spec<T>(
    a: Seq<T>,
    ar: int,
    ac: int,
    b: Seq<T>,
    br: int,
    bc: int,
    zero: T,
) -> Seq<T> {
    Seq::new(
        ((ar + br) * (ac + bc)) as nat,
        |k: int| block_diagonal_at(a, ar, ac, b, br, bc, zero, k),
    )
}

/// The linear map of a disjoint union: the block diagonal matrix with the
/// `a_rows × a_cols` map `a` in the upper left and the `b_rows × b_cols`
/// map `b` in the lower right. All three matrices are stored column by
/// column; `zero` fills the off-diagonal blocks.
pub fn block_diagonal<T: Copy>(
    a: &[T],
    a_rows: usize,
    a_cols: usize,
    b: &[T],
    b_rows: usize,
    b_cols: usize,
    zero: T,
) -> (map: Vec<T>)
    requires
        a@.len() == a_rows * a_cols,
        b@.len() == b_rows * b_cols,
        a_rows + b_rows <= usize::MAX,
        a_cols + b_cols <= usize::MAX,
        (a_rows + b_rows) * (a_cols + b_cols) <= usize::MAX,
    ensures
        map@ == block_diagonal_spec(
            a@,
            a_rows as int,
            a_cols as int,
            b@,
            b_rows as int,
            b_cols as int,
            zero,
        ),
{
    let rows = a_rows + b_rows;
    let cols = a_cols + b_cols;
    let a_len = a.len();
    let b_len = b.len();
    let ghost r = rows as int;
    let mut map: Vec<T> = Vec::new();
    let mut j: usize = 0;
    while j < cols
        invariant
            rows == a_rows + b_rows,
            cols == a_cols + b_cols,
            r == rows,
            rows * cols <= usize::MAX,
            a@.len() == a_rows * a_cols,
            b@.len() == b_rows * b_cols,
            a_len == a@.len(),
            b_len == b@.len(),
            j <= cols,
            map@.len() == j * rows,
            forall|k: int|
                0 <= k < map@.len() ==> map@[k] == block_diagonal_at(
                    a@,
                    a_rows as int,
                    a_cols as int,
                    b@,
                    b_rows as int,
                    b_cols as int,
                    zero,
                    k,
                ),
        decreases cols - j,
    {
        let mut i: usize = 0;
        while i < rows
            invariant
                rows == a_rows + b_rows,
                cols == a_cols + b_cols,
                r == rows,
                rows * cols <= usize::MAX,
                a@.len() == a_rows * a_cols,
                b@.len() == b_rows * b_cols,
                a_len == a@.len(),
                b_len == b@.len(),
                j < cols,
                i <= rows,
                map@.len() == j * rows + i,
                forall|k: int|
                0 <= k < map@.len() ==> map@[k] == block_diagonal_at(
                    a@,
                    a_rows as int,
                    a_cols as int,
                    b@,
                    b_rows as int,
                    b_cols as int,
                    zero,
                    k,
                ),
            decreases rows - i,
        {
            proof {
                lemma_column_major_position(j as int, i as int, r);
                assert(j * rows + i < rows * cols) by (nonlinear_arith)
                    requires
                        i < rows,
                        j < cols,
                ;
            }
            let value = if i < a_rows && j < a_cols {
                proof {
                    assert(j * a_rows + i < a_rows * a_cols) by (nonlinear_arith)
                        requires
                            i < a_rows,
                            j < a_cols,
                    ;
                }
                a[j * a_rows + i]
            } else if i >= a_rows && j >= a_cols {
                proof {
                    assert((j - a_cols) * b_rows + (i - a_rows) < b_rows * b_cols) by (nonlinear_arith)
                        requires
                            i - a_rows < b_rows,
                            j - a_cols < b_cols,
                            i >= a_rows,
                            j >= a_cols,
                    ;
                }
                b[(j - a_cols) * b_rows + (i - a_rows)]
            } else {
                zero
            };
            assert(value == block_diagonal_entry(
                a@,
                a_rows as int,
                a_cols as int,
                b@,
                b_rows as int,
                b_cols as int,
                zero,
                i as int,
                j as int,
            ));
            assert(value == block_diagonal_at(
                a@,
                a_rows as int,
                a_cols as int,
                b@,
                b_rows as int,
                b_cols as int,
                zero,
                j * rows + i,
            ));
            let ghost before = map@;
            map.push(value);
            assert forall|k: int| 0 <= k < map@.len() implies map@[k] == block_diagonal_at(
                a@,
                a_rows as int,
                a_cols as int,
                b@,
                b_rows as int,
                b_cols as int,
                zero,
                k,
            ) by {
                if k < before.len() {
                    assert(map@[k] == before[k]);
                }
            }
            i = i + 1;
        }
        proof {
            assert(j * rows + rows == (j + 1) * rows) by (nonlinear_arith);
        }
        j = j + 1;
    }
    proof {
        assert(map@.len() == rows * cols) by (nonlinear_arith)
            requires
                map@.len() == j * rows,
                j == cols,
        ;
    }
    assert(map@ =~= block_diagonal_spec(
        a@,
        a_rows as int,
        a_cols as int,
        b@,
        b_rows as int,
        b_cols as int,
        zero,
    ));
    map
}

/// The block diagonal matrix `a ⊕ b` (all matrices stored column by column)
/// has `(ar + br) × (ac + bc)` entries; entry `(i, j)` of `a` sits at
/// `(i, j)`, entry `(i, j)` of `b` sits at `(ar + i, ac + j)`, and every
/// other entry is `zero`.
pub proof fn law_block_diagonal_places_blocks<T>(
    a: Seq<T>,
    ar: nat,
    ac: nat,
    b: Seq<T>,
    br: nat,
    bc: nat,
    zero: T,
)
    ensures
        block_diagonal_spec(a, ar as int, ac as int, b, br as int, bc as int, zero).len() == (ar
            + br) * (ac + bc),
        forall|i: int, j: int|
            0 <= i < ar && 0 <= j < ac ==> #[trigger] block_diagonal_spec(
                a,
                ar as int,
                ac as int,
                b,
                br as int,
                bc as int,
                zero,
            )[j * (ar + br) + i] == a[j * ar + i],
        forall|i: int, j: int|
            0 <= i < br && 0 <= j < bc ==> #[trigger] block_diagonal_spec(
                a,
                ar as int,
                ac as int,
                b,
                br as int,
                bc as int,
                zero,
            )[(ac + j) * (ar + br) + ar + i] == b[j * br + i],
        forall|i: int, j: int|
            0 <= i < ar + br && 0 <= j < ac + bc && !(i < ar && j < ac) && !(i >= ar && j
                >= ac) ==> #[trigger] block_diagonal_spec(
                a,
                ar as int,
                ac as int,
                b,
                br as int,
                bc as int,
                zero,
            )[j * (ar + br) + i] == zero,
{
    let r = (ar + br) as int;
    let c = (ac + bc) as int;
    let m = block_diagonal_spec(a, ar as int, ac as int, b, br as int, bc as int, zero);
    assert forall|i: int, j: int| 0 <= i < r && 0 <= j < c implies m[j * r + i]
        == block_diagonal_entry(a, ar as int, ac as int, b, br as int, bc as int, zero, i, j) by {
        lemma_column_major_position(j, i, r);
        assert(j * r + i < r * c) by (nonlinear_arith)
            requires
                0 <= i < r,
                0 <= j < c,
        ;
    }
    assert forall|i: int, j: int| 0 <= i < br && 0 <= j < bc implies #[trigger] m[(ac + j) * (ar
        + br) + ar + i] == b[j * br + i] by {
        assert(m[(ac + j) * r + (ar + i)] == block_diagonal_entry(
            a,
            ar as int,
            ac as int,
            b,
            br as int,
            bc as int,
            zero,
            ar + i,
            ac + j,
        ));
        assert((ac + j) * r + ar + i == (ac + j) * r + (ar + i));
    }
    assert forall|i: int, j: int| 0 <= i < ar && 0 <= j < ac implies #[trigger] m[j * (ar + br)
        + i] == a[j * ar + i] by {
        assert(m[j * r + i] == block_diagonal_entry(
            a,
            ar as int,
            ac as int,
            b,
            br as int,
            bc as int,
            zero,
            i,
            j,
        ));
    }
    assert forall|i: int, j: int|
        0 <= i < ar + br && 0 <= j < ac + bc && !(i < ar && j < ac) && !(i >= ar && j >= ac)
        implies #[trigger] m[j * (ar + br) + i] == zero by {
        assert(m[j * r + i] == block_diagonal_entry(
            a,
            ar as int,
            ac as int,
            b,
            br as int,
            bc as int,
            zero,
            i,
            j,
        ));
    }
}

/// In column-major order with `r` rows, position `j * r + i` holds entry
/// `(i, j)`.
proof fn lemma_column_major_position(j: int, i: int, r: int)
    requires
        0 <= j,
        0 <= i < r,
    ensures
        (j * r + i) / r == j,
        (j * r + i) % r == i,
{
    vstd::arithmetic::div_mod::lemma_fundamental_div_mod_converse(j * r + i, r, j, i);
}

/// The topological data of a cobordism connecting boundaries.
#[derive(Clone, Debug)]
pub struct Cobordism {
    /// Input boundary components
    pub incoming: Vec<BoundaryComponent>,
    /// Output boundary components
    pub outgoing: Vec<BoundaryComponent>,
    /// Genus of the cobordism (number of handles)
    pub genus: usize,
}

impl View for Cobordism {
    type V = CobordismModel;

    open spec fn view(&self) -> CobordismModel {
        CobordismModel {
            incoming: self.incoming@,
            outgoing: self.outgoing@,
            genus: self.genus as nat,
        }
    }
}

impl BoundaryComponent {
    /// A component equal to `self`.
    fn duplicate(&self) -> (copy: Self)
        ensures
            copy == *self,
    {
        BoundaryComponent {
            label: self.label.clone(),
            dimension: self.dimension,
            orientation: self.orientation,
        }
    }
}

/// A vector holding the same boundary components as `bs`.
pub(crate) fn copy_boundaries(bs: &Vec<BoundaryComponent>) -> (copy: Vec<BoundaryComponent>)
    ensures
        copy@ == bs@,
{
    let mut copy: Vec<BoundaryComponent> = Vec::new();
    let mut i: usize = 0;
    while i < bs.len()
        invariant
            i <= bs.len(),
            copy@ == bs@.take(i as int),
        decreases bs.len() - i,
    {
        copy.push(bs[i].duplicate());
        i = i + 1;
        assert(copy@ =~= bs@.take(i as int));
    }
    assert(bs@.take(i as int) =~= bs@);
    copy
}

/// The sum of the dimensions of `bs`.
pub(crate) fn sum_dimensions(bs: &Vec<BoundaryComponent>) -> (sum: usize)
    requires
        total_dimension(bs@) <= usize::MAX,
    ensures
        sum == total_dimension(bs@),
{
    let mut sum: usize = 0;
    let mut i: usize = 0;
    while i < bs.len()
        invariant
            i <= bs.len(),
            total_dimension(bs@) <= usize::MAX,
            sum == total_dimension(bs@.take(i as int)),
        decreases bs.len() - i,
    {
        proof {
            assert(bs@.take(i + 1).drop_last() =~= bs@.take(i as int));
            lemma_total_dimension_prefix(bs@, i + 1);
        }
        sum = sum + bs[i].dimension;
        i = i + 1;
    }
    assert(bs@.take(i as int) =~= bs@);
    sum
}

/// The description of a cobordism: `Cobordism(genus=<g>, in=<count>, out=<count>)`.
pub open spec fn cobordism_description(genus: nat, incoming: nat, outgoing: nat) -> Seq<char> {
    "Cobordism(genus="@ + decimal(genus) + ", in="@ + decimal(incoming) + ", out="@ + decimal(
        outgoing,
    ) + ")"@
}

impl Cobordism {
    /// A one-line description of the cobordism: its genus and how many
    /// incoming and outgoing boundary components it has.
    pub fn to_string(&self) -> (text: String)
        ensures
            text@ == cobordism_description(
                self.genus as nat,
                self.incoming@.len(),
                self.outgoing@.len(),
            ),
    {
        let mut text = "Cobordism(genus=".to_owned();
        text.append(decimal_string(self.genus).as_str());
        text.append(", in=");
        text.append(decimal_string(self.incoming.len()).as_str());
        text.append(", out=");
        text.append(decimal_string(self.outgoing.len()).as_str());
        text.append(")");
        text
    }

    /// Create a cobordism whose linear map is a `map_rows × map_cols` matrix.
    /// The map must send the inputs to the outputs: it has one row per output
    /// dimension and one column per input dimension.
    pub fn new(
        incoming: Vec<BoundaryComponent>,
        outgoing: Vec<BoundaryComponent>,
        genus: usize,
        map_rows: usize,
        map_cols: usize,
    ) -> (cobordism: Self)
        requires
            map_rows == total_dimension(outgoing@),
            map_cols == total_dimension(incoming@),
        ensures
            cobordism@ == (CobordismModel {
                incoming: incoming@,
                outgoing: outgoing@,
                genus: genus as nat,
            }),
            cobordism@.wf(),
    {
        Cobordism { incoming, outgoing, genus }
    }

    /// Identity cobordism: the cylinder Σ × [0,1].
    pub fn identity(boundaries: Vec<BoundaryComponent>) -> (cobordism: Self)
        requires
            total_dimension(boundaries@) <= usize::MAX,
        ensures
            cobordism@ == identity_model(boundaries@),
            cobordism@.wf(),
    {
        let incoming = copy_boundaries(&boundaries);
        Cobordism { incoming, outgoing: boundaries, genus: 0 }
    }

    /// Compose two cobordisms: `other ∘ self`.
    /// Fails when the outputs of `self` do not pair with the inputs of `other`.
    pub fn compose(&self, other: &Cobordism) -> (composed: Result<Cobordism, String>)
        requires
            self@.composable(other@) ==> self.genus + other.genus <= usize::MAX,
        ensures
            composed is Ok <==> self@.composable(other@),
            composed matches Ok(c) ==> c@ == self@.compose(other@),
            composed matches Err(e) ==> {
                if self.outgoing@.len() != other.incoming@.len() {
                    e@ == count_mismatch_message()
                } else {
                    exists|k: int|
                        0 <= k < self.outgoing@.len() && self.outgoing@[k].dimension
                            != other.incoming@[k].dimension && (forall|j: int|
                            0 <= j < k ==> self.outgoing@[j].dimension
                                == other.incoming@[j].dimension) && e@
                            == dimension_mismatch_message(
                            self.outgoing@[k].dimension as nat,
                            other.incoming@[k].dimension as nat,
                        )
                }
            },
    {
        if self.outgoing.len() != other.incoming.len() {
            return Err("Boundary mismatch: output count != input count".to_owned());
        }
        let mut k: usize = 0;
        while k < self.outgoing.len()
            invariant
                k <= self.outgoing.len(),
                self.outgoing.len() == other.incoming.len(),
                forall|j: int|
                    0 <= j < k ==> self.outgoing@[j].dimension == other.incoming@[j].dimension,
            decreases self.outgoing.len() - k,
        {
            let a = self.outgoing[k].dimension;
            let b = other.incoming[k].dimension;
            if a != b {
                return Err(dimension_mismatch_text(a, b));
            }
            k = k + 1;
        }
        Ok(
            Cobordism {
                incoming: copy_boundaries(&self.incoming),
                outgoing: copy_boundaries(&other.outgoing),
                genus: self.genus + other.genus,
            },
        )
    }

    /// Tensor product: `self ⊔ other` (disjoint union).
    pub fn tensor(&self, other: &Cobordism) -> (union: Cobordism)
        requires
            self@.input_dimension() + other@.input_dimension() <= usize::MAX,
            self@.output_dimension() + other@.output_dimension() <= usize::MAX,
            self.genus + other.genus <= usize::MAX,
        ensures
            union@ == self@.tensor(other@),
            union@.wf(),
    {
        let mut incoming = copy_boundaries(&self.incoming);
        let mut other_incoming = copy_boundaries(&other.incoming);
        incoming.append(&mut other_incoming);
        let mut outgoing = copy_boundaries(&self.outgoing);
        let mut other_outgoing = copy_boundaries(&other.outgoing);
        outgoing.append(&mut other_outgoing);
        proof {
            lemma_total_dimension_concat(self.incoming@, other.incoming@);
            lemma_total_dimension_concat(self.outgoing@, other.outgoing@);
        }
        Cobordism { incoming, outgoing, genus: self.genus + other.genus }
    }

    /// Total input dimension.
    pub fn input_dimension(&self) -> (dim: usize)
        requires
            self@.input_dimension() <= usize::MAX,
        ensures
            dim == self@.input_dimension(),
    {
        sum_dimensions(&self.incoming)
    }

    /// Total output dimension.
    pub fn output_dimension(&self) -> (dim: usize)
        requires
            self@.output_dimension() <= usize::MAX,
        ensures
            dim == self@.output_dimension(),
    {
        sum_dimensions(&self.outgoing)
    }

    /// The Euler characteristic χ = 2 - 2g - b, where b counts all boundary
    /// components, computed in `i32` from the genus and the count cast to `i32`.
    pub fn euler_characteristic(&self) -> (chi: i32)
        requires
            self.incoming@.len() + self.outgoing@.len() <= usize::MAX,
            euler_terms_in_range(
                #[verifier::truncate]
                (self.genus as i32),
                #[verifier::truncate]
                ((self.incoming@.len() + self.outgoing@.len()) as i32),
            ),
        ensures
            chi == 2 - 2 * (#[verifier::truncate] (self.genus as i32)) - (#[verifier::truncate] ((
            self.incoming@.len() + self.outgoing@.len()) as i32)),
            self.genus <= i32::MAX && self.incoming@.len() + self.outgoing@.len() <= i32::MAX
                ==> chi == self@.euler_characteristic(),
    {
        let b = self.incoming.len() + self.outgoing.len();
        #[verifier::truncate]
        let g = self.genus as i32;
        #[verifier::truncate]
        let bb = b as i32;
        2 - 2 * g - bb
    }

    /// Whether this is a closed cobordism (no boundaries).
    pub fn is_closed(&self) -> (closed: bool)
        ensures
            closed == self@.is_closed(),
    {
        self.incoming.len() == 0 && self.outgoing.len() == 0
    }
}

} // verus!
