//! Braid words — the interaction patterns whose closures are knots.
//!
//! A braid word on `strands` strands is a sequence of generators σ_i and
//! their inverses σ_i⁻¹. Its writhe (the signed crossing count) is the
//! exponent of the framing correction in the Jones polynomial.
use vstd::prelude::*;

verus! {

/// A crossing in a knot diagram.
#[derive(Clone, Copy, Debug, PartialEq, Eq, Structural)]
pub enum Crossing {
    /// Positive crossing (overcrossing)
    Positive,
    /// Negative crossing (undercrossing)
    Negative,
}

/// A braid word (sequence of generators and their inverses).
#[derive(Clone, Debug)]
pub struct BraidWord {
    /// Number of strands
    pub strands: usize,
    /// Generators: `(i, true)` is σ_i, `(i, false)` is σ_i⁻¹
    pub generators: Vec<(usize, bool)>,
}

/// The sign of a generator: +1 for σ_i, -1 for σ_i⁻¹.
pub open spec fn crossing_sign(generator: (usize, bool)) -> int {
    if generator.1 {
        1
    } else {
        -1
    }
}

/// The writhe of a generator sequence: the sum of the crossing signs.
pub open spec fn writhe_of(gens: Seq<(usize, bool)>) -> int
    decreases gens.len(),
{
    if gens.len() == 0 {
        0
    } else {
        writhe_of(gens.drop_last()) + crossing_sign(gens.last())
    }
}

/// The writhe of a concatenation is the sum of the writhes.
pub proof fn law_writhe_additive(a: Seq<(usize, bool)>, b: Seq<(usize, bool)>)
    ensures
        writhe_of(a + b) == writhe_of(a) + writhe_of(b),
    decreases b.len(),
{
    if b.len() == 0 {
        assert(a + b =~= a);
    } else {
        law_writhe_additive(a, b.drop_last());
        assert((a + b).drop_last() =~= a + b.drop_last());
    }
}

/// The writhe is bounded by the number of crossings.
pub proof fn law_writhe_bounded(gens: Seq<(usize, bool)>)
    ensures
        -(gens.len() as int) <= writhe_of(gens) <= gens.len(),
    decreases gens.len(),
{
    if gens.len() > 0 {
        law_writhe_bounded(gens.drop_last());
    }
}

/// Every running sum of crossing signs, from the first generator on, fits in
/// an `i32`.
pub open spec fn prefix_writhes_fit_i32(gens: Seq<(usize, bool)>) -> bool {
    forall|k: int| 0 <= k <= gens.len() ==> i32::MIN <= #[trigger] writhe_of(gens.take(k)) <= i32::MAX
}

/// Braids with at most `i32::MAX` crossings have every running writhe in range.
pub proof fn lemma_short_braids_fit_i32(gens: Seq<(usize, bool)>)
    requires
        gens.len() <= i32::MAX,
    ensures
        prefix_writhes_fit_i32(gens),
{
    assert forall|k: int| 0 <= k <= gens.len() implies i32::MIN <= #[trigger] writhe_of(gens.take(k))
        <= i32::MAX by {
        law_writhe_bounded(gens.take(k));
    }
}

/// Every positive generator adds one to the writhe and every inverse
/// generator subtracts one, whichever strands it crosses.
pub proof fn law_generator_changes_writhe_by_its_sign(gens: Seq<(usize, bool)>, i: usize)
    ensures
        writhe_of(gens.push((i, true))) == writhe_of(gens) + 1,
        writhe_of(gens.push((i, false))) == writhe_of(gens) - 1,
{
    assert(gens.push((i, true)).drop_last() =~= gens);
    assert(gens.push((i, false)).drop_last() =~= gens);
}

/// The writhe counts crossings: the number of positive generators minus the
/// number of inverse generators.
pub proof fn law_writhe_counts_signs(gens: Seq<(usize, bool)>)
    ensures
        writhe_of(gens) == gens.filter(|g: (usize, bool)| g.1).len() as int - gens.filter(
            |g: (usize, bool)| !g.1,
        ).len() as int,
    decreases gens.len(),
{
    reveal(Seq::filter);
    if gens.len() > 0 {
        law_writhe_counts_signs(gens.drop_last());
    }
}

/// A generator followed by its inverse leaves the writhe unchanged.
pub proof fn law_inverse_pair_cancels_writhe(gens: Seq<(usize, bool)>, i: usize)
    ensures
        writhe_of(gens.push((i, true)).push((i, false))) == writhe_of(gens),
        writhe_of(gens.push((i, false)).push((i, true))) == writhe_of(gens),
{
    reveal_with_fuel(writhe_of, 3);
    assert(gens.push((i, true)).push((i, false)).drop_last() =~= gens.push((i, true)));
    assert(gens.push((i, true)).drop_last() =~= gens);
    assert(gens.push((i, false)).push((i, true)).drop_last() =~= gens.push((i, false)));
    assert(gens.push((i, false)).drop_last() =~= gens);
}

impl BraidWord {
    /// Create a new, empty braid word on `strands` strands.
    pub fn new(strands: usize) -> (braid: Self)
        ensures
            braid.strands == strands,
            braid.generators@ == Seq::<(usize, bool)>::empty(),
    {
        BraidWord { strands, generators: Vec::new() }
    }

    /// Append a positive generator σ_i.
    pub fn sigma(&mut self, i: usize)
        requires
            i < old(self).strands,
        ensures
            final(self).strands == old(self).strands,
            final(self).generators@ == old(self).generators@.push((i, true)),
    {
        self.generators.push((i, true));
    }

    /// Append a negative generator σ_i⁻¹.
    pub fn sigma_inv(&mut self, i: usize)
        requires
            i < old(self).strands,
        ensures
            final(self).strands == old(self).strands,
            final(self).generators@ == old(self).generators@.push((i, false)),
    {
        self.generators.push((i, false));
    }

    /// Number of crossings.
    pub fn len(&self) -> (n: usize)
        ensures
            n == self.generators@.len(),
    {
        self.generators.len()
    }

    /// Whether the braid is trivial (empty).
    pub fn is_empty(&self) -> (empty: bool)
        ensures
            empty == (self.generators@.len() == 0),
    {
        self.generators.len() == 0
    }
}

/// The writhe of a braid: the number of positive crossings minus the number
/// of negative crossings.
pub fn writhe(braid: &BraidWord) -> (w: i32)
    requires
        prefix_writhes_fit_i32(braid.generators@),
    ensures
        w == writhe_of(braid.generators@),
{
    let mut w: i32 = 0;
    let mut k: usize = 0;
    while k < braid.generators.len()
        invariant
            k <= braid.generators.len(),
            prefix_writhes_fit_i32(braid.generators@),
            w == writhe_of(braid.generators@.take(k as int)),
        decreases braid.generators.len() - k,
    {
        proof {
            assert(braid.generators@.take(k + 1).drop_last() =~= braid.generators@.take(k as int));
            assert(i32::MIN <= writhe_of(braid.generators@.take(k + 1)) <= i32::MAX);
        }
        let (_, positive) = braid.generators[k];
        if positive {
            w = w + 1;
        } else {
            w = w - 1;
        }
        k = k + 1;
    }
    assert(braid.generators@.take(k as int) =~= braid.generators@);
    w
}

} // verus!
