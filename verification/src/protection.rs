//! Topological protection for agent states.
//!
//! Agent states encoded in topological degrees of freedom are robust to
//! local perturbations. A logical state of n entries is encoded as a
//! repetition code of distance d: n consecutive blocks, block i holding d
//! copies of entry i. The protection level grows with the code distance:
//! d ≥ 1 gives Level1, d ≥ 3 Level2, d ≥ 5 Maximum, and ⌊(d−1)/2⌋ errors
//! can be corrected.
use vstd::arithmetic::div_mod::lemma_fundamental_div_mod_converse;
use vstd::prelude::*;

use crate::anyon::AnyonSystem;

verus! {

/// Topological protection level.
#[derive(Clone, Copy, Debug, PartialEq, Eq, Structural)]
pub enum ProtectionLevel {
    /// No protection (trivial topology)
    Unprotected,
    /// Single-level protection (e.g., anyonic braiding)
    Level1,
    /// Double-level protection (surface codes)
    Level2,
    /// Full topological protection
    Maximum,
}

/// The protection level reached at a given code distance.
pub open spec fn level_for(code_distance: nat) -> ProtectionLevel {
    if code_distance >= 5 {
        ProtectionLevel::Maximum
    } else if code_distance >= 3 {
        ProtectionLevel::Level2
    } else if code_distance >= 1 {
        ProtectionLevel::Level1
    } else {
        ProtectionLevel::Unprotected
    }
}

/// The position of a level in the order None < Level1 < Level2 < Maximum.
pub open spec fn level_rank(level: ProtectionLevel) -> nat {
    match level {
        ProtectionLevel::Unprotected => 0,
        ProtectionLevel::Level1 => 1,
        ProtectionLevel::Level2 => 2,
        ProtectionLevel::Maximum => 3,
    }
}

/// The number of copies each logical entry gets: the code distance, and at
/// least one.
pub open spec fn copies_for(code_distance: nat) -> nat {
    if code_distance >= 1 {
        code_distance
    } else {
        1
    }
}

/// The repetition encoding of `logical` with `d` copies per entry.
pub open spec fn repetition_encoding<T>(logical: Seq<T>, d: nat) -> Seq<T> {
    Seq::new(logical.len() * d, |k: int| logical[k / (d as int)])
}

/// The consecutive blocks of `d` entries of `encoded`; a trailing
/// incomplete block is dropped.
pub open spec fn code_blocks<T>(encoded: Seq<T>, d: nat) -> Seq<Seq<T>> {
    Seq::new(
        encoded.len() / d,
        |i: int| encoded.subrange(i * (d as int), i * (d as int) + (d as int)),
    )
}

/// Each logical entry gets exactly `code_distance` copies (one copy at code
/// distance 0): the encoding has `n * code_distance` entries and positions
/// `i * code_distance .. i * code_distance + code_distance - 1` all hold
/// entry `i`.
pub proof fn law_encoding_repeats_each_entry_distance_times<T>(logical: Seq<T>, code_distance: nat)
    ensures
        code_distance >= 1 ==> copies_for(code_distance) == code_distance,
        code_distance == 0 ==> copies_for(code_distance) == 1,
        code_distance >= 1 ==> repetition_encoding(logical, copies_for(code_distance)).len()
            == logical.len() * code_distance,
        forall|i: int, j: int|
            0 <= i < logical.len() && 0 <= j < code_distance ==> #[trigger] repetition_encoding(
                logical,
                copies_for(code_distance),
            )[i * code_distance + j] == logical[i],
{
    let d = code_distance as int;
    assert forall|i: int, j: int|
        0 <= i < logical.len() && 0 <= j < code_distance implies #[trigger] repetition_encoding(
        logical,
        copies_for(code_distance),
    )[i * code_distance + j] == logical[i] by {
        lemma_block_position(i, j, d);
        assert(i * d + j < logical.len() * d) by (nonlinear_arith)
            requires
                0 <= i < logical.len(),
                0 <= j < d,
        ;
    }
}

/// The protection thresholds: distance 0 is unprotected, distances 1 and 2
/// give Level1, 3 and 4 give Level2, and 5 or more give Maximum.
pub proof fn law_level_thresholds(d: nat)
    ensures
        level_for(d) == ProtectionLevel::Unprotected <==> d == 0,
        level_for(d) == ProtectionLevel::Level1 <==> 1 <= d < 3,
        level_for(d) == ProtectionLevel::Level2 <==> 3 <= d < 5,
        level_for(d) == ProtectionLevel::Maximum <==> d >= 5,
{
}

/// A longer code never protects less: the level only rises with the code
/// distance.
pub proof fn law_level_monotone(d1: nat, d2: nat)
    requires
        d1 <= d2,
    ensures
        level_rank(level_for(d1)) <= level_rank(level_for(d2)),
{
}

/// Reading the blocks of a repetition encoding gives back, for each logical
/// entry, d copies of it.
pub proof fn law_blocks_of_encoding<T>(logical: Seq<T>, d: nat)
    requires
        d >= 1,
    ensures
        code_blocks(repetition_encoding(logical, d), d).len() == logical.len(),
        forall|i: int, j: int|
            0 <= i < logical.len() && 0 <= j < d ==> #[trigger] code_blocks(
                repetition_encoding(logical, d),
                d,
            )[i][j] == logical[i],
{
    let enc = repetition_encoding(logical, d);
    let di = d as int;
    assert(enc.len() == logical.len() * d);
    assert((logical.len() * d) / d == logical.len()) by (nonlinear_arith)
        requires
            d >= 1,
    ;
    assert forall|i: int, j: int| 0 <= i < logical.len() && 0 <= j < d implies #[trigger] code_blocks(
        enc,
        d,
    )[i][j] == logical[i] by {
        lemma_block_position(i, j, di);
        assert(i * di + di <= logical.len() * di) by (nonlinear_arith)
            requires
                i < logical.len(),
                di >= 1,
        ;
        assert(code_blocks(enc, d)[i] == enc.subrange(i * di, i * di + di));
        assert(enc.subrange(i * di, i * di + di)[j] == enc[i * di + j]);
    }
}

/// Topological protection system.
#[derive(Clone, Debug)]
pub struct TopologicalProtection {
    /// Underlying anyon system
    pub anyon_system: AnyonSystem,
    /// Code distance (minimum number of errors to cause failure)
    pub code_distance: usize,
    /// Protection level
    pub level: ProtectionLevel,
}

/// For `0 <= j < d`, the entry at `i * d + j` lies in block `i`.
proof fn lemma_block_position(i: int, j: int, d: int)
    requires
        0 <= i,
        0 <= j < d,
    ensures
        (i * d + j) / d == i,
        (i * d + j) % d == j,
{
    lemma_fundamental_div_mod_converse(i * d + j, d, i, j);
}

impl TopologicalProtection {
    /// Create a new topological protection system.
    pub fn new(anyon_system: AnyonSystem, code_distance: usize) -> (tp: Self)
        ensures
            tp.anyon_system == anyon_system,
            tp.code_distance == code_distance,
            tp.level == level_for(code_distance as nat),
    {
        let level = if code_distance >= 5 {
            ProtectionLevel::Maximum
        } else if code_distance >= 3 {
            ProtectionLevel::Level2
        } else if code_distance >= 1 {
            ProtectionLevel::Level1
        } else {
            ProtectionLevel::Unprotected
        };
        TopologicalProtection { anyon_system, code_distance, level }
    }

    /// The number of copies each logical entry gets in an encoding.
    pub fn copies(&self) -> (d: usize)
        ensures
            d == copies_for(self.code_distance as nat),
            d >= 1,
            self.code_distance >= 1 ==> d == self.code_distance,
    {
        if self.code_distance >= 1 {
            self.code_distance
        } else {
            1
        }
    }

    /// Encode a logical state into the protected subspace: entry i of the
    /// logical state fills positions i·d … i·d + d − 1.
    pub fn encode<T: Copy>(&self, logical_state: &[T]) -> (encoded: Vec<T>)
        requires
            logical_state@.len() * copies_for(self.code_distance as nat) <= usize::MAX,
        ensures
            encoded@ == repetition_encoding(
                logical_state@,
                copies_for(self.code_distance as nat),
            ),
    {
        let d = self.copies();
        let n = logical_state.len();
        let ghost spec_d = d as int;
        let mut encoded: Vec<T> = Vec::new();
        let mut i: usize = 0;
        while i < n
            invariant
                n == logical_state@.len(),
                d == spec_d,
                d >= 1,
                n * d <= usize::MAX,
                i <= n,
                encoded@.len() == i * d,
                forall|k: int| 0 <= k < encoded@.len() ==> encoded@[k] == logical_state@[k / spec_d],
            decreases n - i,
        {
            let x = logical_state[i];
            let mut j: usize = 0;
            while j < d
                invariant
                    n == logical_state@.len(),
                    d == spec_d,
                    d >= 1,
                    i < n,
                    n * d <= usize::MAX,
                    j <= d,
                    x == logical_state@[i as int],
                    encoded@.len() == i * d + j,
                    forall|k: int|
                        0 <= k < encoded@.len() ==> encoded@[k] == logical_state@[k / spec_d],
                decreases d - j,
            {
                proof {
                    lemma_block_position(i as int, j as int, spec_d);
                    assert(i * d + j < n * d) by (nonlinear_arith)
                        requires
                            i < n,
                            j < d,
                    ;
                }
                encoded.push(x);
                j = j + 1;
            }
            proof {
                assert(i * d + d == (i + 1) * d) by (nonlinear_arith);
            }
            i = i + 1;
        }
        assert(encoded@ =~= repetition_encoding(logical_state@, d as nat));
        encoded
    }

    /// Split an encoded state into its blocks of d consecutive entries,
    /// dropping a trailing incomplete block.
    pub fn blocks<T: Copy>(&self, encoded: &[T]) -> (blocks: Vec<Vec<T>>)
        ensures
            blocks@.len() == encoded@.len() / copies_for(self.code_distance as nat),
            forall|i: int|
                0 <= i < blocks@.len() ==> #[trigger] blocks@[i]@ == code_blocks(
                    encoded@,
                    copies_for(self.code_distance as nat),
                )[i],
    {
        let d = self.copies();
        let len = encoded.len();
        let n = len / d;
        let ghost spec_d = d as int;
        let mut blocks: Vec<Vec<T>> = Vec::new();
        let mut i: usize = 0;
        while i < n
            invariant
                n == encoded@.len() as int / spec_d,
                len == encoded@.len(),
                d == spec_d,
                d >= 1,
                i <= n,
                blocks@.len() == i,
                forall|b: int|
                    0 <= b < i ==> #[trigger] blocks@[b]@ == encoded@.subrange(
                        b * spec_d,
                        b * spec_d + spec_d,
                    ),
            decreases n - i,
        {
            proof {
                assert(i * d + d <= encoded@.len()) by (nonlinear_arith)
                    requires
                        i < n,
                        n == len as int / spec_d,
                        len == encoded@.len(),
                        d == spec_d,
                        d >= 1,
                ;
            }
            let start = i * d;
            let mut block: Vec<T> = Vec::new();
            let mut j: usize = 0;
            while j < d
                invariant
                    d == spec_d,
                    start == i * spec_d,
                    start + d <= encoded@.len(),
                    len == encoded@.len(),
                    j <= d,
                    block@ == encoded@.subrange(start as int, start + j),
                decreases d - j,
            {
                block.push(encoded[start + j]);
                j = j + 1;
                assert(block@ =~= encoded@.subrange(start as int, start + j));
            }
            blocks.push(block);
            i = i + 1;
        }
        blocks
    }

    /// Compute the protection capacity (number of correctable errors).
    pub fn error_capacity(&self) -> (capacity: usize)
        requires
            self.code_distance >= 1,
        ensures
            capacity == (self.code_distance - 1) / 2,
    {
        (self.code_distance - 1) / 2
    }
}

} // verus!
