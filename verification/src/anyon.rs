//! Anyons — fusion rules of non-abelian anyon models.
//!
//! In 2+1D TQFT, particles can have anyonic statistics. An anyon model lists
//! its anyon types (topological charges with their quantum dimensions) and
//! its fusion rules a × b → c₁ + c₂ + …. The numeric braiding (R) and
//! recoupling (F) coefficients of a model are square tables indexed by the
//! anyon types; `braid_coefficient_index` picks the entry that a braid uses.
use vstd::prelude::*;
use vstd::string::*;

use crate::text::{decimal, decimal_string};

verus! {

/// Anyon type (topological charge).
#[derive(Clone, Debug, PartialEq, Eq, Hash)]
pub struct AnyonType {
    /// Label for this anyon type
    pub label: String,
    /// Quantum dimension
    pub quantum_dimension: usize,
}

/// Fusion rule: a × b → {c₁, c₂, ...}.
#[derive(Clone, Debug)]
pub struct FusionRule {
    pub input_a: String,
    pub input_b: String,
    pub outputs: Vec<String>,
}

/// The fusion data of an anyon system: its types and its fusion rules.
#[derive(Clone, Debug)]
pub struct AnyonSystem {
    /// Available anyon types
    pub anyon_types: Vec<AnyonType>,
    /// Fusion rules
    pub fusion_rules: Vec<FusionRule>,
}

/// An anyon type as a mathematical value.
pub struct TypeModel {
    pub label: Seq<char>,
    pub quantum_dimension: nat,
}

/// A fusion rule as a mathematical value.
pub struct RuleModel {
    pub input_a: Seq<char>,
    pub input_b: Seq<char>,
    pub outputs: Seq<Seq<char>>,
}

/// The fusion data of an anyon system as a mathematical value.
pub struct AnyonModel {
    pub types: Seq<TypeModel>,
    pub rules: Seq<RuleModel>,
}

impl View for AnyonType {
    type V = TypeModel;

    open spec fn view(&self) -> TypeModel {
        TypeModel { label: self.label@, quantum_dimension: self.quantum_dimension as nat }
    }
}

impl View for FusionRule {
    type V = RuleModel;

    open spec fn view(&self) -> RuleModel {
        RuleModel {
            input_a: self.input_a@,
            input_b: self.input_b@,
            outputs: self.outputs.deep_view(),
        }
    }
}

impl View for AnyonSystem {
    type V = AnyonModel;

    open spec fn view(&self) -> AnyonModel {
        AnyonModel {
            types: self.anyon_types@.map_values(|t: AnyonType| t@),
            rules: self.fusion_rules@.map_values(|r: FusionRule| r@),
        }
    }
}

/// The fusion channels of a × b: the outputs of every rule for the pair
/// (a, b), in rule order.
pub open spec fn fusion_channels(rules: Seq<RuleModel>, a: Seq<char>, b: Seq<char>) -> Seq<
    Seq<char>,
>
    decreases rules.len(),
{
    if rules.len() == 0 {
        Seq::empty()
    } else {
        let earlier = fusion_channels(rules.drop_last(), a, b);
        let r = rules.last();
        if r.input_a == a && r.input_b == b {
            earlier + r.outputs
        } else {
            earlier
        }
    }
}

/// Whether some type of `types` carries the label `label`.
pub open spec fn has_label(types: Seq<TypeModel>, label: Seq<char>) -> bool {
    exists|i: int| 0 <= i < types.len() && #[trigger] types[i].label == label
}

/// Whether type `i` is the first type of `types` that carries `label`.
pub open spec fn first_with_label(types: Seq<TypeModel>, label: Seq<char>, i: int) -> bool {
    &&& 0 <= i < types.len()
    &&& types[i].label == label
    &&& forall|j: int| 0 <= j < i ==> types[j].label != label
}

pub open spec fn type_model(label: Seq<char>, quantum_dimension: nat) -> TypeModel {
    TypeModel { label, quantum_dimension }
}

pub open spec fn rule_model(a: Seq<char>, b: Seq<char>, outputs: Seq<Seq<char>>) -> RuleModel {
    RuleModel { input_a: a, input_b: b, outputs }
}

/// The Ising model: types 1, ψ, σ with quantum dimensions 1, 1, 2, and the
/// fusion rules 1×1→1, 1×ψ→ψ, 1×σ→σ, ψ×1→ψ, σ×1→σ, ψ×ψ→1, ψ×σ→σ, σ×ψ→σ,
/// σ×σ→1+ψ.
pub open spec fn ising_model() -> AnyonModel {
    AnyonModel {
        types: seq![type_model("1"@, 1), type_model("ψ"@, 1), type_model("σ"@, 2)],
        rules: seq![
            rule_model("1"@, "1"@, seq!["1"@]),
            rule_model("1"@, "ψ"@, seq!["ψ"@]),
            rule_model("1"@, "σ"@, seq!["σ"@]),
            rule_model("ψ"@, "1"@, seq!["ψ"@]),
            rule_model("σ"@, "1"@, seq!["σ"@]),
            rule_model("ψ"@, "ψ"@, seq!["1"@]),
            rule_model("ψ"@, "σ"@, seq!["σ"@]),
            rule_model("σ"@, "ψ"@, seq!["σ"@]),
            rule_model("σ"@, "σ"@, seq!["1"@, "ψ"@]),
        ],
    }
}

/// The Fibonacci model: types 1, τ with quantum dimensions 1, 2, and the
/// fusion rules 1×1→1, 1×τ→τ, τ×τ→1+τ.
pub open spec fn fibonacci_model() -> AnyonModel {
    AnyonModel {
        types: seq![type_model("1"@, 1), type_model("τ"@, 2)],
        rules: seq![
            rule_model("1"@, "1"@, seq!["1"@]),
            rule_model("1"@, "τ"@, seq!["τ"@]),
            rule_model("τ"@, "τ"@, seq!["1"@, "τ"@]),
        ],
    }
}

/// Fusion in the Ising model is commutative: a × b and b × a have the same
/// channels.
pub proof fn law_ising_fusion_commutative(a: Seq<char>, b: Seq<char>)
    ensures
        fusion_channels(ising_model().rules, a, b) == fusion_channels(ising_model().rules, b, a),
{
    lemma_ising_channels(a, b);
    lemma_ising_channels(b, a);
}

/// The channels of a × b under a single rule are its outputs when the rule
/// is for the pair (a, b), and none otherwise; under two lists of rules they
/// are the channels of the first list followed by those of the second.
pub proof fn law_fusion_channels_by_rule(
    r: RuleModel,
    first: Seq<RuleModel>,
    second: Seq<RuleModel>,
    a: Seq<char>,
    b: Seq<char>,
)
    ensures
        r.input_a == a && r.input_b == b ==> fusion_channels(seq![r], a, b) == r.outputs,
        !(r.input_a == a && r.input_b == b) ==> fusion_channels(seq![r], a, b).len() == 0,
        fusion_channels(first + second, a, b) == fusion_channels(first, a, b) + fusion_channels(
            second,
            a,
            b,
        ),
    decreases second.len(),
{
    let single = seq![r];
    assert(single.len() == 1 && single.last() == r);
    assert(single.drop_last() =~= Seq::<RuleModel>::empty());
    assert(fusion_channels(single.drop_last(), a, b) == Seq::<Seq<char>>::empty());
    assert(Seq::<Seq<char>>::empty() + r.outputs =~= r.outputs);
    if second.len() == 0 {
        assert(first + second =~= first);
        assert(fusion_channels(first, a, b) + Seq::<Seq<char>>::empty() =~= fusion_channels(
            first,
            a,
            b,
        ));
    } else {
        law_fusion_channels_by_rule(r, first, second.drop_last(), a, b);
        assert((first + second).drop_last() =~= first + second.drop_last());
        let x = fusion_channels(first, a, b);
        let y = fusion_channels(second.drop_last(), a, b);
        assert(x + (y + second.last().outputs) =~= (x + y) + second.last().outputs);
    }
}

/// Adding a rule at the end adds its outputs to the channels of its pair.
proof fn lemma_fusion_push(rules: Seq<RuleModel>, r: RuleModel, a: Seq<char>, b: Seq<char>)
    ensures
        fusion_channels(rules.push(r), a, b) == if r.input_a == a && r.input_b == b {
            fusion_channels(rules, a, b) + r.outputs
        } else {
            fusion_channels(rules, a, b)
        },
{
    assert(rules.push(r).drop_last() =~= rules);
}

/// The Ising fusion table, pair by pair.
pub open spec fn ising_table(a: Seq<char>, b: Seq<char>) -> Seq<Seq<char>> {
    if a == "1"@ && (b == "1"@ || b == "ψ"@ || b == "σ"@) {
        seq![b]
    } else if b == "1"@ && (a == "ψ"@ || a == "σ"@) {
        seq![a]
    } else if a == "ψ"@ && b == "ψ"@ {
        seq!["1"@]
    } else if (a == "ψ"@ && b == "σ"@) || (a == "σ"@ && b == "ψ"@) {
        seq!["σ"@]
    } else if a == "σ"@ && b == "σ"@ {
        seq!["1"@, "ψ"@]
    } else {
        Seq::empty()
    }
}

/// The channels that the rules of the Ising model give agree with its table.
pub proof fn lemma_ising_channels(a: Seq<char>, b: Seq<char>)
    ensures
        fusion_channels(ising_model().rules, a, b) == ising_table(a, b),
{
    reveal_strlit("1");
    reveal_strlit("ψ");
    reveal_strlit("σ");
    let r = ising_model().rules;
    assert(r.take(0) =~= Seq::<RuleModel>::empty());
    assert(r.take(1) =~= r.take(0).push(r[0]));
    lemma_fusion_push(r.take(0), r[0], a, b);
    assert(r.take(2) =~= r.take(1).push(r[1]));
    lemma_fusion_push(r.take(1), r[1], a, b);
    assert(r.take(3) =~= r.take(2).push(r[2]));
    lemma_fusion_push(r.take(2), r[2], a, b);
    assert(r.take(4) =~= r.take(3).push(r[3]));
    lemma_fusion_push(r.take(3), r[3], a, b);
    assert(r.take(5) =~= r.take(4).push(r[4]));
    lemma_fusion_push(r.take(4), r[4], a, b);
    assert(r.take(6) =~= r.take(5).push(r[5]));
    lemma_fusion_push(r.take(5), r[5], a, b);
    assert(r.take(7) =~= r.take(6).push(r[6]));
    lemma_fusion_push(r.take(6), r[6], a, b);
    assert(r.take(8) =~= r.take(7).push(r[7]));
    lemma_fusion_push(r.take(7), r[7], a, b);
    assert(r.take(9) =~= r.take(8).push(r[8]));
    lemma_fusion_push(r.take(8), r[8], a, b);
    assert(r.take(9) =~= r);
    assert("1"@[0] != "ψ"@[0] && "1"@[0] != "σ"@[0] && "ψ"@[0] != "σ"@[0]);
    assert("1"@ != "ψ"@ && "1"@ != "σ"@ && "ψ"@ != "σ"@);
    let e = Seq::<Seq<char>>::empty();
    assert forall|x: Seq<Seq<char>>| e + x =~= x && x + e =~= x by {}
    if a == "1"@ && b == "1"@ {
        assert(fusion_channels(r, a, b) =~= ising_table(a, b));
    } else if a == "1"@ && b == "ψ"@ {
        assert(fusion_channels(r, a, b) =~= ising_table(a, b));
    } else if a == "1"@ && b == "σ"@ {
        assert(fusion_channels(r, a, b) =~= ising_table(a, b));
    } else if a == "ψ"@ && b == "1"@ {
        assert(fusion_channels(r, a, b) =~= ising_table(a, b));
    } else if a == "σ"@ && b == "1"@ {
        assert(fusion_channels(r, a, b) =~= ising_table(a, b));
    } else if a == "ψ"@ && b == "ψ"@ {
        assert(fusion_channels(r, a, b) =~= ising_table(a, b));
    } else if a == "ψ"@ && b == "σ"@ {
        assert(fusion_channels(r, a, b) =~= ising_table(a, b));
    } else if a == "σ"@ && b == "ψ"@ {
        assert(fusion_channels(r, a, b) =~= ising_table(a, b));
    } else if a == "σ"@ && b == "σ"@ {
        assert(fusion_channels(r, a, b) =~= ising_table(a, b));
    } else {
        assert(fusion_channels(r, a, b) =~= ising_table(a, b));
    }
}

/// In the Ising model the vacuum 1 is a unit for fusion: 1 × x = x × 1 = x
/// for each anyon type x.
pub proof fn law_ising_vacuum_unit(x: Seq<char>)
    requires
        has_label(ising_model().types, x),
    ensures
        fusion_channels(ising_model().rules, "1"@, x) == seq![x],
        fusion_channels(ising_model().rules, x, "1"@) == seq![x],
{
    let i = choose|i: int|
        0 <= i < ising_model().types.len() && #[trigger] ising_model().types[i].label == x;
    assert(x == "1"@ || x == "ψ"@ || x == "σ"@);
    lemma_ising_channels("1"@, x);
    lemma_ising_channels(x, "1"@);
}

/// Every label that a fusion rule mentions, as input or as output, is an
/// anyon type of the model.
pub open spec fn rules_closed(m: AnyonModel) -> bool {
    forall|r: int| 0 <= r < m.rules.len() ==> {
        &&& has_label(m.types, #[trigger] m.rules[r].input_a)
        &&& has_label(m.types, m.rules[r].input_b)
        &&& forall|k: int|
            0 <= k < m.rules[r].outputs.len() ==> has_label(
                m.types,
                #[trigger] m.rules[r].outputs[k],
            )
    }
}

/// The fusion rules of the Ising and Fibonacci models mention only their own
/// anyon types: fusion never leaves the model.
pub proof fn law_models_closed_under_fusion()
    ensures
        rules_closed(ising_model()),
        rules_closed(fibonacci_model()),
{
    let ising = ising_model();
    assert(ising.types[0].label == "1"@);
    assert(ising.types[1].label == "ψ"@);
    assert(ising.types[2].label == "σ"@);
    let fib = fibonacci_model();
    assert(fib.types[0].label == "1"@);
    assert(fib.types[1].label == "τ"@);
}

impl AnyonType {
    /// Create a new anyon type.
    pub fn new(label: &str, quantum_dimension: usize) -> (t: Self)
        ensures
            t@ == type_model(label@, quantum_dimension as nat),
    {
        AnyonType { label: label.to_owned(), quantum_dimension }
    }

    /// The vacuum (trivial) anyon type.
    pub fn vacuum() -> (t: Self)
        ensures
            t@ == type_model("1"@, 1),
    {
        AnyonType { label: "1".to_owned(), quantum_dimension: 1 }
    }

    /// A non-trivial anyon type.
    pub fn sigma() -> (t: Self)
        ensures
            t@ == type_model("σ"@, 2),
    {
        AnyonType { label: "σ".to_owned(), quantum_dimension: 2 }
    }
}

fn label(text: &str) -> (s: String)
    ensures
        s@ == text@,
{
    text.to_owned()
}

fn rule(a: &str, b: &str, output: &str) -> (r: FusionRule)
    ensures
        r@ == rule_model(a@, b@, seq![output@]),
{
    let outputs = vec![label(output)];
    let r = FusionRule { input_a: label(a), input_b: label(b), outputs };
    assert(r@.outputs =~= seq![output@]);
    r
}

fn rule2(a: &str, b: &str, first: &str, second: &str) -> (r: FusionRule)
    ensures
        r@ == rule_model(a@, b@, seq![first@, second@]),
{
    let outputs = vec![label(first), label(second)];
    let r = FusionRule { input_a: label(a), input_b: label(b), outputs };
    assert(r@.outputs =~= seq![first@, second@]);
    r
}

/// The description of an anyon system: `AnyonSystem(<count> types)`.
pub open spec fn system_description(types: nat) -> Seq<char> {
    "AnyonSystem("@ + decimal(types) + " types)"@
}

impl AnyonSystem {
    /// A one-line description of the system: how many anyon types it has.
    pub fn to_string(&self) -> (text: String)
        ensures
            text@ == system_description(self@.types.len()),
    {
        let mut text = "AnyonSystem(".to_owned();
        text.append(decimal_string(self.anyon_types.len()).as_str());
        text.append(" types)");
        text
    }

    /// Create the Ising anyon model (non-abelian).
    /// Three anyon types: 1 (vacuum), ψ (fermion), σ (Ising anyon).
    /// Fusion rules: σ × σ → 1 + ψ, σ × ψ → σ, ψ × ψ → 1
    pub fn ising() -> (system: Self)
        ensures
            system@ == ising_model(),
    {
        let types = vec![AnyonType::vacuum(), AnyonType::new("ψ", 1), AnyonType::sigma()];
        let rules = vec![
            rule("1", "1", "1"),
            rule("1", "ψ", "ψ"),
            rule("1", "σ", "σ"),
            rule("ψ", "1", "ψ"),
            rule("σ", "1", "σ"),
            rule("ψ", "ψ", "1"),
            rule("ψ", "σ", "σ"),
            rule("σ", "ψ", "σ"),
            rule2("σ", "σ", "1", "ψ"),
        ];
        let system = AnyonSystem { anyon_types: types, fusion_rules: rules };
        assert(system@.types =~= ising_model().types);
        assert(system@.rules =~= ising_model().rules);
        system
    }

    /// Create the Fibonacci anyon model.
    /// Two anyon types: 1 (vacuum), τ (Fibonacci anyon).
    /// Fusion rules: τ × τ → 1 + τ
    pub fn fibonacci() -> (system: Self)
        ensures
            system@ == fibonacci_model(),
    {
        let types = vec![AnyonType::vacuum(), AnyonType::new("τ", 2)];
        let rules = vec![rule("1", "1", "1"), rule("1", "τ", "τ"), rule2("τ", "τ", "1", "τ")];
        let system = AnyonSystem { anyon_types: types, fusion_rules: rules };
        assert(system@.types =~= fibonacci_model().types);
        assert(system@.rules =~= fibonacci_model().rules);
        system
    }

    /// The position of the first type that carries `label`.
    pub fn type_index(&self, label: &str) -> (index: Option<usize>)
        ensures
            index is None <==> !has_label(self@.types, label@),
            index matches Some(i) ==> first_with_label(self@.types, label@, i as int),
    {
        let wanted = label.to_owned();
        let mut k: usize = 0;
        while k < self.anyon_types.len()
            invariant
                k <= self.anyon_types.len(),
                wanted@ == label@,
                forall|j: int| 0 <= j < k ==> self@.types[j].label != label@,
            decreases self.anyon_types.len() - k,
        {
            if self.anyon_types[k].label == wanted {
                proof {
                    assert(self@.types[k as int].label == label@);
                }
                return Some(k);
            }
            k = k + 1;
        }
        None
    }

    /// Get an anyon type by label: the first type that carries it.
    pub fn get_type(&self, label: &str) -> (found: Option<&AnyonType>)
        ensures
            found is None <==> !has_label(self@.types, label@),
            found matches Some(t) ==> exists|i: int|
                first_with_label(self@.types, label@, i) && *t == self.anyon_types@[i],
    {
        match self.type_index(label) {
            Some(i) => Some(&self.anyon_types[i]),
            None => None,
        }
    }

    /// Get fusion channels for a × b.
    pub fn fuse(&self, a: &str, b: &str) -> (channels: Vec<String>)
        ensures
            channels.deep_view() == fusion_channels(self@.rules, a@, b@),
    {
        let a_label = a.to_owned();
        let b_label = b.to_owned();
        let mut channels: Vec<String> = Vec::new();
        let mut k: usize = 0;
        while k < self.fusion_rules.len()
            invariant
                k <= self.fusion_rules.len(),
                a_label@ == a@,
                b_label@ == b@,
                channels.deep_view() == fusion_channels(self@.rules.take(k as int), a@, b@),
            decreases self.fusion_rules.len() - k,
        {
            let r = &self.fusion_rules[k];
            proof {
                assert(self@.rules.take(k + 1).drop_last() =~= self@.rules.take(k as int));
                assert(self@.rules.take(k + 1).last() == r@);
            }
            if r.input_a == a_label && r.input_b == b_label {
                let ghost earlier = channels.deep_view();
                let mut j: usize = 0;
                while j < r.outputs.len()
                    invariant
                        j <= r.outputs.len(),
                        channels.deep_view() == earlier + r@.outputs.take(j as int),
                    decreases r.outputs.len() - j,
                {
                    let ghost before = channels@;
                    let ghost before_deep = channels.deep_view();
                    let out = r.outputs[j].clone();
                    assert(out@ == r@.outputs[j as int]);
                    channels.push(out);
                    assert forall|i: int| 0 <= i < before.len() implies channels.deep_view()[i]
                        == before_deep[i] by {
                        assert(channels@[i] == before[i]);
                    }
                    assert(channels.deep_view()[before.len() as int] == out@);
                    assert(channels.deep_view() =~= before_deep.push(out@));
                    assert(r@.outputs.take(j + 1) =~= r@.outputs.take(j as int).push(out@));
                    assert(earlier + r@.outputs.take(j + 1) =~= (earlier + r@.outputs.take(
                        j as int,
                    )).push(out@));
                    j = j + 1;
                }
                assert(r@.outputs.take(j as int) =~= r@.outputs);
            }
            k = k + 1;
        }
        assert(self@.rules.take(k as int) =~= self@.rules);
        channels
    }

    /// Number of anyon types.
    pub fn num_types(&self) -> (n: usize)
        ensures
            n == self@.types.len(),
    {
        self.anyon_types.len()
    }
}

/// The entry of an `r_rows × r_cols` braiding table that a braid of
/// positions `i` and `j` of a state with `state_rows` rows uses, or `None`
/// when a position lies outside the state and the braid leaves it unchanged.
/// Positions beyond the table use its last row or column.
pub fn braid_coefficient_index(
    state_rows: usize,
    i: usize,
    j: usize,
    r_rows: usize,
    r_cols: usize,
) -> (entry: Option<(usize, usize)>)
    requires
        i < state_rows && j < state_rows ==> r_rows > 0 && r_cols > 0,
    ensures
        entry == if i >= state_rows || j >= state_rows {
            None
        } else {
            Some(
                (
                    if i < r_rows - 1 {
                        i
                    } else {
                        (r_rows - 1) as usize
                    },
                    if j < r_cols - 1 {
                        j
                    } else {
                        (r_cols - 1) as usize
                    },
                ),
            )
        },
{
    if i >= state_rows || j >= state_rows {
        return None;
    }
    let ri = if i < r_rows - 1 {
        i
    } else {
        r_rows - 1
    };
    let rj = if j < r_cols - 1 {
        j
    } else {
        r_cols - 1
    };
    Some((ri, rj))
}

} // verus!
