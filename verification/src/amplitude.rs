//! Which formula gives the scalar amplitude Z(M) of a cobordism.
//!
//! A closed manifold with no boundary dimensions has the normalized
//! amplitude 1; a cobordism whose input and output spaces have the same
//! dimension has the trace of its linear map as amplitude; any other
//! cobordism has amplitude 0.
use vstd::prelude::*;

use crate::cobordism::{identity_model, BoundaryComponent, Cobordism, CobordismModel};

verus! {

/// The formula for the amplitude of a cobordism.
#[derive(Clone, Copy, Debug, PartialEq, Eq, Structural)]
pub enum AmplitudeRule {
    /// Closed manifold: Z = 1
    Normalized,
    /// Equal input and output dimensions: Z = trace of the linear map
    Trace,
    /// Unequal input and output dimensions: Z = 0
    Vanishing,
}

/// The amplitude formula that applies to a cobordism.
pub open spec fn rule_for(c: CobordismModel) -> AmplitudeRule {
    if c.is_closed() && c.input_dimension() == 0 && c.output_dimension() == 0 {
        AmplitudeRule::Normalized
    } else if c.input_dimension() == c.output_dimension() {
        AmplitudeRule::Trace
    } else {
        AmplitudeRule::Vanishing
    }
}

/// A closed manifold always gets the normalized amplitude 1, and a cylinder
/// always gets the trace of its map.
pub proof fn law_closed_and_cylinder_rules(c: CobordismModel, bs: Seq<BoundaryComponent>)
    requires
        bs.len() > 0,
    ensures
        c.is_closed() ==> rule_for(c) == AmplitudeRule::Normalized,
        rule_for(identity_model(bs)) == AmplitudeRule::Trace,
{
    if c.is_closed() {
        assert(c.incoming =~= Seq::<BoundaryComponent>::empty());
        assert(c.outgoing =~= Seq::<BoundaryComponent>::empty());
    }
}

/// The trace is used exactly for non-closed cobordisms whose input and
/// output spaces have the same dimension; unequal dimensions always give the
/// vanishing amplitude.
pub proof fn law_trace_needs_equal_dimensions(c: CobordismModel)
    ensures
        rule_for(c) == AmplitudeRule::Trace ==> c.input_dimension() == c.output_dimension(),
        c.input_dimension() != c.output_dimension() ==> rule_for(c) == AmplitudeRule::Vanishing,
        rule_for(c) == AmplitudeRule::Vanishing ==> c.input_dimension() != c.output_dimension(),
        rule_for(c) == AmplitudeRule::Normalized ==> c.input_dimension() == 0
            && c.output_dimension() == 0,
{
}

/// Decide which formula gives Z(M) for `cobordism`.
pub fn amplitude_rule(cobordism: &Cobordism) -> (rule: AmplitudeRule)
    requires
        cobordism@.wf(),
    ensures
        rule == rule_for(cobordism@),
        rule == AmplitudeRule::Trace ==> cobordism@.input_dimension() == cobordism@.output_dimension(),
        cobordism@.input_dimension() != cobordism@.output_dimension() ==> rule
            == AmplitudeRule::Vanishing,
{
    let n = cobordism.input_dimension();
    let m = cobordism.output_dimension();
    if cobordism.is_closed() && n == 0 && m == 0 {
        AmplitudeRule::Normalized
    } else if n == m {
        AmplitudeRule::Trace
    } else {
        AmplitudeRule::Vanishing
    }
}

} // verus!
