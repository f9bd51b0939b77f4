//! Agent boundaries — the interfaces of agents and their connections.
//!
//! Each agent has a boundary (interface with the world). In TQFT this
//! boundary is assigned a vector space whose dimension is the number of
//! distinct agent states. Agents are connected through named channels: an
//! output channel of one agent is an input channel of the other. A network
//! of agents has the tensor product of their state spaces as its joint
//! space.
use vstd::prelude::*;
use vstd::string::*;

use crate::text::{decimal, decimal_string};

verus! {

/// The interface of an agent: its identity, the dimension of its state
/// space and its connection channels.
#[derive(Clone, Debug)]
pub struct AgentBoundary {
    /// Unique agent identifier
    pub id: String,
    /// Dimension of the agent's state space
    pub state_dimension: usize,
    /// Input channels (other agents this one receives from)
    pub input_channels: Vec<String>,
    /// Output channels (other agents this one sends to)
    pub output_channels: Vec<String>,
}

/// `channels` with `id` appended, unless it is already listed.
pub open spec fn add_channel(channels: Seq<Seq<char>>, id: Seq<char>) -> Seq<Seq<char>> {
    if channels.contains(id) {
        channels
    } else {
        channels.push(id)
    }
}

/// Connecting twice is connecting once, and a connection lists the other
/// agent afterwards.
pub proof fn law_connect_idempotent(channels: Seq<Seq<char>>, id: Seq<char>)
    ensures
        add_channel(add_channel(channels, id), id) == add_channel(channels, id),
        add_channel(channels, id).contains(id),
{
    if !channels.contains(id) {
        assert(channels.push(id)[channels.len() as int] == id);
    }
}

/// Whether `channels` lists `id`.
fn lists(channels: &Vec<String>, id: &String) -> (found: bool)
    ensures
        found == channels.deep_view().contains(id@),
{
    let mut k: usize = 0;
    while k < channels.len()
        invariant
            k <= channels.len(),
            forall|j: int| 0 <= j < k ==> channels.deep_view()[j] != id@,
        decreases channels.len() - k,
    {
        if channels[k] == *id {
            assert(channels.deep_view()[k as int] == id@);
            return true;
        }
        k = k + 1;
    }
    false
}

/// The description of an agent: `Agent(<id>, dim=<dimension>)`.
pub open spec fn agent_description(id: Seq<char>, dimension: nat) -> Seq<char> {
    "Agent("@ + id + ", dim="@ + decimal(dimension) + ")"@
}

impl AgentBoundary {
    /// A one-line description of the agent.
    pub fn to_string(&self) -> (text: String)
        ensures
            text@ == agent_description(self.id@, self.state_dimension as nat),
    {
        let mut text = "Agent(".to_owned();
        text.append(self.id.as_str());
        text.append(", dim=");
        text.append(decimal_string(self.state_dimension).as_str());
        text.append(")");
        text
    }

    /// Create a new agent boundary with no connections.
    pub fn new(id: &str, dimension: usize) -> (agent: Self)
        ensures
            agent.id@ == id@,
            agent.state_dimension == dimension,
            agent.input_channels@.len() == 0,
            agent.output_channels@.len() == 0,
    {
        AgentBoundary {
            id: id.to_owned(),
            state_dimension: dimension,
            input_channels: Vec::new(),
            output_channels: Vec::new(),
        }
    }

    /// Connect this agent's output to another's input. A connection that
    /// already exists is not listed twice.
    pub fn connect_to(&mut self, other: &mut Self)
        ensures
            final(self).output_channels.deep_view() == add_channel(
                old(self).output_channels.deep_view(),
                old(other).id@,
            ),
            final(other).input_channels.deep_view() == add_channel(
                old(other).input_channels.deep_view(),
                old(self).id@,
            ),
            final(self).id == old(self).id,
            final(self).state_dimension == old(self).state_dimension,
            final(self).input_channels == old(self).input_channels,
            final(other).id == old(other).id,
            final(other).state_dimension == old(other).state_dimension,
            final(other).output_channels == old(other).output_channels,
    {
        if !lists(&self.output_channels, &other.id) {
            let ghost before = self.output_channels@;
            self.output_channels.push(other.id.clone());
            proof {
                assert(self.output_channels.deep_view() =~= old(self).output_channels.deep_view().push(
                    other.id@,
                )) by {
                    assert(forall|j: int|
                        0 <= j < before.len() ==> self.output_channels@[j] == before[j]);
                }
            }
        }
        if !lists(&other.input_channels, &self.id) {
            let ghost before = other.input_channels@;
            other.input_channels.push(self.id.clone());
            proof {
                assert(other.input_channels.deep_view() =~= old(other).input_channels.deep_view().push(
                    self.id@,
                )) by {
                    assert(forall|j: int|
                        0 <= j < before.len() ==> other.input_channels@[j] == before[j]);
                }
            }
        }
    }

    /// The boundary vector space dimension.
    pub fn dimension(&self) -> (dim: usize)
        ensures
            dim == self.state_dimension,
    {
        self.state_dimension
    }
}

/// A network of agents.
#[derive(Clone, Debug)]
pub struct AgentNetwork {
    /// The agents, in the order they were added
    pub agents: Vec<AgentBoundary>,
    /// Dimension of the Frobenius algebra governing interactions
    pub algebra_dimension: usize,
}

/// The product of the state dimensions of `agents` (1 for no agents).
pub open spec fn dimension_product(agents: Seq<AgentBoundary>) -> nat
    decreases agents.len(),
{
    if agents.len() == 0 {
        1
    } else {
        dimension_product(agents.drop_last()) * (agents.last().state_dimension as nat)
    }
}

/// The dimension of the joint state space of `agents`: the tensor product
/// of their state spaces, and 0 for a network with no agents.
pub open spec fn joint_dimension(agents: Seq<AgentBoundary>) -> nat {
    if agents.len() == 0 {
        0
    } else {
        dimension_product(agents)
    }
}

/// Adding an agent multiplies the joint dimension by its state dimension; the
/// first agent's state space is the joint space.
pub proof fn law_add_agent_joint_dimension(agents: Seq<AgentBoundary>, a: AgentBoundary)
    ensures
        joint_dimension(agents.push(a)) == if agents.len() == 0 {
            a.state_dimension as nat
        } else {
            joint_dimension(agents) * (a.state_dimension as nat)
        },
{
    assert(agents.push(a).drop_last() =~= agents);
    let d = a.state_dimension as nat;
    assert(dimension_product(agents.push(a)) == dimension_product(agents) * d);
    if agents.len() == 0 {
        assert(dimension_product(agents) == 1);
        assert(1 * d == d) by (nonlinear_arith);
    }
}

/// Every running product of state dimensions fits in a `usize`.
pub open spec fn prefix_products_fit(agents: Seq<AgentBoundary>) -> bool {
    forall|k: int| 0 <= k <= agents.len() ==> #[trigger] dimension_product(agents.take(k)) <= usize::MAX
}

/// Whether agent `i` is the first agent of `agents` with identifier `id`.
pub open spec fn first_with_id(agents: Seq<AgentBoundary>, id: Seq<char>, i: int) -> bool {
    &&& 0 <= i < agents.len()
    &&& agents[i].id@ == id
    &&& forall|j: int| 0 <= j < i ==> agents[j].id@ != id
}

/// Whether some agent of `agents` has identifier `id`.
pub open spec fn has_id(agents: Seq<AgentBoundary>, id: Seq<char>) -> bool {
    exists|i: int| 0 <= i < agents.len() && #[trigger] agents[i].id@ == id
}

impl AgentNetwork {
    /// Create an empty network.
    pub fn new(algebra_dimension: usize) -> (network: Self)
        ensures
            network.agents@.len() == 0,
            network.algebra_dimension == algebra_dimension,
    {
        AgentNetwork { agents: Vec::new(), algebra_dimension }
    }

    /// Add an agent to the network.
    pub fn add_agent(&mut self, agent: AgentBoundary)
        ensures
            final(self).agents@ == old(self).agents@.push(agent),
            final(self).algebra_dimension == old(self).algebra_dimension,
    {
        self.agents.push(agent);
    }

    /// The position of the first agent with identifier `id`.
    pub fn agent_index(&self, id: &str) -> (index: Option<usize>)
        ensures
            index is None <==> !has_id(self.agents@, id@),
            index matches Some(i) ==> first_with_id(self.agents@, id@, i as int),
    {
        let wanted = id.to_owned();
        let mut k: usize = 0;
        while k < self.agents.len()
            invariant
                k <= self.agents.len(),
                wanted@ == id@,
                forall|j: int| 0 <= j < k ==> self.agents@[j].id@ != id@,
            decreases self.agents.len() - k,
        {
            if self.agents[k].id == wanted {
                return Some(k);
            }
            k = k + 1;
        }
        None
    }

    /// Get agent by ID.
    pub fn get_agent(&self, id: &str) -> (agent: Option<&AgentBoundary>)
        ensures
            agent is None <==> !has_id(self.agents@, id@),
            agent matches Some(a) ==> exists|i: int|
                first_with_id(self.agents@, id@, i) && *a == self.agents@[i],
    {
        match self.agent_index(id) {
            Some(i) => Some(&self.agents[i]),
            None => None,
        }
    }

    /// Get mutable agent by ID.
    pub fn get_agent_mut(&mut self, id: &str) -> (agent: Option<&mut AgentBoundary>)
        ensures
            agent is None <==> !has_id(old(self).agents@, id@),
            agent is None ==> final(self).agents@ == old(self).agents@,
            agent matches Some(a) ==> exists|i: int|
                first_with_id(old(self).agents@, id@, i) && *a == old(self).agents@[i]
                    && final(self).agents@ == old(self).agents@.update(i, *final(a)),
            final(self).algebra_dimension == old(self).algebra_dimension,
    {
        match self.agent_index(id) {
            Some(i) => Some(&mut self.agents[i]),
            None => None,
        }
    }

    /// Total state space dimension (tensor product of all agents).
    pub fn total_dimension(&self) -> (dim: usize)
        requires
            prefix_products_fit(self.agents@),
        ensures
            dim == joint_dimension(self.agents@),
    {
        if self.agents.len() == 0 {
            return 0;
        }
        let mut product: usize = 1;
        let mut k: usize = 0;
        while k < self.agents.len()
            invariant
                k <= self.agents.len(),
                prefix_products_fit(self.agents@),
                product == dimension_product(self.agents@.take(k as int)),
            decreases self.agents.len() - k,
        {
            proof {
                assert(self.agents@.take(k + 1).drop_last() =~= self.agents@.take(k as int));
                assert(dimension_product(self.agents@.take(k + 1)) <= usize::MAX);
            }
            product = product * self.agents[k].state_dimension;
            k = k + 1;
        }
        assert(self.agents@.take(k as int) =~= self.agents@);
        product
    }

    /// Number of agents.
    pub fn len(&self) -> (n: usize)
        ensures
            n == self.agents@.len(),
    {
        self.agents.len()
    }

    /// Whether network is empty.
    pub fn is_empty(&self) -> (empty: bool)
        ensures
            empty == (self.agents@.len() == 0),
    {
        self.agents.len() == 0
    }
}

} // verus!
