# lau_quantum_topology_agents

Topological Quantum Field Theory (TQFT) structures for agent systems.

`src/` is the verified library (Verus). It holds the topological and
combinatorial side of the theory, each function with a contract:

- `cobordism` — boundary components, the topological data of cobordisms
  (inputs, outputs, genus), composition and its errors, disjoint union,
  Euler characteristic, and the block-diagonal layout of the map of a
  disjoint union; laws: units, associativity, interchange, dimensions.
- `surgery` — cutting a cobordism after a number of input dimensions.
- `anyon` — anyon types, fusion rules, the Ising and Fibonacci models,
  fusion channels, and the choice of braiding-table entry; laws: Ising
  fusion is commutative with the vacuum as unit, fusion stays in the model.
- `jones` — braid words and their writhe.
- `protection` — protection levels, error capacity, the repetition
  encoding and its blocks.
- `agent` — agent interfaces, channel connections, agent networks and the
  dimension of their joint state space.
- `amplitude` — which formula gives the amplitude of a cobordism.
- `tqft` — the axiom report and the dimension assigned to a boundary.

`app/` is ordinary Rust around the library: the floating-point side
(Frobenius algebra structure constants, linear maps, amplitudes, braiding
matrices, Jones polynomial evaluation, decoding and error correction) built
on `nalgebra`, with `serde` derives on copies of the library's types.

`tests/` exercises the library on concrete values.
