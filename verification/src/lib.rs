//! Topological structures for agent systems: anyon fusion, braid words,
//! cobordism boundaries, surgery cuts, repetition-code protection and agent
//! interface networks.

pub mod agent;
pub mod amplitude;
pub mod anyon;
pub mod cobordism;
pub mod jones;
pub mod protection;
pub mod surgery;
pub mod text;
pub mod tqft;
