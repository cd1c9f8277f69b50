//! Fuses chains of adjacent `Filter` operators in a relational expression
//! tree into one canonical `Filter`, deduplicates redundant predicates, and
//! removes filter nodes that become vacuous.

pub mod canon;
pub mod fusion;
pub mod predlist;
pub mod relation;
pub mod scalar;
