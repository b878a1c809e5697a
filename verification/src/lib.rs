//! Layered configuration resolution.
//!
//! A configuration is described by a tree of builder nodes: each node is a
//! partially-specified configuration (some fields set, some unset).  Nodes
//! support a left-biased, associative merge, seeding of declared defaults,
//! loading from an environment-variable table, and a completeness-checked
//! finalization that reports every missing required field at once.

use vstd::prelude::*;

pub mod compose;
pub mod config;
pub mod env;
pub mod laws;
pub mod names;
pub mod node;
pub mod ops;
pub mod resolve;
pub mod semantics;
pub mod strings;
pub mod value;
pub mod wf;

verus! {

/// A configuration type that is produced from a builder.
pub trait AppConfig {
    type Builder;

    fn builder() -> Self::Builder;
}

/// A tagged-choice configuration: exactly one of several named shapes.
pub trait AppConfigChoice {
    type Choices;
}

} // verus!
