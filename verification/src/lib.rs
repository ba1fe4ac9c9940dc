//! Execution core of a rule-based build engine.
//!
//! Given declarative rules that state how to produce a product of one type
//! from products of other types, the core lazily computes a requested product
//! for a root subject by stepping a directed graph of nodes, each node
//! standing for one attempt to satisfy one (selector, subject, variants)
//! triple.  The core never executes host functions itself: a step either
//! waits for dependencies, completes with a terminal outcome, or emits a
//! description of a host call for the surrounding scheduler to run.

pub mod bridge;
pub mod keys;
pub mod laws;
pub mod selectors;
pub mod nodes;
pub mod semantics;
pub mod step;
pub mod tasks;
