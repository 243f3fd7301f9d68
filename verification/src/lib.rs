//! A node-graph runtime: typed construction plans, an incremental execution
//! tree with per-node caches, and the planning side of GPU offload.

use vstd::prelude::*;

pub mod types;
pub mod value;
pub mod node;
pub mod memo;
pub mod any;
pub mod proto;
pub mod document;
pub mod flatten;
pub mod schedule;
pub mod stable_id;
pub mod plan;
pub mod compiler;
pub mod registry;
pub mod typing;
pub mod cache;
pub mod arena;
pub mod source_map;
pub mod tree_model;
pub mod borrow_tree;
pub mod dynamic_executor;
pub mod gpu;
pub mod offload;
pub mod slot;

verus! {

/// Stable key of a node within one construction plan.
pub type NodeId = u64;

} // verus!
