//! Host runtime for sandboxed HTTP service components.
//!
//! The library implements the host side of a multi-tenant component runtime:
//! longest-prefix routing of request paths to named services, per-request
//! construction of capability-scoped sandbox contexts (preopened filesystem
//! subtrees, clocks, randomness, a logging tag), translation between the
//! transport's HTTP representation and the stable component contract, and
//! containment of every guest failure in a synthesized response.

use vstd::prelude::*;

pub mod cli;
pub mod config;
pub mod ctx;
pub mod dispatch;
pub mod http;
pub mod lookup;
pub mod paths;
pub mod prefix_map;
pub mod service;
pub mod table;
pub mod wasi;

verus! {

} // verus!
