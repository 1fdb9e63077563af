//! Generator core for an asynchronous FFI bridge between a native library
//! and a managed client runtime.
//!
//! The crate parses annotated function declarations, classifies their
//! delivery model, maps the declared types to their native (C) and client
//! representations, derives the exported symbol names and binding
//! signatures, and models the delivery channel that carries success and
//! error envelopes back across the boundary.

use vstd::prelude::*;

pub mod emit;
pub mod model;
pub mod numstr;
pub mod parse;
pub mod pipeline;
pub mod registry;
pub mod strutil;
pub mod task;
pub mod token;

verus! {

} // verus!
