//! Module resolution and loading core of a JavaScript/TypeScript engine.
//!
//! Given a set of root specifiers, the library builds a validated dependency
//! graph, resolves imports through a layered strategy (static graph edges,
//! Node.js-compatible resolution, package references, REPL fallbacks), gates
//! execution behind type checking and lockfile integrity, and hands the engine
//! ready-to-run source text on demand.

pub mod container;
pub mod graph;
pub mod loader;
pub mod media;
pub mod options;
pub mod prepare;
pub mod store;
pub mod strutil;

use vstd::prelude::*;

verus! {

} // verus!
