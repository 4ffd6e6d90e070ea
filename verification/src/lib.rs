//! A small orchestration engine for the LogLine command language.
//!
//! A command is read by the parser, offered to the plugins' pre-hooks,
//! carried out against the stores, recorded in the timeline, published
//! by the broker, and offered to the post-hooks.  The gateway decides how
//! requests and events look on the wire.

pub mod text;
pub mod decimal;
pub mod order;
pub mod keyed;
pub mod json;
pub mod clock;
pub mod types;
pub mod parser;
pub mod registry;
pub mod contracts;
pub mod ideas;
pub mod rules;
pub mod events;
pub mod timeline;
pub mod broker;
pub mod plugin;
pub mod simulate;
pub mod spans;
pub mod runtime;
pub mod config;
pub mod gateway;
pub mod stream;

use vstd::prelude::*;

verus! {

/// Version of the engine.
pub const VERSION: &'static str = "1.0.0";

/// Product name reported by the health endpoint.
pub const PRODUCT_NAME: &'static str = "LogLine Motor";

/// The version of the engine.
pub fn version() -> (v: &'static str)
    ensures
        v@ == VERSION@,
{
    VERSION
}

} // verus!
