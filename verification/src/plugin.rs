//! The plugin host: sandboxed WebAssembly modules that implement named hooks.

pub mod error;
pub mod hooks;
pub mod paths;
pub mod engine;
pub mod sandbox;
pub mod record;
pub mod marshal;
pub mod table;
pub mod watcher;
pub mod manager;
