//! Types shared across the engine.

use vstd::prelude::*;

verus! {

/// How an operation ended, or that it has not ended yet.
#[derive(Debug, Clone, Copy, PartialEq, Eq, Structural)]
pub enum OperationStatus {
    Success,
    Failure,
    Cancelled,
    InProgress,
}

/// What is known about an entity beyond its id and type.
#[derive(Debug, Clone)]
pub struct EntityMetadata {
    pub creator: Option<String>,
    pub tags: Vec<String>,
    pub version: Option<String>,
    /// The id of a related entity.
    pub related_to: Option<String>,
    /// Further fields, as JSON text.
    pub custom_fields: Option<String>,
}

/// How an operation went.
#[derive(Debug, Clone)]
pub struct OperationResult {
    pub operation_id: u128,
    pub status: OperationStatus,
    /// When the operation ended, in milliseconds since the epoch.
    pub timestamp: i64,
    pub message: String,
    /// Further data, as JSON text.
    pub data: Option<String>,
}

/// System-wide settings.
#[derive(Debug, Clone)]
pub struct SystemConfig {
    /// `development` or `production`.
    pub execution_mode: String,
    pub log_level: String,
    /// Whether state is kept in memory only.
    pub use_memory_store: bool,
    pub plugin_directory: Option<String>,
    /// How often plugins are scanned again, in seconds.
    pub plugin_refresh_interval: Option<u64>,
}

impl Default for SystemConfig {
    /// Development settings: logging at `info`, state in memory, plugins
    /// from `./plugins`, scanned every 30 seconds.
    fn default() -> (config: SystemConfig)
        ensures
            config.execution_mode@ == "development"@,
            config.log_level@ == "info"@,
            config.use_memory_store,
            config.plugin_directory matches Some(dir) && dir@ == "./plugins"@,
            config.plugin_refresh_interval == Some(30u64),
    {
        SystemConfig {
            execution_mode: "development".to_owned(),
            log_level: "info".to_owned(),
            use_memory_store: true,
            plugin_directory: Some("./plugins".to_owned()),
            plugin_refresh_interval: Some(30),
        }
    }
}

} // verus!
