//! The gateway's configuration, as read from the environment.

use vstd::prelude::*;
use crate::decimal::{parse_unsigned, spec_unsigned};
use crate::text::{equals_ignoring_ascii_case, lower_ascii};

verus! {

/// The gateway's configuration.
#[derive(Debug, Clone)]
pub struct ApiConfig {
    /// The address the server binds to.
    pub bind_address: String,
    /// The first segment of every path.
    pub api_prefix: String,
    /// The origin that cross-origin requests are allowed from, if any.
    pub cors_allowed_origin: Option<String>,
    pub enable_plugins: bool,
    pub plugin_directory: String,
    /// How often the plugin directory is scanned again, in seconds.
    pub plugin_refresh_interval: u64,
    /// How many events the broker retains for replay.
    pub stream_buffer_size: usize,
    pub enable_metrics: bool,
    pub metrics_port: u16,
}

/// The values of the environment variables that configure the gateway,
/// each as it was found.
#[derive(Debug, Clone)]
pub struct Environment {
    /// `LOGLINE_BIND_ADDRESS`
    pub bind_address: Option<String>,
    /// `LOGLINE_API_PREFIX`
    pub api_prefix: Option<String>,
    /// `LOGLINE_CORS_ALLOWED_ORIGIN`
    pub cors_allowed_origin: Option<String>,
    /// `LOGLINE_ENABLE_PLUGINS`
    pub enable_plugins: Option<String>,
    /// `LOGLINE_PLUGIN_DIRECTORY`
    pub plugin_directory: Option<String>,
    /// `LOGLINE_PLUGIN_REFRESH_INTERVAL`
    pub plugin_refresh_interval: Option<String>,
    /// `LOGLINE_STREAM_BUFFER_SIZE`
    pub stream_buffer_size: Option<String>,
    /// `LOGLINE_ENABLE_METRICS`
    pub enable_metrics: Option<String>,
    /// `LOGLINE_METRICS_PORT`
    pub metrics_port: Option<String>,
}

/// A text setting: the value found, or the default.
pub open spec fn spec_text(found: Option<String>, default: Seq<char>) -> Seq<char> {
    match found {
        Some(value) => value@,
        None => default,
    }
}

/// A switch: on where the value found reads `true` in any ASCII case, off
/// for any other value, and on where none was found.
pub open spec fn spec_switch(found: Option<String>) -> bool {
    match found {
        Some(value) => lower_ascii(value@) == "true"@,
        None => true,
    }
}

/// A numeric setting: the number that the value found denotes, where it
/// is made of decimal digits, with or without a plus sign before them,
/// and is no greater than `max`; the default otherwise.
pub open spec fn spec_setting(found: Option<String>, max: nat, default: nat) -> nat {
    match found {
        Some(value) => match spec_unsigned(value@, max) {
            Some(n) => n,
            None => default,
        },
        None => default,
    }
}

fn text_setting(found: &Option<String>, default: &str) -> (s: String)
    ensures
        s@ == spec_text(*found, default@),
{
    match found {
        Some(value) => value.clone(),
        None => default.to_owned(),
    }
}

fn switch_setting(found: &Option<String>) -> (b: bool)
    ensures
        b == spec_switch(*found),
{
    match found {
        Some(value) => equals_ignoring_ascii_case(value.as_str(), "true"),
        None => true,
    }
}

fn number_setting(found: &Option<String>, max: u128, default: u128) -> (n: u128)
    requires
        max <= u128::MAX / 16,
        default <= max,
    ensures
        n == spec_setting(*found, max as nat, default as nat),
        n <= max,
{
    match found {
        Some(value) => match parse_unsigned(value.as_str(), max) {
            Some(n) => n,
            None => default,
        },
        None => default,
    }
}

/// Makes the configuration from what the environment holds.  Every
/// setting has a default, so this never fails.
pub fn load_config(environment: &Environment) -> (r: Result<ApiConfig, String>)
    ensures
        r matches Ok(config) && {
            &&& config.bind_address@ == spec_text(environment.bind_address, "127.0.0.1:3000"@)
            &&& config.api_prefix@ == spec_text(environment.api_prefix, "api"@)
            &&& config.cors_allowed_origin == environment.cors_allowed_origin
            &&& config.enable_plugins == spec_switch(environment.enable_plugins)
            &&& config.plugin_directory@ == spec_text(environment.plugin_directory, "./plugins"@)
            &&& config.plugin_refresh_interval == spec_setting(
                environment.plugin_refresh_interval,
                u64::MAX as nat,
                30,
            )
            &&& config.stream_buffer_size == spec_setting(
                environment.stream_buffer_size,
                usize::MAX as nat,
                1000,
            )
            &&& config.enable_metrics == spec_switch(environment.enable_metrics)
            &&& config.metrics_port == spec_setting(environment.metrics_port, u16::MAX as nat, 9090)
        },
{
    let cors_allowed_origin = match &environment.cors_allowed_origin {
        Some(origin) => Some(origin.clone()),
        None => None,
    };
    Ok(
        ApiConfig {
            bind_address: text_setting(&environment.bind_address, "127.0.0.1:3000"),
            api_prefix: text_setting(&environment.api_prefix, "api"),
            cors_allowed_origin,
            enable_plugins: switch_setting(&environment.enable_plugins),
            plugin_directory: text_setting(&environment.plugin_directory, "./plugins"),
            plugin_refresh_interval: number_setting(
                &environment.plugin_refresh_interval,
                u64::MAX as u128,
                30,
            ) as u64,
            stream_buffer_size: number_setting(
                &environment.stream_buffer_size,
                usize::MAX as u128,
                1000,
            ) as usize,
            enable_metrics: switch_setting(&environment.enable_metrics),
            metrics_port: number_setting(&environment.metrics_port, u16::MAX as u128, 9090) as u16,
        },
    )
}

/// The port on which metrics are served, where metrics are enabled.
pub fn init_metrics(config: &ApiConfig) -> (port: Option<u16>)
    ensures
        port == if config.enable_metrics {
            Some(config.metrics_port)
        } else {
            None
        },
{
    if config.enable_metrics {
        Some(config.metrics_port)
    } else {
        None
    }
}

} // verus!
