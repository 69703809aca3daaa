use vstd::prelude::*;

verus! {

/// Failures of configuration handling.
#[derive(Debug)]
pub enum ConfigError {
    LoadError(String),
}

/// Kind-specific sink parameters; absent members fall back to the engine's
/// defaults.
pub struct HandlerParams {
    pub file_path: Option<String>,
    pub max_size: Option<u64>,
    pub address: Option<String>,
    pub port: Option<u16>,
    pub retries: Option<u64>,
    pub capacity: Option<u64>,
}

/// One sink descriptor: its kind and its parameters.
pub struct HandlerConfig {
    pub type_: String,
    pub level: Option<String>,
    pub config: Option<HandlerParams>,
}

/// A named plugin entry; carried through but not interpreted by the core.
pub struct PluginConfig {
    pub name: String,
    pub config: Option<String>,
}

/// The engine's static configuration, supplied once at construction.
pub struct LogConfig {
    pub level: String,
    pub filters: Option<Vec<(String, String)>>,
    pub handlers: Vec<HandlerConfig>,
    pub formatter: Option<String>,
    pub plugins: Option<Vec<PluginConfig>>,
}

} // verus!
