//! The pluggable-backend schema: the root server config that names plugins
//! by kind. Only the static backend is servable; the others are schema
//! placeholders that fail at load.

use vstd::prelude::*;

use crate::backend::HttpBackend;
use crate::errors::ConfigError;

verus! {

/// A WASM plugin definition: where its module lives.
pub struct WasmPluginDef {
    /// Path to the WASM file on disk.
    pub path: String,
}

/// A Lua plugin definition: where its script lives.
pub struct LuaPluginDef {
    /// Path to the Lua file on disk.
    pub path: String,
}

/// The static plugin definition; it carries nothing of its own.
pub struct StaticPluginDef {}

/// The supported plugin kinds.
pub enum PluginSource {
    /// A WASM-backed plugin; not servable.
    WasmPlugin(WasmPluginDef),
    /// A Lua-backed plugin; not servable.
    LuaPlugin(LuaPluginDef),
    /// The static response plugin.
    Static(StaticPluginDef),
}

impl PluginSource {
    /// Admits only the static kind; the others terminate the load with an
    /// error, as they are schema placeholders.
    pub fn require_static(&self) -> (r: Result<(), ConfigError>)
        ensures
            r is Ok <==> self is Static,
    {
        match self {
            PluginSource::Static(_) => Ok(()),
            PluginSource::WasmPlugin(w) => Err(
                ConfigError::UnsupportedPluginSource(w.path.clone()),
            ),
            PluginSource::LuaPlugin(l) => Err(
                ConfigError::UnsupportedPluginSource(l.path.clone()),
            ),
        }
    }
}

/// One plugin entry: its kind and where its own config lives.
pub struct PluginConfig {
    /// What kind of plugin is being defined.
    pub source: PluginSource,
    /// Where extra configuration for the plugin is pulled from.
    pub config: Option<String>,
}

/// HTTP server configuration.
pub struct HttpConfig {
    /// The address to listen on for HTTP requests.
    pub address: String,
    /// The plugins of the HTTP server.
    pub plugin: Vec<PluginConfig>,
}

/// The root configuration of the plugin-list schema.
pub struct UserConfig {
    /// The HTTP server section.
    pub http: HttpConfig,
}

/// A compiled server: its listen address and its backends.
pub struct ServerConfig {
    /// The address to listen on.
    pub http_address: String,
    /// The compiled backends in walk order.
    pub http_backends: Vec<HttpBackend>,
}

/// A match rule of the plugin-list schema: path, headers and methods only.
pub struct MatchesConfig {
    /// Regex matched against the request path, if any.
    pub path: Option<String>,
    /// (header name, regex) pairs.
    pub headers: Vec<(String, String)>,
    /// Methods the request may use; empty means any.
    pub methods: Vec<String>,
}

} // verus!
