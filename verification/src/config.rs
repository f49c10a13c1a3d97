//! Application configuration and where it is stored.
use vstd::prelude::*;

use crate::text::{opt_str, owned, path_join, path_join_exec};
use crate::types::{BackendChoice, DeviceChoice};

verus! {

/// Server settings.
#[derive(Debug, Clone)]
pub struct ServerConfig {
    pub host: String,
    pub port: u16,
    /// Optional bearer token for API authentication
    pub api_key: Option<String>,
    /// Enable CORS for all origins
    pub cors_enabled: bool,
}

impl Default for ServerConfig {
    fn default() -> (r: Self)
        ensures
            r.host@ == "127.0.0.1"@,
            r.port == 8080,
            r.api_key is None,
            r.cors_enabled,
    {
        ServerConfig { host: default_host(), port: default_port(), api_key: None, cors_enabled: true }
    }
}

/// Application configuration (persisted to TOML).
#[derive(Debug, Clone)]
pub struct ZonkyConfig {
    /// Default inference backend
    pub default_backend: BackendChoice,
    /// Default device selection
    pub default_device: DeviceChoice,
    /// Model cache directory
    pub cache_dir: String,
    /// Server settings
    pub server: ServerConfig,
    /// Whether to auto-evict models when VRAM is full
    pub auto_evict: bool,
    /// Maximum number of concurrently loaded models
    pub max_loaded_models: usize,
}

impl ZonkyConfig {
    /// The default configuration, with the given model cache directory.
    pub fn with_cache_dir(cache_dir: String) -> (r: Self)
        ensures
            r.default_backend == BackendChoice::Auto,
            r.default_device == DeviceChoice::Auto,
            r.cache_dir@ == cache_dir@,
            r.server.host@ == "127.0.0.1"@,
            r.server.port == 8080,
            r.server.api_key is None,
            r.server.cors_enabled,
            r.auto_evict,
            r.max_loaded_models == 4,
    {
        ZonkyConfig {
            default_backend: BackendChoice::Auto,
            default_device: DeviceChoice::Auto,
            cache_dir,
            server: ServerConfig::default(),
            auto_evict: true,
            max_loaded_models: 4,
        }
    }

    /// The model cache directory.
    pub fn cache_dir(&self) -> (r: String)
        ensures
            r@ == self.cache_dir@,
    {
        self.cache_dir.clone()
    }

    /// The config file: `<config dir>/zonky/config.toml`, or the relative
    /// `.config/zonky/config.toml` when the platform has no config directory.
    pub fn config_path(config_base: Option<String>) -> (r: String)
        ensures
            r@ == match opt_str(config_base) {
                Some(b) => path_join(path_join(b, "zonky"@), "config.toml"@),
                None => ".config/zonky/config.toml"@,
            },
    {
        match config_base {
            Some(b) => {
                let z = path_join_exec(b.as_str(), "zonky");
                path_join_exec(z.as_str(), "config.toml")
            },
            None => owned(".config/zonky/config.toml"),
        }
    }
}

/// The model cache directory: `<cache dir>/zonky`, or the relative
/// `.cache/zonky` when the platform has no cache directory.
pub fn default_cache_dir(cache_base: Option<String>) -> (r: String)
    ensures
        r@ == match opt_str(cache_base) {
            Some(b) => path_join(b, "zonky"@),
            None => ".cache/zonky"@,
        },
{
    match cache_base {
        Some(b) => path_join_exec(b.as_str(), "zonky"),
        None => owned(".cache/zonky"),
    }
}

pub fn default_host() -> (r: String)
    ensures
        r@ == "127.0.0.1"@,
{
    owned("127.0.0.1")
}

pub fn default_port() -> (r: u16)
    ensures
        r == 8080,
{
    8080
}

pub fn default_true() -> (r: bool)
    ensures
        r,
{
    true
}

pub fn default_max_models() -> (r: usize)
    ensures
        r == 4,
{
    4
}

} // verus!
