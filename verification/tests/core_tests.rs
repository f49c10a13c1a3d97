use zonky::config::{default_cache_dir, default_host, default_max_models, default_port, default_true, ServerConfig, ZonkyConfig};
use zonky::error::ZonkyError;
use zonky::types::{default_max_tokens, BackendChoice, DeviceChoice};

#[test]
fn error_messages() {
    assert_eq!(ZonkyError::ModelNotFound("x".to_string()).message(), "Model not found: x");
    assert_eq!(ZonkyError::ModelAlreadyLoaded("x".to_string()).message(), "Model already loaded: x");
    assert_eq!(ZonkyError::HubError("h".to_string()).message(), "HuggingFace Hub error: h");
    assert_eq!(ZonkyError::InsufficientVram { needed: 10, available: 3 }.message(), "Insufficient VRAM: need 10 bytes, available 3 bytes");
    assert_eq!(ZonkyError::UnsupportedArchitecture("a".to_string()).message(), "Unsupported model architecture: a");
    assert_eq!(ZonkyError::SerdeError("s".to_string()).message(), "Serialization error: s");
    assert_eq!(ZonkyError::CandleError("c".to_string()).message(), "Candle error: c");
}

#[test]
fn config_defaults() {
    let c = ZonkyConfig::with_cache_dir("/tmp/c".to_string());
    assert_eq!(c.default_backend, BackendChoice::Auto);
    assert_eq!(c.default_device, DeviceChoice::Auto);
    assert_eq!(c.cache_dir(), "/tmp/c");
    assert!(c.auto_evict);
    assert_eq!(c.max_loaded_models, 4);
    let s = ServerConfig::default();
    assert_eq!(s.host, "127.0.0.1");
    assert_eq!(s.port, 8080);
    assert!(s.cors_enabled);
    assert!(s.api_key.is_none());
    assert_eq!(default_host(), "127.0.0.1");
    assert_eq!(default_port(), 8080);
    assert!(default_true());
    assert_eq!(default_max_models(), 4);
    assert_eq!(default_max_tokens(), 2048);
    assert_eq!(BackendChoice::default(), BackendChoice::Auto);
    assert_eq!(DeviceChoice::default(), DeviceChoice::Auto);
}

#[test]
fn config_locations() {
    assert_eq!(ZonkyConfig::config_path(Some("/home/u/.config".to_string())), "/home/u/.config/zonky/config.toml");
    assert_eq!(ZonkyConfig::config_path(None), ".config/zonky/config.toml");
    assert_eq!(default_cache_dir(Some("/home/u/.cache".to_string())), "/home/u/.cache/zonky");
    assert_eq!(default_cache_dir(None), ".cache/zonky");
}
