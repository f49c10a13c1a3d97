use zonky::cache::{extract_quantization, generate_model_id, ModelCache, Registry};
use zonky::error::ZonkyError;

fn cache() -> ModelCache {
    ModelCache::new("/home/u/.cache/zonky".to_string())
}

#[test]
fn model_id_from_file_name() {
    assert_eq!(generate_model_id("TheBloke/TinyLlama", "tinyllama-1.1b-chat-v1.0.Q4_K_M.gguf"), "tinyllama-1.1b-chat-v1.0-q4_k_m");
    assert_eq!(generate_model_id("org/m", "llama-3.2-1b.gguf"), "llama-3-2-1b");
    assert_eq!(generate_model_id("org/m", "model.f16.gguf"), "model-f16");
    assert_eq!(generate_model_id("org/m", "Phi-3.IQ2_XS.gguf"), "phi-3-iq2_xs");
    assert_eq!(generate_model_id("org/m", "Model.safetensors"), "model");
    assert_eq!(generate_model_id("org/m", "plain"), "plain");
}

#[test]
fn quantization_from_file_name() {
    assert_eq!(extract_quantization("llama-2-7b.Q4_K_M.gguf"), Some("Q4_K_M".to_string()));
    assert_eq!(extract_quantization("phi.iq2_xs.gguf"), Some("IQ2_XS".to_string()));
    assert_eq!(extract_quantization("model.f16.gguf"), None);
    assert_eq!(extract_quantization("model.gguf"), None);
}

#[test]
fn paths_under_cache() {
    let c = cache();
    assert_eq!(c.cache_dir(), "/home/u/.cache/zonky");
    assert_eq!(c.repo_dir("TheBloke/TinyLlama"), "/home/u/.cache/zonky/models/TheBloke--TinyLlama");
    assert_eq!(c.model_path("a/b", "f.gguf"), "/home/u/.cache/zonky/models/a--b/f.gguf");
    assert_eq!(c.registry_path(), "/home/u/.cache/zonky/registry.json");
}

#[test]
fn register_then_find_and_replace() {
    let c = cache();
    let mut reg = Registry::empty();
    c.register_model(&mut reg, "org/repo", "m.Q8_0.gguf", "/p/m.Q8_0.gguf", 100);
    assert_eq!(reg.models.len(), 1);
    let m = &reg.models[0];
    assert_eq!(m.id, "m-q8_0");
    assert_eq!(m.quantization.as_deref(), Some("Q8_0"));
    assert_eq!(m.alias, None);
    assert!(!m.downloaded_at.is_empty());
    let found = c.find_model(&reg, "org/repo", "m.Q8_0.gguf").expect("registered model is found");
    assert_eq!(found.file_size, 100);
    assert!(c.find_model(&reg, "org/repo", "other.gguf").is_none());
    c.register_model(&mut reg, "org/repo", "m.Q8_0.gguf", "/q/m.Q8_0.gguf", 200);
    assert_eq!(reg.models.len(), 1);
    assert_eq!(reg.models[0].file_size, 200);
    assert_eq!(reg.models[0].path, "/q/m.Q8_0.gguf");
}

#[test]
fn missing_file_is_forgotten() {
    let c = cache();
    let mut reg = Registry::empty();
    c.register_model(&mut reg, "org/repo", "a.gguf", "/p/a.gguf", 1);
    let found = c.find_model(&reg, "org/repo", "a.gguf");
    let kept = c.confirm_present(&mut reg, found.clone(), true);
    assert!(kept.is_some());
    assert_eq!(reg.models.len(), 1);
    let gone = c.confirm_present(&mut reg, found, false);
    assert!(gone.is_none());
    assert!(reg.models.is_empty());
}

#[test]
fn lookup_by_id_alias_or_repo() {
    let c = cache();
    let mut reg = Registry::empty();
    c.register_model(&mut reg, "org/one", "one.gguf", "/p/one.gguf", 1);
    c.register_model(&mut reg, "org/two", "two.gguf", "/p/two.gguf", 2);
    assert_eq!(c.set_alias(&mut reg, "two", "fav").map_err(|e| e.message()), Ok(()));
    assert_eq!(c.find_by_id_or_alias(&reg, "fav").map(|m| m.id), Some("two".to_string()));
    assert_eq!(c.find_by_id_or_alias(&reg, "one").map(|m| m.id), Some("one".to_string()));
    assert_eq!(c.find_by_id_or_alias(&reg, "org/two").map(|m| m.id), Some("two".to_string()));
    assert!(c.find_by_id_or_alias(&reg, "three").is_none());
    assert_eq!(c.list_models(&reg).len(), 2);
}

#[test]
fn set_alias_on_unknown_model_fails() {
    let c = cache();
    let mut reg = Registry::empty();
    match c.set_alias(&mut reg, "ghost", "x") {
        Err(ZonkyError::ModelNotFound(id)) => assert_eq!(id, "ghost"),
        other => panic!("expected ModelNotFound, got {other:?}"),
    }
}

#[test]
fn delete_returns_path_and_removes() {
    let c = cache();
    let mut reg = Registry::empty();
    c.register_model(&mut reg, "org/one", "one.gguf", "/p/one.gguf", 1);
    assert_eq!(c.delete_model(&mut reg, "one"), Some("/p/one.gguf".to_string()));
    assert!(reg.models.is_empty());
    assert_eq!(c.delete_model(&mut reg, "one"), None);
}
