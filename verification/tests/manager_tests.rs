use zonky::error::ZonkyError;
use zonky::gpu::GpuDevice;
use zonky::inference::{BackendCompatibility, ModelHandle};
use zonky::manager::{
    backend_order, backend_priority_order, check_not_loaded, eviction_plan, fallback_model_info, list_all_models, loaded_info,
    probe_compatible_backends, resolve_model_path, select_device, skip_reason, unload_model, vram_plan, LoadAttempt, ModelTable, VramPlan,
};
use zonky::types::{BackendChoice, DeviceChoice, LocalModel, ModelInfo};

const GIB: u64 = 1024 * 1024 * 1024;

fn handle(id: &str) -> ModelHandle {
    ModelHandle { id: id.to_string(), backend: "candle".to_string() }
}

fn info(id: &str) -> ModelInfo {
    fallback_model_info(id, 1, 0, "candle")
}

fn table_with(models: &[(&str, u64)]) -> ModelTable {
    let mut t = ModelTable::new();
    for (id, vram) in models {
        t.insert(id.to_string(), handle(id), info(id), "candle".to_string(), *vram);
    }
    t
}

fn strs(v: &[&str]) -> Vec<String> {
    v.iter().map(|s| s.to_string()).collect()
}

#[test]
fn table_insert_get_remove() {
    let mut t = table_with(&[("a", 10), ("b", 20)]);
    assert!(t.contains("a"));
    assert!(t.contains("b"));
    assert!(!t.contains("c"));
    assert_eq!(t.get("b").map(|m| m.vram_usage), Some(20));
    assert_eq!(t.used_vram(), 30);
    t.insert("a".to_string(), handle("a"), info("a"), "llamacpp".to_string(), 5);
    assert_eq!(t.list_infos().len(), 2);
    assert_eq!(t.get("a").map(|m| m.backend_name.clone()), Some("llamacpp".to_string()));
    assert_eq!(t.used_vram(), 25);
    let removed = t.remove("a").expect("a was loaded");
    assert_eq!(removed.id, "a");
    assert!(!t.contains("a"));
    assert!(t.remove("a").is_none());
}

#[test]
fn use_model_reports_backend_or_not_found() {
    let mut t = table_with(&[("a", 10)]);
    let (backend, h) = t.use_model("a").map_err(|e| e.message()).expect("loaded");
    assert_eq!(backend, "candle");
    assert_eq!(h.id, "a");
    match t.use_model("zzz") {
        Err(ZonkyError::ModelNotFound(id)) => assert_eq!(id, "zzz"),
        other => panic!("unexpected {other:?}"),
    }
}

#[test]
fn eviction_follows_least_recent_use() {
    let mut t = table_with(&[("a", 4), ("b", 4), ("c", 4)]);
    t.touch("a");
    assert_eq!(eviction_plan(&t, 5), strs(&["b", "c"]));
    assert_eq!(eviction_plan(&t, 4), strs(&["b"]));
    assert_eq!(eviction_plan(&t, 0), Vec::<String>::new());
    assert_eq!(eviction_plan(&t, 100), strs(&["b", "c", "a"]));
}

#[test]
fn vram_budget_decisions() {
    let gpu = GpuDevice::Cuda { index: 0, name: "g".to_string(), vram_total: 8 * GIB, vram_free: 8 * GIB };
    assert!(matches!(vram_plan(&GpuDevice::Cpu, 100 * GIB, 0, false), VramPlan::Fits));
    assert!(matches!(vram_plan(&gpu, 4 * GIB, (2 * GIB) as u128, false), VramPlan::Fits));
    match vram_plan(&gpu, 7 * GIB, (2 * GIB) as u128, true) {
        VramPlan::Evict(n) => assert_eq!(n, GIB),
        other => panic!("unexpected {other:?}"),
    }
    match vram_plan(&gpu, 7 * GIB, (2 * GIB) as u128, false) {
        VramPlan::Insufficient(ZonkyError::InsufficientVram { needed, available }) => {
            assert_eq!(needed, 7 * GIB);
            assert_eq!(available, 6 * GIB);
        }
        other => panic!("unexpected {other:?}"),
    }
    match vram_plan(&gpu, 1, (10 * GIB) as u128, false) {
        VramPlan::Insufficient(ZonkyError::InsufficientVram { available, .. }) => assert_eq!(available, 0),
        other => panic!("unexpected {other:?}"),
    }
}

#[test]
fn device_selection() {
    let devices = vec![
        GpuDevice::Rocm { index: 0, name: "r".to_string(), vram_total: 1, vram_free: 1, is_apu: false },
        GpuDevice::Cuda { index: 1, name: "c".to_string(), vram_total: 1, vram_free: 1 },
        GpuDevice::Cpu,
    ];
    assert_eq!(select_device(&devices, DeviceChoice::Auto).map(|d| d.device_name()).map_err(|e| e.message()), Ok("ROCm:0 (r)".to_string()));
    assert!(matches!(select_device(&devices, DeviceChoice::Cpu), Ok(GpuDevice::Cpu)));
    assert_eq!(select_device(&devices, DeviceChoice::Cuda(1)).map(|d| d.device_name()).map_err(|e| e.message()), Ok("CUDA:1 (c)".to_string()));
    match select_device(&devices, DeviceChoice::Cuda(0)) {
        Err(ZonkyError::GpuError(m)) => assert_eq!(m, "CUDA device 0 not found"),
        other => panic!("unexpected {other:?}"),
    }
    match select_device(&devices, DeviceChoice::Metal) {
        Err(ZonkyError::GpuError(m)) => assert_eq!(m, "Metal device not found"),
        other => panic!("unexpected {other:?}"),
    }
}

#[test]
fn backend_orders() {
    let both = strs(&["candle", "llamacpp"]);
    let rocm = vec![GpuDevice::Rocm { index: 0, name: "r".to_string(), vram_total: 1, vram_free: 1, is_apu: false }, GpuDevice::Cpu];
    let cpu = vec![GpuDevice::Cpu];
    assert_eq!(backend_priority_order(&rocm, &both), strs(&["llamacpp", "candle"]));
    assert_eq!(backend_priority_order(&cpu, &both), strs(&["candle", "llamacpp"]));
    assert_eq!(backend_priority_order(&rocm, &strs(&["candle"])), strs(&["candle"]));
    assert_eq!(backend_priority_order(&cpu, &strs(&["other"])), strs(&["other"]));
    assert_eq!(backend_order(BackendChoice::LlamaCpp, &cpu, &strs(&["candle"])), strs(&["llamacpp"]));
    assert_eq!(backend_order(BackendChoice::Candle, &rocm, &both), strs(&["candle"]));
    assert_eq!(backend_order(BackendChoice::Auto, &rocm, &both), strs(&["llamacpp", "candle"]));
}

#[test]
fn compatible_backends() {
    assert_eq!(probe_compatible_backends(&strs(&["candle", "llamacpp"]), &vec![false, true]), strs(&["llamacpp"]));
}

fn local(id: &str, alias: Option<&str>, repo: &str) -> LocalModel {
    LocalModel {
        id: id.to_string(),
        repo_id: repo.to_string(),
        filename: format!("{id}.gguf"),
        path: format!("/c/{id}.gguf"),
        file_size: 42,
        alias: alias.map(|s| s.to_string()),
        quantization: Some("Q4_K_M".to_string()),
        architecture: None,
        downloaded_at: "t".to_string(),
    }
}

#[test]
fn resolving_model_paths() {
    let ms = vec![local("a", Some("fav"), "org/a"), local("b", None, "org/b")];
    assert_eq!(resolve_model_path("/abs/file.gguf", true, &ms, &vec![true, true]).map_err(|e| e.message()), Ok("/abs/file.gguf".to_string()));
    assert_eq!(resolve_model_path("fav", false, &ms, &vec![true, true]).map_err(|e| e.message()), Ok("/c/a.gguf".to_string()));
    assert_eq!(resolve_model_path("org/b", false, &ms, &vec![true, true]).map_err(|e| e.message()), Ok("/c/b.gguf".to_string()));
    match resolve_model_path("b", false, &ms, &vec![true, false]) {
        Err(ZonkyError::ModelNotFound(m)) => assert_eq!(m, "Cannot find model 'b'. Use `zonky pull` to download it first."),
        other => panic!("unexpected {other:?}"),
    }
    assert!(matches!(resolve_model_path("zzz", false, &ms, &vec![true, true]), Err(ZonkyError::ModelNotFound(_))));
}

#[test]
fn listing_all_models() {
    let ms = vec![local("a", None, "org/a"), local("b", None, "org/b")];
    let t = table_with(&[("b", 77)]);
    let all = list_all_models(&ms, &t, &vec![strs(&["candle"]), vec![]]);
    assert_eq!(all.len(), 2);
    assert!(!all[0].loaded);
    assert_eq!(all[0].vram_usage, None);
    assert_eq!(all[0].compatible_backends, strs(&["candle"]));
    assert_eq!(all[0].file_size, Some(42));
    assert_eq!(all[0].object, "model");
    assert!(all[1].loaded);
    assert_eq!(all[1].vram_usage, Some(77));
    assert_eq!(all[1].backend.as_deref(), Some("candle"));
}

#[test]
fn load_walk_collects_failures() {
    let t = table_with(&[("a", 1)]);
    match check_not_loaded(&t, "a") {
        Err(ZonkyError::ModelAlreadyLoaded(id)) => assert_eq!(id, "a"),
        other => panic!("unexpected {other:?}"),
    }
    assert!(check_not_loaded(&t, "b").is_ok());
    let mut walk = LoadAttempt::new("m", strs(&["llamacpp", "candle"]));
    assert_eq!(walk.current(), Some("llamacpp".to_string()));
    let reason = skip_reason(false, &BackendCompatibility { compatible: true, reason: None }).expect("unregistered is skipped");
    walk.fail(reason);
    assert_eq!(walk.current(), Some("candle".to_string()));
    let reason = skip_reason(true, &BackendCompatibility { compatible: false, reason: None }).expect("incompatible is skipped");
    walk.fail(reason);
    assert_eq!(walk.current(), None);
    match walk.failure() {
        ZonkyError::BackendError(m) => assert_eq!(m, "Failed to load model 'm' — all backends failed:\n  llamacpp: Backend not available\n  candle: Incompatible"),
        other => panic!("unexpected {other:?}"),
    }
    assert!(skip_reason(true, &BackendCompatibility { compatible: true, reason: None }).is_none());
    let why = skip_reason(true, &BackendCompatibility { compatible: false, reason: Some("IQ".to_string()) });
    assert_eq!(why.as_deref(), Some("IQ"));
}

#[test]
fn unloading() {
    let mut t = table_with(&[("a", 1)]);
    assert_eq!(unload_model(&mut t, "a").map(|m| m.id).map_err(|e| e.message()), Ok("a".to_string()));
    match unload_model(&mut t, "a") {
        Err(ZonkyError::ModelNotFound(id)) => assert_eq!(id, "a"),
        other => panic!("unexpected {other:?}"),
    }
}

#[test]
fn loaded_records() {
    let own = info("x");
    let kept = loaded_info(Some(own), "x", 5, "candle");
    assert_eq!(kept.created, 1);
    let fresh = loaded_info(None, "y", 5, "llamacpp");
    assert_eq!(fresh.id, "y");
    assert_eq!(fresh.vram_usage, Some(5));
    assert_eq!(fresh.backend.as_deref(), Some("llamacpp"));
    assert!(fresh.loaded);
    assert!(fresh.created > 0);
    assert!(fresh.compatible_backends.is_empty());
}
