use zonky::desktop::{
    bind_address, chat_response, deleted_message, device_infos, download_id, gguf_file_info, loaded_message, loaded_model_info, local_model_info,
    pulled_message, read_meminfo, search_result, setup_status_response, system_info_response, unloaded_message, ServerSwitch,
};
use zonky::gpu::GpuDevice;
use zonky::inference::completion_response;
use zonky::manager::fallback_model_info;
use zonky::setup::{Dependency, SetupStatus};
use zonky::types::{HubModelInfo, HubSibling, LocalModel, ModelInfo};

#[test]
fn meminfo_figures() {
    let m = "MemTotal:       16000 kB\nMemFree: 1 kB\nMemAvailable:    8000 kB\n";
    assert_eq!(read_meminfo(m), (16000 * 1024, 8000 * 1024));
    assert_eq!(read_meminfo(""), (0, 0));
    assert_eq!(read_meminfo("MemTotal: 1 kB\nMemTotal: 2 kB\n"), (2048, 0));
    assert_eq!(read_meminfo("MemTotal: 5 kB\nMemTotal: junk\n"), (0, 0));
}

#[test]
fn system_info() {
    let devices = vec![GpuDevice::Metal { unified_memory: 1024 }, GpuDevice::Cpu];
    let infos = device_infos(&devices);
    assert_eq!(infos.len(), 2);
    assert_eq!(infos[0].vendor, "Apple");
    assert_eq!(infos[0].vram_free, 512);
    assert!(infos[0].is_gpu);
    assert_eq!(infos[1].name, "CPU");
    let s = system_info_response(&devices, "MemTotal: 4 kB\nMemAvailable: 2 kB\n");
    assert_eq!(s.total_memory, 4096);
    assert_eq!(s.available_memory, 2048);
    assert_eq!(s.devices.len(), 2);
}

#[test]
fn setup_record() {
    let status = SetupStatus {
        gpu_vendor: "AMD".to_string(),
        gpu_name: "g".to_string(),
        compute_ready: false,
        needs_reboot: true,
        deps: vec![Dependency { name: "a".to_string(), description: "d".to_string(), installed: true, install_cmd: None, required_by: "x".to_string() }],
        summary: "s".to_string(),
    };
    let r = setup_status_response(status);
    assert_eq!(r.gpu_vendor, "AMD");
    assert!(r.needs_reboot);
    assert_eq!(r.deps.len(), 1);
    assert_eq!(r.deps[0].name, "a");
    assert!(r.deps[0].installed);
}

#[test]
fn hub_records() {
    let m = HubModelInfo {
        model_id: "org/m".to_string(),
        author: Some("org".to_string()),
        sha: None,
        downloads: None,
        likes: Some(3),
        tags: vec![],
        pipeline_tag: None,
        library_name: None,
        last_modified: None,
    };
    let r = search_result(&m);
    assert_eq!(r.model_id, "org/m");
    assert_eq!(r.downloads, 0);
    assert_eq!(r.likes, 3);
    let f = gguf_file_info(&HubSibling { filename: "x.gguf".to_string(), size: Some(9) });
    assert_eq!(f.filename, "x.gguf");
    assert_eq!(f.size, Some(9));
}

#[test]
fn model_records() {
    let lm = LocalModel {
        id: "a".to_string(),
        repo_id: "org/a".to_string(),
        filename: "a.gguf".to_string(),
        path: "/c/a.gguf".to_string(),
        file_size: 5,
        alias: None,
        quantization: None,
        architecture: None,
        downloaded_at: "t".to_string(),
    };
    let r = local_model_info(&lm, vec!["candle".to_string()]);
    assert_eq!(r.size, 5);
    assert_eq!(r.path, "/c/a.gguf");
    assert_eq!(r.compatible_backends, vec!["candle"]);
    let loaded = loaded_model_info(&fallback_model_info("a", 0, 7, "candle"));
    assert_eq!(loaded.backend, "candle");
    assert_eq!(loaded.vram_usage, 7);
    let mut bare: ModelInfo = fallback_model_info("b", 0, 7, "candle");
    bare.backend = None;
    bare.vram_usage = None;
    let r2 = loaded_model_info(&bare);
    assert_eq!(r2.backend, "");
    assert_eq!(r2.vram_usage, 0);
}

#[test]
fn chat_answers() {
    let resp = completion_response("id".to_string(), 1, "m".to_string(), "answer".to_string(), 2, 3);
    let c = chat_response(&resp);
    assert_eq!(c.content, "answer");
    assert_eq!(c.model, "m");
    assert_eq!(c.tokens_used, 5);
    let mut empty = resp.clone();
    empty.choices.clear();
    assert_eq!(chat_response(&empty).content, "");
}

#[test]
fn command_replies() {
    assert_eq!(download_id("org/m", "f.gguf"), "org/m/f.gguf");
    assert_eq!(pulled_message("org/m", "f.gguf"), "Downloaded org/m/f.gguf");
    assert_eq!(deleted_message("a"), "Deleted a");
    assert_eq!(loaded_message("a"), "Model 'a' loaded successfully");
    assert_eq!(unloaded_message("a"), "Model 'a' unloaded");
}

#[test]
fn server_switch() {
    let mut s = ServerSwitch::new();
    let st = s.status();
    assert!(!st.running);
    assert_eq!(st.url, "http://127.0.0.1:8080");
    s.host = "0.0.0.0".to_string();
    s.started(9000);
    let st = s.status();
    assert!(st.running);
    assert_eq!(st.host, "127.0.0.1");
    assert_eq!(st.url, "http://127.0.0.1:9000");
    assert_eq!(s.stopped(), "Server stopped");
    assert!(!s.status().running);
    assert_eq!(s.status().port, 9000);
    assert_eq!(bind_address("0.0.0.0", 80), "0.0.0.0:80");
}
