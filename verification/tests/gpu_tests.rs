use zonky::gpu::{best_device, detect_devices, device_summary, pci_slot_name, system_memory_available, system_memory_total, DrmEntry, GpuDevice, HostScan, NvmlDevice};

const GIB: u64 = 1024 * 1024 * 1024;

fn entry(name: &str, vendor: &str) -> DrmEntry {
    DrmEntry {
        name: name.to_string(),
        vendor: Some(vendor.to_string()),
        label: None,
        uevent: None,
        lspci: None,
        vram_total: None,
        vram_used: None,
    }
}

fn meminfo() -> String {
    "MemTotal:       32000000 kB\nMemFree:         1000000 kB\nMemAvailable:   16000000 kB\n".to_string()
}

fn scan(entries: Vec<DrmEntry>) -> HostScan {
    HostScan { is_linux: true, drm_entries: entries, meminfo: Some(meminfo()), metal_memsize: None, nvml: None }
}

#[test]
fn device_names_per_kind() {
    let cuda = GpuDevice::Cuda { index: 0, name: "RTX 4090".to_string(), vram_total: 24 * GIB, vram_free: 20 * GIB };
    assert_eq!(cuda.device_name(), "CUDA:0 (RTX 4090)");
    let apu = GpuDevice::Rocm { index: 1, name: "Radeon 780M".to_string(), vram_total: 8 * GIB, vram_free: 4 * GIB, is_apu: true };
    assert_eq!(apu.device_name(), "ROCm:1 (Radeon 780M [APU])");
    let dgpu = GpuDevice::Rocm { index: 0, name: "RX 7900".to_string(), vram_total: 8 * GIB, vram_free: 4 * GIB, is_apu: false };
    assert_eq!(dgpu.device_name(), "ROCm:0 (RX 7900)");
    let metal = GpuDevice::Metal { unified_memory: 16 * GIB + 5 };
    assert_eq!(metal.device_name(), "Metal (16GB unified)");
    assert_eq!(GpuDevice::Cpu.device_name(), "CPU");
}

#[test]
fn memory_figures_per_kind() {
    let metal = GpuDevice::Metal { unified_memory: 16 * GIB };
    assert_eq!(metal.vram_free(), 8 * GIB);
    assert_eq!(metal.vram_total(), 16 * GIB);
    assert_eq!(GpuDevice::Cpu.vram_free(), 0);
    assert_eq!(GpuDevice::Cpu.vram_total(), 0);
    assert!(!GpuDevice::Cpu.is_gpu());
    assert!(metal.is_gpu());
    assert_eq!(metal.vendor(), "Apple");
    assert_eq!(GpuDevice::Cpu.vendor(), "CPU");
}

#[test]
fn detects_nvidia_and_amd_cards() {
    let mut nv = entry("card0", "0x10de\n");
    nv.label = Some("GeForce RTX 3080\n".to_string());
    nv.vram_total = Some("10737418240\n".to_string());
    nv.vram_used = Some("1073741824\n".to_string());
    let mut amd = entry("card1", "0x1002\n");
    amd.label = Some("Radeon 780M".to_string());
    amd.vram_total = Some("0".to_string());
    let render = entry("renderD128", "0x10de");
    let connector = entry("card0-DP-1", "0x10de");
    let devices = detect_devices(&scan(vec![nv, render, amd, connector]));
    assert_eq!(devices.len(), 3);
    match &devices[0] {
        GpuDevice::Cuda { index, name, vram_total, vram_free } => {
            assert_eq!(*index, 0);
            assert_eq!(name, "GeForce RTX 3080");
            assert_eq!(*vram_total, 10 * GIB);
            assert_eq!(*vram_free, 9 * GIB);
        }
        other => panic!("expected a CUDA device, got {other:?}"),
    }
    match &devices[1] {
        GpuDevice::Rocm { index, name, vram_total, vram_free, is_apu } => {
            assert_eq!(*index, 0);
            assert_eq!(name, "Radeon 780M");
            assert!(*is_apu);
            assert_eq!(*vram_total, 32_000_000 * 1024);
            assert_eq!(*vram_free, 16_000_000 * 1024);
        }
        other => panic!("expected a ROCm device, got {other:?}"),
    }
    assert!(matches!(devices[2], GpuDevice::Cpu));
}

#[test]
fn unknown_vendor_and_missing_names() {
    let intel = entry("card0", "0x8086");
    let nv = entry("card1", "0x10de");
    let devices = detect_devices(&scan(vec![intel, nv]));
    assert_eq!(devices.len(), 2);
    match &devices[0] {
        GpuDevice::Cuda { name, vram_total, vram_free, .. } => {
            assert_eq!(name, "NVIDIA GPU");
            assert_eq!(*vram_total, 0);
            assert_eq!(*vram_free, 0);
        }
        other => panic!("expected a CUDA device, got {other:?}"),
    }
}

#[test]
fn name_from_lspci_when_no_label() {
    let mut nv = entry("card0", "0x10de");
    nv.uevent = Some("DRIVER=nvidia\nPCI_SLOT_NAME=0000:01:00.0\n".to_string());
    nv.lspci = Some("01:00.0 VGA compatible controller: NVIDIA Corporation GA102 [GeForce RTX 3080] (rev a1)\n".to_string());
    let devices = detect_devices(&scan(vec![nv]));
    assert_eq!(devices[0].device_name(), "CUDA:0 (NVIDIA Corporation GA102 [GeForce RTX 3080])");
}

#[test]
fn pci_slot_from_uevent() {
    let uevent = Some("DRIVER=amdgpu\nPCI_SLOT_NAME=0000:03:00.0\nMODALIAS=x".to_string());
    assert_eq!(pci_slot_name(&uevent), Some("0000:03:00.0".to_string()));
    assert_eq!(pci_slot_name(&Some("DRIVER=amdgpu".to_string())), None);
    assert_eq!(pci_slot_name(&None), None);
}

#[test]
fn best_device_is_first_gpu() {
    let mut amd = entry("card0", "0x1002");
    amd.label = Some("RX 7900".to_string());
    amd.vram_total = Some("8589934592".to_string());
    amd.vram_used = Some("0".to_string());
    let best = best_device(&scan(vec![amd]));
    assert_eq!(best.device_name(), "ROCm:0 (RX 7900)");
    assert!(matches!(best_device(&scan(vec![])), GpuDevice::Cpu));
}

#[test]
fn summary_lists_gpus() {
    assert_eq!(device_summary(&scan(vec![])), "CPU only (no GPU detected)");
    let mut nv = entry("card0", "0x10de");
    nv.label = Some("A".to_string());
    let mut nv2 = entry("card1", "0x10de");
    nv2.label = Some("B".to_string());
    assert_eq!(device_summary(&scan(vec![nv, nv2])), "2 GPU(s): CUDA:0 (A), CUDA:1 (B)");
}

#[test]
fn nvml_replaces_sysfs_cuda_entries() {
    let mut nv = entry("card0", "0x10de");
    nv.label = Some("sysfs name".to_string());
    let mut s = scan(vec![nv]);
    s.nvml = Some(vec![NvmlDevice { name: "NVML name".to_string(), vram_total: 10, vram_free: 5 }]);
    let devices = detect_devices(&s);
    assert_eq!(devices.len(), 2);
    assert_eq!(devices[0].device_name(), "CUDA:0 (NVML name)");
}

#[test]
fn metal_on_macos() {
    let s = HostScan { is_linux: false, drm_entries: vec![], meminfo: None, metal_memsize: Some("17179869184\n".to_string()), nvml: None };
    let devices = detect_devices(&s);
    assert_eq!(devices.len(), 2);
    assert_eq!(devices[0].device_name(), "Metal (16GB unified)");
}

#[test]
fn memory_from_meminfo() {
    let m = Some(meminfo());
    assert_eq!(system_memory_total(&m), 32_000_000 * 1024);
    assert_eq!(system_memory_available(&m), 16_000_000 * 1024);
    assert_eq!(system_memory_total(&None), 0);
}

#[test]
fn device_list_shape_with_mixed_cards() {
    let nv0 = entry("card0", "0x10de");
    let amd0 = entry("card1", "0x1002");
    let nv1 = entry("card2", "0x10de");
    let amd1 = entry("card3", "0x1002");
    let mut s = scan(vec![nv0, amd0, nv1, amd1]);
    s.metal_memsize = None;
    let devices = detect_devices(&s);
    assert_eq!(devices.len(), 5);
    assert!(matches!(devices[4], GpuDevice::Cpu));
    assert!(devices[..4].iter().all(|d| d.is_gpu()));
    assert!(matches!(devices[0], GpuDevice::Cuda { index: 0, .. }));
    assert!(matches!(devices[1], GpuDevice::Rocm { index: 0, .. }));
    assert!(matches!(devices[2], GpuDevice::Cuda { index: 1, .. }));
    assert!(matches!(devices[3], GpuDevice::Rocm { index: 1, .. }));
    assert!(!devices.iter().any(|d| matches!(d, GpuDevice::Metal { .. })));
}

#[test]
fn device_list_shape_with_nvml() {
    let mut s = scan(vec![entry("card0", "0x10de"), entry("card1", "0x1002")]);
    s.nvml = Some(vec![
        NvmlDevice { name: "A".to_string(), vram_total: 10, vram_free: 5 },
        NvmlDevice { name: "B".to_string(), vram_total: 20, vram_free: 7 },
    ]);
    let devices = detect_devices(&s);
    assert_eq!(devices.len(), 4);
    assert!(matches!(devices[0], GpuDevice::Rocm { index: 0, .. }));
    assert!(matches!(devices[1], GpuDevice::Cuda { index: 0, .. }));
    assert!(matches!(devices[2], GpuDevice::Cuda { index: 1, vram_total: 20, vram_free: 7, .. }));
    assert_eq!(devices[2].device_name(), "CUDA:1 (B)");
    assert!(matches!(devices[3], GpuDevice::Cpu));
}
