use zonky::gpu::{DrmEntry, HostScan};
use zonky::setup::{check_amd_setup, check_metal_setup, check_nvidia_setup, check_setup, detect_distro, install_command, install_outcome, needs_reboot_for_groups, nothing_to_install, rocm_install_cmd, user_in_group, SetupProbe};

fn probe() -> SetupProbe {
    SetupProbe {
        dev_kfd: false,
        opt_rocm: false,
        hip_opt_lib: false,
        hip_usr_lib: false,
        hipblas_lib: false,
        dev_nvidia0: false,
        usr_local_cuda: false,
        cublas_cuda_lib: false,
        cublas_usr_lib: false,
        which_rocminfo: false,
        which_hipcc: false,
        which_nvidia_smi: false,
        which_nvcc: false,
        which_gcc: true,
        which_cc: false,
        which_cmake: true,
        which_pkg_config: true,
        pkg_hipblas: false,
        pkg_cublas: false,
        os_release: Some("NAME=\"Ubuntu\"\nID=ubuntu\nVERSION_ID=\"24.04\"\n".to_string()),
        user: Some("alice".to_string()),
        session_groups: Some("alice adm sudo".to_string()),
        etc_group: Some("render:x:109:\nvideo:x:44:\n".to_string()),
    }
}

fn ready_amd_probe() -> SetupProbe {
    let mut p = probe();
    p.dev_kfd = true;
    p.opt_rocm = true;
    p.which_rocminfo = true;
    p.which_hipcc = true;
    p.hipblas_lib = true;
    p.session_groups = Some("alice render video".to_string());
    p
}

#[test]
fn amd_missing_everything() {
    let s = check_amd_setup("Radeon RX 7900", &probe());
    assert_eq!(s.gpu_vendor, "AMD");
    assert_eq!(s.gpu_name, "Radeon RX 7900");
    assert!(!s.compute_ready);
    assert!(!s.needs_reboot);
    let names: Vec<&str> = s.deps.iter().map(|d| d.name.as_str()).collect();
    assert_eq!(names, vec!["amdgpu kernel driver", "rocm-dev", "rocminfo", "hip-runtime-amd", "hipblas-dev", "GPU group membership", "gcc", "cmake", "pkg-config"]);
    assert_eq!(s.summary, "6 missing dependency(ies). Run `zonky setup --install` to install them.");
    let groups = &s.deps[5];
    assert_eq!(groups.install_cmd.as_deref(), Some("sudo usermod -aG render alice && sudo usermod -aG video alice"));
    assert_eq!(
        install_command(&s),
        Some("sudo apt install -y linux-modules-extra-$(uname -r) rocm-dev rocminfo hip-runtime-amd hipblas-dev && sudo usermod -aG render alice && sudo usermod -aG video alice".to_string())
    );
}

#[test]
fn amd_ready() {
    let s = check_amd_setup("gpu", &ready_amd_probe());
    assert!(s.compute_ready);
    assert!(s.deps.iter().all(|d| d.installed));
    assert_eq!(s.summary, "All AMD ROCm dependencies are installed. GPU compute is ready.");
    assert_eq!(install_command(&s), None);
}

#[test]
fn amd_reboot_after_group_change() {
    let mut p = ready_amd_probe();
    p.session_groups = Some("alice".to_string());
    p.etc_group = Some("render:x:109:alice\nvideo:x:44:bob,alice\n".to_string());
    assert!(user_in_group(&p, "render"));
    assert!(needs_reboot_for_groups(&p));
    let s = check_amd_setup("gpu", &p);
    assert!(s.needs_reboot);
    assert!(!s.compute_ready);
    assert_eq!(s.summary, "Group membership changed — reboot required to activate GPU access.");
}

#[test]
fn nvidia_partial() {
    let mut p = probe();
    p.which_nvidia_smi = true;
    p.which_gcc = false;
    let s = check_nvidia_setup("RTX", &p);
    assert_eq!(s.gpu_vendor, "NVIDIA");
    assert!(!s.needs_reboot);
    assert!(!s.compute_ready);
    assert_eq!(s.summary, "3 missing dependency(ies). Run `zonky setup --install` to install them.");
    assert_eq!(install_command(&s), Some("sudo apt install -y nvidia-cuda-toolkit libcublas-dev build-essential".to_string()));
}

#[test]
fn metal_needs_nothing() {
    let s = check_metal_setup();
    assert!(s.compute_ready);
    assert!(s.deps.is_empty());
    assert_eq!(s.gpu_vendor, "Apple");
    assert_eq!(install_command(&s), None);
}

#[test]
fn no_gpu_status() {
    let scan = HostScan { is_linux: true, drm_entries: vec![], meminfo: None, metal_memsize: None, nvml: None };
    let s = check_setup(&scan, &probe());
    assert_eq!(s.gpu_vendor, "None");
    assert_eq!(s.gpu_name, "No GPU detected");
    assert!(!s.compute_ready);
    assert_eq!(s.summary, "No GPU hardware found. CPU inference will be used.");
}

#[test]
fn setup_follows_first_gpu() {
    let e = DrmEntry {
        name: "card0".to_string(),
        vendor: Some("0x1002".to_string()),
        label: Some("Radeon".to_string()),
        uevent: None,
        lspci: None,
        vram_total: Some("1024".to_string()),
        vram_used: Some("0".to_string()),
    };
    let scan = HostScan { is_linux: true, drm_entries: vec![e], meminfo: None, metal_memsize: None, nvml: None };
    let s = check_setup(&scan, &ready_amd_probe());
    assert_eq!(s.gpu_vendor, "AMD");
    assert_eq!(s.gpu_name, "Radeon");
    assert!(s.compute_ready);
}

#[test]
fn distro_detection() {
    assert_eq!(detect_distro(&probe().os_release), "ubuntu");
    assert_eq!(detect_distro(&Some("ID=\"fedora\"\n".to_string())), "fedora");
    assert_eq!(detect_distro(&Some("NAME=x\n".to_string())), "unknown");
    assert_eq!(detect_distro(&None), "unknown");
    assert_eq!(rocm_install_cmd("arch"), "apt:rocm-dev");
}

#[test]
fn install_results() {
    assert_eq!(install_outcome(true, Some(0), "out", "err"), Ok("out\nerr".to_string()));
    assert_eq!(install_outcome(false, Some(100), "", "E: no"), Err("Install failed (exit code 100):\nE: no".to_string()));
    assert_eq!(install_outcome(false, None, "", "killed"), Err("Install failed (exit code -1):\nkilled".to_string()));
    assert_eq!(nothing_to_install(), "Nothing to install — all dependencies satisfied.");
}
