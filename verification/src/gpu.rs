//! Compute devices: what the library knows of a GPU, and how the devices of a
//! host are derived from what its kernel interfaces report.
use vstd::prelude::*;
use vstd::string::*;

use crate::text::{
    chars_of, contains, contains_char, decimal, decimal_exec, extend_chars, extend_str, join, join_exec, lemma_pieces_push, lemma_split_nonempty, lines, lines_exec, opt_chars, opt_str, owned, parse_u64, parse_u64_exec, pieces, split, split_exec, starts_with, starts_with_exec, string_of, trim, trim_exec, trim_start_matches, trim_start_matches_exec, words, words_exec,
};

verus! {

broadcast use vstd::seq_lib::group_seq_properties;

/// Detected GPU device information.
#[derive(Debug, Clone)]
pub enum GpuDevice {
    Cuda { index: usize, name: String, vram_total: u64, vram_free: u64 },
    Rocm {
        index: usize,
        name: String,
        vram_total: u64,
        vram_free: u64,
        /// true if this is an APU sharing system memory
        is_apu: bool,
    },
    Metal { unified_memory: u64 },
    Cpu,
}

/// The mathematical value of a [`GpuDevice`].
pub enum DeviceView {
    Cuda { index: usize, name: Seq<char>, vram_total: u64, vram_free: u64 },
    Rocm { index: usize, name: Seq<char>, vram_total: u64, vram_free: u64, is_apu: bool },
    Metal { unified_memory: u64 },
    Cpu,
}

impl View for GpuDevice {
    type V = DeviceView;

    open spec fn view(&self) -> DeviceView {
        match self {
            GpuDevice::Cuda { index, name, vram_total, vram_free } => DeviceView::Cuda {
                index: *index,
                name: name@,
                vram_total: *vram_total,
                vram_free: *vram_free,
            },
            GpuDevice::Rocm { index, name, vram_total, vram_free, is_apu } => DeviceView::Rocm {
                index: *index,
                name: name@,
                vram_total: *vram_total,
                vram_free: *vram_free,
                is_apu: *is_apu,
            },
            GpuDevice::Metal { unified_memory } => DeviceView::Metal {
                unified_memory: *unified_memory,
            },
            GpuDevice::Cpu => DeviceView::Cpu,
        }
    }
}

pub open spec fn gib() -> u64 {
    1073741824
}

/// The display name of a device.
pub open spec fn device_name_of(d: DeviceView) -> Seq<char> {
    match d {
        DeviceView::Cuda { index, name, .. } => "CUDA:"@ + decimal(index as nat) + " ("@ + name
            + ")"@,
        DeviceView::Rocm { index, name, is_apu, .. } => "ROCm:"@ + decimal(index as nat) + " ("@
            + name + (if is_apu {
            " [APU]"@
        } else {
            ""@
        }) + ")"@,
        DeviceView::Metal { unified_memory } => "Metal ("@ + decimal((unified_memory / gib()) as nat)
            + "GB unified)"@,
        DeviceView::Cpu => "CPU"@,
    }
}

pub open spec fn vram_free_of(d: DeviceView) -> u64 {
    match d {
        DeviceView::Cuda { vram_free, .. } => vram_free,
        DeviceView::Rocm { vram_free, .. } => vram_free,
        DeviceView::Metal { unified_memory } => unified_memory / 2,
        DeviceView::Cpu => 0,
    }
}

pub open spec fn vram_total_of(d: DeviceView) -> u64 {
    match d {
        DeviceView::Cuda { vram_total, .. } => vram_total,
        DeviceView::Rocm { vram_total, .. } => vram_total,
        DeviceView::Metal { unified_memory } => unified_memory,
        DeviceView::Cpu => 0,
    }
}

pub open spec fn is_gpu_of(d: DeviceView) -> bool {
    !(d is Cpu)
}

pub open spec fn vendor_of(d: DeviceView) -> Seq<char> {
    match d {
        DeviceView::Cuda { .. } => "NVIDIA"@,
        DeviceView::Rocm { .. } => "AMD"@,
        DeviceView::Metal { .. } => "Apple"@,
        DeviceView::Cpu => "CPU"@,
    }
}

impl GpuDevice {
    /// A copy of the device.
    pub fn duplicate(&self) -> (r: GpuDevice)
        ensures
            r@ == self@,
    {
        match self {
            GpuDevice::Cuda { index, name, vram_total, vram_free } => GpuDevice::Cuda {
                index: *index,
                name: name.clone(),
                vram_total: *vram_total,
                vram_free: *vram_free,
            },
            GpuDevice::Rocm { index, name, vram_total, vram_free, is_apu } => GpuDevice::Rocm {
                index: *index,
                name: name.clone(),
                vram_total: *vram_total,
                vram_free: *vram_free,
                is_apu: *is_apu,
            },
            GpuDevice::Metal { unified_memory } => GpuDevice::Metal {
                unified_memory: *unified_memory,
            },
            GpuDevice::Cpu => GpuDevice::Cpu,
        }
    }

    /// Display name: `CUDA:<index> (<name>)`, `ROCm:<index> (<name>[ [APU]])`,
    /// `Metal (<GiB>GB unified)` or `CPU`.
    pub fn device_name(&self) -> (r: String)
        ensures
            r@ == device_name_of(self@),
    {
        let mut v: Vec<char> = Vec::new();
        match self {
            GpuDevice::Cuda { index, name, .. } => {
                extend_str(&mut v, "CUDA:");
                let d = decimal_exec(*index as u64);
                extend_chars(&mut v, &d);
                extend_str(&mut v, " (");
                extend_str(&mut v, name.as_str());
                extend_str(&mut v, ")");
            },
            GpuDevice::Rocm { index, name, is_apu, .. } => {
                extend_str(&mut v, "ROCm:");
                let d = decimal_exec(*index as u64);
                extend_chars(&mut v, &d);
                extend_str(&mut v, " (");
                extend_str(&mut v, name.as_str());
                if *is_apu {
                    extend_str(&mut v, " [APU]");
                } else {
                    extend_str(&mut v, "");
                }
                extend_str(&mut v, ")");
            },
            GpuDevice::Metal { unified_memory } => {
                extend_str(&mut v, "Metal (");
                let d = decimal_exec(*unified_memory / 1073741824);
                extend_chars(&mut v, &d);
                extend_str(&mut v, "GB unified)");
            },
            GpuDevice::Cpu => {
                extend_str(&mut v, "CPU");
            },
        }
        let r = string_of(&v);
        assert(r@ =~= device_name_of(self@));
        r
    }

    /// Free memory usable for model weights: half of the unified memory on
    /// Metal, none on the CPU.
    pub fn vram_free(&self) -> (r: u64)
        ensures
            r == vram_free_of(self@),
    {
        match self {
            GpuDevice::Cuda { vram_free, .. } => *vram_free,
            GpuDevice::Rocm { vram_free, .. } => *vram_free,
            GpuDevice::Metal { unified_memory } => *unified_memory / 2,
            GpuDevice::Cpu => 0,
        }
    }

    pub fn vram_total(&self) -> (r: u64)
        ensures
            r == vram_total_of(self@),
    {
        match self {
            GpuDevice::Cuda { vram_total, .. } => *vram_total,
            GpuDevice::Rocm { vram_total, .. } => *vram_total,
            GpuDevice::Metal { unified_memory } => *unified_memory,
            GpuDevice::Cpu => 0,
        }
    }

    pub fn is_gpu(&self) -> (r: bool)
        ensures
            r == is_gpu_of(self@),
    {
        match self {
            GpuDevice::Cpu => false,
            _ => true,
        }
    }

    pub fn vendor(&self) -> (r: &'static str)
        ensures
            r@ == vendor_of(self@),
    {
        match self {
            GpuDevice::Cuda { .. } => "NVIDIA",
            GpuDevice::Rocm { .. } => "AMD",
            GpuDevice::Metal { .. } => "Apple",
            GpuDevice::Cpu => "CPU",
        }
    }
}

// ---------------------------------------------------------------------------
// What the host reports
// ---------------------------------------------------------------------------

/// One entry of `/sys/class/drm`, with the contents of the files that
/// detection reads (each `None` when the file could not be read).
pub struct DrmEntry {
    /// The entry's file name (`card0`, `renderD128`, ...).
    pub name: String,
    /// `device/vendor`
    pub vendor: Option<String>,
    /// `device/label`
    pub label: Option<String>,
    /// `device/uevent`
    pub uevent: Option<String>,
    /// Output of `lspci -s <slot>` for the slot named in `uevent`.
    pub lspci: Option<String>,
    /// `device/mem_info_vram_total`
    pub vram_total: Option<String>,
    /// `device/mem_info_vram_used`
    pub vram_used: Option<String>,
}

/// Everything device detection reads from the host.
pub struct HostScan {
    /// Whether the host is Linux (sysfs is scanned only there).
    pub is_linux: bool,
    /// Entries of `/sys/class/drm` in directory order.
    pub drm_entries: Vec<DrmEntry>,
    /// Contents of `/proc/meminfo`.
    pub meminfo: Option<String>,
    /// Output of `sysctl -n hw.memsize` on macOS.
    pub metal_memsize: Option<String>,
    /// What NVML reported of each device, in index order, when that query
    /// ran and succeeded.
    pub nvml: Option<Vec<NvmlDevice>>,
}

/// What NVML reports of one device: its name and memory figures.
pub struct NvmlDevice {
    pub name: String,
    pub vram_total: u64,
    pub vram_free: u64,
}

// --- sysfs file contents ---

/// `read_sysfs_string`: the trimmed contents, unless empty.
pub open spec fn sysfs_string(c: Option<Seq<char>>) -> Option<Seq<char>> {
    match c {
        Some(s) => if trim(s).len() == 0 {
            None
        } else {
            Some(trim(s))
        },
        None => None,
    }
}

/// `read_sysfs_u64`: the trimmed contents read as a decimal number.
pub open spec fn sysfs_u64(c: Option<Seq<char>>) -> Option<u64> {
    match c {
        Some(s) => parse_u64(trim(s), 10),
        None => None,
    }
}

/// `read_sysfs_hex`: the trimmed contents without leading `0x`, read as
/// hexadecimal.
pub open spec fn sysfs_hex(c: Option<Seq<char>>) -> Option<u64> {
    match c {
        Some(s) => parse_u64(trim_start_matches(trim(s), "0x"@), 16),
        None => None,
    }
}

pub fn sysfs_string_exec(c: &Option<String>) -> (r: Option<Vec<char>>)
    ensures
        opt_chars(r) == sysfs_string(opt_str(*c)),
{
    match c {
        Some(s) => {
            let v = chars_of(s.as_str());
            let t = trim_exec(&v);
            if t.len() == 0 {
                None
            } else {
                Some(t)
            }
        },
        None => None,
    }
}

pub fn sysfs_u64_exec(c: &Option<String>) -> (r: Option<u64>)
    ensures
        r == sysfs_u64(opt_str(*c)),
{
    match c {
        Some(s) => {
            let v = chars_of(s.as_str());
            let t = trim_exec(&v);
            parse_u64_exec(&t, 10)
        },
        None => None,
    }
}

pub fn sysfs_hex_exec(c: &Option<String>) -> (r: Option<u64>)
    ensures
        r == sysfs_hex(opt_str(*c)),
{
    match c {
        Some(s) => {
            let v = chars_of(s.as_str());
            let t = trim_exec(&v);
            let p = chars_of("0x");
            let u = trim_start_matches_exec(&t, &p);
            parse_u64_exec(&u, 16)
        },
        None => None,
    }
}

/// The first line of `text` that starts with `key`.
pub open spec fn first_line_with(ls: Seq<Seq<char>>, key: Seq<char>, i: int) -> Option<Seq<char>>
    decreases ls.len() - i,
{
    if i < 0 || i >= ls.len() {
        None
    } else if starts_with(ls[i], key) {
        Some(ls[i])
    } else {
        first_line_with(ls, key, i + 1)
    }
}

pub fn first_line_with_exec(ls: &Vec<Vec<char>>, key: &Vec<char>) -> (r: Option<Vec<char>>)
    ensures
        opt_chars(r) == first_line_with(pieces(ls), key@, 0),
{
    let mut i: usize = 0;
    while i < ls.len()
        invariant
            i <= ls.len(),
            first_line_with(pieces(ls), key@, 0) == first_line_with(pieces(ls), key@, i as int),
        decreases ls.len() - i,
    {
        assert(pieces(ls)[i as int] == ls@[i as int]@);
        if starts_with_exec(&ls[i], key) {
            return Some(ls[i].clone());
        }
        i = i + 1;
    }
    None
}

/// The PCI slot named by a `uevent` file (`PCI_SLOT_NAME=...`).
pub open spec fn pci_slot(uevent: Option<Seq<char>>) -> Option<Seq<char>> {
    match sysfs_string(uevent) {
        Some(s) => match first_line_with(lines(s), "PCI_SLOT_NAME="@, 0) {
            Some(l) => Some(trim_start_matches(l, "PCI_SLOT_NAME="@)),
            None => None,
        },
        None => None,
    }
}

/// The PCI slot named by a `uevent` file's contents.
pub fn pci_slot_name(uevent: &Option<String>) -> (r: Option<String>)
    ensures
        opt_str(r) == pci_slot(opt_str(*uevent)),
{
    match sysfs_string_exec(uevent) {
        Some(s) => {
            let ls = lines_exec(&s);
            let key = chars_of("PCI_SLOT_NAME=");
            match first_line_with_exec(&ls, &key) {
                Some(l) => {
                    let t = trim_start_matches_exec(&l, &key);
                    Some(string_of(&t))
                },
                None => None,
            }
        },
        None => None,
    }
}

/// The device name in `lspci -s <slot>` output: the text after the first
/// `": "`, trimmed, up to ` (rev`, trimmed again.
pub open spec fn lspci_name(out: Seq<char>) -> Option<Seq<char>> {
    let parts = split(out, ": "@);
    if parts.len() < 2 {
        None
    } else {
        let tail = split(parts[1], ": "@).last();
        let name = trim(tail);
        Some(trim(split(name, " (rev"@)[0]))
    }
}


pub fn lspci_name_exec(out: &Vec<char>) -> (r: Option<Vec<char>>)
    ensures
        opt_chars(r) == lspci_name(out@),
{
    let sep = chars_of(": ");
    proof {
        reveal_strlit(": ");
        reveal_strlit(" (rev");
    }
    let parts = split_exec(out, &sep);
    if parts.len() < 2 {
        return None;
    }
    assert(pieces(&parts)[1] == parts@[1]@);
    let inner = split_exec(&parts[1], &sep);
    proof {
        lemma_split_nonempty(parts@[1]@, sep@);
    }
    let tail = &inner[inner.len() - 1];
    assert(pieces(&inner).last() == tail@);
    let name = trim_exec(tail);
    let rev = chars_of(" (rev");
    let before = split_exec(&name, &rev);
    proof {
        lemma_split_nonempty(name@, rev@);
    }
    assert(pieces(&before)[0] == before@[0]@);
    Some(trim_exec(&before[0]))
}

/// The name shown for a GPU: its `label`, else its PCI name, else `default`.
pub open spec fn gpu_label(e: DrmEntry, default: Seq<char>) -> Seq<char> {
    match sysfs_string(opt_str(e.label)) {
        Some(l) => l,
        None => match pci_slot(opt_str(e.uevent)) {
            Some(_) => match opt_str(e.lspci) {
                Some(out) => match lspci_name(out) {
                    Some(n) => n,
                    None => default,
                },
                None => default,
            },
            None => default,
        },
    }
}

fn gpu_label_exec(e: &DrmEntry, default: &str) -> (r: String)
    ensures
        r@ == gpu_label(*e, default@),
{
    match sysfs_string_exec(&e.label) {
        Some(l) => string_of(&l),
        None => match pci_slot_name(&e.uevent) {
            Some(_) => match &e.lspci {
                Some(out) => {
                    let o = chars_of(out.as_str());
                    match lspci_name_exec(&o) {
                        Some(n) => string_of(&n),
                        None => owned(default),
                    }
                },
                None => owned(default),
            },
            None => owned(default),
        },
    }
}

/// A memory figure of `/proc/meminfo` in bytes: the number after `key` on the
/// first line that starts with it, times 1024 (kept modulo 2^64), or 0.
pub open spec fn meminfo_bytes(meminfo: Option<Seq<char>>, key: Seq<char>) -> u64 {
    let kb: u64 = match sysfs_string(meminfo) {
        Some(s) => match first_line_with(lines(s), key, 0) {
            Some(l) => if words(l).len() > 1 {
                match parse_u64(words(l)[1], 10) {
                    Some(v) => v,
                    None => 0,
                }
            } else {
                0
            },
            None => 0,
        },
        None => 0,
    };
    ((kb % 0x40_0000_0000_0000) * 1024) as u64
}

pub fn meminfo_bytes_exec(meminfo: &Option<String>, key: &str) -> (r: u64)
    ensures
        r == meminfo_bytes(opt_str(*meminfo), key@),
{
    let k = chars_of(key);
    let kb: u64 = match sysfs_string_exec(meminfo) {
        Some(s) => {
            let ls = lines_exec(&s);
            match first_line_with_exec(&ls, &k) {
                Some(l) => {
                    let ws = words_exec(&l);
                    if ws.len() > 1 {
                        assert(pieces(&ws)[1] == ws@[1]@);
                        match parse_u64_exec(&ws[1], 10) {
                            Some(v) => v,
                            None => 0,
                        }
                    } else {
                        0
                    }
                },
                None => 0,
            }
        },
        None => 0,
    };
    (kb % 0x40_0000_0000_0000) * 1024
}

// --- per-vendor device records ---

pub open spec fn sat_sub(a: u64, b: u64) -> u64 {
    if a >= b {
        (a - b) as u64
    } else {
        0
    }
}

pub open spec fn nvidia_device(e: DrmEntry, index: usize) -> DeviceView {
    let total = match sysfs_u64(opt_str(e.vram_total)) {
        Some(v) => v,
        None => 0,
    };
    let used = match sysfs_u64(opt_str(e.vram_used)) {
        Some(v) => v,
        None => 0,
    };
    DeviceView::Cuda {
        index,
        name: gpu_label(e, "NVIDIA GPU"@),
        vram_total: total,
        vram_free: sat_sub(total, used),
    }
}

pub open spec fn amd_device(e: DrmEntry, index: usize, meminfo: Option<Seq<char>>) -> DeviceView {
    let total = match sysfs_u64(opt_str(e.vram_total)) {
        Some(v) => v,
        None => 0,
    };
    let used = match sysfs_u64(opt_str(e.vram_used)) {
        Some(v) => v,
        None => 0,
    };
    let system = meminfo_bytes(meminfo, "MemTotal:"@);
    let is_apu = total == 0 || total > system / 2;
    DeviceView::Rocm {
        index,
        name: gpu_label(e, "AMD GPU"@),
        vram_total: if total > 0 {
            total
        } else {
            system
        },
        vram_free: if total > 0 {
            sat_sub(total, used)
        } else {
            meminfo_bytes(meminfo, "MemAvailable:"@)
        },
        is_apu,
    }
}

/// `detect_nvidia_sysfs`: the CUDA device an NVIDIA DRM entry describes.
pub fn detect_nvidia_sysfs(e: &DrmEntry, index: usize) -> (r: GpuDevice)
    ensures
        r@ == nvidia_device(*e, index),
{
    let name = gpu_label_exec(e, "NVIDIA GPU");
    let total = match sysfs_u64_exec(&e.vram_total) {
        Some(v) => v,
        None => 0,
    };
    let used = match sysfs_u64_exec(&e.vram_used) {
        Some(v) => v,
        None => 0,
    };
    GpuDevice::Cuda { index, name, vram_total: total, vram_free: total.saturating_sub(used) }
}

/// `detect_amd_sysfs`: the ROCm device an AMD DRM entry describes; an APU
/// without dedicated memory reports the system memory as its pool.
pub fn detect_amd_sysfs(e: &DrmEntry, index: usize, meminfo: &Option<String>) -> (r: GpuDevice)
    ensures
        r@ == amd_device(*e, index, opt_str(*meminfo)),
{
    let name = gpu_label_exec(e, "AMD GPU");
    let total = match sysfs_u64_exec(&e.vram_total) {
        Some(v) => v,
        None => 0,
    };
    let used = match sysfs_u64_exec(&e.vram_used) {
        Some(v) => v,
        None => 0,
    };
    let system = system_memory_total(meminfo);
    let is_apu = total == 0 || total > system / 2;
    if total > 0 {
        GpuDevice::Rocm {
            index,
            name,
            vram_total: total,
            vram_free: total.saturating_sub(used),
            is_apu,
        }
    } else {
        let avail = system_memory_available(meminfo);
        GpuDevice::Rocm { index, name, vram_total: system, vram_free: avail, is_apu }
    }
}

/// Total system memory in bytes, from `/proc/meminfo`.
pub fn system_memory_total(meminfo: &Option<String>) -> (r: u64)
    ensures
        r == meminfo_bytes(opt_str(*meminfo), "MemTotal:"@),
{
    meminfo_bytes_exec(meminfo, "MemTotal:")
}

/// Available system memory in bytes, from `/proc/meminfo`.
pub fn system_memory_available(meminfo: &Option<String>) -> (r: u64)
    ensures
        r == meminfo_bytes(opt_str(*meminfo), "MemAvailable:"@),
{
    meminfo_bytes_exec(meminfo, "MemAvailable:")
}

// --- detection ---

/// A DRM entry that names a card (`cardN`, not a connector like `card0-DP-1`).
pub open spec fn is_card(name: Seq<char>) -> bool {
    starts_with(name, "card"@) && !name.contains('-')
}

pub open spec fn count_cuda(s: Seq<DeviceView>) -> nat
    decreases s.len(),
{
    if s.len() == 0 {
        0
    } else {
        count_cuda(s.drop_last()) + if s.last() is Cuda {
            1nat
        } else {
            0nat
        }
    }
}

pub open spec fn count_rocm(s: Seq<DeviceView>) -> nat
    decreases s.len(),
{
    if s.len() == 0 {
        0
    } else {
        count_rocm(s.drop_last()) + if s.last() is Rocm {
            1nat
        } else {
            0nat
        }
    }
}

/// Devices found in the first `n` DRM entries.
pub open spec fn sysfs_devices(scan: HostScan, n: int) -> Seq<DeviceView>
    decreases n,
{
    if n <= 0 || n > scan.drm_entries@.len() {
        seq![]
    } else {
        let prev = sysfs_devices(scan, n - 1);
        let e = scan.drm_entries@[n - 1];
        if !is_card(e.name@) {
            prev
        } else {
            let vendor = match sysfs_hex(opt_str(e.vendor)) {
                Some(v) => v,
                None => 0,
            };
            if vendor == 0x10de {
                prev.push(nvidia_device(e, count_cuda(prev) as usize))
            } else if vendor == 0x1002 {
                prev.push(amd_device(e, count_rocm(prev) as usize, opt_str(scan.meminfo)))
            } else {
                prev
            }
        }
    }
}

/// The devices other than CUDA ones.
pub open spec fn without_cuda(s: Seq<DeviceView>) -> Seq<DeviceView>
    decreases s.len(),
{
    if s.len() == 0 {
        seq![]
    } else if s.last() is Cuda {
        without_cuda(s.drop_last())
    } else {
        without_cuda(s.drop_last()).push(s.last())
    }
}

/// The CUDA devices NVML enumerated, each numbered by its position.
pub open spec fn nvml_views(l: Seq<NvmlDevice>) -> Seq<DeviceView> {
    Seq::new(
        l.len(),
        |i: int|
            DeviceView::Cuda {
                index: i as usize,
                name: l[i].name@,
                vram_total: l[i].vram_total,
                vram_free: l[i].vram_free,
            },
    )
}

pub open spec fn device_views(v: Seq<GpuDevice>) -> Seq<DeviceView> {
    v.map_values(|d: GpuDevice| d@)
}

/// All devices of a host: the GPUs found in sysfs (Linux), the Metal device
/// (macOS), NVML's CUDA devices in place of the sysfs ones when NVML
/// answered, and always the CPU last.
pub open spec fn host_devices(scan: HostScan) -> Seq<DeviceView> {
    let linux = if scan.is_linux {
        sysfs_devices(scan, scan.drm_entries@.len() as int)
    } else {
        seq![]
    };
    let with_metal = match opt_str(scan.metal_memsize) {
        Some(m) => match parse_u64(trim(m), 10) {
            Some(u) => linux.push(DeviceView::Metal { unified_memory: u }),
            None => linux,
        },
        None => linux,
    };
    let with_nvml = match scan.nvml {
        Some(list) => without_cuda(with_metal) + nvml_views(list@),
        None => with_metal,
    };
    with_nvml.push(DeviceView::Cpu)
}

proof fn lemma_views_push(before: Seq<GpuDevice>, after: Seq<GpuDevice>, d: GpuDevice)
    requires
        after == before.push(d),
    ensures
        device_views(after) == device_views(before).push(d@),
{
    assert(device_views(after) =~= device_views(before).push(d@));
}

fn sysfs_gpus(scan: &HostScan) -> (r: Vec<GpuDevice>)
    ensures
        device_views(r@) == sysfs_devices(*scan, scan.drm_entries@.len() as int),
{
    let mut devices: Vec<GpuDevice> = Vec::new();
    let mut cuda: usize = 0;
    let mut rocm: usize = 0;
    let mut i: usize = 0;
    let card = chars_of("card");
    while i < scan.drm_entries.len()
        invariant
            i <= scan.drm_entries.len(),
            card@ == "card"@,
            device_views(devices@) == sysfs_devices(*scan, i as int),
            cuda == count_cuda(device_views(devices@)),
            rocm == count_rocm(device_views(devices@)),
            cuda <= i,
            rocm <= i,
        decreases scan.drm_entries.len() - i,
    {
        let e = &scan.drm_entries[i];
        let name = chars_of(e.name.as_str());
        let ghost prev = device_views(devices@);
        if starts_with_exec(&name, &card) && !contains_char(&name, '-') {
            let vendor = match sysfs_hex_exec(&e.vendor) {
                Some(v) => v,
                None => 0,
            };
            if vendor == 0x10de {
                let d = detect_nvidia_sysfs(e, cuda);
                let ghost before = devices@;
                devices.push(d);
                proof {
                    lemma_views_push(before, devices@, d);
                    assert(device_views(devices@).drop_last() == prev);
                }
                cuda = cuda + 1;
            } else if vendor == 0x1002 {
                let d = detect_amd_sysfs(e, rocm, &scan.meminfo);
                let ghost before = devices@;
                devices.push(d);
                proof {
                    lemma_views_push(before, devices@, d);
                    assert(device_views(devices@).drop_last() == prev);
                }
                rocm = rocm + 1;
            }
        }
        i = i + 1;
    }
    devices
}

/// `detect_devices`: every compute device the host reports, the CPU last.
pub fn detect_devices(scan: &HostScan) -> (r: Vec<GpuDevice>)
    ensures
        device_views(r@) == host_devices(*scan),
{
    let mut devices: Vec<GpuDevice> = if scan.is_linux {
        sysfs_gpus(scan)
    } else {
        Vec::new()
    };
    assert(device_views(devices@) =~= (if scan.is_linux {
        sysfs_devices(*scan, scan.drm_entries@.len() as int)
    } else {
        seq![]
    }));
    match &scan.metal_memsize {
        Some(m) => {
            let v = chars_of(m.as_str());
            let t = trim_exec(&v);
            match parse_u64_exec(&t, 10) {
                Some(u) => {
                    let ghost before = devices@;
                    devices.push(GpuDevice::Metal { unified_memory: u });
                    proof {
                        lemma_views_push(before, devices@, GpuDevice::Metal { unified_memory: u });
                    }
                },
                None => {},
            }
        },
        None => {},
    }
    match &scan.nvml {
        Some(list) => {
            let mut kept: Vec<GpuDevice> = Vec::new();
            let mut i: usize = 0;
            while i < devices.len()
                invariant
                    i <= devices.len(),
                    device_views(kept@) == without_cuda(device_views(devices@.subrange(0, i as int))),
                decreases devices.len() - i,
            {
                let ghost pre = devices@.subrange(0, i as int);
                assert(devices@.subrange(0, i + 1) == pre.push(devices@[i as int]));
                assert(device_views(devices@.subrange(0, i + 1)) == device_views(pre).push(
                    devices@[i as int]@,
                )) by {
                    lemma_views_push(pre, devices@.subrange(0, i + 1), devices@[i as int]);
                }
                assert(device_views(devices@.subrange(0, i + 1)).drop_last() =~= device_views(pre));
                match &devices[i] {
                    GpuDevice::Cuda { .. } => {},
                    _ => {
                        let d = devices[i].duplicate();
                        let ghost before = kept@;
                        kept.push(d);
                        proof {
                            lemma_views_push(before, kept@, d);
                        }
                    },
                }
                i = i + 1;
            }
            assert(devices@.subrange(0, devices@.len() as int) =~= devices@);
            let mut j: usize = 0;
            let ghost base = device_views(kept@);
            while j < list.len()
                invariant
                    j <= list.len(),
                    device_views(kept@) == base + nvml_views(list@).subrange(0, j as int),
                decreases list.len() - j,
            {
                let d = GpuDevice::Cuda {
                    index: j,
                    name: list[j].name.clone(),
                    vram_total: list[j].vram_total,
                    vram_free: list[j].vram_free,
                };
                let ghost before = kept@;
                kept.push(d);
                proof {
                    lemma_views_push(before, kept@, d);
                    assert(nvml_views(list@).subrange(0, j + 1) =~= nvml_views(list@).subrange(
                        0,
                        j as int,
                    ).push(d@));
                }
                j = j + 1;
            }
            assert(nvml_views(list@).subrange(0, list@.len() as int) =~= nvml_views(list@));
            devices = kept;
        },
        None => {},
    }
    let ghost before = devices@;
    devices.push(GpuDevice::Cpu);
    proof {
        lemma_views_push(before, devices@, GpuDevice::Cpu);
    }
    devices
}

/// The first GPU of a list, or the CPU.
pub open spec fn first_gpu(s: Seq<DeviceView>) -> DeviceView
    decreases s.len(),
{
    if s.len() == 0 {
        DeviceView::Cpu
    } else if is_gpu_of(s[0]) {
        s[0]
    } else {
        first_gpu(s.drop_first())
    }
}

/// The first GPU among `devices`, or the CPU when there is none.
pub fn first_gpu_of(devices: &Vec<GpuDevice>) -> (r: GpuDevice)
    ensures
        r@ == first_gpu(device_views(devices@)),
{
    let mut i: usize = 0;
    assert(device_views(devices@).subrange(0, devices@.len() as int) =~= device_views(devices@));
    while i < devices.len()
        invariant
            i <= devices.len(),
            first_gpu(device_views(devices@)) == first_gpu(device_views(devices@).subrange(
                i as int,
                devices@.len() as int,
            )),
        decreases devices.len() - i,
    {
        let ghost rest = device_views(devices@).subrange(i as int, devices@.len() as int);
        assert(rest.drop_first() =~= device_views(devices@).subrange(i + 1, devices@.len() as int));
        assert(rest[0] == devices@[i as int]@);
        if devices[i].is_gpu() {
            return devices[i].duplicate();
        }
        i = i + 1;
    }
    GpuDevice::Cpu
}

/// `best_device`: the first GPU the host reports, or the CPU.
pub fn best_device(scan: &HostScan) -> (r: GpuDevice)
    ensures
        r@ == first_gpu(host_devices(*scan)),
{
    let devices = detect_devices(scan);
    first_gpu_of(&devices)
}

/// Display names of the GPUs of a device list, in order.
pub open spec fn gpu_names(s: Seq<DeviceView>) -> Seq<Seq<char>>
    decreases s.len(),
{
    if s.len() == 0 {
        seq![]
    } else if is_gpu_of(s.last()) {
        gpu_names(s.drop_last()).push(device_name_of(s.last()))
    } else {
        gpu_names(s.drop_last())
    }
}

/// The summary line of a device list.
pub open spec fn summary_of(s: Seq<DeviceView>) -> Seq<char> {
    let names = gpu_names(s);
    if names.len() == 0 {
        "CPU only (no GPU detected)"@
    } else {
        decimal(names.len()) + " GPU(s): "@ + join(names, ", "@)
    }
}

/// The summary line for a list of devices: how many GPUs and their names.
pub fn summary_of_devices(devices: &Vec<GpuDevice>) -> (r: String)
    ensures
        r@ == summary_of(device_views(devices@)),
{
    let mut names: Vec<Vec<char>> = Vec::new();
    let mut i: usize = 0;
    while i < devices.len()
        invariant
            i <= devices.len(),
            pieces(&names) == gpu_names(device_views(devices@.subrange(0, i as int))),
        decreases devices.len() - i,
    {
        let ghost pre = devices@.subrange(0, i as int);
        proof {
            assert(devices@.subrange(0, i + 1) =~= pre.push(devices@[i as int]));
            lemma_views_push(pre, devices@.subrange(0, i + 1), devices@[i as int]);
            assert(device_views(devices@.subrange(0, i + 1)).drop_last() =~= device_views(pre));
        }
        if devices[i].is_gpu() {
            let n = devices[i].device_name();
            let nv = chars_of(n.as_str());
            let ghost before = names@;
            names.push(nv);
            proof {
                lemma_pieces_push(before, names@, nv);
            }
        }
        i = i + 1;
    }
    assert(devices@.subrange(0, devices@.len() as int) =~= devices@);
    if names.len() == 0 {
        owned("CPU only (no GPU detected)")
    } else {
        let mut v = decimal_exec(names.len() as u64);
        extend_str(&mut v, " GPU(s): ");
        let sep = chars_of(", ");
        let j = join_exec(&names, &sep);
        extend_chars(&mut v, &j);
        string_of(&v)
    }
}

/// `device_summary`: a one-line summary of the host's compute devices.
pub fn device_summary(scan: &HostScan) -> (r: String)
    ensures
        r@ == summary_of(host_devices(*scan)),
{
    let devices = detect_devices(scan);
    summary_of_devices(&devices)
}


/// The best device (`best_device`, and `DeviceChoice::Auto`) is a GPU
/// exactly when some detected device is one, and then it is the first GPU
/// detected.
pub proof fn lemma_best_device_prefers_gpu(s: Seq<DeviceView>)
    ensures
        is_gpu_of(first_gpu(s)) <==> exists|i: int| 0 <= i < s.len() && is_gpu_of(#[trigger] s[i]),
        is_gpu_of(first_gpu(s)) ==> exists|j: int|
            0 <= j < s.len() && s[j] == first_gpu(s) && forall|k: int| 0 <= k < j ==> !is_gpu_of(#[trigger] s[k]),
        !is_gpu_of(first_gpu(s)) ==> first_gpu(s) == DeviceView::Cpu,
    decreases s.len(),
{
    if s.len() > 0 && !is_gpu_of(s[0]) {
        let t = s.drop_first();
        lemma_best_device_prefers_gpu(t);
        if exists|i: int| 0 <= i < s.len() && is_gpu_of(#[trigger] s[i]) {
            let i = choose|i: int| 0 <= i < s.len() && is_gpu_of(#[trigger] s[i]);
            assert(t[i - 1] == s[i]);
        }
        if is_gpu_of(first_gpu(t)) {
            let j = choose|j: int|
                0 <= j < t.len() && t[j] == first_gpu(t) && forall|k: int| 0 <= k < j ==> !is_gpu_of(#[trigger] t[k]);
            assert(s[j + 1] == first_gpu(s));
            assert forall|k: int| 0 <= k < j + 1 implies !is_gpu_of(#[trigger] s[k]) by {
                if k > 0 {
                    assert(s[k] == t[k - 1]);
                }
            }
            let i = choose|i: int| 0 <= i < t.len() && is_gpu_of(#[trigger] t[i]);
            assert(s[i + 1] == t[i]);
        }
    } else if s.len() > 0 {
        assert(is_gpu_of(s[0]));
    }
}


// --- the shape of the detected device list ---

/// Whether the entry at `i` is a GPU numbered in its kind: a CUDA (ROCm)
/// device's index is the number of CUDA (ROCm) devices before it.
pub open spec fn numbered_at(s: Seq<DeviceView>, i: int) -> bool {
    match s[i] {
        DeviceView::Cuda { index, .. } => index == count_cuda(s.take(i)),
        DeviceView::Rocm { index, .. } => index == count_rocm(s.take(i)),
        DeviceView::Metal { .. } => true,
        DeviceView::Cpu => false,
    }
}

/// Every entry is a GPU, and the CUDA and ROCm indices each count 0, 1, 2, …
/// in list order.
pub open spec fn gpus_numbered(s: Seq<DeviceView>) -> bool {
    forall|i: int| 0 <= i < s.len() ==> #[trigger] numbered_at(s, i)
}

/// CUDA devices whose indices are their positions.
pub open spec fn nvml_enumerated(l: Seq<DeviceView>) -> bool {
    forall|i: int|
        0 <= i < l.len() ==> (#[trigger] l[i] matches DeviceView::Cuda { index, .. } && index == i)
}

/// A Metal entry of the list carries the memory size the host reported.
pub open spec fn metal_reported(scan: HostScan, d: DeviceView) -> bool {
    d matches DeviceView::Metal { unified_memory } ==> (opt_str(scan.metal_memsize) matches Some(
        m,
    ) && parse_u64(trim(m), 10) == Some(unified_memory))
}

proof fn lemma_counts_le_len(s: Seq<DeviceView>)
    ensures
        count_cuda(s) <= s.len(),
        count_rocm(s) <= s.len(),
    decreases s.len(),
{
    if s.len() > 0 {
        lemma_counts_le_len(s.drop_last());
    }
}

proof fn lemma_counts_push(s: Seq<DeviceView>, d: DeviceView)
    ensures
        count_cuda(s.push(d)) == count_cuda(s) + (if d is Cuda { 1nat } else { 0nat }),
        count_rocm(s.push(d)) == count_rocm(s) + (if d is Rocm { 1nat } else { 0nat }),
{
    assert(s.push(d).drop_last() =~= s);
}

proof fn lemma_numbered_push(s: Seq<DeviceView>, d: DeviceView)
    requires
        gpus_numbered(s),
        !(d is Cpu),
        d matches DeviceView::Cuda { index, .. } ==> index == count_cuda(s),
        d matches DeviceView::Rocm { index, .. } ==> index == count_rocm(s),
    ensures
        gpus_numbered(s.push(d)),
{
    let t = s.push(d);
    assert forall|i: int| 0 <= i < t.len() implies #[trigger] numbered_at(t, i) by {
        if i < s.len() {
            assert(t.take(i) =~= s.take(i));
            assert(numbered_at(s, i));
        } else {
            assert(t.take(i) =~= s);
        }
    }
}

proof fn lemma_sysfs_numbered(scan: HostScan, n: int)
    ensures
        gpus_numbered(sysfs_devices(scan, n)),
        sysfs_devices(scan, n).len() <= (if n > 0 { n } else { 0 }),
        forall|i: int|
            0 <= i < sysfs_devices(scan, n).len() ==> !(#[trigger] sysfs_devices(scan, n)[i] is Metal),
    decreases n,
{
    if n > 0 && n <= scan.drm_entries@.len() {
        lemma_sysfs_numbered(scan, n - 1);
        let prev = sysfs_devices(scan, n - 1);
        let e = scan.drm_entries@[n - 1];
        lemma_counts_le_len(prev);
        assert(scan.drm_entries.len() == scan.drm_entries@.len());
        if is_card(e.name@) {
            let vendor = match sysfs_hex(opt_str(e.vendor)) {
                Some(v) => v,
                None => 0,
            };
            if vendor == 0x10de {
                let d = nvidia_device(e, count_cuda(prev) as usize);
                lemma_numbered_push(prev, d);
                assert(sysfs_devices(scan, n) == prev.push(d));
            } else if vendor == 0x1002 {
                let d = amd_device(e, count_rocm(prev) as usize, opt_str(scan.meminfo));
                lemma_numbered_push(prev, d);
                assert(sysfs_devices(scan, n) == prev.push(d));
            }
        }
    }
}

proof fn lemma_without_cuda(s: Seq<DeviceView>)
    requires
        gpus_numbered(s),
    ensures
        gpus_numbered(without_cuda(s)),
        count_cuda(without_cuda(s)) == 0,
        count_rocm(without_cuda(s)) == count_rocm(s),
        forall|i: int| 0 <= i < without_cuda(s).len() ==> s.contains(#[trigger] without_cuda(s)[i]),
    decreases s.len(),
{
    if s.len() > 0 {
        let t = s.drop_last();
        assert(gpus_numbered(t)) by {
            assert forall|i: int| 0 <= i < t.len() implies #[trigger] numbered_at(t, i) by {
                assert(numbered_at(s, i));
                assert(t.take(i) =~= s.take(i));
            }
        }
        lemma_without_cuda(t);
        lemma_counts_push(t, s.last());
        assert(t.push(s.last()) =~= s);
        let w = without_cuda(t);
        if !(s.last() is Cuda) {
            assert(numbered_at(s, s.len() - 1));
            assert(s.take(s.len() - 1) =~= t);
            lemma_numbered_push(w, s.last());
            lemma_counts_push(w, s.last());
            assert forall|i: int| 0 <= i < without_cuda(s).len() implies s.contains(
                #[trigger] without_cuda(s)[i],
            ) by {
                if i < w.len() {
                    assert(t.contains(w[i]));
                    let j = choose|j: int| 0 <= j < t.len() && t[j] == w[i];
                    assert(s[j] == w[i]);
                } else {
                    assert(s[s.len() - 1] == s.last());
                }
            }
        } else {
            assert forall|i: int| 0 <= i < w.len() implies s.contains(#[trigger] w[i]) by {
                assert(t.contains(w[i]));
                let j = choose|j: int| 0 <= j < t.len() && t[j] == w[i];
                assert(s[j] == w[i]);
            }
        }
    }
}

proof fn lemma_append_nvml(a: Seq<DeviceView>, l: Seq<DeviceView>, j: int)
    requires
        gpus_numbered(a),
        count_cuda(a) == 0,
        nvml_enumerated(l),
        0 <= j <= l.len(),
    ensures
        gpus_numbered(a + l.take(j)),
        count_cuda(a + l.take(j)) == j,
    decreases j,
{
    if j == 0 {
        assert(a + l.take(0) =~= a);
    } else {
        lemma_append_nvml(a, l, j - 1);
        let p = a + l.take(j - 1);
        assert(l[j - 1] matches DeviceView::Cuda { index, .. } && index == j - 1);
        lemma_numbered_push(p, l[j - 1]);
        lemma_counts_push(p, l[j - 1]);
        assert(p.push(l[j - 1]) =~= a + l.take(j));
    }
}

/// The devices `detect_devices` reports end with the CPU, which occurs
/// nowhere else, so every entry before it is a GPU; the CUDA devices are
/// numbered 0, 1, 2, … in list order, and so are the ROCm devices; and a
/// Metal device appears only when the host reported its memory size, and
/// then with that size.
pub proof fn lemma_detected_devices_shape(scan: HostScan)
    ensures
        host_devices(scan).len() >= 1,
        host_devices(scan).last() == DeviceView::Cpu,
        forall|i: int|
            0 <= i < host_devices(scan).len() - 1 ==> is_gpu_of(#[trigger] host_devices(scan)[i]),
        forall|i: int|
            0 <= i < host_devices(scan).len() && host_devices(scan)[i] == DeviceView::Cpu ==> i
                == host_devices(scan).len() - 1,
        forall|i: int|
            0 <= i < host_devices(scan).len() - 1 ==> #[trigger] numbered_at(host_devices(scan), i),
        forall|i: int|
            0 <= i < host_devices(scan).len() ==> metal_reported(scan, #[trigger] host_devices(scan)[i]),
{
    let linux = if scan.is_linux {
        sysfs_devices(scan, scan.drm_entries@.len() as int)
    } else {
        seq![]
    };
    lemma_sysfs_numbered(scan, scan.drm_entries@.len() as int);
    assert(gpus_numbered(linux));
    assert(forall|i: int| 0 <= i < linux.len() ==> !(#[trigger] linux[i] is Metal));
    let with_metal = match opt_str(scan.metal_memsize) {
        Some(m) => match parse_u64(trim(m), 10) {
            Some(u) => linux.push(DeviceView::Metal { unified_memory: u }),
            None => linux,
        },
        None => linux,
    };
    assert(gpus_numbered(with_metal)) by {
        match opt_str(scan.metal_memsize) {
            Some(m) => match parse_u64(trim(m), 10) {
                Some(u) => lemma_numbered_push(linux, DeviceView::Metal { unified_memory: u }),
                None => {},
            },
            None => {},
        }
    }
    assert(forall|i: int| 0 <= i < with_metal.len() ==> metal_reported(scan, #[trigger] with_metal[i]))
        by {
        assert forall|i: int| 0 <= i < with_metal.len() implies metal_reported(
            scan,
            #[trigger] with_metal[i],
        ) by {
            if i < linux.len() {
                assert(with_metal[i] == linux[i]);
            }
        }
    }
    let with_nvml = match scan.nvml {
        Some(list) => without_cuda(with_metal) + nvml_views(list@),
        None => with_metal,
    };
    assert(gpus_numbered(with_nvml) && forall|i: int|
        0 <= i < with_nvml.len() ==> metal_reported(scan, #[trigger] with_nvml[i])) by {
        match scan.nvml {
            Some(list) => {
                let w = without_cuda(with_metal);
                let l = nvml_views(list@);
                assert(list.len() == list@.len());
                assert(nvml_enumerated(l));
                lemma_without_cuda(with_metal);
                lemma_append_nvml(w, l, l.len() as int);
                assert(l.take(l.len() as int) =~= l);
                assert forall|i: int| 0 <= i < with_nvml.len() implies metal_reported(
                    scan,
                    #[trigger] with_nvml[i],
                ) by {
                    if i < w.len() {
                        assert(with_nvml[i] == w[i]);
                        assert(with_metal.contains(w[i]));
                        let j = choose|j: int| 0 <= j < with_metal.len() && with_metal[j] == w[i];
                        assert(metal_reported(scan, with_metal[j]));
                    } else {
                        assert(with_nvml[i] == l[i - w.len()]);
                        assert(l[i - w.len()] is Cuda);
                    }
                }
            },
            None => {},
        }
    }
    let r = with_nvml.push(DeviceView::Cpu);
    assert(host_devices(scan) == r);
    assert forall|i: int| 0 <= i < r.len() - 1 implies #[trigger] numbered_at(r, i) by {
        assert(numbered_at(with_nvml, i));
        assert(r.take(i) =~= with_nvml.take(i));
    }
    assert forall|i: int| 0 <= i < r.len() - 1 implies is_gpu_of(#[trigger] r[i]) by {
        assert(numbered_at(with_nvml, i));
    }
    assert forall|i: int| 0 <= i < r.len() && r[i] == DeviceView::Cpu implies i == r.len() - 1 by {
        if i < r.len() - 1 {
            assert(numbered_at(with_nvml, i));
        }
    }
}

// --- memory figures of sysfs-detected cards ---

/// An AMD card with dedicated memory (`mem_info_vram_total` reads `t > 0`)
/// is reported with that total, and with the part not in use as free:
/// `t - u` when `mem_info_vram_used` reads `u` (nothing when `u > t`), all of
/// `t` when the used figure cannot be read. Its index and label are the ones
/// given, and it is an APU only when `t` exceeds half the system memory.
pub proof fn lemma_amd_dedicated_vram(e: DrmEntry, index: usize, meminfo: Option<Seq<char>>, t: u64)
    requires
        sysfs_u64(opt_str(e.vram_total)) == Some(t),
        t > 0,
    ensures
        amd_device(e, index, meminfo) matches DeviceView::Rocm { index: i, name, vram_total, vram_free, is_apu }
            && i == index && name == gpu_label(e, "AMD GPU"@) && vram_total == t
            && vram_free <= t && is_apu == (t > meminfo_bytes(meminfo, "MemTotal:"@) / 2)
            && (sysfs_u64(opt_str(e.vram_used)) matches Some(u) ==> vram_free == (if u <= t {
            t - u
        } else {
            0
        })) && (sysfs_u64(opt_str(e.vram_used)) is None ==> vram_free == t),
{
}

/// An AMD card without dedicated memory is an APU whose pool is the system
/// memory: total from `MemTotal:`, free from `MemAvailable:`.
pub proof fn lemma_amd_shared_memory(e: DrmEntry, index: usize, meminfo: Option<Seq<char>>)
    requires
        !(sysfs_u64(opt_str(e.vram_total)) matches Some(t) && t > 0),
    ensures
        amd_device(e, index, meminfo) matches DeviceView::Rocm { index: i, vram_total, vram_free, is_apu, .. }
            && i == index && is_apu && vram_total == meminfo_bytes(meminfo, "MemTotal:"@)
            && vram_free == meminfo_bytes(meminfo, "MemAvailable:"@),
{
}

/// An NVIDIA card is reported with the total `mem_info_vram_total` reads (0
/// when unreadable) and as free the part of it not in use.
pub proof fn lemma_nvidia_vram(e: DrmEntry, index: usize)
    ensures
        nvidia_device(e, index) matches DeviceView::Cuda { index: i, name, vram_total, vram_free }
            && i == index && name == gpu_label(e, "NVIDIA GPU"@) && vram_free <= vram_total
            && (sysfs_u64(opt_str(e.vram_total)) matches Some(t) ==> vram_total == t)
            && (sysfs_u64(opt_str(e.vram_total)) is None ==> vram_total == 0)
            && (sysfs_u64(opt_str(e.vram_used)) matches Some(u) ==> vram_free == (if u <= vram_total {
            vram_total - u
        } else {
            0
        })) && (sysfs_u64(opt_str(e.vram_used)) is None ==> vram_free == vram_total),
{
}

} // verus!
