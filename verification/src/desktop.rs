//! The records the desktop shell hands to its web view, the memory figures it
//! reads, and the embedded server's switch.
use vstd::prelude::*;

use crate::gpu::{device_name_of, is_gpu_of, vendor_of, vram_free_of, vram_total_of, DeviceView, GpuDevice};
use crate::manager::InfoView;
use crate::setup::{dep_views, SetupStatus};
use crate::text::{
    chars_of, clone_opt, decimal, decimal_exec, extend_chars, extend_str, lines, lines_exec, opt_str,
    owned, parse_u64, parse_u64_exec, pieces, starts_with, starts_with_exec, string_of, words,
    words_exec,
};
use crate::types::{GenerationResponse, HubModelInfo, HubSibling, LocalModel, ModelInfo};

verus! {

#[derive(Debug)]
pub struct DeviceInfo {
    pub name: String,
    pub vendor: String,
    pub vram_total: u64,
    pub vram_free: u64,
    pub is_gpu: bool,
}

#[derive(Debug)]
pub struct SystemInfoResponse {
    pub devices: Vec<DeviceInfo>,
    pub total_memory: u64,
    pub available_memory: u64,
}

#[derive(Debug)]
pub struct SetupStatusResponse {
    pub gpu_vendor: String,
    pub gpu_name: String,
    pub compute_ready: bool,
    pub needs_reboot: bool,
    pub deps: Vec<DepInfo>,
    pub summary: String,
}

#[derive(Debug)]
pub struct DepInfo {
    pub name: String,
    pub description: String,
    pub installed: bool,
}

#[derive(Debug)]
pub struct LocalModelInfo {
    pub id: String,
    pub repo_id: String,
    pub filename: String,
    pub size: u64,
    pub path: String,
    pub compatible_backends: Vec<String>,
}

#[derive(Debug)]
pub struct SearchResult {
    pub model_id: String,
    pub author: Option<String>,
    pub downloads: u64,
    pub likes: u64,
}

#[derive(Debug)]
pub struct GgufFileInfo {
    pub filename: String,
    pub size: Option<u64>,
}

#[derive(Debug)]
pub struct ChatResponse {
    pub content: String,
    pub model: String,
    pub tokens_used: u32,
}

#[derive(Debug)]
pub struct LoadedModelInfo {
    pub id: String,
    pub backend: String,
    pub vram_usage: u64,
    pub loaded: bool,
}

#[derive(Debug)]
pub struct ServerStatusResponse {
    pub running: bool,
    pub host: String,
    pub port: u16,
    pub url: String,
}

// ---------------------------------------------------------------------------
// Devices and memory
// ---------------------------------------------------------------------------

/// The device record shown for one detected device.
pub open spec fn device_info_matches(i: DeviceInfo, d: DeviceView) -> bool {
    &&& i.name@ == device_name_of(d)
    &&& i.vendor@ == vendor_of(d)
    &&& i.vram_total == vram_total_of(d)
    &&& i.vram_free == vram_free_of(d)
    &&& i.is_gpu == is_gpu_of(d)
}

pub fn device_info(d: &GpuDevice) -> (r: DeviceInfo)
    ensures
        device_info_matches(r, d@),
{
    DeviceInfo {
        name: d.device_name(),
        vendor: owned(d.vendor()),
        vram_total: d.vram_total(),
        vram_free: d.vram_free(),
        is_gpu: d.is_gpu(),
    }
}

/// `get_devices`: one record per detected device, in order.
pub fn device_infos(devices: &Vec<GpuDevice>) -> (r: Vec<DeviceInfo>)
    ensures
        r@.len() == devices@.len(),
        forall|k: int| 0 <= k < devices@.len() ==> device_info_matches(#[trigger] r@[k], devices@[k]@),
{
    let mut out: Vec<DeviceInfo> = Vec::new();
    let mut i: usize = 0;
    while i < devices.len()
        invariant
            i <= devices.len(),
            out@.len() == i,
            forall|k: int| 0 <= k < i ==> device_info_matches(#[trigger] out@[k], devices@[k]@),
        decreases devices.len() - i,
    {
        out.push(device_info(&devices[i]));
        i = i + 1;
    }
    out
}

/// The kB figure of a `/proc/meminfo` line, in bytes (0 when it does not
/// parse; the product is kept modulo 2^64).
pub open spec fn line_bytes(line: Seq<char>) -> u64 {
    let kb: u64 = if words(line).len() > 1 {
        match parse_u64(words(line)[1], 10) {
            Some(v) => v,
            None => 0,
        }
    } else {
        0
    };
    ((kb % 0x40_0000_0000_0000) * 1024) as u64
}

/// The figure of the last of `ls[..n]` that starts with `key`, or 0: every
/// such line overwrites the one before.
pub open spec fn last_figure(ls: Seq<Seq<char>>, key: Seq<char>, n: int) -> u64
    decreases n,
{
    if n <= 0 {
        0
    } else if starts_with(ls[n - 1], key) {
        line_bytes(ls[n - 1])
    } else {
        last_figure(ls, key, n - 1)
    }
}

/// Total and available memory read from the text of `/proc/meminfo`.
pub open spec fn meminfo_of(content: Seq<char>) -> (u64, u64) {
    let ls = lines(content);
    (last_figure(ls, "MemTotal:"@, ls.len() as int), last_figure(ls, "MemAvailable:"@, ls.len() as int))
}

fn line_bytes_exec(line: &Vec<char>) -> (r: u64)
    ensures
        r == line_bytes(line@),
{
    let ws = words_exec(line);
    let kb: u64 = if ws.len() > 1 {
        assert(pieces(&ws)[1] == ws@[1]@);
        match parse_u64_exec(&ws[1], 10) {
            Some(v) => v,
            None => 0,
        }
    } else {
        0
    };
    (kb % 0x40_0000_0000_0000) * 1024
}

/// `read_meminfo`'s parsing: total and available memory in bytes.
pub fn read_meminfo(content: &str) -> (r: (u64, u64))
    ensures
        r == meminfo_of(content@),
{
    let text = chars_of(content);
    let ls = lines_exec(&text);
    let total_key = chars_of("MemTotal:");
    let avail_key = chars_of("MemAvailable:");
    let mut total: u64 = 0;
    let mut available: u64 = 0;
    let mut i: usize = 0;
    let ghost lv = lines(content@);
    while i < ls.len()
        invariant
            i <= ls.len(),
            pieces(&ls) == lv,
            total_key@ == "MemTotal:"@,
            avail_key@ == "MemAvailable:"@,
            total == last_figure(lv, "MemTotal:"@, i as int),
            available == last_figure(lv, "MemAvailable:"@, i as int),
        decreases ls.len() - i,
    {
        assert(lv[i as int] == ls@[i as int]@);
        if starts_with_exec(&ls[i], &total_key) {
            total = line_bytes_exec(&ls[i]);
        }
        if starts_with_exec(&ls[i], &avail_key) {
            available = line_bytes_exec(&ls[i]);
        }
        i = i + 1;
    }
    (total, available)
}

/// `get_system_info`: the devices and the memory figures.
pub fn system_info_response(devices: &Vec<GpuDevice>, meminfo: &str) -> (r: SystemInfoResponse)
    ensures
        r.devices@.len() == devices@.len(),
        forall|k: int| 0 <= k < devices@.len() ==> device_info_matches(#[trigger] r.devices@[k], devices@[k]@),
        (r.total_memory, r.available_memory) == meminfo_of(meminfo@),
{
    let (total, available) = read_meminfo(meminfo);
    SystemInfoResponse { devices: device_infos(devices), total_memory: total, available_memory: available }
}

// ---------------------------------------------------------------------------
// Setup, hub and local models
// ---------------------------------------------------------------------------

/// `get_setup_status`: the setup status without install commands.
pub fn setup_status_response(status: SetupStatus) -> (r: SetupStatusResponse)
    ensures
        r.gpu_vendor@ == status@.gpu_vendor,
        r.gpu_name@ == status@.gpu_name,
        r.compute_ready == status@.compute_ready,
        r.needs_reboot == status@.needs_reboot,
        r.summary@ == status@.summary,
        r.deps@.len() == status@.deps.len(),
        forall|k: int| 0 <= k < status@.deps.len() ==> {
            let d = #[trigger] r.deps@[k];
            &&& d.name@ == status@.deps[k].name
            &&& d.description@ == status@.deps[k].description
            &&& d.installed == status@.deps[k].installed
        },
{
    let ghost sv = status@;
    let mut deps: Vec<DepInfo> = Vec::new();
    let mut i: usize = 0;
    while i < status.deps.len()
        invariant
            i <= status.deps.len(),
            sv.deps == dep_views(status.deps@),
            deps@.len() == i,
            forall|k: int| 0 <= k < i ==> {
                let d = #[trigger] deps@[k];
                &&& d.name@ == sv.deps[k].name
                &&& d.description@ == sv.deps[k].description
                &&& d.installed == sv.deps[k].installed
            },
        decreases status.deps.len() - i,
    {
        assert(sv.deps[i as int] == status.deps@[i as int]@);
        let d = &status.deps[i];
        deps.push(DepInfo { name: d.name.clone(), description: d.description.clone(), installed: d.installed });
        i = i + 1;
    }
    SetupStatusResponse {
        gpu_vendor: status.gpu_vendor,
        gpu_name: status.gpu_name,
        compute_ready: status.compute_ready,
        needs_reboot: status.needs_reboot,
        deps,
        summary: status.summary,
    }
}

/// One hit of a hub search; missing counts are 0.
pub fn search_result(m: &HubModelInfo) -> (r: SearchResult)
    ensures
        r.model_id@ == m.model_id@,
        opt_str(r.author) == opt_str(m.author),
        r.downloads == (match m.downloads {
            Some(d) => d,
            None => 0,
        }),
        r.likes == (match m.likes {
            Some(l) => l,
            None => 0,
        }),
{
    SearchResult {
        model_id: m.model_id.clone(),
        author: clone_opt(&m.author),
        downloads: match m.downloads {
            Some(d) => d,
            None => 0,
        },
        likes: match m.likes {
            Some(l) => l,
            None => 0,
        },
    }
}

/// One local model with the backends that can load it.
pub fn local_model_info(m: &LocalModel, compatible: Vec<String>) -> (r: LocalModelInfo)
    ensures
        r.id@ == m.id@,
        r.repo_id@ == m.repo_id@,
        r.filename@ == m.filename@,
        r.size == m.file_size,
        r.path@ == m.path@,
        r.compatible_backends@ == compatible@,
{
    LocalModelInfo {
        id: m.id.clone(),
        repo_id: m.repo_id.clone(),
        filename: m.filename.clone(),
        size: m.file_size,
        path: m.path.clone(),
        compatible_backends: compatible,
    }
}

pub fn gguf_file_info(f: &HubSibling) -> (r: GgufFileInfo)
    ensures
        r.filename@ == f.filename@,
        r.size == f.size,
{
    GgufFileInfo { filename: f.filename.clone(), size: f.size }
}

/// A loaded model as the model list shows it: no backend reads as the
/// empty name, no VRAM figure as 0.
pub open spec fn loaded_model_matches(r: LoadedModelInfo, m: InfoView) -> bool {
    &&& r.id@ == m.id
    &&& r.backend@ == (match m.backend {
        Some(b) => b,
        None => seq![],
    })
    &&& r.vram_usage == (match m.vram_usage {
        Some(v) => v,
        None => 0,
    })
    &&& r.loaded == m.loaded
}

pub fn loaded_model_info(m: &ModelInfo) -> (r: LoadedModelInfo)
    ensures
        loaded_model_matches(r, m@),
{
    LoadedModelInfo {
        id: m.id.clone(),
        backend: match &m.backend {
            Some(b) => b.clone(),
            None => String::new(),
        },
        vram_usage: match m.vram_usage {
            Some(v) => v,
            None => 0,
        },
        loaded: m.loaded,
    }
}

/// `chat_complete`'s answer: the first choice's text (empty when there is
/// none), the model, and the total token count.
pub fn chat_response(response: &GenerationResponse) -> (r: ChatResponse)
    ensures
        r.content@ == (if response.choices@.len() > 0 {
            response.choices@[0].message.content@
        } else {
            seq![]
        }),
        r.model@ == response.model@,
        r.tokens_used == response.usage.total_tokens,
{
    let content = if response.choices.len() > 0 {
        response.choices[0].message.content.clone()
    } else {
        String::new()
    };
    ChatResponse { content, model: response.model.clone(), tokens_used: response.usage.total_tokens }
}

// ---------------------------------------------------------------------------
// Command replies
// ---------------------------------------------------------------------------

/// The id of a download: `{repo_id}/{filename}`.
pub fn download_id(repo_id: &str, filename: &str) -> (r: String)
    ensures
        r@ == repo_id@ + "/"@ + filename@,
{
    let mut m = chars_of(repo_id);
    extend_str(&mut m, "/");
    extend_str(&mut m, filename);
    string_of(&m)
}

pub fn pulled_message(repo_id: &str, filename: &str) -> (r: String)
    ensures
        r@ == "Downloaded "@ + repo_id@ + "/"@ + filename@,
{
    let mut m = chars_of("Downloaded ");
    extend_str(&mut m, repo_id);
    extend_str(&mut m, "/");
    extend_str(&mut m, filename);
    string_of(&m)
}

pub fn deleted_message(model_id: &str) -> (r: String)
    ensures
        r@ == "Deleted "@ + model_id@,
{
    let mut m = chars_of("Deleted ");
    extend_str(&mut m, model_id);
    string_of(&m)
}

pub fn loaded_message(model_id: &str) -> (r: String)
    ensures
        r@ == "Model '"@ + model_id@ + "' loaded successfully"@,
{
    let mut m = chars_of("Model '");
    extend_str(&mut m, model_id);
    extend_str(&mut m, "' loaded successfully");
    string_of(&m)
}

pub fn unloaded_message(model_id: &str) -> (r: String)
    ensures
        r@ == "Model '"@ + model_id@ + "' unloaded"@,
{
    let mut m = chars_of("Model '");
    extend_str(&mut m, model_id);
    extend_str(&mut m, "' unloaded");
    string_of(&m)
}

// ---------------------------------------------------------------------------
// The embedded API server's switch
// ---------------------------------------------------------------------------

/// `{host}:{port}`, the address the server binds.
pub open spec fn address_of(host: Seq<char>, port: u16) -> Seq<char> {
    host + ":"@ + decimal(port as nat)
}

pub fn bind_address(host: &str, port: u16) -> (r: String)
    ensures
        r@ == address_of(host@, port),
{
    let mut m = chars_of(host);
    extend_str(&mut m, ":");
    let d = decimal_exec(port as u64);
    extend_chars(&mut m, &d);
    string_of(&m)
}

/// Whether the embedded server runs, and where.
pub struct ServerSwitch {
    pub running: bool,
    pub host: String,
    pub port: u16,
}

impl ServerSwitch {
    /// Stopped, on the default address.
    pub fn new() -> (r: ServerSwitch)
        ensures
            !r.running,
            r.host@ == "127.0.0.1"@,
            r.port == 8080,
    {
        ServerSwitch { running: false, host: owned("127.0.0.1"), port: 8080 }
    }

    /// The status record: running or not, and the URL `http://{host}:{port}`.
    pub fn status(&self) -> (r: ServerStatusResponse)
        ensures
            r.running == self.running,
            r.host@ == self.host@,
            r.port == self.port,
            r.url@ == "http://"@ + address_of(self.host@, self.port),
    {
        let addr = bind_address(self.host.as_str(), self.port);
        let mut u = chars_of("http://");
        extend_str(&mut u, addr.as_str());
        ServerStatusResponse { running: self.running, host: self.host.clone(), port: self.port, url: string_of(&u) }
    }

    /// The server came up on `port`; the UI reaches it on the loopback host.
    pub fn started(&mut self, port: u16)
        ensures
            final(self).running,
            final(self).host@ == "127.0.0.1"@,
            final(self).port == port,
    {
        self.running = true;
        self.host = owned("127.0.0.1");
        self.port = port;
    }

    /// The server was stopped; host and port stay as they were.
    pub fn stopped(&mut self) -> (r: String)
        ensures
            !final(self).running,
            final(self).host@ == old(self).host@,
            final(self).port == old(self).port,
            r@ == "Server stopped"@,
    {
        self.running = false;
        owned("Server stopped")
    }
}

} // verus!
