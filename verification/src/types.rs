//! Data exchanged with clients of the library: chat messages, responses,
//! model descriptions and hub records.
use vstd::prelude::*;

verus! {

/// A chat message with role and content.
#[derive(Debug, Clone)]
pub struct Message {
    pub role: Role,
    pub content: String,
}

#[derive(Debug, Clone, Copy, PartialEq, Eq, Structural)]
pub enum Role {
    System,
    User,
    Assistant,
}

/// Full generation response (OpenAI-compatible).
#[derive(Debug, Clone)]
pub struct GenerationResponse {
    pub id: String,
    pub object: String,
    pub created: i64,
    pub model: String,
    pub choices: Vec<Choice>,
    pub usage: Usage,
}

#[derive(Debug, Clone)]
pub struct Choice {
    pub index: u32,
    pub message: Message,
    pub finish_reason: Option<String>,
}

#[derive(Debug, Clone, Copy)]
pub struct Usage {
    pub prompt_tokens: u32,
    pub completion_tokens: u32,
    pub total_tokens: u32,
}

/// Streaming chunk (SSE data payload).
#[derive(Debug, Clone)]
pub struct StreamChunk {
    pub id: String,
    pub object: String,
    pub created: i64,
    pub model: String,
    pub choices: Vec<StreamChoice>,
}

#[derive(Debug, Clone)]
pub struct StreamChoice {
    pub index: u32,
    pub delta: Delta,
    pub finish_reason: Option<String>,
}

#[derive(Debug, Clone)]
pub struct Delta {
    pub role: Option<Role>,
    pub content: Option<String>,
}

/// Information about a loaded or available model.
#[derive(Debug, Clone)]
pub struct ModelInfo {
    pub id: String,
    pub object: String,
    pub created: i64,
    pub owned_by: String,
    pub architecture: Option<String>,
    pub quantization: Option<String>,
    pub parameters: Option<String>,
    pub file_size: Option<u64>,
    pub vram_usage: Option<u64>,
    pub loaded: bool,
    pub backend: Option<String>,
    /// Which inference backends can load this model
    pub compatible_backends: Vec<String>,
}

/// Model list response (OpenAI-compatible GET /v1/models).
#[derive(Debug, Clone)]
pub struct ModelListResponse {
    pub object: String,
    pub data: Vec<ModelInfo>,
}

/// Backend choice for model loading.
#[derive(Debug, Clone, Copy, PartialEq, Eq, Structural)]
pub enum BackendChoice {
    Candle,
    LlamaCpp,
    Auto,
}

impl Default for BackendChoice {
    fn default() -> (r: Self)
        ensures
            r == BackendChoice::Auto,
    {
        BackendChoice::Auto
    }
}

/// Device choice for inference.
#[derive(Debug, Clone, Copy, PartialEq, Eq, Structural)]
pub enum DeviceChoice {
    Auto,
    Cpu,
    Cuda(usize),
    Metal,
}

impl Default for DeviceChoice {
    fn default() -> (r: Self)
        ensures
            r == DeviceChoice::Auto,
    {
        DeviceChoice::Auto
    }
}

/// Download progress information.
#[derive(Debug, Clone, Copy)]
pub struct DownloadProgress {
    pub downloaded: u64,
    pub total: Option<u64>,
    pub speed_bytes_per_sec: u64,
}

/// HuggingFace model search result.
#[derive(Debug, Clone)]
pub struct HubModelInfo {
    pub model_id: String,
    pub author: Option<String>,
    pub sha: Option<String>,
    pub downloads: Option<u64>,
    pub likes: Option<u64>,
    pub tags: Vec<String>,
    pub pipeline_tag: Option<String>,
    pub library_name: Option<String>,
    pub last_modified: Option<String>,
}

/// Sibling file entry from the hub API.
#[derive(Debug, Clone)]
pub struct HubSibling {
    pub filename: String,
    pub size: Option<u64>,
}

/// Detailed model info from the hub API.
#[derive(Debug, Clone)]
pub struct HubModelDetail {
    pub model_id: String,
    pub _id_dup: Option<String>,
    pub author: Option<String>,
    pub tags: Vec<String>,
    pub pipeline_tag: Option<String>,
    pub library_name: Option<String>,
    pub siblings: Vec<HubSibling>,
    pub downloads: Option<u64>,
    pub likes: Option<u64>,
}

/// Local model registry entry.
#[derive(Debug, Clone)]
pub struct LocalModel {
    pub id: String,
    pub repo_id: String,
    pub filename: String,
    pub path: String,
    pub file_size: u64,
    pub alias: Option<String>,
    pub quantization: Option<String>,
    pub architecture: Option<String>,
    pub downloaded_at: String,
}

/// System information for health/status endpoints.
#[derive(Debug, Clone)]
pub struct SystemInfo {
    pub version: String,
    pub loaded_models: Vec<String>,
    pub gpu_devices: Vec<GpuInfo>,
    pub total_ram_bytes: u64,
    pub available_ram_bytes: u64,
}

#[derive(Debug, Clone)]
pub struct GpuInfo {
    pub name: String,
    pub device_type: String,
    pub vram_total: Option<u64>,
    pub vram_free: Option<u64>,
}

/// The default `max_tokens` of a generation request.
pub fn default_max_tokens() -> (r: u32)
    ensures
        r == 2048,
{
    2048
}

} // verus!
