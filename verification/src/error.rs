//! The library's error type and the message each error reads as.
use vstd::prelude::*;

use crate::text::{chars_of, decimal, decimal_exec, extend_chars, extend_str, string_of};

verus! {

/// Everything that can go wrong in model management and inference. Errors
/// raised by I/O, serialisation, HTTP or tensor libraries carry their message.
#[derive(Debug, Clone)]
pub enum ZonkyError {
    ModelNotFound(String),
    ModelAlreadyLoaded(String),
    InferenceError(String),
    BackendError(String),
    HubError(String),
    GpuError(String),
    InsufficientVram { needed: u64, available: u64 },
    UnsupportedArchitecture(String),
    InvalidModelFormat(String),
    ConfigError(String),
    DownloadError(String),
    TokenizerError(String),
    IoError(String),
    SerdeError(String),
    ReqwestError(String),
    CandleError(String),
}

/// The text an error reads as.
pub open spec fn error_message(e: ZonkyError) -> Seq<char> {
    match e {
        ZonkyError::ModelNotFound(s) => "Model not found: "@ + s@,
        ZonkyError::ModelAlreadyLoaded(s) => "Model already loaded: "@ + s@,
        ZonkyError::InferenceError(s) => "Inference error: "@ + s@,
        ZonkyError::BackendError(s) => "Backend error: "@ + s@,
        ZonkyError::HubError(s) => "HuggingFace Hub error: "@ + s@,
        ZonkyError::GpuError(s) => "GPU error: "@ + s@,
        ZonkyError::InsufficientVram { needed, available } => "Insufficient VRAM: need "@
            + decimal(needed as nat) + " bytes, available "@ + decimal(available as nat)
            + " bytes"@,
        ZonkyError::UnsupportedArchitecture(s) => "Unsupported model architecture: "@ + s@,
        ZonkyError::InvalidModelFormat(s) => "Invalid model format: "@ + s@,
        ZonkyError::ConfigError(s) => "Configuration error: "@ + s@,
        ZonkyError::DownloadError(s) => "Download error: "@ + s@,
        ZonkyError::TokenizerError(s) => "Tokenizer error: "@ + s@,
        ZonkyError::IoError(s) => "IO error: "@ + s@,
        ZonkyError::SerdeError(s) => "Serialization error: "@ + s@,
        ZonkyError::ReqwestError(s) => "Request error: "@ + s@,
        ZonkyError::CandleError(s) => "Candle error: "@ + s@,
    }
}

fn prefixed(prefix: &str, s: &String) -> (r: String)
    ensures
        r@ == prefix@ + s@,
{
    let mut v = chars_of(prefix);
    extend_str(&mut v, s.as_str());
    string_of(&v)
}

impl ZonkyError {
    /// The error's message, as its `Display` form reads.
    pub fn message(&self) -> (r: String)
        ensures
            r@ == error_message(*self),
    {
        match self {
            ZonkyError::ModelNotFound(s) => prefixed("Model not found: ", s),
            ZonkyError::ModelAlreadyLoaded(s) => prefixed("Model already loaded: ", s),
            ZonkyError::InferenceError(s) => prefixed("Inference error: ", s),
            ZonkyError::BackendError(s) => prefixed("Backend error: ", s),
            ZonkyError::HubError(s) => prefixed("HuggingFace Hub error: ", s),
            ZonkyError::GpuError(s) => prefixed("GPU error: ", s),
            ZonkyError::InsufficientVram { needed, available } => {
                let mut v = chars_of("Insufficient VRAM: need ");
                let n = decimal_exec(*needed);
                extend_chars(&mut v, &n);
                extend_str(&mut v, " bytes, available ");
                let a = decimal_exec(*available);
                extend_chars(&mut v, &a);
                extend_str(&mut v, " bytes");
                string_of(&v)
            },
            ZonkyError::UnsupportedArchitecture(s) => prefixed("Unsupported model architecture: ", s),
            ZonkyError::InvalidModelFormat(s) => prefixed("Invalid model format: ", s),
            ZonkyError::ConfigError(s) => prefixed("Configuration error: ", s),
            ZonkyError::DownloadError(s) => prefixed("Download error: ", s),
            ZonkyError::TokenizerError(s) => prefixed("Tokenizer error: ", s),
            ZonkyError::IoError(s) => prefixed("IO error: ", s),
            ZonkyError::SerdeError(s) => prefixed("Serialization error: ", s),
            ZonkyError::ReqwestError(s) => prefixed("Request error: ", s),
            ZonkyError::CandleError(s) => prefixed("Candle error: ", s),
        }
    }
}

} // verus!
