//! Model management, hardware detection and inference-orchestration logic of
//! the Zonky local LLM workspace.
pub mod text;
pub mod gpu;
pub mod setup;
pub mod types;
pub mod error;
pub mod cache;
pub mod config;
pub mod hub;
pub mod inference;
pub mod manager;
pub mod tui;
pub mod desktop;
pub mod cli;
pub mod server;
