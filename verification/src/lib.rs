//! TackleCast core: the decision logic, buffering and text handling of a
//! low-latency capture-card viewer with audio passthrough.
pub mod audio;
pub mod capture;
pub mod devices;
pub mod dx12_interop;
pub mod gpu_monitor;
pub mod logger;
pub mod settings;
pub mod text;
pub mod ui;
