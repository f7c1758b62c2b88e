//! Usage-log ingestion and live-monitoring library.
//!
//! The library discovers root directories that hold usage logs, scans a
//! snapshot of such a directory for log files, filters file-system change
//! notifications, keeps a typed settings object with a verified persistence
//! codec, and decides how a tray-icon click acts on the application windows.

pub mod discovery;
pub mod file_monitor;
pub mod json;
pub mod scanner;
pub mod settings;
pub mod settings_codec;
pub mod store;
pub mod tray;
