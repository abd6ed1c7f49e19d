//! Core logic of a plugin-based desktop toolbox: plugin manifests and their
//! validation, command search, action permissions, clipboard history
//! retention, version comparison and the in-app update protocol.

pub mod archive;
pub mod clipboard;
pub mod digest;
pub mod instant;
pub mod paths;
pub mod pixels;
pub mod plugin;
pub mod ranking;
pub mod release;
pub mod settings;
pub mod subsequence;
pub mod text;
pub mod updater;
pub mod window;
