//! Verified core of the coclash TUI for the mihomo proxy kernel.
pub mod strings;
pub mod text;
pub mod error;
pub mod settings;
pub mod binary;
pub mod process;
pub mod config;
pub mod operation_log;
pub mod api;
pub mod state;
pub mod heartbeat;
pub mod views;
pub mod keymap;
pub mod settings_page;
pub mod tasks;
pub mod subscription;
pub mod embedded;
pub mod system_proxy;
pub mod cli;
pub mod windows;
