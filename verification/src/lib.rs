//! Tile's logic with its contracts: hotkeys, key tables, bindings and size
//! cycling, the macOS and Windows hotkey backends around their native calls,
//! build provenance and the update lifecycle.

pub mod action;
pub mod apply;
pub mod build_kind;
pub mod capability;
pub mod config;
pub mod cycle;
pub mod config_store;
pub mod dto;
pub mod enhanced_ui;
pub mod feedback;
pub mod hook;
pub mod hotkey;
pub mod mac_hotkeys;
pub mod mac_keys;
pub mod native_errors;
pub mod owner;
pub mod pacing;
pub mod platform;
pub mod ratelimit;
pub mod state;
pub mod text;
pub mod update;
pub mod update_state;
pub mod win_keys;
pub mod win_client;
pub mod win_window;
