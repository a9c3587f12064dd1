//! Verified core of the tryfol status bar: parsing of compositor events,
//! the IPC wire format, and the decisions behind the bar's modules.

pub mod text;
pub mod numparse;
pub mod hyprland;
pub mod ipc;
pub mod number;
pub mod workspaces;
pub mod rfkill;
pub mod battery;
pub mod mpris;
pub mod status_notifier;
pub mod network;
pub mod audio;
pub mod memory;
pub mod menu;
pub mod title;
