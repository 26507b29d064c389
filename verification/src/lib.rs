//! Core domain logic of the NEXUS desktop environment: operating tiers,
//! configuration schema, palette text rendering and Hyprland IPC helpers.

pub mod config;
pub mod dbus;
pub mod hyprland;
pub mod metrics;
pub mod text;
pub mod theme;
pub mod tier;
pub mod wallpaper;
pub mod watch;

pub use tier::NexusTier;
pub use config::NexusConfig;
pub use theme::NexusPalette;
