//! The plugins that feed the launcher with entries.

pub mod system;
pub mod gitmoji;
pub mod clock;
pub mod brave;
pub mod firefox;
pub mod git_repositories;
pub mod applications;
pub mod niri_windows;
pub mod sway_windows;
pub mod windows;
pub mod mpd;
pub mod resource_monitor;
pub mod wifi;
