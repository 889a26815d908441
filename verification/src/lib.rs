//! Verified core of the centerpiece launcher: the entry model, the
//! navigation state machine of the launcher window, searching, and the
//! data logic of the plugins that feed it.

pub mod model;
pub mod text;
pub mod sorting;
pub mod search;
pub mod launcher;
pub mod settings;
pub mod plugin;
pub mod groups;
pub mod index;
pub mod lock;
