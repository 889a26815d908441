//! Plugins for the Firefox browser.

pub mod bookmarks;
pub mod tabs;
pub mod utils;
