//! Plugins for the Brave browser.

pub mod bookmarks;
pub mod history;
pub mod progressive_web_apps;
pub mod utils;
