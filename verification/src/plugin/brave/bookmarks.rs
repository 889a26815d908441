use vstd::prelude::*;
use crate::model::{Entry, Message, Plugin, copy_entries, entries_view};
use crate::search::{search, search_message};
use crate::model::{Activation, EntryView, spawn_with, spawns, strings_view};
use crate::plugin::brave::utils::{Bookmark, UrlBookmark, links, url_entries, url_entry};

verus! {

/// The bookmarks of the Brave browser.
#[derive(Debug)]
pub struct BookmarksPlugin {
    pub entries: Vec<Entry>,
}

impl BookmarksPlugin {
    /// The plugin's id.
    pub fn id() -> (r: &'static str)
        ensures
            r@ == "brave_bookmarks"@,
    {
        "brave_bookmarks"
    }

    /// Where the plugin is listed: higher priorities come first.
    pub fn priority() -> (r: u32)
        ensures
            r == 25,
    {
        25
    }

    /// The heading shown above the plugin's entries.
    pub fn title() -> (r: &'static str)
        ensures
            r@ == "󰃃 Bookmarks"@,
    {
        "󰃃 Bookmarks"
    }

    /// Copies of the plugin's entries.
    pub fn entries(&self) -> (r: Vec<Entry>)
        ensures
            entries_view(r@) == entries_view(self.entries@),
    {
        copy_entries(&self.entries)
    }

    /// Replaces the plugin's entries.
    pub fn set_entries(&mut self, entries: Vec<Entry>)
        ensures
            final(self).entries == entries,
    {
        self.entries = entries;
    }

    /// The plugin as the launcher lists it.
    pub fn plugin(&self) -> (r: Plugin)
        ensures
            r.id@ == "brave_bookmarks"@,
            r.priority == 25,
            r.title@ == "󰃃 Bookmarks"@,
            entries_view(r.entries@) == entries_view(self.entries@),
    {
        Plugin {
            id: String::from_str(Self::id()),
            priority: Self::priority(),
            title: String::from_str(Self::title()),
            entries: self.entries(),
        }
    }

    /// The message that answers a search for `query` among the entries.
    pub fn search(&self, query: &String) -> (r: Message)
        ensures
            search_message(r, "brave_bookmarks"@, entries_view(self.entries@), query@),
    {
        let shown = self.entries();
        let ghost src = shown@;
        let found = search(shown, query);
        let r = Message::UpdateEntries(String::from_str(Self::id()), found);
        assert(entries_view(src) == entries_view(self.entries@));
        r
    }
}

impl BookmarksPlugin {
    /// A plugin with no entries yet.
    pub fn new() -> (r: Self)
        ensures
            r.entries@.len() == 0,
    {
        Self { entries: Vec::new() }
    }

    /// Lists every bookmark of the tree, depth first, leaving out the
    /// folder of progressive web apps.
    pub fn update_entries(&mut self, root: &Bookmark)
        ensures
            entries_view(final(self).entries@) == links(*root, seq!["Progressive Web Apps"@]).map_values(
                |u: UrlBookmark| url_entry(u),
            ),
    {
        let mut exclude: Vec<String> = Vec::new();
        exclude.push(String::from_str("Progressive Web Apps"));
        assert(strings_view(exclude@) =~= seq!["Progressive Web Apps"@]);
        let found = root.get_bookmarks_recursive(&exclude);
        self.entries = url_entries(&found);
        assert(entries_view(self.entries@) =~= links(*root, seq!["Progressive Web Apps"@]).map_values(|u: UrlBookmark| url_entry(u)));
    }

    /// Opens the bookmark in the browser.
    pub fn activate(&self, entry: Entry) -> (r: Activation)
        ensures
            spawns(r, seq!["brave"@, entry.id@]),
    {
        spawn_with("brave", entry.id)
    }
}

} // verus!
