use vstd::prelude::*;
use crate::model::{Entry, Message, Plugin, copy_entries, entries_view};
use crate::search::{search, search_message};
use crate::search::{sort_by_title, title_key};
use crate::sorting::is_stable_sort;
use crate::text::chars_order;
use crate::model::{Activation, EntryView, spawn_with, spawns};
use crate::plugin::brave::utils::{Bookmark, UrlBookmark, find_folder, links, url_entries, url_entry};

verus! {

/// The progressive web apps kept among the Brave bookmarks.
#[derive(Debug)]
pub struct ProgressiveWebAppsPlugin {
    pub entries: Vec<Entry>,
}

impl ProgressiveWebAppsPlugin {
    /// The plugin's id.
    pub fn id() -> (r: &'static str)
        ensures
            r@ == "brave_progressive_web_apps"@,
    {
        "brave_progressive_web_apps"
    }

    /// Where the plugin is listed: higher priorities come first.
    pub fn priority() -> (r: u32)
        ensures
            r == 28,
    {
        28
    }

    /// The heading shown above the plugin's entries.
    pub fn title() -> (r: &'static str)
        ensures
            r@ == "󰀻 Progressive Web Apps"@,
    {
        "󰀻 Progressive Web Apps"
    }

    /// Copies of the plugin's entries.
    pub fn entries(&self) -> (r: Vec<Entry>)
        ensures
            entries_view(r@) == entries_view(self.entries@),
    {
        copy_entries(&self.entries)
    }

    /// Replaces the plugin's entries.
    pub fn set_entries(&mut self, entries: Vec<Entry>)
        ensures
            final(self).entries == entries,
    {
        self.entries = entries;
    }

    /// The plugin as the launcher lists it.
    pub fn plugin(&self) -> (r: Plugin)
        ensures
            r.id@ == "brave_progressive_web_apps"@,
            r.priority == 28,
            r.title@ == "󰀻 Progressive Web Apps"@,
            entries_view(r.entries@) == entries_view(self.entries@),
    {
        Plugin {
            id: String::from_str(Self::id()),
            priority: Self::priority(),
            title: String::from_str(Self::title()),
            entries: self.entries(),
        }
    }

    /// The message that answers a search for `query` among the entries.
    pub fn search(&self, query: &String) -> (r: Message)
        ensures
            search_message(r, "brave_progressive_web_apps"@, entries_view(self.entries@), query@),
    {
        let shown = self.entries();
        let ghost src = shown@;
        let found = search(shown, query);
        let r = Message::UpdateEntries(String::from_str(Self::id()), found);
        assert(entries_view(src) == entries_view(self.entries@));
        r
    }
}

/// There is no bookmarks folder named "Progressive Web Apps".
#[derive(Debug, PartialEq, Eq)]
pub struct MissingFolder;

impl ProgressiveWebAppsPlugin {
    /// A plugin with no entries yet.
    pub fn new() -> (r: Self)
        ensures
            r.entries@.len() == 0,
    {
        Self { entries: Vec::new() }
    }

    /// Lists the entries by title, keeping entries of equal title in order.
    pub fn sort(&mut self)
        ensures
            is_stable_sort(final(self).entries@, old(self).entries@, title_key(), chars_order()),
    {
        let mut taken: Vec<Entry> = Vec::new();
        core::mem::swap(&mut taken, &mut self.entries);
        self.entries = sort_by_title(taken);
    }

    /// Lists the links in the first folder named "Progressive Web Apps",
    /// by title; fails, with no entries, where there is no such folder.
    pub fn update_entries(&mut self, root: &Bookmark) -> (r: Result<(), MissingFolder>)
        ensures
            find_folder(*root, "Progressive Web Apps"@) is None ==> (r is Err && final(self).entries@.len() == 0),
            find_folder(*root, "Progressive Web Apps"@) matches Some(folder) ==> (r is Ok && exists|listed: Seq<Entry>|
                #![trigger entries_view(listed)]
                entries_view(listed) == links(folder, Seq::empty()).map_values(|u: UrlBookmark| url_entry(u))
                    && is_stable_sort(final(self).entries@, listed, title_key(), chars_order())),
    {
        self.entries = Vec::new();
        let folder_name = String::from_str("Progressive Web Apps");
        match root.find_bookmarks_folder_recursive(&folder_name) {
            None => Err(MissingFolder),
            Some(folder) => {
                let none: Vec<String> = Vec::new();
                assert(crate::model::strings_view(none@) =~= Seq::<Seq<char>>::empty());
                let found = folder.get_bookmarks_recursive(&none);
                let listed = url_entries(&found);
                let ghost l = listed@;
                assert(entries_view(l) =~= links(*folder, Seq::empty()).map_values(|u: UrlBookmark| url_entry(u)));
                self.entries = listed;
                self.sort();
                Ok(())
            },
        }
    }

    /// Opens the app in the browser's app mode.
    pub fn activate(&self, entry: Entry) -> (r: Activation)
        ensures
            spawns(r, seq!["brave"@, "--app="@ + entry.id@]),
    {
        let mut argument = String::from_str("--app=");
        argument.append(entry.id.as_str());
        spawn_with("brave", argument)
    }
}

} // verus!
