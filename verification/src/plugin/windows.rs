use vstd::prelude::*;
use crate::model::{Entry, Message, Plugin, copy_entries, entries_view};
use crate::search::{search, search_message};
use crate::model::{Activation, EntryView};
use crate::plugin::sway_windows::{WindowNode, focus_command, focus_window, sway_entry, window_entries, window_nodes};

verus! {

/// The windows of sway, listed when the plugin starts.
#[derive(Debug)]
pub struct WindowsPlugin {
    pub entries: Vec<Entry>,
}

impl WindowsPlugin {
    /// The plugin's id.
    pub fn id() -> (r: &'static str)
        ensures
            r@ == "windows"@,
    {
        "windows"
    }

    /// Where the plugin is listed: higher priorities come first.
    pub fn priority() -> (r: u32)
        ensures
            r == 30,
    {
        30
    }

    /// The heading shown above the plugin's entries.
    pub fn title() -> (r: &'static str)
        ensures
            r@ == "󰖯 Windows"@,
    {
        "󰖯 Windows"
    }

    /// Copies of the plugin's entries.
    pub fn entries(&self) -> (r: Vec<Entry>)
        ensures
            entries_view(r@) == entries_view(self.entries@),
    {
        copy_entries(&self.entries)
    }

    /// Replaces the plugin's entries.
    pub fn set_entries(&mut self, entries: Vec<Entry>)
        ensures
            final(self).entries == entries,
    {
        self.entries = entries;
    }

    /// The plugin as the launcher lists it.
    pub fn plugin(&self) -> (r: Plugin)
        ensures
            r.id@ == "windows"@,
            r.priority == 30,
            r.title@ == "󰖯 Windows"@,
            entries_view(r.entries@) == entries_view(self.entries@),
    {
        Plugin {
            id: String::from_str(Self::id()),
            priority: Self::priority(),
            title: String::from_str(Self::title()),
            entries: self.entries(),
        }
    }

    /// The message that answers a search for `query` among the entries.
    pub fn search(&self, query: &String) -> (r: Message)
        ensures
            search_message(r, "windows"@, entries_view(self.entries@), query@),
    {
        let shown = self.entries();
        let ghost src = shown@;
        let found = search(shown, query);
        let r = Message::UpdateEntries(String::from_str(Self::id()), found);
        assert(entries_view(src) == entries_view(self.entries@));
        r
    }
}

impl WindowsPlugin {
    /// The plugin with the windows of sway's tree, in tree order.
    pub fn new(root: &WindowNode) -> (r: Self)
        ensures
            entries_view(r.entries@) == window_nodes(*root).map_values(|n: WindowNode| sway_entry(n, "windows"@)),
    {
        let nodes = root.get_window_nodes();
        let entries = window_entries(&nodes, Self::id());
        assert(entries_view(entries@) =~= window_nodes(*root).map_values(|n: WindowNode| sway_entry(n, "windows"@)));
        Self { entries }
    }

    /// Focuses the window of the entry.
    pub fn activate(&self, entry: &Entry) -> (r: Activation)
        ensures
            r matches Activation::SwayCommand(c) && c@ == focus_command(entry.id@),
    {
        focus_window(entry)
    }
}

} // verus!
