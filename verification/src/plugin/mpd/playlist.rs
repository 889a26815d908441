use vstd::prelude::*;
use crate::model::{Entry, Message, Plugin, copy_entries, entries_view};
use crate::search::{search, search_message};
use crate::model::{Activation, EntryView};

verus! {

/// The entry of a stored playlist: activating it loads the playlist.
pub open spec fn playlist_entry(name: Seq<char>) -> EntryView {
    EntryView { id: name, title: name, action: "load"@, meta: "mpd music playlist"@, command: None }
}

/// The playlists stored by the music player daemon.
#[derive(Debug)]
pub struct MpdPlaylistPlugin {
    pub entries: Vec<Entry>,
}

/// A playlist is listed under its name, and choosing it loads it.
pub proof fn lemma_playlist_entry(name: Seq<char>)
    ensures
        playlist_entry(name).id == name,
        playlist_entry(name).title == name,
        playlist_entry(name).action == "load"@,
{
}

impl MpdPlaylistPlugin {
    /// The plugin's id.
    pub fn id() -> (r: &'static str)
        ensures
            r@ == "mpd playlists"@,
    {
        "mpd playlists"
    }

    /// Where the plugin is listed: higher priorities come first.
    pub fn priority() -> (r: u32)
        ensures
            r == 24,
    {
        24
    }

    /// The heading shown above the plugin's entries.
    pub fn title() -> (r: &'static str)
        ensures
            r@ == "󰲸 Playlists"@,
    {
        "󰲸 Playlists"
    }

    /// Copies of the plugin's entries.
    pub fn entries(&self) -> (r: Vec<Entry>)
        ensures
            entries_view(r@) == entries_view(self.entries@),
    {
        copy_entries(&self.entries)
    }

    /// Replaces the plugin's entries.
    pub fn set_entries(&mut self, entries: Vec<Entry>)
        ensures
            final(self).entries == entries,
    {
        self.entries = entries;
    }

    /// The plugin as the launcher lists it.
    pub fn plugin(&self) -> (r: Plugin)
        ensures
            r.id@ == "mpd playlists"@,
            r.priority == 24,
            r.title@ == "󰲸 Playlists"@,
            entries_view(r.entries@) == entries_view(self.entries@),
    {
        Plugin {
            id: String::from_str(Self::id()),
            priority: Self::priority(),
            title: String::from_str(Self::title()),
            entries: self.entries(),
        }
    }

    /// The message that answers a search for `query` among the entries.
    pub fn search(&self, query: &String) -> (r: Message)
        ensures
            search_message(r, "mpd playlists"@, entries_view(self.entries@), query@),
    {
        let shown = self.entries();
        let ghost src = shown@;
        let found = search(shown, query);
        let r = Message::UpdateEntries(String::from_str(Self::id()), found);
        assert(entries_view(src) == entries_view(self.entries@));
        r
    }
}

impl MpdPlaylistPlugin {
    /// A plugin with no entries yet.
    pub fn new() -> (r: Self)
        ensures
            r.entries@.len() == 0,
    {
        Self { entries: Vec::new() }
    }

    /// Lists the stored playlists by name, in the order given.
    pub fn update_entries(&mut self, names: Vec<String>)
        ensures
            entries_view(final(self).entries@) == names@.map_values(|n: String| playlist_entry(n@)),
    {
        let ghost all = names@;
        let mut names = names;
        let mut listed: Vec<Entry> = Vec::new();
        while names.len() > 0
            invariant
                listed@.len() <= all.len(),
                all == all.take(listed@.len() as int) + names@,
                entries_view(listed@) == all.take(listed@.len() as int).map_values(|n: String| playlist_entry(n@)),
            decreases names.len(),
        {
            let name = names.remove(0);
            let ghost n0 = name;
            let ghost l0 = listed@;
            listed.push(Entry {
                id: name.clone(),
                title: name,
                action: String::from_str("load"),
                meta: String::from_str("mpd music playlist"),
                command: None,
            });
            proof {
                assert(all[listed@.len() - 1] == n0);
                assert(all.take(listed@.len() as int) =~= all.take(listed@.len() - 1).push(n0));
                assert(entries_view(listed@) =~= entries_view(l0).push(playlist_entry(n0@)));
                assert(all =~= all.take(listed@.len() as int) + names@);
            }
        }
        assert(all.take(listed@.len() as int) =~= all);
        self.entries = listed;
    }

    /// Loads and plays the playlist of the entry.
    pub fn activate(&self, entry: Entry) -> (r: Activation)
        ensures
            r matches Activation::MpdLoadPlaylist(name) && name@ == entry.id@,
    {
        Activation::MpdLoadPlaylist(entry.id)
    }
}

} // verus!
