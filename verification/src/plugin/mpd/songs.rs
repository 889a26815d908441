use vstd::prelude::*;
use crate::model::{Entry, Message, Plugin, copy_entries, entries_view};
use crate::search::{search, search_message};
use crate::model::{Activation, ActivationError, EntryView, command_activation, spawns, strings_view};

verus! {

/// The entry of a song: playing it runs "mpc play" with the song's file.
pub open spec fn song_entry(file: Seq<char>) -> EntryView {
    EntryView {
        id: file,
        title: file,
        action: "focus"@,
        meta: "mpd music song"@,
        command: Some(seq!["mpc"@, "play"@, file]),
    }
}

/// The songs in the music player daemon's library.
#[derive(Debug)]
pub struct MpdSongPlugin {
    pub entries: Vec<Entry>,
}

/// A song is listed under its file, and choosing it plays that file.
pub proof fn lemma_song_plays_its_file(file: Seq<char>)
    ensures
        song_entry(file).id == file,
        song_entry(file).title == file,
        song_entry(file).command == Some(seq!["mpc"@, "play"@, file]),
{
}

impl MpdSongPlugin {
    /// The plugin's id.
    pub fn id() -> (r: &'static str)
        ensures
            r@ == "mpd songs"@,
    {
        "mpd songs"
    }

    /// Where the plugin is listed: higher priorities come first.
    pub fn priority() -> (r: u32)
        ensures
            r == 24,
    {
        24
    }

    /// The heading shown above the plugin's entries.
    pub fn title() -> (r: &'static str)
        ensures
            r@ == " Songs"@,
    {
        " Songs"
    }

    /// Copies of the plugin's entries.
    pub fn entries(&self) -> (r: Vec<Entry>)
        ensures
            entries_view(r@) == entries_view(self.entries@),
    {
        copy_entries(&self.entries)
    }

    /// Replaces the plugin's entries.
    pub fn set_entries(&mut self, entries: Vec<Entry>)
        ensures
            final(self).entries == entries,
    {
        self.entries = entries;
    }

    /// The plugin as the launcher lists it.
    pub fn plugin(&self) -> (r: Plugin)
        ensures
            r.id@ == "mpd songs"@,
            r.priority == 24,
            r.title@ == " Songs"@,
            entries_view(r.entries@) == entries_view(self.entries@),
    {
        Plugin {
            id: String::from_str(Self::id()),
            priority: Self::priority(),
            title: String::from_str(Self::title()),
            entries: self.entries(),
        }
    }

    /// The message that answers a search for `query` among the entries.
    pub fn search(&self, query: &String) -> (r: Message)
        ensures
            search_message(r, "mpd songs"@, entries_view(self.entries@), query@),
    {
        let shown = self.entries();
        let ghost src = shown@;
        let found = search(shown, query);
        let r = Message::UpdateEntries(String::from_str(Self::id()), found);
        assert(entries_view(src) == entries_view(self.entries@));
        r
    }
}

impl MpdSongPlugin {
    /// A plugin with no entries yet.
    pub fn new() -> (r: Self)
        ensures
            r.entries@.len() == 0,
    {
        Self { entries: Vec::new() }
    }

    /// Lists the songs of the library by their files, in the order given.
    pub fn update_entries(&mut self, song_files: Vec<String>)
        ensures
            entries_view(final(self).entries@) == song_files@.map_values(|f: String| song_entry(f@)),
    {
        let ghost all = song_files@;
        let mut files = song_files;
        let mut listed: Vec<Entry> = Vec::new();
        while files.len() > 0
            invariant
                listed@.len() <= all.len(),
                all == all.take(listed@.len() as int) + files@,
                entries_view(listed@) == all.take(listed@.len() as int).map_values(|f: String| song_entry(f@)),
            decreases files.len(),
        {
            let file = files.remove(0);
            let ghost f0 = file;
            let mut command: Vec<String> = Vec::new();
            command.push(String::from_str("mpc"));
            command.push(String::from_str("play"));
            command.push(file.clone());
            assert(strings_view(command@) =~= seq!["mpc"@, "play"@, f0@]);
            let ghost l0 = listed@;
            listed.push(Entry {
                id: file.clone(),
                title: file,
                action: String::from_str("focus"),
                meta: String::from_str("mpd music song"),
                command: Some(command),
            });
            proof {
                assert(all[listed@.len() - 1] == f0);
                assert(all.take(listed@.len() as int) =~= all.take(listed@.len() - 1).push(f0));
                assert(entries_view(listed@) =~= entries_view(l0).push(song_entry(f0@)));
                assert(all =~= all.take(listed@.len() as int) + files@);
            }
        }
        assert(all.take(listed@.len() as int) =~= all);
        self.entries = listed;
    }

    /// Plays the song through the entry's command.
    pub fn activate(&self, entry: Entry) -> (r: Result<Activation, ActivationError>)
        requires
            entry.command matches Some(c) ==> c@.len() > 0,
        ensures
            entry.command matches Some(c) ==> (r matches Ok(a) && spawns(a, strings_view(c@))),
            entry.command is None ==> (r matches Err(ActivationError::MissingCommand(id)) && id@ == entry.id@),
    {
        command_activation(entry)
    }
}

} // verus!
