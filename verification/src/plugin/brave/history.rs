use vstd::prelude::*;
use crate::model::{Entry, Message, Plugin, copy_entries, entries_view};
use crate::search::{search, search_message};
use crate::model::{Activation, EntryView, spawn_with, spawns};

verus! {

/// The browsing history of the Brave browser, most visited first.
#[derive(Debug)]
pub struct HistoryPlugin {
    pub entries: Vec<Entry>,
}

impl HistoryPlugin {
    /// The plugin's id.
    pub fn id() -> (r: &'static str)
        ensures
            r@ == "brave_history"@,
    {
        "brave_history"
    }

    /// Where the plugin is listed: higher priorities come first.
    pub fn priority() -> (r: u32)
        ensures
            r == 0,
    {
        0
    }

    /// The heading shown above the plugin's entries.
    pub fn title() -> (r: &'static str)
        ensures
            r@ == "󰋚 History"@,
    {
        "󰋚 History"
    }

    /// Copies of the plugin's entries.
    pub fn entries(&self) -> (r: Vec<Entry>)
        ensures
            entries_view(r@) == entries_view(self.entries@),
    {
        copy_entries(&self.entries)
    }

    /// Replaces the plugin's entries.
    pub fn set_entries(&mut self, entries: Vec<Entry>)
        ensures
            final(self).entries == entries,
    {
        self.entries = entries;
    }

    /// The plugin as the launcher lists it.
    pub fn plugin(&self) -> (r: Plugin)
        ensures
            r.id@ == "brave_history"@,
            r.priority == 0,
            r.title@ == "󰋚 History"@,
            entries_view(r.entries@) == entries_view(self.entries@),
    {
        Plugin {
            id: String::from_str(Self::id()),
            priority: Self::priority(),
            title: String::from_str(Self::title()),
            entries: self.entries(),
        }
    }

    /// The message that answers a search for `query` among the entries.
    pub fn search(&self, query: &String) -> (r: Message)
        ensures
            search_message(r, "brave_history"@, entries_view(self.entries@), query@),
    {
        let shown = self.entries();
        let ghost src = shown@;
        let found = search(shown, query);
        let r = Message::UpdateEntries(String::from_str(Self::id()), found);
        assert(entries_view(src) == entries_view(self.entries@));
        r
    }
}

/// The view of the entry of a row of the browser's database.
pub open spec fn row_entry(row: (String, String)) -> EntryView {
    EntryView { id: row.1@, title: row.0@, action: "open"@, meta: "History"@, command: None }
}

/// The entry of a row of (title, link): the link is the entry's id, which
/// the browser opens, and the title is the entry's title.
pub proof fn lemma_row_keeps_title_and_link(row: (String, String))
    ensures
        row_entry(row).title == row.0@,
        row_entry(row).id == row.1@,
        row_entry(row).meta == "History"@,
        row_entry(row).command is None,
{
}

/// The first `n` rows.
pub open spec fn entries_done_rows(n: nat, all: Seq<(String, String)>) -> Seq<(String, String)> {
    all.take(n as int)
}

/// The entries of rows of titles and links, in order.
pub fn row_entries(rows: Vec<(String, String)>) -> (r: Vec<Entry>)
    ensures
        entries_view(r@) == rows@.map_values(|row: (String, String)| row_entry(row)),
        r@.len() == rows@.len(),
        forall|i: int| 0 <= i < r@.len() ==> (#[trigger] r@[i]).title@ == rows@[i].0@ && r@[i].id@ == rows@[i].1@,
{
    let ghost all = rows@;
    let mut rows = rows;
    let mut r: Vec<Entry> = Vec::new();
    while rows.len() > 0
        invariant
            all == entries_done_rows(r@.len(), all) + rows@,
            r@.len() <= all.len(),
            entries_view(r@) == all.take(r@.len() as int).map_values(|row: (String, String)| row_entry(row)),
        decreases rows.len(),
    {
        let ghost before = rows@;
        let (title, url) = rows.remove(0);
        let ghost row = (title, url);
        let ghost r0 = r@;
        r.push(Entry {
            id: url,
            title,
            action: String::from_str("open"),
            meta: String::from_str("History"),
            command: None,
        });
        proof {
            assert(all[r@.len() - 1] == row);
            assert(all.take(r@.len() as int) =~= all.take(r@.len() - 1).push(row));
            assert(entries_view(r@) =~= entries_view(r0).push(row_entry(row)));
            assert(entries_view(r@) =~= all.take(r@.len() as int).map_values(|row: (String, String)| row_entry(row)));
            assert(all =~= entries_done_rows(r@.len(), all) + rows@);
        }
    }
    proof {
        assert(all.take(r@.len() as int) =~= all);
        assert(entries_view(r@).len() == r@.len());
        assert forall|i: int| 0 <= i < r@.len() implies (#[trigger] r@[i]).title@ == all[i].0@ && r@[i].id@ == all[i].1@ by {
            assert(entries_view(r@)[i] == r@[i]@);
            assert(all.map_values(|row: (String, String)| row_entry(row))[i] == row_entry(all[i]));
        }
    }
    r
}

impl HistoryPlugin {
    /// A plugin with no entries yet.
    pub fn new() -> (r: Self)
        ensures
            r.entries@.len() == 0,
    {
        Self { entries: Vec::new() }
    }

    /// Lists the visited pages from rows of (title, link), in the order of
    /// the rows: most visited, then most recently visited, first.
    pub fn update_entries(&mut self, rows: Vec<(String, String)>)
        ensures
            entries_view(final(self).entries@) == rows@.map_values(|row: (String, String)| row_entry(row)),
    {
        self.entries = row_entries(rows);
    }

    /// Opens the page in the browser.
    pub fn activate(&self, entry: Entry) -> (r: Activation)
        ensures
            spawns(r, seq!["brave"@, entry.id@]),
    {
        spawn_with("brave", entry.id)
    }
}

} // verus!
