use vstd::prelude::*;
use crate::model::{Entry, Message, Plugin, copy_entries, entries_view};
use crate::search::{search, search_message};
use crate::search::{sort_by_title, title_key};
use crate::sorting::is_stable_sort;
use crate::text::chars_order;
use crate::model::{Activation, ActivationError, EntryView};
use crate::text::{decimal, lemma_parse_decimal, opt_view, parse_u64, parsed_u64, u64_to_decimal};

verus! {

/// A window as the niri window manager reports it.
#[derive(Debug)]
pub struct NiriWindow {
    pub id: u64,
    pub title: Option<String>,
    pub app_id: Option<String>,
}

/// The title shown for a niri window: its title where not empty, else its
/// application id, else a stand-in.
pub open spec fn niri_title(w: NiriWindow) -> Seq<char> {
    match w.title {
        Some(t) => if t@.len() > 0 {
            t@
        } else {
            match w.app_id {
                Some(a) => a@,
                None => "-- window name missing --"@,
            }
        },
        None => match w.app_id {
            Some(a) => a@,
            None => "-- window name missing --"@,
        },
    }
}

/// The entry of a niri window.
pub open spec fn niri_entry(w: NiriWindow) -> EntryView {
    EntryView { id: decimal(w.id as nat), title: niri_title(w), action: "focus"@, meta: "Niri Windows"@, command: None }
}

/// The entry of a niri window leads back to the window: its id reads as the
/// window's id, so activating it focuses that window.
pub proof fn lemma_niri_entry_focuses_window(w: NiriWindow, e: Entry)
    requires
        e@ == niri_entry(w),
    ensures
        parsed_u64(e.id@) == Some(w.id),
{
    lemma_parse_decimal(w.id);
}

/// A niri window is listed under its id and shown by its title where the
/// title is not empty; otherwise by its application id where it has one,
/// and by a stand-in where it has neither.
pub proof fn lemma_niri_title(w: NiriWindow)
    ensures
        niri_entry(w).id == decimal(w.id as nat),
        niri_entry(w).title == niri_title(w),
        w.title matches Some(t) ==> (t@.len() > 0 ==> niri_title(w) == t@),
        (w.title matches Some(t) ==> t@.len() == 0) ==> (w.app_id matches Some(a) ==> niri_title(w) == a@),
        (w.title matches Some(t) ==> t@.len() == 0) ==> (w.app_id is None ==> niri_title(w) == "-- window name missing --"@),
{
}

/// The windows open in the niri window manager.
#[derive(Debug)]
pub struct NiriWindowsPlugin {
    pub entries: Vec<Entry>,
}

impl NiriWindowsPlugin {
    /// The plugin's id.
    pub fn id() -> (r: &'static str)
        ensures
            r@ == "niri-windows"@,
    {
        "niri-windows"
    }

    /// Where the plugin is listed: higher priorities come first.
    pub fn priority() -> (r: u32)
        ensures
            r == 30,
    {
        30
    }

    /// The heading shown above the plugin's entries.
    pub fn title() -> (r: &'static str)
        ensures
            r@ == "󰖯 Windows"@,
    {
        "󰖯 Windows"
    }

    /// Copies of the plugin's entries.
    pub fn entries(&self) -> (r: Vec<Entry>)
        ensures
            entries_view(r@) == entries_view(self.entries@),
    {
        copy_entries(&self.entries)
    }

    /// Replaces the plugin's entries.
    pub fn set_entries(&mut self, entries: Vec<Entry>)
        ensures
            final(self).entries == entries,
    {
        self.entries = entries;
    }

    /// The plugin as the launcher lists it.
    pub fn plugin(&self) -> (r: Plugin)
        ensures
            r.id@ == "niri-windows"@,
            r.priority == 30,
            r.title@ == "󰖯 Windows"@,
            entries_view(r.entries@) == entries_view(self.entries@),
    {
        Plugin {
            id: String::from_str(Self::id()),
            priority: Self::priority(),
            title: String::from_str(Self::title()),
            entries: self.entries(),
        }
    }

    /// The message that answers a search for `query` among the entries.
    pub fn search(&self, query: &String) -> (r: Message)
        ensures
            search_message(r, "niri-windows"@, entries_view(self.entries@), query@),
    {
        let shown = self.entries();
        let ghost src = shown@;
        let found = search(shown, query);
        let r = Message::UpdateEntries(String::from_str(Self::id()), found);
        assert(entries_view(src) == entries_view(self.entries@));
        r
    }
}

impl NiriWindowsPlugin {
    /// A plugin with no entries yet.
    pub fn new() -> (r: Self)
        ensures
            r.entries@.len() == 0,
    {
        Self { entries: Vec::new() }
    }

    /// Lists the entries by title, keeping entries of equal title in order.
    pub fn sort(&mut self)
        ensures
            is_stable_sort(final(self).entries@, old(self).entries@, title_key(), chars_order()),
    {
        let mut taken: Vec<Entry> = Vec::new();
        core::mem::swap(&mut taken, &mut self.entries);
        self.entries = sort_by_title(taken);
    }

    /// Lists the windows by title.
    pub fn update_entries(&mut self, windows: Vec<NiriWindow>)
        ensures
            exists|listed: Seq<Entry>|
                #![trigger entries_view(listed)]
                entries_view(listed) == windows@.map_values(|w: NiriWindow| niri_entry(w))
                    && is_stable_sort(final(self).entries@, listed, title_key(), chars_order()),
    {
        let ghost all = windows@;
        let mut windows = windows;
        let mut listed: Vec<Entry> = Vec::new();
        while windows.len() > 0
            invariant
                listed@.len() <= all.len(),
                all == all.take(listed@.len() as int) + windows@,
                entries_view(listed@) == all.take(listed@.len() as int).map_values(|w: NiriWindow| niri_entry(w)),
            decreases windows.len(),
        {
            let w = windows.remove(0);
            let ghost w0 = w;
            let title = match w.title {
                Some(t) => {
                    if t.as_str().is_empty() {
                        match w.app_id {
                            Some(a) => a,
                            None => String::from_str("-- window name missing --"),
                        }
                    } else {
                        t
                    }
                },
                None => match w.app_id {
                    Some(a) => a,
                    None => String::from_str("-- window name missing --"),
                },
            };
            let ghost l0 = listed@;
            listed.push(Entry {
                id: u64_to_decimal(w.id),
                title,
                action: String::from_str("focus"),
                meta: String::from_str("Niri Windows"),
                command: None,
            });
            proof {
                assert(all[listed@.len() - 1] == w0);
                assert(all.take(listed@.len() as int) =~= all.take(listed@.len() - 1).push(w0));
                assert(entries_view(listed@) =~= entries_view(l0).push(niri_entry(w0)));
                assert(all =~= all.take(listed@.len() as int) + windows@);
            }
        }
        assert(all.take(listed@.len() as int) =~= all);
        let ghost l = listed@;
        self.entries = listed;
        self.sort();
    }

    /// Focuses the window whose id the entry holds.
    pub fn activate(&self, entry: &Entry) -> (r: Result<Activation, ActivationError>)
        ensures
            match parsed_u64(entry.id@) {
                Some(id) => r matches Ok(Activation::NiriFocus(f)) && f == id,
                None => r matches Err(ActivationError::InvalidWindowId(e)) && e@ == entry.id@,
            },
    {
        match parse_u64(entry.id.as_str()) {
            Some(id) => Ok(Activation::NiriFocus(id)),
            None => Err(ActivationError::InvalidWindowId(entry.id.clone())),
        }
    }
}

} // verus!
