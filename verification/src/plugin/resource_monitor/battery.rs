use vstd::prelude::*;
use crate::model::{Entry, Message, Plugin, copy_entries, entries_view};
use crate::search::{search, search_message};
use crate::model::EntryView;

verus! {

/// What the machine reports of one battery, each part already written out:
/// the charge in percent ("87"), the state ("charging"), and the time left
/// until full and until empty where the machine knows it
/// (": 1h 5m remaining").
#[derive(Debug)]
pub struct BatteryReading {
    pub charge: String,
    pub state: String,
    pub time_to_full: Option<String>,
    pub time_to_empty: Option<String>,
}

/// A text that may be missing, with nothing in its place.
pub open spec fn or_nothing(o: Option<String>) -> Seq<char> {
    match o {
        Some(s) => s@,
        None => Seq::empty(),
    }
}

/// The title of a battery's entry.
pub open spec fn battery_title(b: BatteryReading) -> Seq<char> {
    b.charge@ + "% – "@ + b.state@ + or_nothing(b.time_to_full) + or_nothing(b.time_to_empty)
}

/// What a battery's title tells: it starts with the charge and "% – ",
/// then the state; it ends with the time left until empty where the
/// machine knows it, and otherwise with the time left until full where it
/// knows that, and with the state where it knows neither. Nothing else is
/// written: the title is as long as these parts together.
pub proof fn lemma_battery_title_parts(b: BatteryReading)
    ensures
        battery_title(b).len() == b.charge@.len() + 4 + b.state@.len() + or_nothing(b.time_to_full).len()
            + or_nothing(b.time_to_empty).len(),
        battery_title(b).take(b.charge@.len() as int) == b.charge@,
        battery_title(b).subrange(b.charge@.len() as int, b.charge@.len() + 4int) == "% – "@,
        battery_title(b).subrange(b.charge@.len() + 4int, b.charge@.len() + 4int + b.state@.len()) == b.state@,
        b.time_to_empty matches Some(t) ==> battery_title(b).skip(battery_title(b).len() - t@.len()) == t@,
        b.time_to_empty is None ==> (b.time_to_full matches Some(t) ==> battery_title(b).skip(
            battery_title(b).len() - t@.len(),
        ) == t@),
        (b.time_to_empty is None && b.time_to_full is None) ==> battery_title(b).skip(
            battery_title(b).len() - b.state@.len(),
        ) == b.state@,
{
    reveal_strlit("% – ");
    let t = battery_title(b);
    let c = b.charge@;
    let m = "% – "@;
    let st = b.state@;
    let f = or_nothing(b.time_to_full);
    let e = or_nothing(b.time_to_empty);
    assert(t == c + m + st + f + e);
    assert(t.take(c.len() as int) =~= c);
    assert(t.subrange(c.len() as int, c.len() + 4int) =~= m);
    assert(t.subrange(c.len() + 4int, c.len() + 4int + st.len()) =~= st);
    assert(t.skip(t.len() - e.len()) =~= e);
    if e.len() == 0 {
        assert(t =~= c + m + st + f);
        assert(t.skip(t.len() - f.len()) =~= f);
        if f.len() == 0 {
            assert(t.skip(t.len() - st.len()) =~= st);
        }
    }
}

/// The entry of a battery.
pub open spec fn battery_entry(b: BatteryReading) -> EntryView {
    EntryView { id: "battery"@, title: battery_title(b), action: ""@, meta: "Resource Monitor Battery"@, command: None }
}

/// The charge of the batteries.
#[derive(Debug)]
pub struct BatteryPlugin {
    pub entries: Vec<Entry>,
}

impl BatteryPlugin {
    /// The plugin's id.
    pub fn id() -> (r: &'static str)
        ensures
            r@ == "resource_monitor_battery"@,
    {
        "resource_monitor_battery"
    }

    /// Where the plugin is listed: higher priorities come first.
    pub fn priority() -> (r: u32)
        ensures
            r == 14,
    {
        14
    }

    /// The heading shown above the plugin's entries.
    pub fn title() -> (r: &'static str)
        ensures
            r@ == "󰁼 Battery"@,
    {
        "󰁼 Battery"
    }

    /// Copies of the plugin's entries.
    pub fn entries(&self) -> (r: Vec<Entry>)
        ensures
            entries_view(r@) == entries_view(self.entries@),
    {
        copy_entries(&self.entries)
    }

    /// Replaces the plugin's entries.
    pub fn set_entries(&mut self, entries: Vec<Entry>)
        ensures
            final(self).entries == entries,
    {
        self.entries = entries;
    }

    /// The plugin as the launcher lists it.
    pub fn plugin(&self) -> (r: Plugin)
        ensures
            r.id@ == "resource_monitor_battery"@,
            r.priority == 14,
            r.title@ == "󰁼 Battery"@,
            entries_view(r.entries@) == entries_view(self.entries@),
    {
        Plugin {
            id: String::from_str(Self::id()),
            priority: Self::priority(),
            title: String::from_str(Self::title()),
            entries: self.entries(),
        }
    }

    /// The message that answers a search for `query` among the entries.
    pub fn search(&self, query: &String) -> (r: Message)
        ensures
            search_message(r, "resource_monitor_battery"@, entries_view(self.entries@), query@),
    {
        let shown = self.entries();
        let ghost src = shown@;
        let found = search(shown, query);
        let r = Message::UpdateEntries(String::from_str(Self::id()), found);
        assert(entries_view(src) == entries_view(self.entries@));
        r
    }
}

/// Appends a text that may be missing.
fn append_optional(title: &mut String, o: &Option<String>)
    ensures
        final(title)@ == old(title)@ + or_nothing(*o),
{
    match o {
        Some(s) => title.append(s.as_str()),
        None => {},
    }
}

impl BatteryPlugin {
    /// A plugin with no entries yet.
    pub fn new() -> (r: Self)
        ensures
            r.entries@.len() == 0,
    {
        Self { entries: Vec::new() }
    }

    /// How often the entries are refreshed, in seconds.
    pub fn update_timeout() -> (r: Option<u64>)
        ensures
            r == Some(2u64),
    {
        Some(2)
    }

    /// Shows one entry per battery, in the order given.
    pub fn update_entries(&mut self, batteries: &Vec<BatteryReading>)
        ensures
            entries_view(final(self).entries@) == batteries@.map_values(|b: BatteryReading| battery_entry(b)),
    {
        let mut entries: Vec<Entry> = Vec::new();
        let mut i: usize = 0;
        while i < batteries.len()
            invariant
                i <= batteries.len(),
                entries_view(entries@) == batteries@.subrange(0, i as int).map_values(|b: BatteryReading| battery_entry(b)),
            decreases batteries.len() - i,
        {
            let b = &batteries[i];
            let mut title = b.charge.clone();
            title.append("% – ");
            title.append(b.state.as_str());
            append_optional(&mut title, &b.time_to_full);
            append_optional(&mut title, &b.time_to_empty);
            let ghost e0 = entries@;
            entries.push(Entry {
                id: String::from_str("battery"),
                title,
                action: String::from_str(""),
                meta: String::from_str("Resource Monitor Battery"),
                command: None,
            });
            proof {
                assert(entries_view(entries@) =~= entries_view(e0).push(battery_entry(batteries@[i as int])));
                assert(batteries@.subrange(0, i + 1) =~= batteries@.subrange(0, i as int).push(batteries@[i as int]));
            }
            i = i + 1;
        }
        assert(batteries@.subrange(0, batteries.len() as int) =~= batteries@);
        self.entries = entries;
    }
}

} // verus!
