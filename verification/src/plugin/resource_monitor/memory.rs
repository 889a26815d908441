use vstd::prelude::*;
use crate::model::{Entry, Message, Plugin, copy_entries, entries_view};
use crate::search::{search, search_message};
use crate::model::EntryView;
use crate::text::{decimal, u64_to_decimal};

verus! {

/// How much of the memory is in use.
#[derive(Debug)]
pub struct MemoryPlugin {
    pub entries: Vec<Entry>,
}

impl MemoryPlugin {
    /// The plugin's id.
    pub fn id() -> (r: &'static str)
        ensures
            r@ == "resource_monitor_memory"@,
    {
        "resource_monitor_memory"
    }

    /// Where the plugin is listed: higher priorities come first.
    pub fn priority() -> (r: u32)
        ensures
            r == 11,
    {
        11
    }

    /// The heading shown above the plugin's entries.
    pub fn title() -> (r: &'static str)
        ensures
            r@ == "󱓱 Memory"@,
    {
        "󱓱 Memory"
    }

    /// Copies of the plugin's entries.
    pub fn entries(&self) -> (r: Vec<Entry>)
        ensures
            entries_view(r@) == entries_view(self.entries@),
    {
        copy_entries(&self.entries)
    }

    /// Replaces the plugin's entries.
    pub fn set_entries(&mut self, entries: Vec<Entry>)
        ensures
            final(self).entries == entries,
    {
        self.entries = entries;
    }

    /// The plugin as the launcher lists it.
    pub fn plugin(&self) -> (r: Plugin)
        ensures
            r.id@ == "resource_monitor_memory"@,
            r.priority == 11,
            r.title@ == "󱓱 Memory"@,
            entries_view(r.entries@) == entries_view(self.entries@),
    {
        Plugin {
            id: String::from_str(Self::id()),
            priority: Self::priority(),
            title: String::from_str(Self::title()),
            entries: self.entries(),
        }
    }

    /// The message that answers a search for `query` among the entries.
    pub fn search(&self, query: &String) -> (r: Message)
        ensures
            search_message(r, "resource_monitor_memory"@, entries_view(self.entries@), query@),
    {
        let shown = self.entries();
        let ghost src = shown@;
        let found = search(shown, query);
        let r = Message::UpdateEntries(String::from_str(Self::id()), found);
        assert(entries_view(src) == entries_view(self.entries@));
        r
    }
}

/// The share of the memory in use, in whole percent, rounded down.
pub open spec fn memory_percentage(used: u64, total: u64) -> nat {
    ((100 * used) as nat / total as nat) as nat
}

/// The title of the memory entry: the share in use, then the amounts in
/// gigabytes as the caller formatted them.
pub open spec fn memory_title(used: u64, total: u64, used_gb: Seq<char>, total_gb: Seq<char>) -> Seq<char> {
    decimal(memory_percentage(used, total)) + "% ("@ + used_gb + "gb / "@ + total_gb + "gb)"@
}

/// The share of memory in use is the percentage rounded down: the largest
/// whole percentage of the total that does not exceed what is in use, so
/// at most 100 where no more than the total is in use.
pub proof fn lemma_memory_percentage(used: u64, total: u64)
    requires
        total > 0,
    ensures
        memory_percentage(used, total) * total <= 100 * used,
        100 * used < (memory_percentage(used, total) + 1) * total,
        used <= total ==> memory_percentage(used, total) <= 100,
{
    let p = memory_percentage(used, total);
    let n = (100 * used) as nat;
    let t = total as nat;
    assert(p == n / t);
    assert(p * t <= n && n < (p + 1) * t) by (nonlinear_arith)
        requires
            p == n / t,
            t > 0,
    {
        assert(n == t * (n / t) + n % t);
    }
    if used <= total {
        assert(p <= 100) by (nonlinear_arith)
            requires
                p * t <= 100 * used,
                used <= t,
                t > 0,
        ;
    }
}

/// The memory's title starts with the share in use, then "% (", the
/// memory in use, "gb / ", and ends with the total memory and "gb)".
pub proof fn lemma_memory_title(used: u64, total: u64, used_gb: Seq<char>, total_gb: Seq<char>)
    ensures
        ({
            let title = memory_title(used, total, used_gb, total_gb);
            let d = decimal(memory_percentage(used, total));
            &&& title.take(d.len() as int) == d
            &&& title.subrange(d.len() as int, d.len() + 3int) == "% ("@
            &&& title.subrange(d.len() + 3int, d.len() + 3int + used_gb.len()) == used_gb
            &&& title.skip(title.len() - total_gb.len() - 3) == total_gb + "gb)"@
        }),
{
    reveal_strlit("% (");
    reveal_strlit("gb / ");
    reveal_strlit("gb)");
    let title = memory_title(used, total, used_gb, total_gb);
    let d = decimal(memory_percentage(used, total));
    assert(title.take(d.len() as int) =~= d);
    assert(title.subrange(d.len() as int, d.len() + 3int) =~= "% ("@);
    assert(title.subrange(d.len() + 3int, d.len() + 3int + used_gb.len()) =~= used_gb);
    assert(title.skip(title.len() - total_gb.len() - 3) =~= total_gb + "gb)"@);
}

/// The one entry of the memory plugin.
pub open spec fn memory_entry(used: u64, total: u64, used_gb: Seq<char>, total_gb: Seq<char>) -> EntryView {
    EntryView {
        id: "memory"@,
        title: memory_title(used, total, used_gb, total_gb),
        action: ""@,
        meta: "Resource Monitor Memory RAM"@,
        command: None,
    }
}

impl MemoryPlugin {
    /// A plugin with no entries yet.
    pub fn new() -> (r: Self)
        ensures
            r.entries@.len() == 0,
    {
        Self { entries: Vec::new() }
    }

    /// How often the entries are refreshed, in seconds.
    pub fn update_timeout() -> (r: Option<u64>)
        ensures
            r == Some(2u64),
    {
        Some(2)
    }

    /// Shows how much of the memory is in use: `used` and `total` in bytes,
    /// `used_gb` and `total_gb` the same amounts in gigabytes, written with
    /// two decimals.
    pub fn update_entries(&mut self, used: u64, total: u64, used_gb: &str, total_gb: &str)
        requires
            total > 0,
            100 * used <= u64::MAX,
        ensures
            entries_view(final(self).entries@) == seq![memory_entry(used, total, used_gb@, total_gb@)],
    {
        self.entries = memory_entries(used, total, used_gb, total_gb);
    }
}

/// The one entry that tells how much of the memory is in use.
pub fn memory_entries(used: u64, total: u64, used_gb: &str, total_gb: &str) -> (r: Vec<Entry>)
    requires
        total > 0,
        100 * used <= u64::MAX,
    ensures
        entries_view(r@) == seq![memory_entry(used, total, used_gb@, total_gb@)],
{
    let percentage = 100 * used / total;
    let mut title = u64_to_decimal(percentage);
    title.append("% (");
    title.append(used_gb);
    title.append("gb / ");
    title.append(total_gb);
    title.append("gb)");
    let mut entries: Vec<Entry> = Vec::new();
    entries.push(Entry {
        id: String::from_str("memory"),
        title,
        action: String::from_str(""),
        meta: String::from_str("Resource Monitor Memory RAM"),
        command: None,
    });
    assert(entries_view(entries@) =~= seq![memory_entry(used, total, used_gb@, total_gb@)]);
    entries
}

} // verus!
