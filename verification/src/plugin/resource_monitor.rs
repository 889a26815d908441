//! Plugins that show the state of the machine: battery, processor, memory,
//! and a combined monitor with one list each for the cores, the disks and
//! the memory.

pub mod battery;
pub mod cpu;
pub mod memory;

use vstd::prelude::*;
use crate::model::{Entry, EntryView, Message, Plugin, copy_entries, entries_view};
use crate::search::{search, search_message};
use crate::text::{decimal, decimal_int, i64_to_decimal, u64_to_decimal};
use self::memory::{memory_entries, memory_entry};

verus! {

/// One processor core as the machine reports it: its name, how busy it is
/// in percent, and its frequency in MHz.
#[derive(Debug)]
pub struct CoreReading {
    pub name: String,
    pub usage: i32,
    pub frequency: u64,
}

/// One disk as the machine reports it: where it is mounted, its size and
/// free space in bytes, and the used and total space in gigabytes, written
/// with two decimals.
#[derive(Debug)]
pub struct DiskReading {
    pub mount_point: String,
    pub total: u64,
    pub available: u64,
    pub used_gb: String,
    pub total_gb: String,
}

/// The disk can be shown: it has a size, no more free space than its size,
/// and its used share in percent can be computed in 64 bits.
pub open spec fn disk_readable(d: DiskReading) -> bool {
    &&& d.total > 0
    &&& d.available <= d.total
    &&& 100 * (d.total - d.available) <= u64::MAX
}

/// The entry of a core.
pub open spec fn core_entry(c: CoreReading) -> EntryView {
    EntryView {
        id: c.name@,
        title: c.name@ + ": "@ + decimal_int(c.usage as int) + "% "@ + decimal(c.frequency as nat) + "MHz"@,
        action: ""@,
        meta: "Resource Monitor Disks"@,
        command: None,
    }
}

/// The share of a disk in use, in whole percent, rounded down.
pub open spec fn disk_percentage(d: DiskReading) -> nat {
    ((100 * (d.total - d.available)) as nat / d.total as nat) as nat
}

/// The entry of a disk.
pub open spec fn disk_entry(d: DiskReading) -> EntryView {
    EntryView {
        id: d.mount_point@,
        title: d.mount_point@ + " "@ + decimal(disk_percentage(d)) + "% ("@ + d.used_gb@ + "gb / "@
            + d.total_gb@ + "gb)"@,
        action: ""@,
        meta: "Resource Monitor Disks"@,
        command: None,
    }
}

/// What the machine reports for one refresh of the monitor: the cores, the
/// disks, and the memory in use and in all, in bytes and in gigabytes.
#[derive(Debug)]
pub struct MachineReading {
    pub cores: Vec<CoreReading>,
    pub disks: Vec<DiskReading>,
    pub used_memory: u64,
    pub total_memory: u64,
    pub used_memory_gb: String,
    pub total_memory_gb: String,
}

/// The reading can be shown: every disk can, and the memory has a size
/// The share of a disk in use is the percentage rounded down of its used
/// space (size less free space): at most 100.
pub proof fn lemma_disk_percentage(d: DiskReading)
    requires
        disk_readable(d),
    ensures
        disk_percentage(d) * d.total <= 100 * (d.total - d.available),
        100 * (d.total - d.available) < (disk_percentage(d) + 1) * d.total,
        disk_percentage(d) <= 100,
{
    let p = disk_percentage(d);
    let n = (100 * (d.total - d.available)) as nat;
    let t = d.total as nat;
    let u = (d.total - d.available) as nat;
    assert(p == n / t);
    assert(p * t <= n && n < (p + 1) * t) by (nonlinear_arith)
        requires
            p == n / t,
            t > 0,
    {
        assert(n == t * (n / t) + n % t);
    }
    assert(p <= 100) by (nonlinear_arith)
        requires
            p * t <= 100 * u,
            u <= t,
            t > 0,
    ;
}

/// A disk is listed under its mount point; its title starts with the mount
/// point and a space, then the share in use, and ends with the total size
/// and "gb)". A core is listed under its name, and its title starts with
/// the name and ": ", then its usage, and ends with "MHz".
pub proof fn lemma_disk_and_core_titles(d: DiskReading, c: CoreReading)
    ensures
        disk_entry(d).id == d.mount_point@,
        disk_entry(d).title.take(d.mount_point@.len() + 1int) == d.mount_point@ + " "@,
        disk_entry(d).title.subrange(d.mount_point@.len() + 1int, d.mount_point@.len() + 1int + decimal(disk_percentage(d)).len())
            == decimal(disk_percentage(d)),
        disk_entry(d).title.skip(disk_entry(d).title.len() - d.total_gb@.len() - 3) == d.total_gb@ + "gb)"@,
        core_entry(c).id == c.name@,
        core_entry(c).title.take(c.name@.len() + 2int) == c.name@ + ": "@,
        core_entry(c).title.subrange(c.name@.len() + 2int, c.name@.len() + 2int + decimal_int(c.usage as int).len())
            == decimal_int(c.usage as int),
        core_entry(c).title.skip(core_entry(c).title.len() - 3) == "MHz"@,
{
    reveal_strlit(" ");
    reveal_strlit("% (");
    reveal_strlit("gb / ");
    reveal_strlit("gb)");
    reveal_strlit(": ");
    reveal_strlit("% ");
    reveal_strlit("MHz");
    let t = disk_entry(d).title;
    let m = d.mount_point@;
    let p = decimal(disk_percentage(d));
    assert(t.take(m.len() + 1int) =~= m + " "@);
    assert(t.subrange(m.len() + 1int, m.len() + 1int + p.len()) =~= p);
    assert(t.skip(t.len() - d.total_gb@.len() - 3) =~= d.total_gb@ + "gb)"@);
    let ct = core_entry(c).title;
    let n = c.name@;
    let u = decimal_int(c.usage as int);
    assert(ct.take(n.len() + 2int) =~= n + ": "@);
    assert(ct.subrange(n.len() + 2int, n.len() + 2int + u.len()) =~= u);
    assert(ct.skip(ct.len() - 3) =~= "MHz"@);
}

/// whose used share can be computed in 64 bits.
pub open spec fn machine_readable(m: MachineReading) -> bool {
    &&& forall|i: int| 0 <= i < m.disks@.len() ==> disk_readable(#[trigger] m.disks@[i])
    &&& m.total_memory > 0
    &&& 100 * m.used_memory <= u64::MAX
}

/// The entries of the cores, in order.
pub fn core_entries(cores: &Vec<CoreReading>) -> (r: Vec<Entry>)
    ensures
        entries_view(r@) == cores@.map_values(|c: CoreReading| core_entry(c)),
{
    let mut entries: Vec<Entry> = Vec::new();
    let mut i: usize = 0;
    while i < cores.len()
        invariant
            i <= cores.len(),
            entries_view(entries@) == cores@.subrange(0, i as int).map_values(|c: CoreReading| core_entry(c)),
        decreases cores.len() - i,
    {
        let c = &cores[i];
        let mut title = c.name.clone();
        title.append(": ");
        let usage = i64_to_decimal(c.usage as i64);
        title.append(usage.as_str());
        title.append("% ");
        let frequency = u64_to_decimal(c.frequency);
        title.append(frequency.as_str());
        title.append("MHz");
        let ghost e0 = entries@;
        entries.push(Entry {
            id: c.name.clone(),
            title,
            action: String::from_str(""),
            meta: String::from_str("Resource Monitor Disks"),
            command: None,
        });
        proof {
            assert(entries_view(entries@) =~= entries_view(e0).push(core_entry(cores@[i as int])));
            assert(cores@.subrange(0, i + 1) =~= cores@.subrange(0, i as int).push(cores@[i as int]));
        }
        i = i + 1;
    }
    assert(cores@.subrange(0, cores.len() as int) =~= cores@);
    entries
}

/// The entries of the disks, in order.
pub fn disk_entries(disks: &Vec<DiskReading>) -> (r: Vec<Entry>)
    requires
        forall|i: int| 0 <= i < disks@.len() ==> disk_readable(#[trigger] disks@[i]),
    ensures
        entries_view(r@) == disks@.map_values(|d: DiskReading| disk_entry(d)),
{
    let mut entries: Vec<Entry> = Vec::new();
    let mut i: usize = 0;
    while i < disks.len()
        invariant
            i <= disks.len(),
            forall|k: int| 0 <= k < disks@.len() ==> disk_readable(#[trigger] disks@[k]),
            entries_view(entries@) == disks@.subrange(0, i as int).map_values(|d: DiskReading| disk_entry(d)),
        decreases disks.len() - i,
    {
        let d = &disks[i];
        assert(disk_readable(disks@[i as int]));
        let used = d.total - d.available;
        let percentage = 100 * used / d.total;
        let mut title = d.mount_point.clone();
        title.append(" ");
        let digits = u64_to_decimal(percentage);
        title.append(digits.as_str());
        title.append("% (");
        title.append(d.used_gb.as_str());
        title.append("gb / ");
        title.append(d.total_gb.as_str());
        title.append("gb)");
        let ghost e0 = entries@;
        entries.push(Entry {
            id: d.mount_point.clone(),
            title,
            action: String::from_str(""),
            meta: String::from_str("Resource Monitor Disks"),
            command: None,
        });
        proof {
            assert(entries_view(entries@) =~= entries_view(e0).push(disk_entry(disks@[i as int])));
            assert(disks@.subrange(0, i + 1) =~= disks@.subrange(0, i as int).push(disks@[i as int]));
        }
        i = i + 1;
    }
    assert(disks@.subrange(0, disks.len() as int) =~= disks@);
    entries
}

/// A copy of a plugin as the launcher lists it.
fn copy_plugin(p: &Plugin) -> (r: Plugin)
    ensures
        r.id@ == p.id@,
        r.priority == p.priority,
        r.title@ == p.title@,
        entries_view(r.entries@) == entries_view(p.entries@),
{
    Plugin { id: p.id.clone(), priority: p.priority, title: p.title.clone(), entries: copy_entries(&p.entries) }
}

/// The plugin with the given texts and no entries.
fn empty_plugin(id: &str, priority: u32, title: &str) -> (r: Plugin)
    ensures
        r.id@ == id@,
        r.priority == priority,
        r.title@ == title@,
        r.entries@.len() == 0,
{
    Plugin { id: String::from_str(id), priority, title: String::from_str(title), entries: Vec::new() }
}

/// One monitor with three lists: the cores, the disks and the memory. It
/// remembers the last query, so that a refresh shows what that query finds.
#[derive(Debug)]
pub struct ResourceMonitorPlugin {
    pub cpu_plugin: Plugin,
    pub disk_plugin: Plugin,
    pub memory_plugin: Plugin,
    pub last_query: String,
}

impl ResourceMonitorPlugin {
    /// The three lists, empty, and no query yet.
    pub fn new() -> (r: Self)
        ensures
            r.cpu_plugin.id@ == "cpu-usage"@,
            r.cpu_plugin.priority == 13,
            r.cpu_plugin.title@ == "󰅐 CPU"@,
            r.cpu_plugin.entries@.len() == 0,
            r.disk_plugin.id@ == "disk-usage"@,
            r.disk_plugin.priority == 12,
            r.disk_plugin.title@ == "󰅐 Disks"@,
            r.disk_plugin.entries@.len() == 0,
            r.memory_plugin.id@ == "memory-usage"@,
            r.memory_plugin.priority == 11,
            r.memory_plugin.title@ == "󰅐 Memory"@,
            r.memory_plugin.entries@.len() == 0,
            r.last_query@.len() == 0,
    {
        ResourceMonitorPlugin {
            cpu_plugin: empty_plugin("cpu-usage", 13, "󰅐 CPU"),
            disk_plugin: empty_plugin("disk-usage", 12, "󰅐 Disks"),
            memory_plugin: empty_plugin("memory-usage", 11, "󰅐 Memory"),
            last_query: String::new(),
        }
    }

    /// The messages that register the three lists, cores first.
    pub fn register_plugins(&self) -> (r: Vec<Message>)
        ensures
            r@.len() == 3,
            r@[0] matches Message::RegisterPlugin(p) && p.id@ == self.cpu_plugin.id@
                && p.priority == self.cpu_plugin.priority && p.title@ == self.cpu_plugin.title@
                && entries_view(p.entries@) == entries_view(self.cpu_plugin.entries@),
            r@[1] matches Message::RegisterPlugin(p) && p.id@ == self.disk_plugin.id@
                && p.priority == self.disk_plugin.priority && p.title@ == self.disk_plugin.title@
                && entries_view(p.entries@) == entries_view(self.disk_plugin.entries@),
            r@[2] matches Message::RegisterPlugin(p) && p.id@ == self.memory_plugin.id@
                && p.priority == self.memory_plugin.priority && p.title@ == self.memory_plugin.title@
                && entries_view(p.entries@) == entries_view(self.memory_plugin.entries@),
    {
        let mut r: Vec<Message> = Vec::new();
        r.push(Message::RegisterPlugin(copy_plugin(&self.cpu_plugin)));
        r.push(Message::RegisterPlugin(copy_plugin(&self.disk_plugin)));
        r.push(Message::RegisterPlugin(copy_plugin(&self.memory_plugin)));
        r
    }

    /// Lists the cores.
    pub fn update_cpu_entries(&mut self, cores: &Vec<CoreReading>)
        ensures
            entries_view(final(self).cpu_plugin.entries@) == cores@.map_values(|c: CoreReading| core_entry(c)),
            final(self).cpu_plugin.id == old(self).cpu_plugin.id,
            final(self).cpu_plugin.priority == old(self).cpu_plugin.priority,
            final(self).cpu_plugin.title == old(self).cpu_plugin.title,
            final(self).disk_plugin == old(self).disk_plugin,
            final(self).memory_plugin == old(self).memory_plugin,
            final(self).last_query == old(self).last_query,
    {
        self.cpu_plugin.entries = core_entries(cores);
    }

    /// Lists the disks.
    pub fn update_disk_entries(&mut self, disks: &Vec<DiskReading>)
        requires
            forall|i: int| 0 <= i < disks@.len() ==> disk_readable(#[trigger] disks@[i]),
        ensures
            entries_view(final(self).disk_plugin.entries@) == disks@.map_values(|d: DiskReading| disk_entry(d)),
            final(self).disk_plugin.id == old(self).disk_plugin.id,
            final(self).disk_plugin.priority == old(self).disk_plugin.priority,
            final(self).disk_plugin.title == old(self).disk_plugin.title,
            final(self).cpu_plugin == old(self).cpu_plugin,
            final(self).memory_plugin == old(self).memory_plugin,
            final(self).last_query == old(self).last_query,
    {
        self.disk_plugin.entries = disk_entries(disks);
    }

    /// Shows how much of the memory is in use.
    pub fn update_memory_entries(&mut self, used: u64, total: u64, used_gb: &str, total_gb: &str)
        requires
            total > 0,
            100 * used <= u64::MAX,
        ensures
            entries_view(final(self).memory_plugin.entries@) == seq![memory_entry(used, total, used_gb@, total_gb@)],
            final(self).memory_plugin.id == old(self).memory_plugin.id,
            final(self).memory_plugin.priority == old(self).memory_plugin.priority,
            final(self).memory_plugin.title == old(self).memory_plugin.title,
            final(self).cpu_plugin == old(self).cpu_plugin,
            final(self).disk_plugin == old(self).disk_plugin,
            final(self).last_query == old(self).last_query,
    {
        self.memory_plugin.entries = memory_entries(used, total, used_gb, total_gb);
    }

    /// Searches all three lists for `query`, which becomes the last query:
    /// one message per list, cores first.
    pub fn search(&mut self, query: String) -> (r: Vec<Message>)
        ensures
            r@.len() == 3,
            search_message(r@[0], old(self).cpu_plugin.id@, entries_view(old(self).cpu_plugin.entries@), query@),
            search_message(r@[1], old(self).disk_plugin.id@, entries_view(old(self).disk_plugin.entries@), query@),
            search_message(r@[2], old(self).memory_plugin.id@, entries_view(old(self).memory_plugin.entries@), query@),
            final(self).last_query == query,
            final(self).cpu_plugin == old(self).cpu_plugin,
            final(self).disk_plugin == old(self).disk_plugin,
            final(self).memory_plugin == old(self).memory_plugin,
    {
        let mut r: Vec<Message> = Vec::new();
        let cpu = copy_entries(&self.cpu_plugin.entries);
        let ghost cpu_src = cpu@;
        r.push(Message::UpdateEntries(self.cpu_plugin.id.clone(), search(cpu, &query)));
        let disk = copy_entries(&self.disk_plugin.entries);
        let ghost disk_src = disk@;
        r.push(Message::UpdateEntries(self.disk_plugin.id.clone(), search(disk, &query)));
        let memory = copy_entries(&self.memory_plugin.entries);
        let ghost memory_src = memory@;
        r.push(Message::UpdateEntries(self.memory_plugin.id.clone(), search(memory, &query)));
        assert(entries_view(cpu_src) == entries_view(self.cpu_plugin.entries@));
        assert(entries_view(disk_src) == entries_view(self.disk_plugin.entries@));
        assert(entries_view(memory_src) == entries_view(self.memory_plugin.entries@));
        self.last_query = query;
        r
    }

    /// Refreshes the three lists from a reading of the machine, then answers
    /// the last query again.
    pub fn update_entries(&mut self, reading: &MachineReading) -> (r: Vec<Message>)
        requires
            machine_readable(*reading),
        ensures
            r@.len() == 3,
            search_message(r@[0], old(self).cpu_plugin.id@,
                reading.cores@.map_values(|c: CoreReading| core_entry(c)), old(self).last_query@),
            search_message(r@[1], old(self).disk_plugin.id@,
                reading.disks@.map_values(|d: DiskReading| disk_entry(d)), old(self).last_query@),
            search_message(r@[2], old(self).memory_plugin.id@,
                seq![memory_entry(reading.used_memory, reading.total_memory, reading.used_memory_gb@,
                reading.total_memory_gb@)], old(self).last_query@),
            entries_view(final(self).cpu_plugin.entries@) == reading.cores@.map_values(|c: CoreReading| core_entry(c)),
            entries_view(final(self).disk_plugin.entries@) == reading.disks@.map_values(|d: DiskReading| disk_entry(d)),
            entries_view(final(self).memory_plugin.entries@) == seq![memory_entry(reading.used_memory,
                reading.total_memory, reading.used_memory_gb@, reading.total_memory_gb@)],
            final(self).last_query == old(self).last_query,
    {
        self.update_cpu_entries(&reading.cores);
        self.update_disk_entries(&reading.disks);
        self.update_memory_entries(
            reading.used_memory,
            reading.total_memory,
            reading.used_memory_gb.as_str(),
            reading.total_memory_gb.as_str(),
        );
        let query = self.last_query.clone();
        self.search(query)
    }
}

} // verus!
