use vstd::prelude::*;
use crate::model::{Entry, Message, Plugin, copy_entries, entries_view};
use crate::search::{search, search_message};
use crate::model::EntryView;
use crate::text::{decimal, decimal_int, i64_to_decimal, u64_to_decimal};

verus! {

/// How busy the processor is, in all and core by core.
#[derive(Debug)]
pub struct CpuPlugin {
    pub entries: Vec<Entry>,
}

impl CpuPlugin {
    /// The plugin's id.
    pub fn id() -> (r: &'static str)
        ensures
            r@ == "resource_monitor_cpu"@,
    {
        "resource_monitor_cpu"
    }

    /// Where the plugin is listed: higher priorities come first.
    pub fn priority() -> (r: u32)
        ensures
            r == 13,
    {
        13
    }

    /// The heading shown above the plugin's entries.
    pub fn title() -> (r: &'static str)
        ensures
            r@ == "󰍛 CPU"@,
    {
        "󰍛 CPU"
    }

    /// Copies of the plugin's entries.
    pub fn entries(&self) -> (r: Vec<Entry>)
        ensures
            entries_view(r@) == entries_view(self.entries@),
    {
        copy_entries(&self.entries)
    }

    /// Replaces the plugin's entries.
    pub fn set_entries(&mut self, entries: Vec<Entry>)
        ensures
            final(self).entries == entries,
    {
        self.entries = entries;
    }

    /// The plugin as the launcher lists it.
    pub fn plugin(&self) -> (r: Plugin)
        ensures
            r.id@ == "resource_monitor_cpu"@,
            r.priority == 13,
            r.title@ == "󰍛 CPU"@,
            entries_view(r.entries@) == entries_view(self.entries@),
    {
        Plugin {
            id: String::from_str(Self::id()),
            priority: Self::priority(),
            title: String::from_str(Self::title()),
            entries: self.entries(),
        }
    }

    /// The message that answers a search for `query` among the entries.
    pub fn search(&self, query: &String) -> (r: Message)
        ensures
            search_message(r, "resource_monitor_cpu"@, entries_view(self.entries@), query@),
    {
        let shown = self.entries();
        let ghost src = shown@;
        let found = search(shown, query);
        let r = Message::UpdateEntries(String::from_str(Self::id()), found);
        assert(entries_view(src) == entries_view(self.entries@));
        r
    }
}

/// The bar that stands for one core's usage in percent.
pub open spec fn core_bar(usage: int) -> Seq<char> {
    if 0 <= usage <= 12 {
        " ▁"@
    } else if 13 <= usage <= 25 {
        " ▂"@
    } else if 26 <= usage <= 37 {
        " ▃"@
    } else if 38 <= usage <= 50 {
        " ▄"@
    } else if 51 <= usage <= 62 {
        " ▅"@
    } else if 63 <= usage <= 75 {
        " ▆"@
    } else if 76 <= usage <= 87 {
        " ▇"@
    } else {
        " █"@
    }
}

/// The bars of all cores, in order.
pub open spec fn core_bars(usages: Seq<i32>) -> Seq<char>
    decreases usages.len(),
{
    if usages.len() == 0 {
        Seq::empty()
    } else {
        core_bars(usages.drop_last()) + core_bar(usages.last() as int)
    }
}

/// The title of the processor entry: the overall usage, the number of cores,
/// and a bar for each core.
pub open spec fn cpu_title(overall: i32, usages: Seq<i32>) -> Seq<char> {
    decimal_int(overall as int) + "% – "@ + decimal(usages.len()) + " Cores:"@ + core_bars(usages)
}

/// The bars, from an idle core to a fully used one.
pub open spec fn bars() -> Seq<Seq<char>> {
    seq![" ▁"@, " ▂"@, " ▃"@, " ▄"@, " ▅"@, " ▆"@, " ▇"@, " █"@]
}

/// A core's usage is drawn as one of eight bars, each a space and a block:
/// the eighth of the range the usage falls in, 0 to 12 the lowest and 88
/// or more, or a usage that is no percentage, the full one.
pub proof fn lemma_core_bar(usage: int)
    ensures
        bars().contains(core_bar(usage)),
        core_bar(usage).len() == 2,
        0 <= usage <= 12 ==> core_bar(usage) == bars()[0],
        13 <= usage <= 25 ==> core_bar(usage) == bars()[1],
        26 <= usage <= 37 ==> core_bar(usage) == bars()[2],
        38 <= usage <= 50 ==> core_bar(usage) == bars()[3],
        51 <= usage <= 62 ==> core_bar(usage) == bars()[4],
        63 <= usage <= 75 ==> core_bar(usage) == bars()[5],
        76 <= usage <= 87 ==> core_bar(usage) == bars()[6],
        (usage >= 88 || usage < 0) ==> core_bar(usage) == bars()[7],
{
    reveal_strlit(" ▁");
    reveal_strlit(" ▂");
    reveal_strlit(" ▃");
    reveal_strlit(" ▄");
    reveal_strlit(" ▅");
    reveal_strlit(" ▆");
    reveal_strlit(" ▇");
    reveal_strlit(" █");
    let b = bars();
    if 0 <= usage <= 12 {
        assert(b[0] == core_bar(usage));
    } else if 13 <= usage <= 25 {
        assert(b[1] == core_bar(usage));
    } else if 26 <= usage <= 37 {
        assert(b[2] == core_bar(usage));
    } else if 38 <= usage <= 50 {
        assert(b[3] == core_bar(usage));
    } else if 51 <= usage <= 62 {
        assert(b[4] == core_bar(usage));
    } else if 63 <= usage <= 75 {
        assert(b[5] == core_bar(usage));
    } else if 76 <= usage <= 87 {
        assert(b[6] == core_bar(usage));
    } else {
        assert(b[7] == core_bar(usage));
    }
}

/// The bars of the cores stand in the order of the cores, one bar of two
/// characters per core.
pub proof fn lemma_core_bars(usages: Seq<i32>)
    ensures
        core_bars(usages).len() == 2 * usages.len(),
        forall|i: int| 0 <= i < usages.len() ==> core_bars(usages).subrange(2 * i, 2 * i + 2) == core_bar(
            #[trigger] usages[i] as int,
        ),
    decreases usages.len(),
{
    if usages.len() > 0 {
        let rest = usages.drop_last();
        lemma_core_bars(rest);
        lemma_core_bar(usages.last() as int);
        let b = core_bars(usages);
        assert forall|i: int| 0 <= i < usages.len() implies b.subrange(2 * i, 2 * i + 2) == core_bar(
            #[trigger] usages[i] as int,
        ) by {
            if i < usages.len() - 1 {
                assert(rest[i] == usages[i]);
                assert(b.subrange(2 * i, 2 * i + 2) =~= core_bars(rest).subrange(2 * i, 2 * i + 2));
            } else {
                assert(b.subrange(2 * i, 2 * i + 2) =~= core_bar(usages.last() as int));
            }
        }
    }
}

/// The processor's title starts with the overall usage and "% – ", and
/// ends with the bars of the cores.
pub proof fn lemma_cpu_title(overall: i32, usages: Seq<i32>)
    ensures
        cpu_title(overall, usages).take(decimal_int(overall as int).len() + 4int) == decimal_int(overall as int) + "% – "@,
        cpu_title(overall, usages).skip(cpu_title(overall, usages).len() - core_bars(usages).len()) == core_bars(usages),
{
    reveal_strlit("% – ");
    let t = cpu_title(overall, usages);
    assert(t.take(decimal_int(overall as int).len() + 4int) =~= decimal_int(overall as int) + "% – "@);
    assert(t.skip(t.len() - core_bars(usages).len()) =~= core_bars(usages));
}

/// The one entry of the processor plugin.
pub open spec fn cpu_entry(overall: i32, usages: Seq<i32>) -> EntryView {
    EntryView {
        id: "cpu"@,
        title: cpu_title(overall, usages),
        action: ""@,
        meta: "Resource Monitor CPU"@,
        command: None,
    }
}

/// The bar for a core that is `usage` percent busy.
pub fn bar_for(usage: i32) -> (r: &'static str)
    ensures
        r@ == core_bar(usage as int),
{
    if 0 <= usage && usage <= 12 {
        " ▁"
    } else if 13 <= usage && usage <= 25 {
        " ▂"
    } else if 26 <= usage && usage <= 37 {
        " ▃"
    } else if 38 <= usage && usage <= 50 {
        " ▄"
    } else if 51 <= usage && usage <= 62 {
        " ▅"
    } else if 63 <= usage && usage <= 75 {
        " ▆"
    } else if 76 <= usage && usage <= 87 {
        " ▇"
    } else {
        " █"
    }
}

impl CpuPlugin {
    /// A plugin with no entries yet.
    pub fn new() -> (r: Self)
        ensures
            r.entries@.len() == 0,
    {
        Self { entries: Vec::new() }
    }

    /// How often the entries are refreshed, in seconds.
    pub fn update_timeout() -> (r: Option<u64>)
        ensures
            r == Some(2u64),
    {
        Some(2)
    }

    /// Shows the overall usage in percent and one bar per core, from the
    /// usages of the cores in percent.
    pub fn update_entries(&mut self, overall: i32, usages: &Vec<i32>)
        ensures
            entries_view(final(self).entries@) == seq![cpu_entry(overall, usages@)],
    {
        let mut title = i64_to_decimal(overall as i64);
        title.append("% – ");
        let count = u64_to_decimal(usages.len() as u64);
        title.append(count.as_str());
        title.append(" Cores:");
        let ghost head = title@;
        let mut i: usize = 0;
        while i < usages.len()
            invariant
                i <= usages.len(),
                title@ == head + core_bars(usages@.subrange(0, i as int)),
            decreases usages.len() - i,
        {
            let bar = bar_for(usages[i]);
            title.append(bar);
            proof {
                let s = usages@.subrange(0, i + 1);
                assert(s.drop_last() =~= usages@.subrange(0, i as int));
                assert(s.last() == usages@[i as int]);
            }
            i = i + 1;
        }
        assert(usages@.subrange(0, usages.len() as int) =~= usages@);
        let mut entries: Vec<Entry> = Vec::new();
        entries.push(Entry {
            id: String::from_str("cpu"),
            title,
            action: String::from_str(""),
            meta: String::from_str("Resource Monitor CPU"),
            command: None,
        });
        assert(entries_view(entries@) =~= seq![cpu_entry(overall, usages@)]);
        self.entries = entries;
    }
}

} // verus!
