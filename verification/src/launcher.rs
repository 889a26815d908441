pub mod laws;

use vstd::prelude::*;
use crate::settings::PluginSettings;
use crate::model::{Effect, Entry, Message, Outgoing, Plugin, PluginRequest, is_search_for};

verus! {

/// The entries of all plugins, plugin after plugin, in list order.
pub open spec fn all_entries(plugins: Seq<Plugin>) -> Seq<Entry>
    decreases plugins.len(),
{
    if plugins.len() == 0 {
        Seq::<Entry>::empty()
    } else {
        all_entries(plugins.drop_last()) + plugins.last().entries@
    }
}

/// The position in the flat list at which the entries of plugin `p` start.
pub open spec fn offset(plugins: Seq<Plugin>, p: int) -> int {
    all_entries(plugins.take(p)).len() as int
}

/// Plugins are listed by priority, the highest first.
pub open spec fn sorted_by_priority(plugins: Seq<Plugin>) -> bool {
    forall|i: int, j: int| 0 <= i < j < plugins.len() ==> #[trigger] plugins[i].priority >= #[trigger] plugins[j].priority
}

pub proof fn lemma_all_entries_take_step(plugins: Seq<Plugin>, p: int)
    requires
        0 <= p < plugins.len(),
    ensures
        all_entries(plugins.take(p + 1)) == all_entries(plugins.take(p)) + plugins[p].entries@,
        offset(plugins, p + 1) == offset(plugins, p) + plugins[p].entries@.len(),
{
    assert(plugins.take(p + 1).drop_last() =~= plugins.take(p));
}

pub proof fn lemma_all_entries_take_all(plugins: Seq<Plugin>)
    ensures
        all_entries(plugins.take(plugins.len() as int)) == all_entries(plugins),
        offset(plugins, plugins.len() as int) == all_entries(plugins).len(),
{
    assert(plugins.take(plugins.len() as int) =~= plugins);
}

pub proof fn lemma_offset_le(plugins: Seq<Plugin>, p: int, q: int)
    requires
        0 <= p <= q <= plugins.len(),
    ensures
        offset(plugins, p) <= offset(plugins, q),
    decreases q - p,
{
    if p < q {
        lemma_all_entries_take_step(plugins, q - 1);
        lemma_offset_le(plugins, p, q - 1);
    }
}

pub proof fn lemma_offset_monotone(plugins: Seq<Plugin>, p: int, q: int)
    requires
        0 <= p <= q <= plugins.len(),
    ensures
        offset(plugins, p) <= offset(plugins, q),
        offset(plugins, q) <= all_entries(plugins).len(),
{
    lemma_offset_le(plugins, p, q);
    lemma_offset_le(plugins, q, plugins.len() as int);
    lemma_all_entries_take_all(plugins);
}

/// The entry at flat position `g` lies in plugin `p` when `g` falls in
/// that plugin's range.
pub proof fn lemma_entry_of_plugin(plugins: Seq<Plugin>, p: int, g: int)
    requires
        0 <= p < plugins.len(),
        offset(plugins, p) <= g < offset(plugins, p + 1),
    ensures
        g < all_entries(plugins).len(),
        all_entries(plugins)[g] == plugins[p].entries@[g - offset(plugins, p)],
    decreases plugins.len() - p,
{
    lemma_all_entries_take_step(plugins, p);
    if p + 1 == plugins.len() {
        lemma_all_entries_take_all(plugins);
    } else {
        lemma_entry_in_prefix(plugins, p + 1, g);
    }
}

/// Entries in the prefix of the first `q` plugins are entries of the whole list.
pub proof fn lemma_entry_in_prefix(plugins: Seq<Plugin>, q: int, g: int)
    requires
        0 <= q <= plugins.len(),
        0 <= g < offset(plugins, q),
    ensures
        g < all_entries(plugins).len(),
        all_entries(plugins)[g] == all_entries(plugins.take(q))[g],
    decreases plugins.len() - q,
{
    if q == plugins.len() {
        lemma_all_entries_take_all(plugins);
    } else {
        lemma_all_entries_take_step(plugins, q);
        lemma_entry_in_prefix(plugins, q + 1, g);
    }
}

pub proof fn lemma_all_entries_add(a: Seq<Plugin>, b: Seq<Plugin>)
    ensures
        all_entries(a + b) == all_entries(a) + all_entries(b),
    decreases b.len(),
{
    if b.len() == 0 {
        assert(a + b =~= a);
        assert(all_entries(a) + all_entries(b) =~= all_entries(a));
    } else {
        assert((a + b).drop_last() =~= a + b.drop_last());
        lemma_all_entries_add(a, b.drop_last());
        assert(all_entries(a + b) =~= all_entries(a) + all_entries(b));
    }
}

pub proof fn lemma_all_entries_single(x: Plugin)
    ensures
        all_entries(seq![x]) == x.entries@,
{
    assert(seq![x].drop_last() =~= Seq::<Plugin>::empty());
    assert(all_entries(Seq::<Plugin>::empty()) =~= Seq::<Entry>::empty());
    assert(Seq::<Entry>::empty() + x.entries@ =~= x.entries@);
}

/// Inserting a plugin adds its entries to the count.
pub proof fn lemma_all_entries_insert(s: Seq<Plugin>, pos: int, x: Plugin)
    requires
        0 <= pos <= s.len(),
    ensures
        all_entries(s.insert(pos, x)).len() == all_entries(s).len() + x.entries@.len(),
{
    assert(s.insert(pos, x) =~= s.take(pos) + (seq![x] + s.skip(pos)));
    assert(s =~= s.take(pos) + s.skip(pos));
    lemma_all_entries_add(s.take(pos), seq![x] + s.skip(pos));
    lemma_all_entries_add(seq![x], s.skip(pos));
    lemma_all_entries_add(s.take(pos), s.skip(pos));
    lemma_all_entries_single(x);
}

/// Replacing a plugin changes the count by the difference in entries.
pub proof fn lemma_all_entries_update(s: Seq<Plugin>, pos: int, x: Plugin)
    requires
        0 <= pos < s.len(),
    ensures
        all_entries(s.update(pos, x)).len() == all_entries(s).len() - s[pos].entries@.len() + x.entries@.len(),
{
    assert(s.update(pos, x) =~= s.take(pos) + (seq![x] + s.skip(pos + 1)));
    assert(s =~= s.take(pos) + (seq![s[pos]] + s.skip(pos + 1)));
    lemma_all_entries_add(s.take(pos), seq![x] + s.skip(pos + 1));
    lemma_all_entries_add(seq![x], s.skip(pos + 1));
    lemma_all_entries_add(s.take(pos), seq![s[pos]] + s.skip(pos + 1));
    lemma_all_entries_add(seq![s[pos]], s.skip(pos + 1));
    lemma_all_entries_single(x);
    lemma_all_entries_single(s[pos]);
}

/// The number of entries that a message brings.
pub open spec fn message_size(m: Message) -> int {
    match m {
        Message::RegisterPlugin(p) => p.entries@.len() as int,
        Message::UpdateEntries(_, es) => es@.len() as int,
        Message::Exit => 0,
    }
}

/// The number of entries that a batch of messages brings.
pub open spec fn incoming(ms: Seq<Message>) -> int
    decreases ms.len(),
{
    if ms.len() == 0 {
        0
    } else {
        message_size(ms[0]) + incoming(ms.drop_first())
    }
}

/// Where a plugin of the given priority joins the list: before the first
/// plugin of a lower priority.
pub open spec fn insert_position(ps: Seq<Plugin>, priority: u32) -> int
    decreases ps.len(),
{
    if ps.len() == 0 {
        0
    } else if ps[0].priority < priority {
        0
    } else {
        1 + insert_position(ps.drop_first(), priority)
    }
}

/// The list after registering a plugin.
pub open spec fn registered(ps: Seq<Plugin>, plugin: Plugin) -> Seq<Plugin> {
    ps.insert(insert_position(ps, plugin.priority), plugin)
}

/// The position of the first plugin with the given id, or the length of
/// the list where there is none.
pub open spec fn id_position(ps: Seq<Plugin>, id: Seq<char>) -> int
    decreases ps.len(),
{
    if ps.len() == 0 {
        0
    } else if ps[0].id@ == id {
        0
    } else {
        1 + id_position(ps.drop_first(), id)
    }
}

/// The list after the first plugin with the given id takes new entries.
pub open spec fn updated(ps: Seq<Plugin>, id: Seq<char>, entries: Vec<Entry>) -> Seq<Plugin> {
    let k = id_position(ps, id);
    if k < ps.len() {
        ps.update(k, Plugin { id: ps[k].id, priority: ps[k].priority, title: ps[k].title, entries })
    } else {
        ps
    }
}

pub proof fn lemma_insert_position(ps: Seq<Plugin>, priority: u32, pos: int)
    requires
        0 <= pos <= ps.len(),
        forall|i: int| 0 <= i < pos ==> (#[trigger] ps[i]).priority >= priority,
        pos < ps.len() ==> ps[pos].priority < priority,
    ensures
        insert_position(ps, priority) == pos,
    decreases ps.len(),
{
    if ps.len() > 0 && pos > 0 {
        assert forall|i: int| 0 <= i < pos - 1 implies (#[trigger] ps.drop_first()[i]).priority >= priority by {
            assert(ps.drop_first()[i] == ps[i + 1]);
        }
        lemma_insert_position(ps.drop_first(), priority, pos - 1);
    }
}

pub proof fn lemma_id_position(ps: Seq<Plugin>, id: Seq<char>, pos: int)
    requires
        0 <= pos <= ps.len(),
        forall|i: int| 0 <= i < pos ==> (#[trigger] ps[i]).id@ != id,
        pos < ps.len() ==> ps[pos].id@ == id,
    ensures
        id_position(ps, id) == pos,
    decreases ps.len(),
{
    if ps.len() > 0 && pos > 0 {
        assert forall|i: int| 0 <= i < pos - 1 implies (#[trigger] ps.drop_first()[i]).id@ != id by {
            assert(ps.drop_first()[i] == ps[i + 1]);
        }
        lemma_id_position(ps.drop_first(), id, pos - 1);
    }
}

/// The request that asks a plugin newly registered for the current query.
pub open spec fn search_request(p: Plugin, query: String) -> Effect {
    Effect::Send(Outgoing { plugin_id: p.id, request: PluginRequest::Search(query) })
}

/// What the launcher does about a message beyond changing its list, while
/// `query` is typed: a plugin that registers is asked for the query.
pub open spec fn message_effect(ps: Seq<Plugin>, query: String, m: Message) -> Seq<Effect> {
    match m {
        Message::RegisterPlugin(p) => seq![search_request(p, query)],
        Message::UpdateEntries(id, _) => if id_position(ps, id@) < ps.len() {
            Seq::empty()
        } else {
            seq![Effect::UnknownPlugin(id)]
        },
        Message::Exit => seq![Effect::Exit],
    }
}

/// The list after one message.
pub open spec fn message_plugins(ps: Seq<Plugin>, m: Message) -> Seq<Plugin> {
    match m {
        Message::RegisterPlugin(p) => registered(ps, p),
        Message::UpdateEntries(id, es) => updated(ps, id@, es),
        Message::Exit => ps,
    }
}

/// Handling messages in order, up to and including the first `Exit`:
/// the list of plugins at the end, and the effects in order.
pub open spec fn run_messages(ps: Seq<Plugin>, query: String, ms: Seq<Message>) -> (Seq<Plugin>, Seq<Effect>)
    decreases ms.len(),
{
    if ms.len() == 0 {
        (ps, Seq::empty())
    } else if ms[0] is Exit {
        (ps, seq![Effect::Exit])
    } else {
        let rest = run_messages(message_plugins(ps, ms[0]), query, ms.drop_first());
        (rest.0, message_effect(ps, query, ms[0]) + rest.1)
    }
}

/// The start of the first plugin from `p` on that starts after `idx`, or
/// `idx` where none does.
pub open spec fn plugin_start_after(ps: Seq<Plugin>, idx: int, p: int) -> int
    decreases ps.len() - p,
{
    if p < 0 || p >= ps.len() {
        idx
    } else if offset(ps, p) > idx {
        offset(ps, p)
    } else {
        plugin_start_after(ps, idx, p + 1)
    }
}

/// The start of the last plugin, among those from `p` on that start before
/// `idx` without a break, or `last` where none does.
pub open spec fn plugin_start_before(ps: Seq<Plugin>, idx: int, p: int, last: int) -> int
    decreases ps.len() - p,
{
    if p < 0 || p >= ps.len() {
        last
    } else if offset(ps, p) >= idx {
        last
    } else {
        plugin_start_before(ps, idx, p + 1, offset(ps, p))
    }
}

/// The selection after moving to the next plugin.
pub open spec fn next_plugin_index(ps: Seq<Plugin>, idx: int) -> int {
    plugin_start_after(ps, idx, 0)
}

/// The selection after moving to the previous plugin.
pub open spec fn previous_plugin_index(ps: Seq<Plugin>, idx: int) -> int {
    if ps.len() == 0 || idx == 0 {
        0
    } else {
        plugin_start_before(ps, idx, 0, 0)
    }
}

/// The selection after moving up one entry in a list of `total` entries.
pub open spec fn previous_index(total: int, idx: int) -> int {
    if total == 0 {
        0
    } else if idx == 0 {
        total - 1
    } else {
        idx - 1
    }
}

/// The selection after moving down one entry in a list of `total` entries.
pub open spec fn next_index(total: int, idx: int) -> int {
    if total == 0 || idx == total - 1 {
        0
    } else {
        idx + 1
    }
}

/// `out` activates the entry selected at `idx`: it sends the first entry
/// with the selected entry's id to the plugin that holds that entry.
pub open spec fn activates(ps: Seq<Plugin>, idx: int, out: Outgoing) -> bool {
    let es = all_entries(ps);
    exists|p: int, g: int| #![trigger offset(ps, p), es[g]] {
        let id = es[idx].id@;
        &&& 0 <= p < ps.len()
        &&& offset(ps, p) <= g < offset(ps, p + 1)
        &&& es[g].id@ == id
        &&& forall|h: int| 0 <= h < g ==> (#[trigger] es[h]).id@ != id
        &&& out.plugin_id@ == ps[p].id@
        &&& out.request matches PluginRequest::Activate(e) && e@ == es[g]@
    }
}

/// The keys pressed in one frame of the launcher window.
#[derive(Debug, Clone, Copy)]
pub struct KeyInput {
    pub arrow_up: bool,
    pub arrow_down: bool,
    pub enter: bool,
    pub escape: bool,
    pub ctrl: bool,
    pub j: bool,
    pub k: bool,
    pub p: bool,
    pub n: bool,
}

/// The selection after the arrow keys of a frame, when Enter is handled.
pub open spec fn index_at_enter(ps: Seq<Plugin>, idx: int, keys: KeyInput) -> int {
    let total = all_entries(ps).len() as int;
    let i1 = if keys.arrow_up { previous_index(total, idx) } else { idx };
    if keys.arrow_down { next_index(total, i1) } else { i1 }
}

/// The selection after all keys of a frame that does not leave.
pub open spec fn index_after_keys(ps: Seq<Plugin>, idx: int, keys: KeyInput) -> int {
    let total = all_entries(ps).len() as int;
    let i2 = index_at_enter(ps, idx, keys);
    let i3 = if keys.ctrl && keys.j { next_index(total, i2) } else { i2 };
    let i4 = if keys.ctrl && keys.k { previous_index(total, i3) } else { i3 };
    let i5 = if keys.ctrl && keys.p { previous_plugin_index(ps, i4) } else { i4 };
    if keys.ctrl && keys.n { next_plugin_index(ps, i5) } else { i5 }
}

/// The last plugin, among those from `p` on, whose entries start at
/// position `g`; `found` where none does.
pub open spec fn starting_at_from(ps: Seq<Plugin>, g: int, p: int, found: Option<int>) -> Option<int>
    decreases ps.len() - p,
{
    if p < 0 || p >= ps.len() {
        found
    } else {
        starting_at_from(ps, g, p + 1, if offset(ps, p) == g { Some(p) } else { found })
    }
}

/// The last plugin whose entries start at position `g`.
pub open spec fn plugin_starting_at(ps: Seq<Plugin>, g: int) -> Option<int> {
    starting_at_from(ps, g, 0, None)
}

/// The lines drawn next and the cursor after them, or `None` when the list
/// is drawn to its end. Where the next entry starts a plugin, a divider
/// (except at the top) and the plugin's header come first; the first entry
/// line of a frame that starts inside a plugin also shows the entry above
/// it.
pub open spec fn layout_after(ps: Seq<Plugin>, active: usize, c: LayoutCursor) -> Option<(Seq<Line>, LayoutCursor)> {
    let g = c.next_entry_index as int;
    let start = plugin_starting_at(ps, g);
    if g >= all_entries(ps).len() {
        None
    } else if !c.divider_added && start is Some {
        Some((seq![Line::Divider], LayoutCursor { divider_added: true, lines_added: (c.lines_added + 1) as usize, ..c }))
    } else if !c.header_added && start is Some {
        Some((
            seq![Line::PluginHeader(start->0 as usize)],
            LayoutCursor { header_added: true, lines_added: (c.lines_added + 1) as usize, ..c },
        ))
    } else {
        let current = Line::Entry(g as usize, g == active);
        Some((
            if c.lines_added == 0 {
                seq![Line::Entry((g - 1) as usize, false), current]
            } else {
                seq![current]
            },
            LayoutCursor {
                divider_added: false,
                header_added: false,
                next_entry_index: (g + 1) as usize,
                lines_added: (c.lines_added + 1) as usize,
            },
        ))
    }
}

/// Where the drawing of a frame starts: at the selected entry, its header
/// still to draw.
pub open spec fn layout_origin(active: usize) -> LayoutCursor {
    LayoutCursor { divider_added: true, header_added: false, next_entry_index: active, lines_added: 0 }
}

/// One line of the launcher list.
#[derive(Debug, Clone, Copy, PartialEq, Eq, Structural)]
pub enum Line {
    /// A rule between two plugins.
    Divider,
    /// The title of the plugin at this position in the list of plugins.
    PluginHeader(usize),
    /// The entry at this position in the flat list, and whether it is selected.
    Entry(usize, bool),
}

/// How far the drawing of the list has come in one frame.
#[derive(Debug, Clone, Copy)]
pub struct LayoutCursor {
    pub divider_added: bool,
    pub header_added: bool,
    pub next_entry_index: usize,
    pub lines_added: usize,
}

/// The state of the launcher window: the query typed so far, the selected
/// entry, and the registered plugins with their entries.
#[derive(Debug)]
pub struct Centerpiece {
    pub query: String,
    pub active_entry_index: usize,
    pub plugins: Vec<Plugin>,
}

impl Centerpiece {
    /// The flat list of entries shown, plugin after plugin.
    pub open spec fn shown(&self) -> Seq<Entry> {
        all_entries(self.plugins@)
    }

    /// Plugins are kept by priority, and the number of entries is countable.
    pub open spec fn wf(&self) -> bool {
        &&& sorted_by_priority(self.plugins@)
        &&& self.shown().len() <= usize::MAX
    }

    /// An empty launcher: no query, the first entry selected, no plugins.
    pub fn new() -> (r: Centerpiece)
        ensures
            r.wf(),
            r.query@ == Seq::<char>::empty(),
            r.active_entry_index == 0,
            r.plugins@.len() == 0,
    {
        Centerpiece { query: String::new(), active_entry_index: 0, plugins: Vec::new() }
    }

    /// The number of entries shown.
    pub fn entry_count(&self) -> (r: usize)
        requires
            self.wf(),
        ensures
            r == self.shown().len(),
    {
        let mut total: usize = 0;
        let mut p: usize = 0;
        while p < self.plugins.len()
            invariant
                p <= self.plugins.len(),
                total == offset(self.plugins@, p as int),
                self.wf(),
            decreases self.plugins.len() - p,
        {
            proof {
                lemma_all_entries_take_step(self.plugins@, p as int);
                lemma_offset_monotone(self.plugins@, p as int + 1, self.plugins@.len() as int);
            }
            total = total + self.plugins[p].entries.len();
            p = p + 1;
        }
        proof {
            lemma_all_entries_take_all(self.plugins@);
        }
        total
    }

    /// The plugin and the position within it of the entry at flat position `g`.
    pub fn locate(&self, g: usize) -> (r: (usize, usize))
        requires
            self.wf(),
            g < self.shown().len(),
        ensures
            r.0 < self.plugins@.len(),
            offset(self.plugins@, r.0 as int) <= g < offset(self.plugins@, r.0 as int + 1),
            r.1 == g - offset(self.plugins@, r.0 as int),
            self.shown()[g as int] == self.plugins@[r.0 as int].entries@[r.1 as int],
    {
        let mut start: usize = 0;
        let mut p: usize = 0;
        proof {
            lemma_all_entries_take_all(self.plugins@);
        }
        while p < self.plugins.len()
            invariant
                p <= self.plugins.len(),
                start == offset(self.plugins@, p as int),
                start <= g,
                g < self.shown().len(),
                offset(self.plugins@, self.plugins@.len() as int) == self.shown().len(),
                self.wf(),
            decreases self.plugins.len() - p,
        {
            proof {
                lemma_all_entries_take_step(self.plugins@, p as int);
                lemma_offset_monotone(self.plugins@, p as int + 1, self.plugins@.len() as int);
            }
            let len = self.plugins[p].entries.len();
            if g < start + len {
                proof {
                    lemma_entry_of_plugin(self.plugins@, p as int, g as int);
                }
                return (p, g - start);
            }
            start = start + len;
            p = p + 1;
        }
        (p, 0)
    }

    /// References to all entries shown, in list order.
    pub fn entries(&self) -> (r: Vec<&Entry>)
        requires
            self.wf(),
        ensures
            r@.len() == self.shown().len(),
            forall|g: int| 0 <= g < r@.len() ==> *r@[g] == #[trigger] self.shown()[g],
    {
        let mut r: Vec<&Entry> = Vec::new();
        let mut p: usize = 0;
        while p < self.plugins.len()
            invariant
                p <= self.plugins.len(),
                r@.len() == offset(self.plugins@, p as int),
                forall|g: int| 0 <= g < r@.len() ==> *r@[g] == #[trigger] all_entries(self.plugins@.take(p as int))[g],
                self.wf(),
            decreases self.plugins.len() - p,
        {
            proof {
                lemma_all_entries_take_step(self.plugins@, p as int);
            }
            let ghost before = r@;
            let mut j: usize = 0;
            while j < self.plugins[p].entries.len()
                invariant
                    p < self.plugins.len(),
                    j <= self.plugins@[p as int].entries@.len(),
                    r@.len() == before.len() + j,
                    forall|g: int| 0 <= g < before.len() ==> r@[g] == before[g],
                    forall|g: int| 0 <= g < j ==> *r@[before.len() + g] == self.plugins@[p as int].entries@[g],
                decreases self.plugins@[p as int].entries@.len() - j,
            {
                r.push(&self.plugins[p].entries[j]);
                j = j + 1;
            }
            proof {
                let all = all_entries(self.plugins@.take(p as int + 1));
                assert forall|g: int| 0 <= g < r@.len() implies *r@[g] == #[trigger] all[g] by {
                    if g < before.len() {
                        assert(r@[g] == before[g]);
                    } else {
                        assert(*r@[before.len() + (g - before.len())] == self.plugins@[p as int].entries@[g - before.len()]);
                    }
                }
            }
            p = p + 1;
        }
        proof {
            lemma_all_entries_take_all(self.plugins@);
        }
        r
    }

    /// The id of the selected entry, where the selection lies within the list.
    pub fn active_entry_id(&self) -> (r: Option<&String>)
        requires
            self.wf(),
        ensures
            self.active_entry_index < self.shown().len() ==> r == Some(&self.shown()[self.active_entry_index as int].id),
            self.active_entry_index >= self.shown().len() ==> r is None,
    {
        let total = self.entry_count();
        if self.active_entry_index < total {
            let (p, j) = self.locate(self.active_entry_index);
            proof {
                lemma_all_entries_take_step(self.plugins@, p as int);
            }
            Some(&self.plugins[p].entries[j].id)
        } else {
            None
        }
    }

    /// Selects the first entry.
    pub fn select_first_entry(&mut self)
        ensures
            final(self).active_entry_index == 0,
            final(self).query == old(self).query,
            final(self).plugins == old(self).plugins,
    {
        self.active_entry_index = 0;
    }

    /// Moves the selection up one entry; from the first entry it wraps to
    /// the last, and with no entries it selects the first position.
    pub fn select_previous_entry(&mut self)
        requires
            old(self).wf(),
        ensures
            final(self).query == old(self).query,
            final(self).plugins == old(self).plugins,
            final(self).active_entry_index == previous_index(old(self).shown().len() as int, old(self).active_entry_index as int),
    {
        let total = self.entry_count();
        if total == 0 {
            return self.select_first_entry();
        }
        if self.active_entry_index == 0 {
            self.active_entry_index = total - 1;
            return;
        }
        self.active_entry_index = self.active_entry_index - 1;
    }

    /// Moves the selection down one entry; from the last entry, or with no
    /// entries, it goes back to the first.
    pub fn select_next_entry(&mut self)
        requires
            old(self).wf(),
            old(self).active_entry_index < usize::MAX,
        ensures
            final(self).query == old(self).query,
            final(self).plugins == old(self).plugins,
            final(self).active_entry_index == next_index(old(self).shown().len() as int, old(self).active_entry_index as int),
    {
        let total = self.entry_count();
        if total == 0 || self.active_entry_index == total - 1 {
            return self.select_first_entry();
        }
        self.active_entry_index = self.active_entry_index + 1;
    }

    /// Moves the selection to the first entry of the next plugin that
    /// starts after it; where none does, the selection stays.
    pub fn select_next_plugin(&mut self)
        requires
            old(self).wf(),
        ensures
            final(self).query == old(self).query,
            final(self).plugins == old(self).plugins,
            final(self).active_entry_index == next_plugin_index(old(self).plugins@, old(self).active_entry_index as int),
    {
        let idx = self.active_entry_index;
        let mut start: usize = 0;
        let mut p: usize = 0;
        assert(self.plugins@.take(0) =~= Seq::<Plugin>::empty());
        while p < self.plugins.len()
            invariant
                p <= self.plugins.len(),
                start == offset(self.plugins@, p as int),
                idx == self.active_entry_index,
                next_plugin_index(self.plugins@, idx as int) == plugin_start_after(self.plugins@, idx as int, p as int),
                self.wf(),
                *self == *old(self),
            decreases self.plugins.len() - p,
        {
            if start > idx {
                self.active_entry_index = start;
                return;
            }
            proof {
                lemma_all_entries_take_step(self.plugins@, p as int);
                lemma_offset_monotone(self.plugins@, p as int + 1, self.plugins@.len() as int);
            }
            start = start + self.plugins[p].entries.len();
            p = p + 1;
        }
    }

    /// Moves the selection to the start of the last plugin that starts
    /// before it; from the first entry, or with no plugins, it selects the
    /// first entry.
    pub fn select_previous_plugin(&mut self)
        requires
            old(self).wf(),
        ensures
            final(self).query == old(self).query,
            final(self).plugins == old(self).plugins,
            final(self).active_entry_index == previous_plugin_index(old(self).plugins@, old(self).active_entry_index as int),
    {
        if self.plugins.len() == 0 || self.active_entry_index == 0 {
            return self.select_first_entry();
        }
        let idx = self.active_entry_index;
        let mut last: usize = 0;
        let mut start: usize = 0;
        let mut p: usize = 0;
        assert(self.plugins@.take(0) =~= Seq::<Plugin>::empty());
        while p < self.plugins.len()
            invariant
                p <= self.plugins.len(),
                start == offset(self.plugins@, p as int),
                idx == self.active_entry_index,
                idx > 0,
                self.plugins.len() > 0,
                previous_plugin_index(self.plugins@, idx as int) == plugin_start_before(self.plugins@, idx as int, p as int, last as int),
                self.wf(),
                *self == *old(self),
            ensures
                previous_plugin_index(self.plugins@, idx as int) == last as int,
                *self == *old(self),
            decreases self.plugins.len() - p,
        {
            if start >= idx {
                break;
            }
            last = start;
            proof {
                lemma_all_entries_take_step(self.plugins@, p as int);
                lemma_offset_monotone(self.plugins@, p as int + 1, self.plugins@.len() as int);
            }
            start = start + self.plugins[p].entries.len();
            p = p + 1;
        }
        self.active_entry_index = last;
    }

    /// Asks every plugin, in list order, to search for the current query,
    /// and selects the first entry.
    pub fn search(&mut self) -> (r: Vec<Outgoing>)
        ensures
            final(self).query == old(self).query,
            final(self).plugins == old(self).plugins,
            final(self).active_entry_index == 0,
            r@.len() == old(self).plugins@.len(),
            forall|i: int| 0 <= i < r@.len() ==> (#[trigger] r@[i]).plugin_id@ == old(self).plugins@[i].id@
                && is_search_for(r@[i].request, old(self).query@),
    {
        let mut r: Vec<Outgoing> = Vec::new();
        let mut i: usize = 0;
        while i < self.plugins.len()
            invariant
                i <= self.plugins.len(),
                r@.len() == i,
                *self == *old(self),
                forall|k: int| 0 <= k < i ==> (#[trigger] r@[k]).plugin_id@ == self.plugins@[k].id@
                    && is_search_for(r@[k].request, self.query@),
            decreases self.plugins.len() - i,
        {
            r.push(Outgoing {
                plugin_id: self.plugins[i].id.clone(),
                request: PluginRequest::Search(self.query.clone()),
            });
            i = i + 1;
        }
        self.select_first_entry();
        r
    }

    /// Adds a plugin to the list, after every plugin of the same or a
    /// higher priority and before the others, and gives the request that
    /// asks it for the current query.
    pub fn register_plugin(&mut self, plugin: Plugin) -> (out: Outgoing)
        requires
            old(self).wf(),
            old(self).shown().len() + plugin.entries@.len() <= usize::MAX,
        ensures
            final(self).wf(),
            final(self).query == old(self).query,
            final(self).active_entry_index == old(self).active_entry_index,
            final(self).plugins@ == registered(old(self).plugins@, plugin),
            final(self).shown().len() == old(self).shown().len() + plugin.entries@.len(),
            Effect::Send(out) == search_request(plugin, old(self).query),
            ({
                let pos = insert_position(old(self).plugins@, plugin.priority);
                &&& final(self).plugins@[pos] == plugin
                &&& final(self).plugins@.remove(pos) == old(self).plugins@
                &&& forall|i: int| 0 <= i < pos ==> (#[trigger] old(self).plugins@[i]).priority >= plugin.priority
                &&& forall|i: int| pos <= i < old(self).plugins@.len() ==> (#[trigger] old(self).plugins@[i]).priority
                    < plugin.priority
            }),
    {
        proof {
            crate::launcher::laws::lemma_register_keeps_order(old(self).plugins@, plugin);
        }
        let mut pos: usize = 0;
        while pos < self.plugins.len()
            invariant
                pos <= self.plugins.len(),
                *self == *old(self),
                forall|i: int| 0 <= i < pos ==> (#[trigger] self.plugins@[i]).priority >= plugin.priority,
            ensures
                pos <= self.plugins.len(),
                forall|i: int| 0 <= i < pos ==> (#[trigger] self.plugins@[i]).priority >= plugin.priority,
                pos < self.plugins.len() ==> self.plugins@[pos as int].priority < plugin.priority,
            decreases self.plugins.len() - pos,
        {
            if self.plugins[pos].priority < plugin.priority {
                break;
            }
            pos = pos + 1;
        }
        let out = Outgoing { plugin_id: plugin.id.clone(), request: PluginRequest::Search(self.query.clone()) };
        let ghost before = self.plugins@;
        let ghost x = plugin;
        proof {
            lemma_all_entries_insert(before, pos as int, plugin);
            lemma_insert_position(before, plugin.priority, pos as int);
        }
        self.plugins.insert(pos, plugin);
        assert(self.plugins@ == registered(before, x));
        out
    }

    /// Replaces the entries of the first plugin with the given id; tells
    /// whether there was such a plugin.
    pub fn update_entries(&mut self, plugin_id: String, entries: Vec<Entry>) -> (found: bool)
        requires
            old(self).wf(),
            old(self).shown().len() + entries@.len() <= usize::MAX,
        ensures
            final(self).wf(),
            final(self).query == old(self).query,
            final(self).active_entry_index == old(self).active_entry_index,
            found <==> id_position(old(self).plugins@, plugin_id@) < old(self).plugins@.len(),
            final(self).plugins@ == updated(old(self).plugins@, plugin_id@, entries),
            final(self).shown().len() <= old(self).shown().len() + entries@.len(),
    {
        let mut p: usize = 0;
        while p < self.plugins.len()
            invariant
                p <= self.plugins.len(),
                *self == *old(self),
                self.wf(),
                self.shown().len() + entries@.len() <= usize::MAX,
                forall|q: int| 0 <= q < p ==> (#[trigger] self.plugins@[q]).id@ != plugin_id@,
            decreases self.plugins.len() - p,
        {
            if self.plugins[p].id == plugin_id {
                let ghost before = self.plugins@;
                let old_plugin = self.plugins.remove(p);
                let updated = Plugin {
                    id: old_plugin.id,
                    priority: old_plugin.priority,
                    title: old_plugin.title,
                    entries,
                };
                proof {
                    assert(old_plugin == before[p as int]);
                    lemma_all_entries_update(before, p as int, updated);
                    lemma_id_position(before, plugin_id@, p as int);
                }
                self.plugins.insert(p, updated);
                proof {
                    assert(self.plugins@ =~= before.update(p as int, updated));
                    let after = self.plugins@;
                    assert forall|i: int, j: int| 0 <= i < j < after.len() implies #[trigger] after[i].priority >= #[trigger] after[j].priority by {
                        assert(before[i].priority >= before[j].priority);
                        assert(after[i].priority == before[i].priority);
                        assert(after[j].priority == before[j].priority);
                    }
                }
                return true;
            }
            p = p + 1;
        }
        proof {
            lemma_id_position(self.plugins@, plugin_id@, p as int);
        }
        false
    }

    /// Asks the plugin that holds the selected entry to activate it: the
    /// first entry in the list with the selected entry's id, sent to the
    /// first plugin that holds an entry with that id.
    pub fn activate_selected_entry(&self) -> (r: Option<Outgoing>)
        requires
            self.wf(),
        ensures
            r is Some <==> self.active_entry_index < self.shown().len(),
            r matches Some(out) ==> activates(self.plugins@, self.active_entry_index as int, out),
    {
        let total = self.entry_count();
        if self.active_entry_index >= total {
            return None;
        }
        let (ap, aj) = self.locate(self.active_entry_index);
        proof {
            lemma_all_entries_take_step(self.plugins@, ap as int);
        }
        let active_id = &self.plugins[ap].entries[aj].id;
        let ghost id = active_id@;
        let mut p: usize = 0;
        let mut start: usize = 0;
        proof {
            lemma_all_entries_take_all(self.plugins@);
        }
        while p < self.plugins.len()
            invariant
                p <= self.plugins.len(),
                start == offset(self.plugins@, p as int),
                self.wf(),
                id == active_id@,
                id == self.shown()[self.active_entry_index as int].id@,
                self.active_entry_index < self.shown().len(),
                offset(self.plugins@, self.plugins@.len() as int) == self.shown().len(),
                forall|h: int| 0 <= h < start ==> (#[trigger] self.shown()[h]).id@ != id,
                start <= self.active_entry_index,
            decreases self.plugins.len() - p,
        {
            proof {
                lemma_all_entries_take_step(self.plugins@, p as int);
                lemma_offset_monotone(self.plugins@, p as int + 1, self.plugins@.len() as int);
            }
            let mut j: usize = 0;
            while j < self.plugins[p].entries.len()
                invariant
                    p < self.plugins.len(),
                    j <= self.plugins@[p as int].entries@.len(),
                    start == offset(self.plugins@, p as int),
                    offset(self.plugins@, p as int + 1) == start + self.plugins@[p as int].entries@.len(),
                    offset(self.plugins@, p as int + 1) <= self.shown().len(),
                    self.wf(),
                    id == active_id@,
                    id == self.shown()[self.active_entry_index as int].id@,
                    self.active_entry_index < self.shown().len(),
                    forall|h: int| 0 <= h < start + j ==> (#[trigger] self.shown()[h]).id@ != id,
                    start <= self.active_entry_index,
                decreases self.plugins@[p as int].entries@.len() - j,
            {
                proof {
                    lemma_entry_of_plugin(self.plugins@, p as int, start + j);
                }
                if self.plugins[p].entries[j].id == *active_id {
                    let entry = self.plugins[p].entries[j].copy();
                    return Some(Outgoing {
                        plugin_id: self.plugins[p].id.clone(),
                        request: PluginRequest::Activate(entry),
                    });
                }
                j = j + 1;
            }
            start = start + self.plugins[p].entries.len();
            p = p + 1;
            proof {
                if start > self.active_entry_index {
                    assert(self.shown()[self.active_entry_index as int].id@ == id);
                }
            }
        }
        proof {
            assert(self.shown()[self.active_entry_index as int].id@ == id);
        }
        None
    }

    /// Handles one message from a plugin.
    pub fn handle_message(&mut self, message: Message) -> (r: Vec<Effect>)
        requires
            old(self).wf(),
            old(self).shown().len() + message_size(message) <= usize::MAX,
        ensures
            final(self).wf(),
            final(self).query == old(self).query,
            final(self).active_entry_index == old(self).active_entry_index,
            final(self).plugins@ == message_plugins(old(self).plugins@, message),
            r@ == message_effect(old(self).plugins@, old(self).query, message),
            final(self).shown().len() <= old(self).shown().len() + message_size(message),
    {
        let mut r: Vec<Effect> = Vec::new();
        match message {
            Message::RegisterPlugin(plugin) => {
                let ghost p = plugin;
                let out = self.register_plugin(plugin);
                r.push(Effect::Send(out));
                assert(r@ =~= message_effect(old(self).plugins@, old(self).query, Message::RegisterPlugin(p)));
            },
            Message::UpdateEntries(plugin_id, entries) => {
                let ghost id = plugin_id;
                let unknown = plugin_id.clone();
                if !self.update_entries(plugin_id, entries) {
                    r.push(Effect::UnknownPlugin(unknown));
                }
                assert(r@ =~= message_effect(old(self).plugins@, old(self).query, Message::UpdateEntries(id, entries)));
            },
            Message::Exit => {
                r.push(Effect::Exit);
                assert(r@ =~= seq![Effect::Exit]);
            },
        }
        r
    }

    /// Handles the messages of one frame in order; an `Exit` ends the
    /// handling, and the messages after it are left alone.
    pub fn handle_messages(&mut self, messages: Vec<Message>) -> (r: Vec<Effect>)
        requires
            old(self).wf(),
            old(self).shown().len() + incoming(messages@) <= usize::MAX,
        ensures
            final(self).wf(),
            final(self).query == old(self).query,
            final(self).active_entry_index == old(self).active_entry_index,
            final(self).plugins@ == run_messages(old(self).plugins@, old(self).query, messages@).0,
            r@ == run_messages(old(self).plugins@, old(self).query, messages@).1,
    {
        let ghost whole = run_messages(old(self).plugins@, old(self).query, messages@);
        let mut ms = messages;
        let mut r: Vec<Effect> = Vec::new();
        while ms.len() > 0
            invariant
                self.wf(),
                self.query == old(self).query,
                self.active_entry_index == old(self).active_entry_index,
                self.shown().len() + incoming(ms@) <= usize::MAX,
                whole == run_messages(old(self).plugins@, old(self).query, messages@),
                whole.0 == run_messages(self.plugins@, self.query, ms@).0,
                whole.1 == r@ + run_messages(self.plugins@, self.query, ms@).1,
            decreases ms.len(),
        {
            let ghost before = ms@;
            let ghost ps = self.plugins@;
            let m = ms.remove(0);
            assert(ms@ =~= before.drop_first());
            if let Message::Exit = m {
                assert(before[0] is Exit);
                assert(run_messages(ps, self.query, before) == (ps, seq![Effect::Exit]));
                r.push(Effect::Exit);
                assert(whole.1 =~= r@);
                return r;
            }
            proof {
                lemma_incoming_nonneg(ms@);
            }
            let effects = self.handle_message(m);
            proof {
                assert(run_messages(ps, self.query, before).1 =~= effects@ + run_messages(self.plugins@, self.query, ms@).1);
            }
            let mut effects = effects;
            r.append(&mut effects);
            assert(whole.1 =~= r@ + run_messages(self.plugins@, self.query, ms@).1);
        }
        assert(whole.1 =~= r@);
        r
    }

    /// Handles the keys of one frame: arrows and Ctrl+J / Ctrl+K move the
    /// selection, Ctrl+P / Ctrl+N jump between plugins, Enter activates the
    /// selected entry, and Escape leaves.
    pub fn handle_input(&mut self, keys: KeyInput) -> (r: Vec<Effect>)
        requires
            old(self).wf(),
            old(self).active_entry_index < usize::MAX - 1,
        ensures
            final(self).wf(),
            final(self).query == old(self).query,
            final(self).plugins == old(self).plugins,
            ({
                let ps = old(self).plugins@;
                let idx = old(self).active_entry_index as int;
                let at_enter = index_at_enter(ps, idx, keys);
                let activated = keys.enter && at_enter < all_entries(ps).len();
                &&& final(self).active_entry_index == if keys.escape {
                    at_enter
                } else {
                    index_after_keys(ps, idx, keys)
                }
                &&& r@.len() == (if activated { 1int } else { 0int }) + (if keys.escape { 1int } else { 0int })
                &&& activated ==> (r@[0] matches Effect::Send(out) && activates(ps, at_enter, out))
                &&& keys.escape ==> r@.last() is Exit
            }),
    {
        let mut r: Vec<Effect> = Vec::new();
        if keys.arrow_up {
            self.select_previous_entry();
        }
        if keys.arrow_down {
            self.select_next_entry();
        }
        if keys.enter {
            if let Some(out) = self.activate_selected_entry() {
                r.push(Effect::Send(out));
            }
        }
        if keys.escape {
            r.push(Effect::Exit);
            return r;
        }
        if keys.ctrl && keys.j {
            self.select_next_entry();
        }
        if keys.ctrl && keys.k {
            self.select_previous_entry();
        }
        if keys.ctrl && keys.p {
            self.select_previous_plugin();
        }
        if keys.ctrl && keys.n {
            self.select_next_plugin();
        }
        r
    }

    /// The last plugin whose entries start at position `g` of the list.
    pub fn plugin_starting_at(&self, g: usize) -> (r: Option<usize>)
        requires
            self.wf(),
        ensures
            r matches Some(p) ==> plugin_starting_at(self.plugins@, g as int) == Some(p as int),
            r is None ==> plugin_starting_at(self.plugins@, g as int) is None,
    {
        let mut found: Option<usize> = None;
        let mut start: usize = 0;
        let mut p: usize = 0;
        assert(self.plugins@.take(0) =~= Seq::<Plugin>::empty());
        while p < self.plugins.len()
            invariant
                p <= self.plugins.len(),
                start == offset(self.plugins@, p as int),
                self.wf(),
                plugin_starting_at(self.plugins@, g as int) == starting_at_from(
                    self.plugins@,
                    g as int,
                    p as int,
                    match found {
                        Some(q) => Some(q as int),
                        None => None,
                    },
                ),
            decreases self.plugins.len() - p,
        {
            if start == g {
                found = Some(p);
            }
            proof {
                lemma_all_entries_take_step(self.plugins@, p as int);
                lemma_offset_monotone(self.plugins@, p as int + 1, self.plugins@.len() as int);
            }
            start = start + self.plugins[p].entries.len();
            p = p + 1;
        }
        found
    }

    /// Where the drawing of the list starts in a frame: at the selected
    /// entry, with its plugin's header still to draw.
    pub fn layout_start(&self) -> (r: LayoutCursor)
        ensures
            r == layout_origin(self.active_entry_index),
    {
        LayoutCursor {
            divider_added: true,
            header_added: false,
            next_entry_index: self.active_entry_index,
            lines_added: 0,
        }
    }

    /// The next lines to draw, or `None` when the list is drawn to its
    /// end. Where the next entry starts a plugin, a divider (except at the
    /// top) and the plugin's header come first; the first entry line of a
    /// frame that starts inside a plugin also shows the entry above it.
    pub fn layout_step(&self, cursor: &mut LayoutCursor) -> (r: Option<Vec<Line>>)
        requires
            self.wf(),
            old(cursor).lines_added < usize::MAX,
            old(cursor).lines_added == 0 ==> !old(cursor).header_added,
        ensures
            final(cursor).lines_added == 0 ==> !final(cursor).header_added,
            match layout_after(self.plugins@, self.active_entry_index, *old(cursor)) {
                None => r is None && *final(cursor) == *old(cursor),
                Some((lines, next)) => r matches Some(v) && v@ == lines && *final(cursor) == next,
            },
    {
        let total = self.entry_count();
        let g = cursor.next_entry_index;
        if g >= total {
            return None;
        }
        let start = self.plugin_starting_at(g);
        if !cursor.divider_added && start.is_some() {
            cursor.divider_added = true;
            cursor.lines_added = cursor.lines_added + 1;
            let mut lines = Vec::new();
            lines.push(Line::Divider);
            return Some(lines);
        }
        if !cursor.header_added && start.is_some() {
            cursor.header_added = true;
            cursor.lines_added = cursor.lines_added + 1;
            let mut lines = Vec::new();
            lines.push(Line::PluginHeader(start.unwrap()));
            return Some(lines);
        }
        let mut lines = Vec::new();
        if cursor.lines_added == 0 {
            proof {
                if g == 0 {
                    lemma_first_plugin_starts_at_zero(self.plugins@);
                }
            }
            lines.push(Line::Entry(g - 1, false));
        }
        lines.push(Line::Entry(g, g == self.active_entry_index));
        cursor.divider_added = false;
        cursor.header_added = false;
        cursor.next_entry_index = g + 1;
        cursor.lines_added = cursor.lines_added + 1;
        Some(lines)
    }
}

/// With entries to show, some plugin starts at the top of the list.
pub proof fn lemma_first_plugin_starts_at_zero(ps: Seq<Plugin>)
    requires
        all_entries(ps).len() > 0,
    ensures
        plugin_starting_at(ps, 0) is Some,
{
    if ps.len() == 0 {
        assert(all_entries(ps) =~= Seq::<Entry>::empty());
    }
    assert(ps.take(0) =~= Seq::<Plugin>::empty());
    assert(offset(ps, 0) == 0);
    lemma_starting_at_from_keeps(ps, 0, 1, Some(0));
}

/// Once a plugin has been found, the search keeps some plugin.
pub proof fn lemma_starting_at_from_keeps(ps: Seq<Plugin>, g: int, p: int, found: Option<int>)
    requires
        found is Some,
    ensures
        starting_at_from(ps, g, p, found) is Some,
    decreases ps.len() - p,
{
    if !(p < 0 || p >= ps.len()) {
        lemma_starting_at_from_keeps(ps, g, p + 1, if offset(ps, p) == g { Some(p) } else { found });
    }
}

pub proof fn lemma_incoming_nonneg(ms: Seq<Message>)
    ensures
        incoming(ms) >= 0,
    decreases ms.len(),
{
    if ms.len() > 0 {
        lemma_incoming_nonneg(ms.drop_first());
    }
}

} // verus!

verus! {

/// The plugins the launcher can start.
#[derive(Debug, Clone, Copy, PartialEq, Eq, Structural)]
pub enum PluginKind {
    Applications,
    BraveBookmarks,
    BraveProgressiveWebApps,
    BraveHistory,
    Clock,
    FirefoxBookmarks,
    FirefoxHistory,
    GitRepositories,
    Gitmoji,
    ResourceMonitorBattery,
    ResourceMonitorCpu,
    ResourceMonitorDisks,
    ResourceMonitorMemory,
    System,
    Wifi,
    SwayWindows,
}

/// `kind` when `enabled`, else nothing.
pub open spec fn if_enabled(enabled: bool, kind: PluginKind) -> Seq<PluginKind> {
    if enabled {
        seq![kind]
    } else {
        Seq::empty()
    }
}

/// The plugins to start, in the order the launcher starts them: every
/// enabled plugin, from the applications to the sway windows.
pub open spec fn launch_order(p: PluginSettings) -> Seq<PluginKind> {
    if_enabled(p.applications.enable, PluginKind::Applications)
        + if_enabled(p.brave_bookmarks.enable, PluginKind::BraveBookmarks)
        + if_enabled(p.brave_progressive_web_apps.enable, PluginKind::BraveProgressiveWebApps)
        + if_enabled(p.brave_history.enable, PluginKind::BraveHistory)
        + if_enabled(p.clock.enable, PluginKind::Clock)
        + if_enabled(p.firefox_bookmarks.enable, PluginKind::FirefoxBookmarks)
        + if_enabled(p.firefox_history.enable, PluginKind::FirefoxHistory)
        + if_enabled(p.git_repositories.enable, PluginKind::GitRepositories)
        + if_enabled(p.gitmoji.enable, PluginKind::Gitmoji)
        + if_enabled(p.resource_monitor_battery.enable, PluginKind::ResourceMonitorBattery)
        + if_enabled(p.resource_monitor_cpu.enable, PluginKind::ResourceMonitorCpu)
        + if_enabled(p.resource_monitor_disks.enable, PluginKind::ResourceMonitorDisks)
        + if_enabled(p.resource_monitor_memory.enable, PluginKind::ResourceMonitorMemory)
        + if_enabled(p.system.enable, PluginKind::System)
        + if_enabled(p.wifi.enable, PluginKind::Wifi)
        + if_enabled(p.sway_windows.enable, PluginKind::SwayWindows)
}

/// Appends `kind` when `enabled`.
fn push_if(v: &mut Vec<PluginKind>, enabled: bool, kind: PluginKind)
    ensures
        final(v)@ == old(v)@ + if_enabled(enabled, kind),
{
    if enabled {
        v.push(kind);
    }
    assert(v@ =~= old(v)@ + if_enabled(enabled, kind));
}

/// The plugins to start for the given settings, in order.
pub fn launch_plugins(p: &PluginSettings) -> (r: Vec<PluginKind>)
    ensures
        r@ == launch_order(*p),
{
    let mut r: Vec<PluginKind> = Vec::new();
    push_if(&mut r, p.applications.enable, PluginKind::Applications);
    push_if(&mut r, p.brave_bookmarks.enable, PluginKind::BraveBookmarks);
    push_if(&mut r, p.brave_progressive_web_apps.enable, PluginKind::BraveProgressiveWebApps);
    push_if(&mut r, p.brave_history.enable, PluginKind::BraveHistory);
    push_if(&mut r, p.clock.enable, PluginKind::Clock);
    push_if(&mut r, p.firefox_bookmarks.enable, PluginKind::FirefoxBookmarks);
    push_if(&mut r, p.firefox_history.enable, PluginKind::FirefoxHistory);
    push_if(&mut r, p.git_repositories.enable, PluginKind::GitRepositories);
    push_if(&mut r, p.gitmoji.enable, PluginKind::Gitmoji);
    push_if(&mut r, p.resource_monitor_battery.enable, PluginKind::ResourceMonitorBattery);
    push_if(&mut r, p.resource_monitor_cpu.enable, PluginKind::ResourceMonitorCpu);
    push_if(&mut r, p.resource_monitor_disks.enable, PluginKind::ResourceMonitorDisks);
    push_if(&mut r, p.resource_monitor_memory.enable, PluginKind::ResourceMonitorMemory);
    push_if(&mut r, p.system.enable, PluginKind::System);
    push_if(&mut r, p.wifi.enable, PluginKind::Wifi);
    push_if(&mut r, p.sway_windows.enable, PluginKind::SwayWindows);
    r
}

} // verus!
