use vstd::prelude::*;
use crate::model::{Entry, Message, Plugin, copy_entries, entries_view};
use crate::search::{search, search_message};
use crate::search::{sort_by_title, title_key};
use crate::sorting::is_stable_sort;
use crate::text::chars_order;
use crate::model::{Activation, EntryView};
use crate::text::{decimal_int, i64_to_decimal};

verus! {

/// The kind of a node in sway's tree.
#[derive(Debug, Clone, Copy, PartialEq, Eq, Structural)]
pub enum NodeType {
    Root,
    Output,
    Workspace,
    Con,
    FloatingCon,
    Dockarea,
}

/// A node of sway's tree of outputs, workspaces and containers.
#[derive(Debug)]
pub struct WindowNode {
    pub id: i64,
    pub name: Option<String>,
    pub app_id: Option<String>,
    pub node_type: NodeType,
    pub nodes: Vec<WindowNode>,
}

/// The windows of a tree: the leaves that are containers, left to right.
pub open spec fn window_nodes(node: WindowNode) -> Seq<WindowNode>
    decreases node,
{
    if node.nodes@.len() > 0 {
        window_nodes_in(node.nodes@, 0)
    } else if node.node_type == NodeType::Con {
        seq![node]
    } else {
        Seq::empty()
    }
}

/// The windows of the trees `nodes[i..]`.
pub open spec fn window_nodes_in(nodes: Seq<WindowNode>, i: int) -> Seq<WindowNode>
    decreases nodes, nodes.len() - i,
{
    if i < 0 || i >= nodes.len() {
        Seq::empty()
    } else {
        window_nodes(nodes[i]) + window_nodes_in(nodes, i + 1)
    }
}

/// Every node of the tree rooted at `t`, each before the nodes under it.
pub open spec fn tree_nodes(t: WindowNode) -> Seq<WindowNode>
    decreases t,
{
    seq![t] + tree_nodes_in(t.nodes@, 0)
}

/// Every node of the trees `nodes[i..]`.
pub open spec fn tree_nodes_in(nodes: Seq<WindowNode>, i: int) -> Seq<WindowNode>
    decreases nodes, nodes.len() - i,
{
    if i < 0 || i >= nodes.len() {
        Seq::empty()
    } else {
        tree_nodes(nodes[i]) + tree_nodes_in(nodes, i + 1)
    }
}

/// A window: a container without children.
pub open spec fn is_window(n: WindowNode) -> bool {
    n.nodes@.len() == 0 && n.node_type == NodeType::Con
}

/// What is listed as the windows of a tree: nodes of the tree that are
/// containers without children, and every such node of the tree.
pub proof fn lemma_window_nodes_are_the_windows(t: WindowNode)
    ensures
        forall|k: int| 0 <= k < window_nodes(t).len() ==> is_window(#[trigger] window_nodes(t)[k])
            && tree_nodes(t).contains(window_nodes(t)[k]),
        forall|n: WindowNode| #[trigger] tree_nodes(t).contains(n) && is_window(n) ==> window_nodes(t).contains(n),
{
    lemma_windows_sound(t);
    assert forall|n: WindowNode| #[trigger] tree_nodes(t).contains(n) && is_window(n) implies window_nodes(t).contains(n) by {
        lemma_windows_complete(t, n);
    }
}

proof fn lemma_concat_contains<A>(a: Seq<A>, b: Seq<A>, x: A)
    ensures
        (a + b).contains(x) <==> a.contains(x) || b.contains(x),
{
    if a.contains(x) {
        let k = choose|k: int| 0 <= k < a.len() && a[k] == x;
        assert((a + b)[k] == x);
    }
    if b.contains(x) {
        let k = choose|k: int| 0 <= k < b.len() && b[k] == x;
        assert((a + b)[a.len() + k] == x);
    }
    if (a + b).contains(x) {
        let k = choose|k: int| 0 <= k < (a + b).len() && (a + b)[k] == x;
        if k < a.len() {
            assert(a[k] == x);
        } else {
            assert(b[k - a.len()] == x);
        }
    }
}

proof fn lemma_windows_sound(t: WindowNode)
    ensures
        forall|k: int| 0 <= k < window_nodes(t).len() ==> is_window(#[trigger] window_nodes(t)[k])
            && tree_nodes(t).contains(window_nodes(t)[k]),
    decreases t,
{
    let w = window_nodes(t);
    if t.nodes@.len() > 0 {
        lemma_windows_in_sound(t.nodes@, 0);
        assert forall|k: int| 0 <= k < w.len() implies is_window(#[trigger] w[k]) && tree_nodes(t).contains(w[k]) by {
            assert(w[k] == window_nodes_in(t.nodes@, 0)[k]);
            lemma_concat_contains(seq![t], tree_nodes_in(t.nodes@, 0), w[k]);
        }
    } else if t.node_type == NodeType::Con {
        assert(tree_nodes(t)[0] == t);
    }
}

proof fn lemma_windows_in_sound(nodes: Seq<WindowNode>, i: int)
    ensures
        forall|k: int| 0 <= k < window_nodes_in(nodes, i).len() ==> is_window(#[trigger] window_nodes_in(nodes, i)[k])
            && tree_nodes_in(nodes, i).contains(window_nodes_in(nodes, i)[k]),
    decreases nodes, nodes.len() - i,
{
    if 0 <= i < nodes.len() {
        let a = window_nodes(nodes[i]);
        let b = window_nodes_in(nodes, i + 1);
        let w = window_nodes_in(nodes, i);
        lemma_windows_sound(nodes[i]);
        lemma_windows_in_sound(nodes, i + 1);
        assert(w == a + b);
        assert forall|k: int| 0 <= k < w.len() implies is_window(#[trigger] w[k]) && tree_nodes_in(nodes, i).contains(w[k]) by {
            lemma_concat_contains(tree_nodes(nodes[i]), tree_nodes_in(nodes, i + 1), w[k]);
            if k < a.len() {
                assert(w[k] == a[k]);
            } else {
                assert(w[k] == b[k - a.len()]);
            }
        }
    }
}

proof fn lemma_windows_complete(t: WindowNode, n: WindowNode)
    requires
        tree_nodes(t).contains(n),
        is_window(n),
    ensures
        window_nodes(t).contains(n),
    decreases t,
{
    lemma_concat_contains(seq![t], tree_nodes_in(t.nodes@, 0), n);
    if n == t {
        assert(window_nodes(t)[0] == n);
    } else {
        assert(!seq![t].contains(n)) by {
            if seq![t].contains(n) {
                let k = choose|k: int| 0 <= k < 1 && seq![t][k] == n;
                assert(seq![t][k] == t);
            }
        }
        if t.nodes@.len() == 0 {
            assert(tree_nodes_in(t.nodes@, 0) =~= Seq::<WindowNode>::empty());
        }
        lemma_windows_in_complete(t.nodes@, 0, n);
    }
}

proof fn lemma_windows_in_complete(nodes: Seq<WindowNode>, i: int, n: WindowNode)
    requires
        tree_nodes_in(nodes, i).contains(n),
        is_window(n),
    ensures
        window_nodes_in(nodes, i).contains(n),
    decreases nodes, nodes.len() - i,
{
    if 0 <= i < nodes.len() {
        lemma_concat_contains(tree_nodes(nodes[i]), tree_nodes_in(nodes, i + 1), n);
        lemma_concat_contains(window_nodes(nodes[i]), window_nodes_in(nodes, i + 1), n);
        if tree_nodes(nodes[i]).contains(n) {
            lemma_windows_complete(nodes[i], n);
        } else {
            lemma_windows_in_complete(nodes, i + 1, n);
        }
    } else {
        assert(tree_nodes_in(nodes, i) =~= Seq::<WindowNode>::empty());
    }
}

/// The title shown for a sway window: its name where not empty, else its
/// application id, with stand-ins for what is missing.
pub open spec fn sway_title(n: WindowNode) -> Seq<char> {
    let name = match n.name {
        Some(s) => s@,
        None => "-- window name missing --"@,
    };
    let app = match n.app_id {
        Some(s) => s@,
        None => "-- window app_id missing --"@,
    };
    if name.len() > 0 { name } else { app }
}

/// The entry of a sway window with the given meta text.
pub open spec fn sway_entry(n: WindowNode, meta: Seq<char>) -> EntryView {
    EntryView { id: decimal_int(n.id as int), title: sway_title(n), action: "focus"@, meta, command: None }
}

/// A sway window is listed under its id and shown by its name where the
/// name is not empty; a window with an empty or missing name is shown by
/// its application id where it has one.
pub proof fn lemma_sway_title(n: WindowNode, meta: Seq<char>)
    ensures
        sway_entry(n, meta).id == decimal_int(n.id as int),
        sway_entry(n, meta).title == sway_title(n),
        sway_entry(n, meta).meta == meta,
        n.name matches Some(s) ==> (s@.len() > 0 ==> sway_title(n) == s@),
        n.name matches Some(s) ==> (s@.len() == 0 ==> (n.app_id matches Some(a) ==> sway_title(n) == a@)),
        n.name is None ==> sway_title(n) == "-- window name missing --"@,
{
    reveal_strlit("-- window name missing --");
}

impl WindowNode {
    /// The windows of the tree: the leaves that are containers, left to right.
    pub fn get_window_nodes(&self) -> (r: Vec<&WindowNode>)
        ensures
            r@.len() == window_nodes(*self).len(),
            forall|k: int| 0 <= k < r@.len() ==> *r@[k] == #[trigger] window_nodes(*self)[k],
            forall|k: int| 0 <= k < r@.len() ==> is_window(*#[trigger] r@[k]),
        decreases self,
    {
        proof {
            lemma_windows_sound(*self);
        }
        if self.nodes.len() > 0 {
            let mut r: Vec<&WindowNode> = Vec::new();
            let mut i: usize = 0;
            assert(window_nodes_in(self.nodes@, self.nodes@.len() as int) =~= Seq::<WindowNode>::empty());
            while i < self.nodes.len()
                invariant
                    i <= self.nodes.len(),
                    self.nodes@.len() > 0,
                    window_nodes(*self) == r@.map_values(|n: &WindowNode| *n) + window_nodes_in(self.nodes@, i as int),
                decreases self.nodes.len() - i,
            {
                let child = &self.nodes[i];
                assert(decreases_to!(*self => *child));
                let found = child.get_window_nodes();
                let ghost before = r@;
                let mut k: usize = 0;
                while k < found.len()
                    invariant
                        k <= found.len(),
                        r@ == before + found@.subrange(0, k as int),
                    decreases found.len() - k,
                {
                    r.push(found[k]);
                    k = k + 1;
                }
                proof {
                    let l = window_nodes(self.nodes@[i as int]);
                    assert(found@.map_values(|n: &WindowNode| *n) =~= l);
                    assert(r@.map_values(|n: &WindowNode| *n) =~= before.map_values(|n: &WindowNode| *n) + l);
                    assert(before.map_values(|n: &WindowNode| *n) + (l + window_nodes_in(self.nodes@, i + 1))
                        =~= before.map_values(|n: &WindowNode| *n) + l + window_nodes_in(self.nodes@, i + 1));
                }
                i = i + 1;
            }
            assert(r@.map_values(|n: &WindowNode| *n) + window_nodes_in(self.nodes@, i as int) =~= r@.map_values(|n: &WindowNode| *n));
            assert forall|k: int| 0 <= k < r@.len() implies is_window(*#[trigger] r@[k]) by {
                assert(r@.map_values(|n: &WindowNode| *n)[k] == *r@[k]);
                assert(window_nodes(*self)[k] == *r@[k]);
            }
            r
        } else if self.node_type == NodeType::Con {
            let mut r: Vec<&WindowNode> = Vec::new();
            r.push(self);
            r
        } else {
            Vec::new()
        }
    }
}

/// The entries of sway windows, in order, with the given meta text.
pub fn window_entries(nodes: &Vec<&WindowNode>, meta: &str) -> (r: Vec<Entry>)
    ensures
        entries_view(r@) == nodes@.map_values(|n: &WindowNode| sway_entry(*n, meta@)),
{
    let mut r: Vec<Entry> = Vec::new();
    let mut i: usize = 0;
    while i < nodes.len()
        invariant
            i <= nodes.len(),
            entries_view(r@) == nodes@.subrange(0, i as int).map_values(|n: &WindowNode| sway_entry(*n, meta@)),
        decreases nodes.len() - i,
    {
        let node = nodes[i];
        let name = match &node.name {
            Some(s) => s.clone(),
            None => String::from_str("-- window name missing --"),
        };
        let app = match &node.app_id {
            Some(s) => s.clone(),
            None => String::from_str("-- window app_id missing --"),
        };
        let title = if !name.as_str().is_empty() { name } else { app };
        let ghost r0 = entries_view(r@);
        r.push(Entry {
            id: i64_to_decimal(node.id),
            title,
            action: String::from_str("focus"),
            meta: String::from_str(meta),
            command: None,
        });
        assert(entries_view(r@) =~= r0.push(sway_entry(*nodes@[i as int], meta@)));
        assert(nodes@.subrange(0, i + 1) =~= nodes@.subrange(0, i as int).push(nodes@[i as int]));
        i = i + 1;
    }
    assert(nodes@.subrange(0, nodes.len() as int) =~= nodes@);
    r
}

/// The sway command that focuses the window with the given id.
pub open spec fn focus_command(id: Seq<char>) -> Seq<char> {
    "[con_id="@ + id + "] focus"@
}

/// Builds the sway command that focuses the window of an entry.
pub fn focus_window(entry: &Entry) -> (r: Activation)
    ensures
        r matches Activation::SwayCommand(c) && c@ == focus_command(entry.id@),
{
    let mut c = String::from_str("[con_id=");
    c.append(entry.id.as_str());
    c.append("] focus");
    Activation::SwayCommand(c)
}

/// The windows open in the sway window manager.
#[derive(Debug)]
pub struct SwayWindowsPlugin {
    pub entries: Vec<Entry>,
}

impl SwayWindowsPlugin {
    /// The plugin's id.
    pub fn id() -> (r: &'static str)
        ensures
            r@ == "sway-windows"@,
    {
        "sway-windows"
    }

    /// Where the plugin is listed: higher priorities come first.
    pub fn priority() -> (r: u32)
        ensures
            r == 30,
    {
        30
    }

    /// The heading shown above the plugin's entries.
    pub fn title() -> (r: &'static str)
        ensures
            r@ == "󰖯 Windows"@,
    {
        "󰖯 Windows"
    }

    /// Copies of the plugin's entries.
    pub fn entries(&self) -> (r: Vec<Entry>)
        ensures
            entries_view(r@) == entries_view(self.entries@),
    {
        copy_entries(&self.entries)
    }

    /// Replaces the plugin's entries.
    pub fn set_entries(&mut self, entries: Vec<Entry>)
        ensures
            final(self).entries == entries,
    {
        self.entries = entries;
    }

    /// The plugin as the launcher lists it.
    pub fn plugin(&self) -> (r: Plugin)
        ensures
            r.id@ == "sway-windows"@,
            r.priority == 30,
            r.title@ == "󰖯 Windows"@,
            entries_view(r.entries@) == entries_view(self.entries@),
    {
        Plugin {
            id: String::from_str(Self::id()),
            priority: Self::priority(),
            title: String::from_str(Self::title()),
            entries: self.entries(),
        }
    }

    /// The message that answers a search for `query` among the entries.
    pub fn search(&self, query: &String) -> (r: Message)
        ensures
            search_message(r, "sway-windows"@, entries_view(self.entries@), query@),
    {
        let shown = self.entries();
        let ghost src = shown@;
        let found = search(shown, query);
        let r = Message::UpdateEntries(String::from_str(Self::id()), found);
        assert(entries_view(src) == entries_view(self.entries@));
        r
    }
}

impl SwayWindowsPlugin {
    /// A plugin with no entries yet.
    pub fn new() -> (r: Self)
        ensures
            r.entries@.len() == 0,
    {
        Self { entries: Vec::new() }
    }

    /// Lists the entries by title, keeping entries of equal title in order.
    pub fn sort(&mut self)
        ensures
            is_stable_sort(final(self).entries@, old(self).entries@, title_key(), chars_order()),
    {
        let mut taken: Vec<Entry> = Vec::new();
        core::mem::swap(&mut taken, &mut self.entries);
        self.entries = sort_by_title(taken);
    }

    /// Lists the windows of sway's tree by title.
    pub fn update_entries(&mut self, root: &WindowNode)
        ensures
            exists|listed: Seq<Entry>|
                #![trigger entries_view(listed)]
                entries_view(listed) == window_nodes(*root).map_values(|n: WindowNode| sway_entry(n, "Sway Windows"@))
                    && is_stable_sort(final(self).entries@, listed, title_key(), chars_order()),
    {
        let nodes = root.get_window_nodes();
        let listed = window_entries(&nodes, "Sway Windows");
        let ghost l = listed@;
        assert(entries_view(l) =~= window_nodes(*root).map_values(|n: WindowNode| sway_entry(n, "Sway Windows"@)));
        self.entries = listed;
        self.sort();
    }

    /// Focuses the window of the entry.
    pub fn activate(&self, entry: &Entry) -> (r: Activation)
        ensures
            r matches Activation::SwayCommand(c) && c@ == focus_command(entry.id@),
    {
        focus_window(entry)
    }
}

} // verus!
