use vstd::prelude::*;
use crate::groups::{ItemGroup, ListItem, ListItemView, grouped, items_view, make_group, make_shell_item, shell_item};
use crate::text::{decimal_int, i64_to_decimal};

verus! {

/// The tree of containers that the sway window manager reports: each with
/// an id, maybe a name and a process id, and the containers inside it.
#[derive(Debug)]
pub struct WindowTree {
    pub id: i64,
    pub name: Option<String>,
    pub pid: Option<u64>,
    pub nodes: Vec<WindowTree>,
}

/// The title of a window: its name, or "null" where it has none.
pub open spec fn window_title(t: WindowTree) -> Seq<char> {
    match t.name {
        Some(n) => n@,
        None => "null"@,
    }
}

/// The item that focuses the window.
pub open spec fn window_item(t: WindowTree) -> ListItemView {
    shell_item(window_title(t), "switch to"@, "swaymsg [con_id="@ + decimal_int(t.id as int) + "] focus"@)
}

/// The items of the tree: a container with a process id and a name is a
/// window; the items of any other container are those of its children,
/// left to right.
pub open spec fn tree_items(t: WindowTree) -> Seq<ListItemView>
    decreases t,
{
    if t.pid is Some && t.name is Some {
        seq![window_item(t)]
    } else {
        trees_items(t.nodes@, 0)
    }
}

/// The items of the trees `nodes[i..]`.
pub open spec fn trees_items(nodes: Seq<WindowTree>, i: int) -> Seq<ListItemView>
    decreases nodes, nodes.len() - i,
{
    if i < 0 || i >= nodes.len() {
        Seq::empty()
    } else {
        tree_items(nodes[i]) + trees_items(nodes, i + 1)
    }
}

/// Every container of the tree rooted at `t`, each before those inside it.
pub open spec fn all_containers(t: WindowTree) -> Seq<WindowTree>
    decreases t,
{
    seq![t] + all_containers_in(t.nodes@, 0)
}

/// Every container of the trees `nodes[i..]`.
pub open spec fn all_containers_in(nodes: Seq<WindowTree>, i: int) -> Seq<WindowTree>
    decreases nodes, nodes.len() - i,
{
    if i < 0 || i >= nodes.len() {
        Seq::empty()
    } else {
        all_containers(nodes[i]) + all_containers_in(nodes, i + 1)
    }
}

/// `item` focuses one of the containers `cs` that is a window: one with a
/// process id and a name, and it shows that name.
pub open spec fn focuses_window_of(cs: Seq<WindowTree>, item: ListItemView) -> bool {
    exists|n: WindowTree|
        #[trigger] cs.contains(n) && n.pid is Some && n.name is Some && item == window_item(n)
            && window_title(n) == n.name.unwrap()@
}

/// Every item of the tree focuses a window of it: a container of the tree
/// with a process id and a name, shown by that name.
pub proof fn lemma_tree_items_are_windows(t: WindowTree)
    ensures
        forall|k: int| 0 <= k < tree_items(t).len() ==> focuses_window_of(all_containers(t), #[trigger] tree_items(t)[k]),
    decreases t,
{
    let w = tree_items(t);
    let c = all_containers(t);
    if t.pid is Some && t.name is Some {
        assert forall|k: int| 0 <= k < w.len() implies focuses_window_of(c, #[trigger] w[k]) by {
            assert(c[0] == t);
            assert(c.contains(t));
        }
    } else {
        lemma_trees_items_are_windows(t.nodes@, 0);
        let ci = all_containers_in(t.nodes@, 0);
        assert forall|k: int| 0 <= k < w.len() implies focuses_window_of(c, #[trigger] w[k]) by {
            assert(w[k] == trees_items(t.nodes@, 0)[k]);
            assert(focuses_window_of(ci, w[k]));
            let n = choose|n: WindowTree|
                #[trigger] ci.contains(n) && n.pid is Some && n.name is Some && w[k] == window_item(n)
                    && window_title(n) == n.name.unwrap()@;
            let j = choose|j: int| 0 <= j < ci.len() && ci[j] == n;
            assert(c[j + 1] == n);
            assert(c.contains(n));
        }
    }
}

proof fn lemma_trees_items_are_windows(nodes: Seq<WindowTree>, i: int)
    ensures
        forall|k: int| 0 <= k < trees_items(nodes, i).len() ==> focuses_window_of(all_containers_in(nodes, i), #[trigger] trees_items(nodes, i)[k]),
    decreases nodes, nodes.len() - i,
{
    if 0 <= i < nodes.len() {
        let a = tree_items(nodes[i]);
        let b = trees_items(nodes, i + 1);
        let ca = all_containers(nodes[i]);
        let cb = all_containers_in(nodes, i + 1);
        let w = trees_items(nodes, i);
        lemma_tree_items_are_windows(nodes[i]);
        lemma_trees_items_are_windows(nodes, i + 1);
        assert(w == a + b);
        assert(all_containers_in(nodes, i) == ca + cb);
        assert forall|k: int| 0 <= k < w.len() implies focuses_window_of(ca + cb, #[trigger] w[k]) by {
            if k < a.len() {
                assert(w[k] == a[k]);
                assert(focuses_window_of(ca, a[k]));
                let n = choose|n: WindowTree|
                    #[trigger] ca.contains(n) && n.pid is Some && n.name is Some && a[k] == window_item(n)
                        && window_title(n) == n.name.unwrap()@;
                let j = choose|j: int| 0 <= j < ca.len() && ca[j] == n;
                assert((ca + cb)[j] == n);
                assert((ca + cb).contains(n));
            } else {
                assert(w[k] == b[k - a.len()]);
                assert(focuses_window_of(cb, b[k - a.len()]));
                let n = choose|n: WindowTree|
                    #[trigger] cb.contains(n) && n.pid is Some && n.name is Some && b[k - a.len()] == window_item(n)
                        && window_title(n) == n.name.unwrap()@;
                let j = choose|j: int| 0 <= j < cb.len() && cb[j] == n;
                assert((ca + cb)[ca.len() + j] == n);
                assert((ca + cb).contains(n));
            }
        }
    }
}

impl WindowTree {
    /// The item that focuses this window.
    pub fn to_list_item(&self) -> (r: ListItem)
        ensures
            r@ == window_item(*self),
    {
        let title = match &self.name {
            Some(n) => n.clone(),
            None => String::from_str("null"),
        };
        let mut script = String::from_str("swaymsg [con_id=");
        let id = i64_to_decimal(self.id);
        script.append(id.as_str());
        script.append("] focus");
        make_shell_item(title, "switch to", script)
    }

    /// The items of the windows in the tree, left to right.
    pub fn get_list_items(&self) -> (r: Vec<ListItem>)
        ensures
            items_view(r@) == tree_items(*self),
        decreases self,
    {
        if self.pid.is_some() && self.name.is_some() {
            let mut r: Vec<ListItem> = Vec::new();
            let item = self.to_list_item();
            r.push(item);
            assert(items_view(r@) =~= seq![window_item(*self)]);
            r
        } else {
            let mut r: Vec<ListItem> = Vec::new();
            let mut i: usize = 0;
            assert(trees_items(self.nodes@, self.nodes@.len() as int) =~= Seq::<ListItemView>::empty());
            assert(items_view(r@) + trees_items(self.nodes@, 0) =~= tree_items(*self));
            while i < self.nodes.len()
                invariant
                    i <= self.nodes.len(),
                    !(self.pid is Some && self.name is Some),
                    items_view(r@) + trees_items(self.nodes@, i as int) == tree_items(*self),
                decreases self.nodes.len() - i,
            {
                let child = &self.nodes[i];
                assert(decreases_to!(*self => *child));
                let mut found = child.get_list_items();
                let ghost before = items_view(r@);
                let ghost got = items_view(found@);
                r.append(&mut found);
                proof {
                    assert(items_view(r@) =~= before + got);
                    assert(before + (got + trees_items(self.nodes@, i + 1)) =~= before + got + trees_items(self.nodes@, i + 1));
                }
                i = i + 1;
            }
            assert(items_view(r@) + trees_items(self.nodes@, i as int) =~= items_view(r@));
            r
        }
    }
}

/// The group of windows in the tree, listed by title with case ignored,
/// once per title.
pub fn get_windows_group(tree: &WindowTree) -> (r: ItemGroup)
    ensures
        r.name@ == "Windows"@,
        r.icon@ == "LayoutGrid"@,
        exists|items: Seq<ListItem>|
            #![trigger items_view(items)]
            items_view(items) == tree_items(*tree) && grouped(r.items@, items),
{
    let items = tree.get_list_items();
    let ghost listed = items@;
    let r = make_group("Windows", "LayoutGrid", items);
    assert(items_view(listed) == tree_items(*tree) && grouped(r.items@, listed));
    r
}

} // verus!
