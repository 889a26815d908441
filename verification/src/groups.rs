//! Groups of list items for the desktop front end: the git projects and the
//! open windows, each listed by title with case ignored, once per title.

pub mod git_projects;
pub mod windows;

use vstd::prelude::*;
use crate::model::strings_view;
use crate::sorting::{dedup_by_key, is_stable_sort, lemma_dedup_sorted_strict, lemma_insert_front_stable, strict_total_order};
use crate::text::{chars_of, chars_order, lemma_chars_order_total, lt_chars, str_eq};

verus! {

/// The program and arguments that an action runs.
#[derive(Debug)]
pub struct ListItemActionCommand {
    pub program: String,
    pub args: Vec<String>,
}

/// An action offered for a list item: the keys that trigger it, its label,
/// and what it runs.
#[derive(Debug)]
pub struct ListItemAction {
    pub keys: Vec<String>,
    pub text: String,
    pub command: ListItemActionCommand,
}

/// One item of a group.
#[derive(Debug)]
pub struct ListItem {
    pub title: String,
    pub actions: Vec<ListItemAction>,
}

/// A named group of items with an icon.
#[derive(Debug)]
pub struct ItemGroup {
    pub name: String,
    pub icon: String,
    pub items: Vec<ListItem>,
}

/// The mathematical value of an action.
pub struct ActionView {
    pub keys: Seq<Seq<char>>,
    pub text: Seq<char>,
    pub program: Seq<char>,
    pub args: Seq<Seq<char>>,
}

/// The mathematical value of an item.
pub struct ListItemView {
    pub title: Seq<char>,
    pub actions: Seq<ActionView>,
}

impl View for ListItemAction {
    type V = ActionView;

    open spec fn view(&self) -> ActionView {
        ActionView {
            keys: strings_view(self.keys@),
            text: self.text@,
            program: self.command.program@,
            args: strings_view(self.command.args@),
        }
    }
}

impl View for ListItem {
    type V = ListItemView;

    open spec fn view(&self) -> ListItemView {
        ListItemView { title: self.title@, actions: self.actions@.map_values(|a: ListItemAction| a@) }
    }
}

/// The views of a list of items.
pub open spec fn items_view(s: Seq<ListItem>) -> Seq<ListItemView> {
    s.map_values(|i: ListItem| i@)
}

/// An item with one action, bound to the enter key, that runs
/// `sh -c <script>`.
pub open spec fn shell_item(title: Seq<char>, text: Seq<char>, script: Seq<char>) -> ListItemView {
    ListItemView {
        title,
        actions: seq![ActionView { keys: seq!["↵"@], text, program: "sh"@, args: seq!["-c"@, script] }],
    }
}

/// The lower-case form of a text as `str::to_lowercase` computes it.
pub uninterp spec fn lowercase(s: Seq<char>) -> Seq<char>;

/// `str::to_lowercase`: the text with every character replaced by its
/// lower-case mapping. The result is named, not spelled out.
#[verifier::external_body]
fn to_lowercase(s: &str) -> (r: String)
    ensures
        r@ == lowercase(s@),
{
    s.to_lowercase()
}

/// The key by which items are listed: the title in lower case.
pub open spec fn lower_title_key() -> spec_fn(ListItem) -> Seq<char> {
    |i: ListItem| lowercase(i.title@)
}

/// `r` holds the items listed by title with case ignored (items with equal
/// titles in their order), then of each run of equal titles the first.
pub open spec fn grouped(r: Seq<ListItem>, items: Seq<ListItem>) -> bool {
    exists|sorted: Seq<ListItem>|
        #![trigger dedup_by_key(sorted, lower_title_key())]
        is_stable_sort(sorted, items, lower_title_key(), chars_order()) && r == dedup_by_key(
            sorted,
            lower_title_key(),
        )
}

/// A group lists each title once, case ignored, in increasing order of the
/// lower-case titles.
pub proof fn lemma_grouped_titles_distinct(r: Seq<ListItem>, items: Seq<ListItem>)
    requires
        grouped(r, items),
    ensures
        forall|i: int, j: int| 0 <= i < j < r.len() ==> crate::text::chars_lt(
            lowercase((#[trigger] r[i]).title@),
            lowercase((#[trigger] r[j]).title@),
        ),
        forall|i: int, j: int| 0 <= i < j < r.len() ==> lowercase((#[trigger] r[i]).title@) != lowercase(
            (#[trigger] r[j]).title@,
        ),
{
    let sorted = choose|sorted: Seq<ListItem>|
        #![trigger dedup_by_key(sorted, lower_title_key())]
        is_stable_sort(sorted, items, lower_title_key(), chars_order()) && r == dedup_by_key(sorted, lower_title_key());
    lemma_chars_order_total();
    lemma_dedup_sorted_strict(sorted, lower_title_key(), chars_order());
    assert forall|i: int, j: int| 0 <= i < j < r.len() implies lowercase((#[trigger] r[i]).title@) != lowercase(
        (#[trigger] r[j]).title@,
    ) by {
        assert(crate::text::chars_lt(lowercase(r[i].title@), lowercase(r[j].title@)));
        crate::text::lemma_chars_lt_irreflexive(lowercase(r[i].title@));
    }
}

/// An item with one action, bound to the enter key, that runs
/// `sh -c <script>`.
pub fn make_shell_item(title: String, text: &str, script: String) -> (r: ListItem)
    ensures
        r@ == shell_item(title@, text@, script@),
{
    let mut keys: Vec<String> = Vec::new();
    keys.push(String::from_str("↵"));
    let mut args: Vec<String> = Vec::new();
    args.push(String::from_str("-c"));
    args.push(script);
    let ghost script_view = args@[1]@;
    let mut actions: Vec<ListItemAction> = Vec::new();
    actions.push(ListItemAction {
        keys,
        text: String::from_str(text),
        command: ListItemActionCommand { program: String::from_str("sh"), args },
    });
    let r = ListItem { title, actions };
    assert(strings_view(r.actions@[0].keys@) =~= seq!["↵"@]);
    assert(strings_view(r.actions@[0].command.args@) =~= seq!["-c"@, script_view]);
    assert(r@.actions =~= shell_item(r.title@, text@, script_view).actions);
    r
}

/// Sorts items by title with case ignored, keeping items with equal titles
/// in their order.
pub fn sort_by_lower_title(v: Vec<ListItem>) -> (r: Vec<ListItem>)
    ensures
        is_stable_sort(r@, v@, lower_title_key(), chars_order()),
{
    let ghost s = v@;
    let mut v = v;
    let mut r: Vec<ListItem> = Vec::new();
    let mut keys: Vec<Vec<char>> = Vec::new();
    proof {
        lemma_chars_order_total();
        assert(s.skip(s.len() as int) =~= Seq::<ListItem>::empty());
    }
    while v.len() > 0
        invariant
            v@ == s.take(v.len() as int),
            v.len() <= s.len(),
            is_stable_sort(r@, s.skip(v.len() as int), lower_title_key(), chars_order()),
            strict_total_order(chars_order()),
            keys@.len() == r@.len(),
            forall|i: int| 0 <= i < r@.len() ==> (#[trigger] keys@[i])@ == lower_title_key()(r@[i]),
        decreases v.len(),
    {
        let x = v.pop().unwrap();
        let lower = to_lowercase(x.title.as_str());
        let xc = chars_of(lower.as_str());
        let mut pos: usize = 0;
        while pos < r.len()
            invariant
                pos <= r.len(),
                xc@ == lower_title_key()(x),
                keys@.len() == r@.len(),
                forall|i: int| 0 <= i < r@.len() ==> (#[trigger] keys@[i])@ == lower_title_key()(r@[i]),
                forall|i: int| 0 <= i < pos ==> chars_order()(lower_title_key()(#[trigger] r@[i]), lower_title_key()(x)),
            ensures
                pos <= r.len(),
                forall|i: int| 0 <= i < pos ==> chars_order()(lower_title_key()(#[trigger] r@[i]), lower_title_key()(x)),
                pos < r.len() ==> !chars_order()(lower_title_key()(r@[pos as int]), lower_title_key()(x)),
            decreases r.len() - pos,
        {
            assert(keys@[pos as int]@ == lower_title_key()(r@[pos as int]));
            if !lt_chars(&keys[pos], &xc) {
                break;
            }
            pos = pos + 1;
        }
        proof {
            let rest = s.skip(v.len() + 1);
            assert(s.take(v.len() + 1).last() == x);
            assert(seq![x] + rest =~= s.skip(v.len() as int));
            lemma_insert_front_stable(r@, rest, x, pos as int, lower_title_key(), chars_order());
        }
        let ghost r0 = r@;
        let ghost k0 = keys@;
        r.insert(pos, x);
        keys.insert(pos, xc);
        assert forall|i: int| 0 <= i < r@.len() implies (#[trigger] keys@[i])@ == lower_title_key()(r@[i]) by {
            if i < pos {
                assert(keys@[i] == k0[i] && r@[i] == r0[i]);
            } else if i > pos {
                assert(keys@[i] == k0[i - 1] && r@[i] == r0[i - 1]);
            }
        }
    }
    proof {
        assert(s.skip(0) =~= s);
    }
    r
}

/// Removes each item whose title, with case ignored, equals that of the
/// item before it.
pub fn dedup_by_lower_title(v: Vec<ListItem>) -> (r: Vec<ListItem>)
    ensures
        r@ == dedup_by_key(v@, lower_title_key()),
{
    let ghost s = v@;
    let mut v = v;
    let mut r: Vec<ListItem> = Vec::new();
    let mut last = String::new();
    let n = v.len();
    let mut k: usize = 0;
    assert(s.skip(0) =~= s);
    assert(s.take(0) =~= Seq::<ListItem>::empty());
    while v.len() > 0
        invariant
            k <= s.len(),
            k + v.len() == s.len(),
            s.len() == n,
            v@ == s.skip(k as int),
            r@ == dedup_by_key(s.take(k as int), lower_title_key()),
            k > 0 ==> last@ == lower_title_key()(s[k - 1]),
        decreases v.len(),
    {
        let x = v.remove(0);
        let lower = to_lowercase(x.title.as_str());
        assert(s[k as int] == x);
        assert(s.take(k + 1).drop_last() =~= s.take(k as int));
        if k > 0 && str_eq(lower.as_str(), last.as_str()) {
            assert(s.take(k + 1)[k - 1] == s[k - 1]);
        } else {
            r.push(x);
            proof {
                if k > 0 {
                    assert(s.take(k + 1)[k - 1] == s[k - 1]);
                } else {
                    assert(s.take(1) =~= seq![x]);
                }
            }
        }
        last = lower;
        k = k + 1;
        assert(v@ =~= s.skip(k as int));
    }
    assert(s.take(k as int) =~= s);
    r
}

/// The group with the given name and icon, its items listed by title with
/// case ignored, once per title.
pub fn make_group(name: &str, icon: &str, items: Vec<ListItem>) -> (r: ItemGroup)
    ensures
        r.name@ == name@,
        r.icon@ == icon@,
        grouped(r.items@, items@),
{
    let sorted = sort_by_lower_title(items);
    let ghost s = sorted@;
    let unique = dedup_by_lower_title(sorted);
    assert(is_stable_sort(s, items@, lower_title_key(), chars_order()) && unique@ == dedup_by_key(s, lower_title_key()));
    ItemGroup { name: String::from_str(name), icon: String::from_str(icon), items: unique }
}

} // verus!
