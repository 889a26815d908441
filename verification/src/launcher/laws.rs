//! What holds of the launcher over any state and any sequence of steps.

use vstd::prelude::*;
use crate::launcher::{
    Line, LayoutCursor, layout_after, layout_origin, lemma_first_plugin_starts_at_zero, plugin_starting_at, all_entries, id_position, insert_position, message_plugins, next_index, next_plugin_index, offset,
    plugin_start_after, plugin_start_before, previous_index, previous_plugin_index, registered,
    run_messages, sorted_by_priority, updated, lemma_offset_monotone,
};
use crate::model::{Entry, Message, Plugin};

verus! {

/// Moving down and then up comes back to the entry selected before, in a
/// list of `total` entries; in an empty list the selection is the first
/// position.
pub proof fn lemma_next_then_previous(total: int, idx: int)
    requires
        0 <= idx,
        total > 0 || idx == 0,
    ensures
        previous_index(total, next_index(total, idx)) == idx,
{
}

/// Moving up and then down comes back to the entry selected before, unless
/// the selection stood just past the end of a list that is not empty.
pub proof fn lemma_previous_then_next(total: int, idx: int)
    requires
        0 <= idx,
        (total == 0 && idx == 0) || (total > 0 && idx != total),
    ensures
        next_index(total, previous_index(total, idx)) == idx,
{
}

/// Moving up or down keeps the selection on an entry of the list, and on the
/// first position where the list is empty.
pub proof fn lemma_moves_stay_in_list(total: int, idx: int)
    requires
        0 <= total,
        total == 0 || 0 <= idx < total,
    ensures
        total > 0 ==> 0 <= next_index(total, idx) < total && 0 <= previous_index(total, idx) < total,
        total == 0 ==> next_index(total, idx) == 0 && previous_index(total, idx) == 0,
{
}

/// The selection after moving down `n` times.
pub open spec fn next_times(total: int, idx: int, n: nat) -> int
    decreases n,
{
    if n == 0 {
        idx
    } else {
        next_index(total, next_times(total, idx, (n - 1) as nat))
    }
}

proof fn lemma_next_times_mod(total: int, idx: int, n: nat)
    requires
        0 <= idx < total,
    ensures
        next_times(total, idx, n) == (idx + n) % total,
    decreases n,
{
    if n == 0 {
        vstd::arithmetic::div_mod::lemma_small_mod(idx as nat, total as nat);
    } else {
        lemma_next_times_mod(total, idx, (n - 1) as nat);
        let prev = (idx + n - 1) % total;
        vstd::arithmetic::div_mod::lemma_mod_bound(idx + n - 1, total);
        vstd::arithmetic::div_mod::lemma_add_mod_noop(idx + n - 1, 1, total);
        if total > 1 {
            vstd::arithmetic::div_mod::lemma_small_mod(1, total as nat);
        } else {
            vstd::arithmetic::div_mod::lemma_mod_self_0(1);
        }
        if prev == total - 1 {
            vstd::arithmetic::div_mod::lemma_mod_self_0(total);
        } else {
            vstd::arithmetic::div_mod::lemma_small_mod((prev + 1) as nat, total as nat);
        }
    }
}

/// Moving down once per entry comes back to the entry selected before: the
/// selection wraps around.
pub proof fn lemma_next_cycles(total: int, idx: int)
    requires
        total == 0 || 0 <= idx < total,
    ensures
        next_times(total, idx, total as nat) == idx,
{
    if total > 0 {
        lemma_next_times_mod(total, idx, total as nat);
        vstd::arithmetic::div_mod::lemma_mod_add_multiples_vanish(idx, total);
        vstd::arithmetic::div_mod::lemma_small_mod(idx as nat, total as nat);
    }
}

/// Registering a plugin keeps the plugins listed by priority: the new one
/// goes after every plugin of at least its priority and before the others,
/// and all plugins that were there stay, in their order. The list after is
/// the list before with the new plugin added, reordered.
pub proof fn lemma_register_keeps_order(ps: Seq<Plugin>, x: Plugin)
    requires
        sorted_by_priority(ps),
    ensures
        sorted_by_priority(registered(ps, x)),
        registered(ps, x).to_multiset() =~= ps.push(x).to_multiset(),
        ({
            let pos = insert_position(ps, x.priority);
            &&& 0 <= pos <= ps.len()
            &&& registered(ps, x).len() == ps.len() + 1
            &&& registered(ps, x)[pos] == x
            &&& registered(ps, x).remove(pos) == ps
            &&& forall|i: int| 0 <= i < pos ==> (#[trigger] ps[i]).priority >= x.priority
            &&& forall|i: int| pos <= i < ps.len() ==> (#[trigger] ps[i]).priority < x.priority
        }),
    decreases ps.len(),
{
    let pos = insert_position(ps, x.priority);
    if ps.len() > 0 {
        let t = ps.drop_first();
        assert forall|i: int, j: int| 0 <= i < j < t.len() implies #[trigger] t[i].priority >= #[trigger] t[j].priority by {
            assert(t[i] == ps[i + 1] && t[j] == ps[j + 1]);
        }
        lemma_register_keeps_order(t, x);
        if ps[0].priority < x.priority {
            assert forall|i: int| 0 <= i < ps.len() implies (#[trigger] ps[i]).priority < x.priority by {
                if i > 0 {
                    assert(ps[0].priority >= ps[i].priority);
                }
            }
        } else {
            assert forall|i: int| 0 <= i < pos implies (#[trigger] ps[i]).priority >= x.priority by {
                if i > 0 {
                    assert(ps[i] == t[i - 1]);
                }
            }
            assert forall|i: int| pos <= i < ps.len() implies (#[trigger] ps[i]).priority < x.priority by {
                assert(ps[i] == t[i - 1]);
            }
        }
    }
    let r = registered(ps, x);
    assert(r.remove(pos) =~= ps);
    assert(r.to_multiset() =~= ps.push(x).to_multiset()) by {
        broadcast use vstd::seq_lib::group_to_multiset_ensures;
        vstd::seq_lib::to_multiset_remove(r, pos);
        vstd::seq_lib::to_multiset_build(ps, x);
        assert(r.contains(x)) by {
            assert(r[pos] == x);
        }
        assert(r.to_multiset().count(x) > 0);
    }
    assert forall|i: int, j: int| 0 <= i < j < r.len() implies #[trigger] r[i].priority >= #[trigger] r[j].priority by {
        if i < pos && j < pos {
            assert(r[i] == ps[i] && r[j] == ps[j]);
        } else if i < pos && j == pos {
            assert(r[i] == ps[i]);
        } else if i < pos {
            assert(r[i] == ps[i] && r[j] == ps[j - 1]);
        } else if i == pos {
            assert(r[j] == ps[j - 1]);
        } else {
            assert(r[i] == ps[i - 1] && r[j] == ps[j - 1]);
        }
    }
}

proof fn lemma_id_position_facts(ps: Seq<Plugin>, id: Seq<char>)
    ensures
        0 <= id_position(ps, id) <= ps.len(),
        id_position(ps, id) < ps.len() ==> ps[id_position(ps, id)].id@ == id,
        forall|i: int| 0 <= i < id_position(ps, id) ==> (#[trigger] ps[i]).id@ != id,
    decreases ps.len(),
{
    if ps.len() > 0 && ps[0].id@ != id {
        let t = ps.drop_first();
        lemma_id_position_facts(t, id);
        assert forall|i: int| 0 <= i < id_position(ps, id) implies (#[trigger] ps[i]).id@ != id by {
            if i > 0 {
                assert(ps[i] == t[i - 1]);
            }
        }
    }
}

/// New entries for a plugin replace exactly that plugin's entries: the
/// plugin keeps its place, id, priority and title, it shows the new entries,
/// and every other plugin is left as it was. A message for an id that no
/// plugin has changes nothing.
pub proof fn lemma_update_touches_one_plugin(ps: Seq<Plugin>, id: Seq<char>, entries: Vec<Entry>)
    ensures
        updated(ps, id, entries).len() == ps.len(),
        ({
            let k = id_position(ps, id);
            &&& k < ps.len() ==> {
                &&& updated(ps, id, entries)[k].entries == entries
                &&& updated(ps, id, entries)[k].id == ps[k].id
                &&& updated(ps, id, entries)[k].priority == ps[k].priority
                &&& updated(ps, id, entries)[k].title == ps[k].title
                &&& ps[k].id@ == id
                &&& forall|i: int| 0 <= i < ps.len() && i != k ==> #[trigger] updated(ps, id, entries)[i] == ps[i]
            }
            &&& k >= ps.len() ==> updated(ps, id, entries) == ps
        }),
        sorted_by_priority(ps) ==> sorted_by_priority(updated(ps, id, entries)),
{
    lemma_id_position_facts(ps, id);
    let k = id_position(ps, id);
    let u = updated(ps, id, entries);
    if k < ps.len() {
        if sorted_by_priority(ps) {
            assert forall|i: int, j: int| 0 <= i < j < u.len() implies #[trigger] u[i].priority >= #[trigger] u[j].priority by {
                assert(u[i].priority == ps[i].priority && u[j].priority == ps[j].priority);
                assert(ps[i].priority >= ps[j].priority);
            }
        }
    }
}

/// Handling stops at the first message that asks the launcher to leave:
/// what comes after it changes nothing and causes nothing.
pub proof fn lemma_exit_ends_handling(ps: Seq<Plugin>, query: String, before: Seq<Message>, after: Seq<Message>)
    ensures
        run_messages(ps, query, before + seq![Message::Exit] + after) == run_messages(ps, query, before + seq![Message::Exit]),
    decreases before.len(),
{
    let all = before + seq![Message::Exit] + after;
    let cut = before + seq![Message::Exit];
    if before.len() == 0 {
        assert(all[0] is Exit);
        assert(cut[0] is Exit);
    } else if before[0] is Exit {
        assert(all[0] is Exit);
        assert(cut[0] is Exit);
    } else {
        assert(all[0] == before[0] && cut[0] == before[0]);
        assert(all.drop_first() =~= before.drop_first() + seq![Message::Exit] + after);
        assert(cut.drop_first() =~= before.drop_first() + seq![Message::Exit]);
        lemma_exit_ends_handling(message_plugins(ps, before[0]), query, before.drop_first(), after);
    }
}

proof fn lemma_start_after_shape(ps: Seq<Plugin>, idx: int, p: int)
    requires
        0 <= p <= ps.len(),
    ensures
        ({
            let r = plugin_start_after(ps, idx, p);
            ||| r == idx && forall|q: int| p <= q < ps.len() ==> offset(ps, q) <= idx
            ||| exists|q: int| #![trigger offset(ps, q)]
                p <= q < ps.len() && r == offset(ps, q) && r > idx && forall|t: int| p <= t < q ==> offset(ps, t) <= idx
        }),
    decreases ps.len() - p,
{
    if p < ps.len() {
        lemma_start_after_shape(ps, idx, p + 1);
        if offset(ps, p) > idx {
            assert(plugin_start_after(ps, idx, p) == offset(ps, p));
        }
    }
}

/// Moving to the next plugin selects the first entry of the first plugin
/// that starts after the selection; where no plugin does, the selection
/// stays.
pub proof fn lemma_next_plugin_is_next_start(ps: Seq<Plugin>, idx: int)
    ensures
        ({
            let r = next_plugin_index(ps, idx);
            ||| r == idx && forall|q: int| 0 <= q < ps.len() ==> offset(ps, q) <= idx
            ||| exists|q: int| #![trigger offset(ps, q)]
                0 <= q < ps.len() && r == offset(ps, q) && r > idx && forall|t: int| 0 <= t < q ==> offset(ps, t) <= idx
        }),
{
    lemma_start_after_shape(ps, idx, 0);
}

proof fn lemma_start_before_bound(ps: Seq<Plugin>, idx: int, p: int, last: int)
    requires
        0 <= p <= ps.len(),
        0 <= last <= idx,
    ensures
        0 <= plugin_start_before(ps, idx, p, last) <= idx,
    decreases ps.len() - p,
{
    if p < ps.len() && offset(ps, p) < idx {
        lemma_offset_monotone(ps, 0, p);
        assert(offset(ps, 0) == 0) by {
            assert(ps.take(0) =~= Seq::<Plugin>::empty());
        }
        lemma_start_before_bound(ps, idx, p + 1, offset(ps, p));
    }
}

/// Moving to the previous plugin never moves the selection down.
pub proof fn lemma_previous_plugin_moves_up(ps: Seq<Plugin>, idx: int)
    requires
        0 <= idx,
    ensures
        0 <= previous_plugin_index(ps, idx) <= idx,
{
    if ps.len() > 0 && idx != 0 {
        lemma_start_before_bound(ps, idx, 0, 0);
    }
}

/// How much of the list is left to draw from a cursor: three steps per
/// entry left, less the divider and header already drawn for the next one.
pub open spec fn layout_left(ps: Seq<Plugin>, c: LayoutCursor) -> int {
    3 * (all_entries(ps).len() - c.next_entry_index) + (if c.divider_added { 0int } else { 1int }) + (if c.header_added {
        0int
    } else {
        1int
    })
}

/// Drawing the list always ends: every step that draws lines leaves less to
/// draw, and what is left never falls below zero.
pub proof fn lemma_layout_progress(ps: Seq<Plugin>, active: usize, c: LayoutCursor)
    requires
        all_entries(ps).len() <= usize::MAX,
        layout_after(ps, active, c) is Some,
    ensures
        0 <= layout_left(ps, layout_after(ps, active, c).unwrap().1) < layout_left(ps, c),
{
}

/// The cursor after `k` steps of drawing from `c`, each of them drawing
/// lines; `None` where the list ends before.
pub open spec fn layout_steps(ps: Seq<Plugin>, active: usize, c: LayoutCursor, k: nat) -> Option<LayoutCursor>
    decreases k,
{
    if k == 0 {
        Some(c)
    } else {
        match layout_steps(ps, active, c, (k - 1) as nat) {
            Some(d) => match layout_after(ps, active, d) {
                Some(step) => Some(step.1),
                None => None,
            },
            None => None,
        }
    }
}

proof fn lemma_layout_steps_left(ps: Seq<Plugin>, active: usize, c: LayoutCursor, k: nat)
    requires
        all_entries(ps).len() <= usize::MAX,
        layout_steps(ps, active, c, k) is Some,
    ensures
        layout_left(ps, layout_steps(ps, active, c, k).unwrap()) <= layout_left(ps, c) - k,
        k > 0 ==> 0 <= layout_left(ps, layout_steps(ps, active, c, k).unwrap()),
    decreases k,
{
    if k > 0 {
        let d = layout_steps(ps, active, c, (k - 1) as nat).unwrap();
        lemma_layout_steps_left(ps, active, c, (k - 1) as nat);
        lemma_layout_progress(ps, active, d);
    }
}

/// A frame draws at most three lines' worth of steps per entry, and one
/// more: from the selected entry, the drawing ends within
/// `3 * entries + 1` steps.
pub proof fn lemma_layout_ends(ps: Seq<Plugin>, active: usize, k: nat)
    requires
        all_entries(ps).len() <= usize::MAX,
        layout_steps(ps, active, layout_origin(active), k) is Some,
    ensures
        k <= 3 * all_entries(ps).len() + 1,
{
    lemma_layout_steps_left(ps, active, layout_origin(active), k);
}

/// Every entry a drawing step shows is in the list, the entry above the
/// first one included; and the steps keep the cursor as they found it: no
/// header drawn before the first line.
pub proof fn lemma_layout_lines_in_list(ps: Seq<Plugin>, active: usize, c: LayoutCursor)
    requires
        all_entries(ps).len() <= usize::MAX,
        c.lines_added < usize::MAX,
        c.lines_added == 0 ==> !c.header_added,
        layout_after(ps, active, c) is Some,
    ensures
        ({
            let (lines, next) = layout_after(ps, active, c).unwrap();
            &&& forall|i: int| 0 <= i < lines.len() ==> (#[trigger] lines[i] matches Line::Entry(j, _) ==> j < all_entries(ps).len())
            &&& next.lines_added == 0 ==> !next.header_added
        }),
{
    let g = c.next_entry_index as int;
    if g == 0 && c.lines_added == 0 {
        lemma_first_plugin_starts_at_zero(ps);
        assert(plugin_starting_at(ps, g) is Some);
    }
}

} // verus!
