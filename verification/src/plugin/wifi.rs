use vstd::prelude::*;
use crate::model::{Entry, Message, Plugin, copy_entries, entries_view};
use crate::search::{search, search_message};
use crate::model::{Activation, ActivationError, EntryView, command_activation, spawns, strings_view};
use crate::text::{chars_lt, chars_of, str_eq, lemma_chars_lt_irreflexive, lemma_chars_lt_total, lemma_chars_lt_transitive, lt_chars};

verus! {

/// A wireless access point as the network manager reports it: the name of
/// its network, its signal strength in percent, and its security flags
/// where the manager could read them.
#[derive(Debug)]
pub struct AccessPoint {
    pub ssid: String,
    pub strength: u8,
    pub rsn_flags: Option<u32>,
}

impl AccessPoint {
    /// A field-by-field copy.
    pub fn copy(&self) -> (r: AccessPoint)
        ensures
            r == *self,
    {
        AccessPoint { ssid: self.ssid.clone(), strength: self.strength, rsn_flags: self.rsn_flags }
    }
}

/// The access point at `i` is the one kept for its network: no other
/// access point of the same network is stronger, and of those as strong it
/// is the last one reported.
pub open spec fn kept(aps: Seq<AccessPoint>, i: int) -> bool {
    &&& 0 <= i < aps.len()
    &&& forall|j: int|
        0 <= j < aps.len() && (#[trigger] aps[j]).ssid@ == aps[i].ssid@ ==> aps[j].strength < aps[i].strength
            || (aps[j].strength == aps[i].strength && j <= i)
}

/// `a` is listed before `b`: it is stronger, or as strong with a network
/// name that comes later.
pub open spec fn listed_before(a: AccessPoint, b: AccessPoint) -> bool {
    a.strength > b.strength || (a.strength == b.strength && chars_lt(b.ssid@, a.ssid@))
}

/// The list is in the order of `listed_before`, each access point strictly
/// before the next.
pub open spec fn strictly_listed(s: Seq<AccessPoint>) -> bool {
    forall|k: int, l: int| 0 <= k < l < s.len() ==> listed_before(#[trigger] s[k], #[trigger] s[l])
}

/// `a` is one of the kept access points of `aps`.
pub open spec fn kept_one(aps: Seq<AccessPoint>, a: AccessPoint) -> bool {
    exists|i: int| kept(aps, i) && aps[i] == a
}

/// `r` lists exactly the kept access points of `aps`, strongest first, and
/// of those as strong the later network name first.
pub open spec fn picked(r: Seq<AccessPoint>, aps: Seq<AccessPoint>) -> bool {
    &&& forall|k: int| 0 <= k < r.len() ==> kept_one(aps, #[trigger] r[k])
    &&& forall|i: int| kept(aps, i) ==> r.contains(#[trigger] aps[i])
    &&& strictly_listed(r)
}

/// Two kept access points of the same network are the same one.
pub proof fn lemma_kept_unique(aps: Seq<AccessPoint>, i: int, j: int)
    requires
        kept(aps, i),
        kept(aps, j),
        aps[i].ssid@ == aps[j].ssid@,
    ensures
        i == j,
{
    assert(aps[j].ssid@ == aps[i].ssid@);
    assert(aps[i].ssid@ == aps[j].ssid@);
}

proof fn lemma_listed_before_transitive(a: AccessPoint, b: AccessPoint, c: AccessPoint)
    requires
        listed_before(a, b),
        listed_before(b, c),
    ensures
        listed_before(a, c),
{
    if a.strength == b.strength && b.strength == c.strength {
        lemma_chars_lt_transitive(c.ssid@, b.ssid@, a.ssid@);
    }
}

proof fn lemma_listed_before_irreflexive(a: AccessPoint)
    ensures
        !listed_before(a, a),
{
    lemma_chars_lt_irreflexive(a.ssid@);
}

proof fn lemma_listed_before_asymmetric(a: AccessPoint, b: AccessPoint)
    requires
        listed_before(a, b),
    ensures
        !listed_before(b, a),
{
    if listed_before(b, a) {
        lemma_listed_before_transitive(a, b, a);
        lemma_listed_before_irreflexive(a);
    }
}

proof fn lemma_strictly_listed_same_members(s1: Seq<AccessPoint>, s2: Seq<AccessPoint>)
    requires
        strictly_listed(s1),
        strictly_listed(s2),
        forall|x: AccessPoint| s1.contains(x) <==> s2.contains(x),
    ensures
        s1 == s2,
    decreases s1.len(),
{
    if s1.len() == 0 {
        if s2.len() > 0 {
            assert(s2.contains(s2[0]));
        }
        assert(s1 =~= s2);
    } else {
        assert(s1.contains(s1[0]));
        assert(s2.len() > 0);
        assert(s2.contains(s2[0]));
        if s1[0] != s2[0] {
            let k = choose|k: int| 0 <= k < s1.len() && s1[k] == s2[0];
            let l = choose|l: int| 0 <= l < s2.len() && s2[l] == s1[0];
            assert(k > 0 && l > 0);
            assert(listed_before(s1[0], s1[k]));
            assert(listed_before(s2[0], s2[l]));
            lemma_listed_before_asymmetric(s1[0], s2[0]);
        }
        let t1 = s1.drop_first();
        let t2 = s2.drop_first();
        assert forall|x: AccessPoint| t1.contains(x) <==> t2.contains(x) by {
            if t1.contains(x) {
                let k = choose|k: int| 0 <= k < t1.len() && t1[k] == x;
                assert(s1[k + 1] == x);
                assert(listed_before(s1[0], s1[k + 1]));
                lemma_listed_before_irreflexive(x);
                assert(s2.contains(x));
                let l = choose|l: int| 0 <= l < s2.len() && s2[l] == x;
                assert(l != 0);
                assert(t2[l - 1] == x);
            }
            if t2.contains(x) {
                let l = choose|l: int| 0 <= l < t2.len() && t2[l] == x;
                assert(s2[l + 1] == x);
                assert(listed_before(s2[0], s2[l + 1]));
                lemma_listed_before_irreflexive(x);
                assert(s1.contains(x));
                let k = choose|k: int| 0 <= k < s1.len() && s1[k] == x;
                assert(k != 0);
                assert(t1[k - 1] == x);
            }
        }
        assert forall|k: int, l: int| 0 <= k < l < t1.len() implies listed_before(#[trigger] t1[k], #[trigger] t1[l]) by {
            assert(listed_before(s1[k + 1], s1[l + 1]));
        }
        assert forall|k: int, l: int| 0 <= k < l < t2.len() implies listed_before(#[trigger] t2[k], #[trigger] t2[l]) by {
            assert(listed_before(s2[k + 1], s2[l + 1]));
        }
        lemma_strictly_listed_same_members(t1, t2);
        assert(s1 =~= seq![s1[0]] + t1);
        assert(s2 =~= seq![s2[0]] + t2);
    }
}

/// A scan determines the list of access points shown: two lists that both
/// pick from the same scan are equal.
pub proof fn lemma_picked_unique(r1: Seq<AccessPoint>, r2: Seq<AccessPoint>, aps: Seq<AccessPoint>)
    requires
        picked(r1, aps),
        picked(r2, aps),
    ensures
        r1 == r2,
{
    assert forall|x: AccessPoint| r1.contains(x) <==> r2.contains(x) by {
        if r1.contains(x) {
            let k = choose|k: int| 0 <= k < r1.len() && r1[k] == x;
            assert(kept_one(aps, r1[k]));
            let i = choose|i: int| kept(aps, i) && aps[i] == x;
            assert(r2.contains(aps[i]));
        }
        if r2.contains(x) {
            let k = choose|k: int| 0 <= k < r2.len() && r2[k] == x;
            assert(kept_one(aps, r2[k]));
            let i = choose|i: int| kept(aps, i) && aps[i] == x;
            assert(r1.contains(aps[i]));
        }
    }
    lemma_strictly_listed_same_members(r1, r2);
}

proof fn lemma_strongest_before(aps: Seq<AccessPoint>, s: Seq<char>, n: int)
    requires
        0 <= n <= aps.len(),
        exists|j: int| 0 <= j < n && (#[trigger] aps[j]).ssid@ == s,
    ensures
        exists|i: int|
            0 <= i < n && aps[i].ssid@ == s && forall|j: int|
                0 <= j < n && (#[trigger] aps[j]).ssid@ == s ==> aps[j].strength < aps[i].strength
                    || (aps[j].strength == aps[i].strength && j <= i),
    decreases n,
{
    let m = n - 1;
    if exists|j: int| 0 <= j < m && (#[trigger] aps[j]).ssid@ == s {
        lemma_strongest_before(aps, s, m);
        let i0 = choose|i: int|
            0 <= i < m && aps[i].ssid@ == s && forall|j: int|
                0 <= j < m && (#[trigger] aps[j]).ssid@ == s ==> aps[j].strength < aps[i].strength
                    || (aps[j].strength == aps[i].strength && j <= i);
        if aps[m].ssid@ == s && aps[m].strength >= aps[i0].strength {
            assert forall|j: int| 0 <= j < n && (#[trigger] aps[j]).ssid@ == s implies aps[j].strength < aps[m].strength
                || (aps[j].strength == aps[m].strength && j <= m) by {
                if j < m {
                    assert(aps[j].strength <= aps[i0].strength);
                }
            }
        } else {
            assert forall|j: int| 0 <= j < n && (#[trigger] aps[j]).ssid@ == s implies aps[j].strength < aps[i0].strength
                || (aps[j].strength == aps[i0].strength && j <= i0) by {
                if j == m {
                    assert(aps[m].ssid@ == s);
                }
            }
        }
    } else {
        assert(aps[m].ssid@ == s);
        assert forall|j: int| 0 <= j < n && (#[trigger] aps[j]).ssid@ == s implies aps[j].strength < aps[m].strength
            || (aps[j].strength == aps[m].strength && j <= m) by {
            if j < m {
                assert(false);
            }
        }
    }
}

/// Every network of the scan is listed: for each access point reported,
/// an access point of its network is in the list.
pub proof fn lemma_picked_lists_every_network(r: Seq<AccessPoint>, aps: Seq<AccessPoint>)
    requires
        picked(r, aps),
    ensures
        forall|j: int| 0 <= j < aps.len() ==> exists|k: int| 0 <= k < r.len() && r[k].ssid@ == (#[trigger] aps[j]).ssid@,
{
    assert forall|j: int| 0 <= j < aps.len() implies exists|k: int| 0 <= k < r.len() && r[k].ssid@ == (#[trigger] aps[j]).ssid@ by {
        let s = aps[j].ssid@;
        lemma_strongest_before(aps, s, aps.len() as int);
        let i = choose|i: int|
            0 <= i < aps.len() && aps[i].ssid@ == s && forall|j: int|
                0 <= j < aps.len() && (#[trigger] aps[j]).ssid@ == s ==> aps[j].strength < aps[i].strength
                    || (aps[j].strength == aps[i].strength && j <= i);
        assert(kept(aps, i));
        assert(r.contains(aps[i]));
        let k = choose|k: int| 0 <= k < r.len() && r[k] == aps[i];
        assert(r[k].ssid@ == s);
    }
}

/// No network is listed twice, and each listed access point is at least as
/// strong as every access point of its network in the scan.
pub proof fn lemma_picked_one_per_network(r: Seq<AccessPoint>, aps: Seq<AccessPoint>)
    requires
        picked(r, aps),
    ensures
        forall|k: int, l: int| 0 <= k < l < r.len() ==> (#[trigger] r[k]).ssid@ != (#[trigger] r[l]).ssid@,
        forall|k: int, j: int|
            0 <= k < r.len() && 0 <= j < aps.len() && (#[trigger] aps[j]).ssid@ == (#[trigger] r[k]).ssid@
                ==> aps[j].strength <= r[k].strength,
{
    assert forall|k: int, l: int| 0 <= k < l < r.len() implies (#[trigger] r[k]).ssid@ != (#[trigger] r[l]).ssid@ by {
        assert(kept_one(aps, r[k]));
        assert(kept_one(aps, r[l]));
        let i = choose|i: int| kept(aps, i) && aps[i] == r[k];
        let j = choose|j: int| kept(aps, j) && aps[j] == r[l];
        if r[k].ssid@ == r[l].ssid@ {
            lemma_kept_unique(aps, i, j);
            assert(listed_before(r[k], r[l]));
            lemma_listed_before_irreflexive(r[k]);
        }
    }
    assert forall|k: int, j: int|
        0 <= k < r.len() && 0 <= j < aps.len() && (#[trigger] aps[j]).ssid@ == (#[trigger] r[k]).ssid@
            implies aps[j].strength <= r[k].strength by {
        assert(kept_one(aps, r[k]));
        let i = choose|i: int| kept(aps, i) && aps[i] == r[k];
        assert(aps[j].ssid@ == aps[i].ssid@);
    }
}

/// Whether `a` is listed before `b`.
fn is_listed_before(a: &AccessPoint, b: &AccessPoint) -> (r: bool)
    ensures
        r == listed_before(*a, *b),
{
    if a.strength != b.strength {
        a.strength > b.strength
    } else {
        let x = chars_of(b.ssid.as_str());
        let y = chars_of(a.ssid.as_str());
        lt_chars(&x, &y)
    }
}

/// Whether the access point at `i` is the one kept for its network.
fn is_kept(aps: &Vec<AccessPoint>, i: usize) -> (r: bool)
    requires
        i < aps.len(),
    ensures
        r == kept(aps@, i as int),
{
    let mut j: usize = 0;
    while j < aps.len()
        invariant
            i < aps.len(),
            j <= aps.len(),
            forall|m: int|
                0 <= m < j && (#[trigger] aps@[m]).ssid@ == aps@[i as int].ssid@ ==> aps@[m].strength
                    < aps@[i as int].strength || (aps@[m].strength == aps@[i as int].strength && m <= i),
        decreases aps.len() - j,
    {
        if aps[j].ssid == aps[i].ssid {
            if aps[j].strength > aps[i].strength || (aps[j].strength == aps[i].strength && j > i) {
                assert(aps@[j as int].ssid@ == aps@[i as int].ssid@);
                return false;
            }
        }
        j = j + 1;
    }
    true
}

/// The access points to show: for each network the strongest access point
/// (of those as strong, the last one reported), strongest first, and of
/// those as strong the later network name first.
pub fn pick_access_points(aps: &Vec<AccessPoint>) -> (r: Vec<AccessPoint>)
    ensures
        picked(r@, aps@),
{
    let ghost a = aps@;
    let mut out: Vec<AccessPoint> = Vec::new();
    let ghost mut origin: Seq<int> = Seq::empty();
    let mut i: usize = 0;
    while i < aps.len()
        invariant
            a == aps@,
            i <= aps.len(),
            origin.len() == out@.len(),
            forall|k: int| 0 <= k < out@.len() ==> 0 <= #[trigger] origin[k] < i && kept(a, origin[k]) && out@[k] == a[origin[k]],
            forall|m: int| 0 <= m < i && kept(a, m) ==> exists|k: int| 0 <= k < out@.len() && #[trigger] origin[k] == m,
            forall|k: int, l: int| 0 <= k < l < out@.len() ==> listed_before(#[trigger] out@[k], #[trigger] out@[l]),
        decreases aps.len() - i,
    {
        if is_kept(aps, i) {
            let x = aps[i].copy();
            let mut p: usize = 0;
            while p < out.len() && is_listed_before(&out[p], &x)
                invariant
                    p <= out.len(),
                    forall|q: int| 0 <= q < p ==> listed_before(#[trigger] out@[q], x),
                decreases out.len() - p,
            {
                p = p + 1;
            }
            proof {
                if p < out.len() {
                    assert(!listed_before(out@[p as int], x));
                    let o = origin[p as int];
                    if x.ssid@ == out@[p as int].ssid@ {
                        lemma_kept_unique(a, i as int, o);
                        assert(false);
                    }
                    if x.strength == out@[p as int].strength {
                        lemma_chars_lt_total(x.ssid@, out@[p as int].ssid@);
                    }
                    assert(listed_before(x, out@[p as int]));
                    assert forall|q: int| p < q < out@.len() implies listed_before(x, #[trigger] out@[q]) by {
                        lemma_listed_before_transitive(x, out@[p as int], out@[q]);
                    }
                }
            }
            let ghost before = out@;
            let ghost before_origin = origin;
            out.insert(p, x);
            proof {
                origin = before_origin.insert(p as int, i as int);
                assert forall|k: int, l: int| 0 <= k < l < out@.len() implies listed_before(#[trigger] out@[k], #[trigger] out@[l]) by {
                    if k < p && l < p {
                        assert(out@[k] == before[k] && out@[l] == before[l]);
                    } else if k < p && l == p {
                    } else if k < p {
                        assert(out@[l] == before[l - 1]);
                        lemma_listed_before_transitive(out@[k], x, out@[l]);
                    } else if k == p {
                        assert(out@[l] == before[l - 1]);
                    } else {
                        assert(out@[k] == before[k - 1] && out@[l] == before[l - 1]);
                    }
                }
                assert forall|m: int| 0 <= m < i + 1 && kept(a, m) implies exists|k: int| 0 <= k < out@.len() && #[trigger] origin[k] == m by {
                    if m == i {
                        assert(origin[p as int] == m);
                    } else {
                        let k0 = choose|k: int| 0 <= k < before.len() && #[trigger] before_origin[k] == m;
                        if k0 < p {
                            assert(origin[k0] == m);
                        } else {
                            assert(origin[k0 + 1] == m);
                        }
                    }
                }
            }
        }
        i = i + 1;
    }
    proof {
        assert forall|k: int| 0 <= k < out@.len() implies kept_one(a, #[trigger] out@[k]) by {
            let m = origin[k];
            assert(kept(a, m) && a[m] == out@[k]);
        }
        assert forall|m: int| kept(a, m) implies out@.contains(#[trigger] a[m]) by {
            assert(0 <= m < i && kept(a, m));
            let k = choose|k: int| 0 <= k < out@.len() && #[trigger] origin[k] == m;
            assert(0 <= k < out@.len() && out@[k] == a[m]);
        }
    }
    out
}

/// The icon for an access point's signal strength, open networks
/// (security flags 0) and secured ones apart.
pub open spec fn strength_icon(strength: u8, flags: u32) -> Seq<char> {
    if flags == 0 {
        if strength <= 20 {
            "󰤯"@
        } else if strength <= 40 {
            "󰤟"@
        } else if strength <= 60 {
            "󰤢"@
        } else if strength <= 80 {
            "󰤥"@
        } else if strength <= 100 {
            "󰤨"@
        } else {
            "󰤫"@
        }
    } else {
        if strength <= 20 {
            "󰤬"@
        } else if strength <= 40 {
            "󰤡"@
        } else if strength <= 60 {
            "󰤤"@
        } else if strength <= 80 {
            "󰤧"@
        } else if strength <= 100 {
            "󰤪"@
        } else {
            "󰤫"@
        }
    }
}

/// The icons of open networks, from the weakest signal to the strongest.
pub open spec fn open_icons() -> Seq<Seq<char>> {
    seq!["󰤯"@, "󰤟"@, "󰤢"@, "󰤥"@, "󰤨"@]
}

/// The icons of secured networks, from the weakest signal to the strongest.
pub open spec fn secured_icons() -> Seq<Seq<char>> {
    seq!["󰤬"@, "󰤡"@, "󰤤"@, "󰤧"@, "󰤪"@]
}

/// The icon shows the signal in steps of 20 percent, each step including
/// its upper end, and whether the network is secured: a network with
/// security flags gets a secured icon, never an open one, and the other
/// way round; a strength over 100 gets the icon for no signal reading.
pub proof fn lemma_strength_icons(strength: u8, flags: u32)
    ensures
        strength <= 100 && flags == 0 ==> open_icons().contains(strength_icon(strength, flags))
            && !secured_icons().contains(strength_icon(strength, flags)),
        strength <= 100 && flags != 0 ==> secured_icons().contains(strength_icon(strength, flags))
            && !open_icons().contains(strength_icon(strength, flags)),
        strength <= 100 ==> strength_icon(strength, flags) == (if flags == 0 { open_icons() } else { secured_icons() })[
            if strength == 0 { 0 } else { (strength - 1) / 20 }],
        strength > 100 ==> strength_icon(strength, flags) == "󰤫"@,
        flags != 0 && 41 <= strength <= 60 ==> strength_icon(strength, flags) == "󰤤"@,
        flags == 0 && 41 <= strength <= 60 ==> strength_icon(strength, flags) == "󰤢"@,
{
    reveal_strlit("󰤯");
    reveal_strlit("󰤟");
    reveal_strlit("󰤢");
    reveal_strlit("󰤥");
    reveal_strlit("󰤨");
    reveal_strlit("󰤬");
    reveal_strlit("󰤡");
    reveal_strlit("󰤤");
    reveal_strlit("󰤧");
    reveal_strlit("󰤪");
    let o = open_icons();
    let c = secured_icons();
    let icon = strength_icon(strength, flags);
    if strength <= 100 {
        if flags == 0 {
            assert(o.contains(icon)) by {
                let i: int = if strength == 0 { 0 } else { (strength - 1) / 20 };
                assert(o[i] == icon);
            }
            assert forall|j: int| 0 <= j < c.len() implies c[j] != icon by {
                assert(c[j][0] != icon[0]);
            }
        } else {
            assert(c.contains(icon)) by {
                let i: int = if strength == 0 { 0 } else { (strength - 1) / 20 };
                assert(c[i] == icon);
            }
            assert forall|j: int| 0 <= j < o.len() implies o[j] != icon by {
                assert(o[j][0] != icon[0]);
            }
        }
    }
}

/// The mark shown after the icon of the network in use.
pub open spec fn connected_mark(ssid: Seq<char>, active: Seq<char>) -> Seq<char> {
    if ssid == active {
        " 󰄬"@
    } else {
        Seq::empty()
    }
}

/// The entry of an access point with the given security flags, while the
/// network named `active` is in use.
pub open spec fn wifi_entry(a: AccessPoint, flags: u32, active: Seq<char>) -> EntryView {
    EntryView {
        id: a.ssid@,
        title: strength_icon(a.strength, flags) + connected_mark(a.ssid@, active) + " "@ + a.ssid@,
        action: "connect"@,
        meta: "wifi wlan wireless lan"@,
        command: Some(seq!["nmcli"@, "device"@, "wifi"@, "connect"@, a.ssid@]),
    }
}

/// A network is listed under its name, which the connect command is given;
/// its title is the signal icon, then the mark of the network in use where
/// it is that network, then a space and the name.
pub proof fn lemma_wifi_entry(a: AccessPoint, flags: u32, active: Seq<char>)
    ensures
        wifi_entry(a, flags, active).id == a.ssid@,
        wifi_entry(a, flags, active).command == Some(seq!["nmcli"@, "device"@, "wifi"@, "connect"@, a.ssid@]),
        wifi_entry(a, flags, active).title.take(strength_icon(a.strength, flags).len() as int) == strength_icon(a.strength, flags),
        wifi_entry(a, flags, active).title.skip(wifi_entry(a, flags, active).title.len() - a.ssid@.len() - 1) == " "@ + a.ssid@,
        a.ssid@ == active ==> wifi_entry(a, flags, active).title.len() == strength_icon(a.strength, flags).len() + 3 + a.ssid@.len(),
        a.ssid@ != active ==> wifi_entry(a, flags, active).title.len() == strength_icon(a.strength, flags).len() + 1 + a.ssid@.len(),
        a.ssid@ == active ==> wifi_entry(a, flags, active).title.subrange(
            strength_icon(a.strength, flags).len() as int,
            strength_icon(a.strength, flags).len() + 2int,
        ) == " 󰄬"@,
{
    reveal_strlit(" 󰄬");
    reveal_strlit(" ");
    let icon = strength_icon(a.strength, flags);
    let t = wifi_entry(a, flags, active).title;
    let mark = connected_mark(a.ssid@, active);
    assert(t == icon + mark + " "@ + a.ssid@);
    assert(t.take(icon.len() as int) =~= icon);
    assert(t.skip(t.len() - a.ssid@.len() - 1) =~= " "@ + a.ssid@);
    if a.ssid@ == active {
        assert(t.subrange(icon.len() as int, icon.len() + 2int) =~= " 󰄬"@);
    }
}

/// The entries of the listed access points whose security flags are known,
/// in order.
pub open spec fn wifi_entries(r: Seq<AccessPoint>, active: Seq<char>) -> Seq<EntryView>
    decreases r.len(),
{
    if r.len() == 0 {
        Seq::empty()
    } else {
        let rest = wifi_entries(r.drop_last(), active);
        match r.last().rsn_flags {
            Some(flags) => rest.push(wifi_entry(r.last(), flags, active)),
            None => rest,
        }
    }
}

/// The icon for a signal strength and security flags.
pub fn icon_for(strength: u8, flags: u32) -> (r: &'static str)
    ensures
        r@ == strength_icon(strength, flags),
        strength <= 100 && flags != 0 ==> secured_icons().contains(r@) && !open_icons().contains(r@),
        strength <= 100 && flags == 0 ==> open_icons().contains(r@) && !secured_icons().contains(r@),
{
    proof {
        lemma_strength_icons(strength, flags);
    }
    if flags == 0 {
        if strength <= 20 {
            "󰤯"
        } else if strength <= 40 {
            "󰤟"
        } else if strength <= 60 {
            "󰤢"
        } else if strength <= 80 {
            "󰤥"
        } else if strength <= 100 {
            "󰤨"
        } else {
            "󰤫"
        }
    } else {
        if strength <= 20 {
            "󰤬"
        } else if strength <= 40 {
            "󰤡"
        } else if strength <= 60 {
            "󰤤"
        } else if strength <= 80 {
            "󰤧"
        } else if strength <= 100 {
            "󰤪"
        } else {
            "󰤫"
        }
    }
}

/// The entry of one access point.
fn access_point_entry(a: &AccessPoint, flags: u32, active: &str) -> (r: Entry)
    ensures
        r@ == wifi_entry(*a, flags, active@),
{
    let mut title = String::from_str(icon_for(a.strength, flags));
    if str_eq(a.ssid.as_str(), active) {
        title.append(" 󰄬");
    }
    title.append(" ");
    title.append(a.ssid.as_str());
    let mut command: Vec<String> = Vec::new();
    command.push(String::from_str("nmcli"));
    command.push(String::from_str("device"));
    command.push(String::from_str("wifi"));
    command.push(String::from_str("connect"));
    command.push(a.ssid.clone());
    let r = Entry {
        id: a.ssid.clone(),
        title,
        action: String::from_str("connect"),
        meta: String::from_str("wifi wlan wireless lan"),
        command: Some(command),
    };
    assert(strings_view(command@) =~= seq!["nmcli"@, "device"@, "wifi"@, "connect"@, a.ssid@]);
    r
}

/// The entries for the access points that a scan found, while the network
/// named `active` is in use: one per network, strongest first, leaving out
/// those whose security flags could not be read.
pub fn access_point_entries(aps: &Vec<AccessPoint>, active: &str) -> (r: Vec<Entry>)
    ensures
        exists|shown: Seq<AccessPoint>|
            #![trigger wifi_entries(shown, active@)]
            picked(shown, aps@) && entries_view(r@) == wifi_entries(shown, active@),
{
    let shown = pick_access_points(aps);
    let mut entries: Vec<Entry> = Vec::new();
    let mut i: usize = 0;
    while i < shown.len()
        invariant
            i <= shown.len(),
            entries_view(entries@) == wifi_entries(shown@.subrange(0, i as int), active@),
        decreases shown.len() - i,
    {
        let a = &shown[i];
        proof {
            let s = shown@.subrange(0, i + 1);
            assert(s.drop_last() =~= shown@.subrange(0, i as int));
            assert(s.last() == shown@[i as int]);
        }
        match a.rsn_flags {
            Some(flags) => {
                let e = access_point_entry(a, flags, active);
                let ghost e0 = entries@;
                entries.push(e);
                assert(entries_view(entries@) =~= entries_view(e0).push(e@));
            },
            None => {},
        }
        i = i + 1;
    }
    assert(shown@.subrange(0, shown.len() as int) =~= shown@);
    entries
}

/// The wireless networks in reach.
#[derive(Debug)]
pub struct WifiPlugin {
    pub entries: Vec<Entry>,
}

impl WifiPlugin {
    /// The plugin's id.
    pub fn id() -> (r: &'static str)
        ensures
            r@ == "wifi"@,
    {
        "wifi"
    }

    /// Where the plugin is listed: higher priorities come first.
    pub fn priority() -> (r: u32)
        ensures
            r == 18,
    {
        18
    }

    /// The heading shown above the plugin's entries.
    pub fn title() -> (r: &'static str)
        ensures
            r@ == "󰖩 Wifi"@,
    {
        "󰖩 Wifi"
    }

    /// Copies of the plugin's entries.
    pub fn entries(&self) -> (r: Vec<Entry>)
        ensures
            entries_view(r@) == entries_view(self.entries@),
    {
        copy_entries(&self.entries)
    }

    /// Replaces the plugin's entries.
    pub fn set_entries(&mut self, entries: Vec<Entry>)
        ensures
            final(self).entries == entries,
    {
        self.entries = entries;
    }

    /// The plugin as the launcher lists it.
    pub fn plugin(&self) -> (r: Plugin)
        ensures
            r.id@ == "wifi"@,
            r.priority == 18,
            r.title@ == "󰖩 Wifi"@,
            entries_view(r.entries@) == entries_view(self.entries@),
    {
        Plugin {
            id: String::from_str(Self::id()),
            priority: Self::priority(),
            title: String::from_str(Self::title()),
            entries: self.entries(),
        }
    }

    /// The message that answers a search for `query` among the entries.
    pub fn search(&self, query: &String) -> (r: Message)
        ensures
            search_message(r, "wifi"@, entries_view(self.entries@), query@),
    {
        let shown = self.entries();
        let ghost src = shown@;
        let found = search(shown, query);
        let r = Message::UpdateEntries(String::from_str(Self::id()), found);
        assert(entries_view(src) == entries_view(self.entries@));
        r
    }
}

impl WifiPlugin {
    /// A plugin with no entries yet.
    pub fn new() -> (r: Self)
        ensures
            r.entries@.len() == 0,
    {
        Self { entries: Vec::new() }
    }

    /// Lists the networks that a scan found, while the network named
    /// `active` is in use (empty where none is).
    pub fn update_entries(&mut self, aps: &Vec<AccessPoint>, active: &str)
        ensures
            exists|shown: Seq<AccessPoint>|
                #![trigger wifi_entries(shown, active@)]
                picked(shown, aps@) && entries_view(final(self).entries@) == wifi_entries(shown, active@),
    {
        self.entries = access_point_entries(aps, active);
    }

    /// Connects to the network of the entry by running its command.
    pub fn activate(&self, entry: Entry) -> (r: Result<Activation, ActivationError>)
        requires
            entry.command matches Some(c) ==> c@.len() > 0,
        ensures
            entry.command matches Some(c) ==> (r matches Ok(a) && spawns(a, strings_view(c@))),
            entry.command is None ==> (r matches Err(ActivationError::MissingCommand(id)) && id@ == entry.id@),
    {
        command_activation(entry)
    }
}

} // verus!
