use vstd::prelude::*;
use crate::model::{Entry, Message, Plugin, copy_entries, entries_view};
use crate::search::{search, search_message};
use crate::search::{sort_by_title, title_key};
use crate::sorting::is_stable_sort;
use crate::text::chars_order;
use crate::model::{Activation, ActivationError, EntryView, command_activation, spawns, strings_view};
use crate::sorting::{dedup_by_key, lemma_dedup_sorted_strict, lemma_insert_front_stable, lemma_stable_sort_distinct_keys, strict_total_order};
use crate::text::{
    ascii_lower, ascii_words, chars_lt, chars_of, is_char, lemma_chars_lt_irreflexive, lemma_chars_order_total, lt_chars,
    opt_view, replace_char,
    replace_all_char, split_ascii_words, split_by, split_on_char, str_eq, strings_contain, to_ascii_lowercase,
};

verus! {

/// What the launcher reads of a desktop entry file.
#[derive(Debug)]
pub struct DesktopEntryInfo {
    /// The application id: the file name without ".desktop".
    pub appid: String,
    /// The name, in the user's language where the file has one.
    pub name: Option<String>,
    /// The "Type" key.
    pub type_: Option<String>,
    /// The "Hidden" key.
    pub hidden: Option<String>,
    /// Whether "NoDisplay" is true.
    pub no_display: bool,
    /// The "Exec" key.
    pub exec_line: Option<String>,
    /// The "NotShowIn" key, desktops separated by ';'.
    pub not_show_in: Option<String>,
    /// The "OnlyShowIn" key, desktops separated by ';'.
    pub only_show_in: Option<String>,
    /// The "Categories" key, categories separated by ';'.
    pub categories: Option<String>,
    /// Whether "Terminal" is true.
    pub terminal: bool,
    /// The "Keywords" key, keywords separated by ';'.
    pub keywords: Option<String>,
}

/// The name of a desktop entry, empty where it has none.
pub open spec fn entry_name(e: DesktopEntryInfo) -> Seq<char> {
    match e.name {
        Some(n) => n@,
        None => Seq::empty(),
    }
}

/// The name as the key by which desktop entries are sorted.
pub open spec fn name_key() -> spec_fn(DesktopEntryInfo) -> Seq<char> {
    |e: DesktopEntryInfo| entry_name(e)
}

/// The desktops of a ';'-separated list, lower-cased.
pub open spec fn desktops(list: Seq<char>) -> Seq<Seq<char>> {
    split_by(ascii_lower(list), is_char(';'))
}

/// Whether an application is shown on the given desktop: it is an
/// application, not hidden, not marked NoDisplay, not with an Exec of
/// "false", its NotShowIn list does not name the desktop, and its
/// OnlyShowIn list, where it has one, names the desktop.
pub open spec fn visible(e: DesktopEntryInfo, desktop: Seq<char>) -> bool {
    &&& opt_view(e.type_) == Some("Application"@)
    &&& opt_view(e.hidden) != Some("true"@)
    &&& !e.no_display
    &&& (e.exec_line matches Some(x) ==> ascii_lower(x@) != "false"@)
    &&& (e.not_show_in matches Some(n) ==> !desktops(n@).contains(desktop))
    &&& (e.only_show_in matches Some(o) ==> desktops(o@).contains(desktop))
}

/// The words of an Exec line without the field codes (words starting with '%').
pub open spec fn exec_words(exec: Seq<char>) -> Seq<Seq<char>> {
    ascii_words(exec).filter(|w: Seq<char>| !(w.len() > 0 && w[0] == '%'))
}

/// The command that starts a terminal emulator: the first word of its Exec
/// line, where its categories name "TerminalEmulator".
pub open spec fn terminal_command_of(e: DesktopEntryInfo) -> Option<Seq<char>> {
    match (e.categories, e.exec_line) {
        (Some(c), Some(x)) => if split_by(c@, is_char(';')).contains("TerminalEmulator"@) && ascii_words(x@).len() > 0 {
            Some(ascii_words(x@)[0])
        } else {
            None
        },
        _ => None,
    }
}

/// The command that starts an application: its Exec words, run in the
/// terminal emulator where the application asks for a terminal.
pub open spec fn launch_words(e: DesktopEntryInfo, terminal: Option<Seq<char>>) -> Option<Seq<Seq<char>>> {
    match e.exec_line {
        None => None,
        Some(x) => if e.terminal {
            match terminal {
                Some(t) => Some(seq![t, "-e"@] + exec_words(x@)),
                None => None,
            }
        } else {
            Some(exec_words(x@))
        },
    }
}

/// The search text of an application: its keywords, then the words
/// "Applications Apps".
pub open spec fn app_meta(e: DesktopEntryInfo) -> Seq<char> {
    replace_char(
        match e.keywords {
            Some(k) => k@,
            None => Seq::empty(),
        },
        ';',
        ' ',
    ) + " Applications Apps"@
}

/// The entry of an application, where it is shown and can be started.
pub open spec fn app_entry(e: DesktopEntryInfo, desktop: Seq<char>, terminal: Option<Seq<char>>) -> Option<EntryView> {
    if !visible(e, desktop) {
        None
    } else {
        match launch_words(e, terminal) {
            None => None,
            Some(cmd) => Some(
                EntryView { id: e.appid@, title: entry_name(e), action: "open"@, meta: app_meta(e), command: Some(cmd) },
            ),
        }
    }
}

/// Which applications are left out: one that is no application, that is
/// hidden, that asks not to be displayed, whose Exec is "false", whose
/// NotShowIn list names the desktop or whose OnlyShowIn list leaves it out
/// is not visible, and an application that is not visible, or that has no
/// Exec line, gets no entry. An application that gets an entry is listed
/// under its id and name, and opened.
pub proof fn lemma_hidden_applications(e: DesktopEntryInfo, desktop: Seq<char>, terminal: Option<Seq<char>>)
    ensures
        e.no_display ==> !visible(e, desktop),
        opt_view(e.hidden) == Some("true"@) ==> !visible(e, desktop),
        opt_view(e.type_) != Some("Application"@) ==> !visible(e, desktop),
        (e.exec_line matches Some(x) && ascii_lower(x@) == "false"@) ==> !visible(e, desktop),
        (e.not_show_in matches Some(n) && desktops(n@).contains(desktop)) ==> !visible(e, desktop),
        (e.only_show_in matches Some(o) && !desktops(o@).contains(desktop)) ==> !visible(e, desktop),
        !visible(e, desktop) ==> app_entry(e, desktop, terminal) is None,
        e.exec_line is None ==> app_entry(e, desktop, terminal) is None,
        (e.terminal && terminal is None) ==> app_entry(e, desktop, terminal) is None,
        app_entry(e, desktop, terminal) matches Some(v) ==> {
            &&& visible(e, desktop)
            &&& v.id == e.appid@
            &&& v.title == entry_name(e)
            &&& v.action == "open"@
            &&& v.command is Some
        },
{
}

/// The entries of a list of applications, in order.
pub open spec fn app_entries(s: Seq<DesktopEntryInfo>, desktop: Seq<char>, terminal: Option<Seq<char>>) -> Seq<EntryView>
    decreases s.len(),
{
    if s.len() == 0 {
        Seq::empty()
    } else {
        app_entries(s.drop_last(), desktop, terminal) + match app_entry(s.last(), desktop, terminal) {
            Some(v) => seq![v],
            None => Seq::empty(),
        }
    }
}

/// The first terminal emulator command found in a list of applications.
pub open spec fn first_terminal(s: Seq<DesktopEntryInfo>) -> Option<Seq<char>>
    decreases s.len(),
{
    if s.len() == 0 {
        None
    } else {
        match terminal_command_of(s[0]) {
            Some(t) => Some(t),
            None => first_terminal(s.drop_first()),
        }
    }
}

/// The name of an application, empty where it has none.
pub fn name(e: &DesktopEntryInfo) -> (r: String)
    ensures
        r@ == entry_name(*e),
{
    match &e.name {
        Some(n) => n.clone(),
        None => String::new(),
    }
}

/// Whether a ';'-separated list of desktops names the desktop, ignoring
/// the case of ASCII letters in the list.
fn names_desktop(list: &str, desktop: &str) -> (r: bool)
    ensures
        r == desktops(list@).contains(desktop@),
{
    let lower = to_ascii_lowercase(list);
    let parts = split_on_char(lower.as_str(), ';');
    strings_contain(&parts, desktop)
}

/// Whether an application is shown on the given desktop.
pub fn is_visible(e: &DesktopEntryInfo, desktop: &str) -> (r: bool)
    ensures
        r == visible(*e, desktop@),
        e.no_display ==> !r,
        opt_view(e.hidden) == Some("true"@) ==> !r,
        opt_view(e.type_) != Some("Application"@) ==> !r,
{
    match &e.type_ {
        Some(t) => {
            if !str_eq(t.as_str(), "Application") {
                return false;
            }
        },
        None => {
            return false;
        },
    }
    if let Some(h) = &e.hidden {
        if str_eq(h.as_str(), "true") {
            return false;
        }
    }
    if e.no_display {
        return false;
    }
    if let Some(x) = &e.exec_line {
        let lower = to_ascii_lowercase(x.as_str());
        if str_eq(lower.as_str(), "false") {
            return false;
        }
    }
    if let Some(n) = &e.not_show_in {
        if names_desktop(n.as_str(), desktop) {
            return false;
        }
    }
    if let Some(o) = &e.only_show_in {
        if !names_desktop(o.as_str(), desktop) {
            return false;
        }
    }
    true
}

/// The first word of the Exec line of a terminal emulator.
pub fn terminal_command(e: &DesktopEntryInfo) -> (r: Option<String>)
    ensures
        opt_view(r) == terminal_command_of(*e),
{
    match (&e.categories, &e.exec_line) {
        (Some(c), Some(x)) => {
            let categories = split_on_char(c.as_str(), ';');
            if !strings_contain(&categories, "TerminalEmulator") {
                return None;
            }
            let mut words = split_ascii_words(x.as_str());
            if words.len() == 0 {
                return None;
            }
            Some(words.remove(0))
        },
        _ => None,
    }
}

/// The Exec words without field codes.
fn command_words(exec: &str) -> (r: Vec<String>)
    ensures
        strings_view(r@) == exec_words(exec@),
{
    let ghost keep = |w: Seq<char>| !(w.len() > 0 && w[0] == '%');
    let mut words = split_ascii_words(exec);
    let ghost all = strings_view(words@);
    let n = words.len();
    assert(all.skip(0) =~= all);
    let mut r: Vec<String> = Vec::new();
    let mut k: usize = 0;
    proof {
        reveal(Seq::filter);
        assert(all.take(0).filter(keep) =~= Seq::<Seq<char>>::empty());
    }
    while words.len() > 0
        invariant
            k <= all.len(),
            k + words.len() == all.len(),
            all.len() == n,
            keep == (|w: Seq<char>| !(w.len() > 0 && w[0] == '%')),
            strings_view(words@) == all.skip(k as int),
            strings_view(r@) == all.take(k as int).filter(keep),
        decreases words.len(),
    {
        let ghost wb = words@;
        let w = words.remove(0);
        assert(w == wb[0]);
        assert(strings_view(wb)[0] == w@);
        let cs = chars_of(w.as_str());
        let ghost r0 = strings_view(r@);
        assert(all[k as int] == w@);
        assert(all.take(k + 1).drop_last() =~= all.take(k as int));
        proof {
            reveal(Seq::filter);
        }
        if cs.len() > 0 && cs[0] == '%' {
            assert(all.take(k + 1).filter(keep) == r0);
        } else {
            r.push(w);
            assert(strings_view(r@) =~= r0.push(all[k as int]));
        }
        assert(strings_view(words@) =~= strings_view(wb).drop_first());
        assert(all.skip(k + 1) =~= all.skip(k as int).drop_first());
        k = k + 1;
    }
    assert(all.take(k as int) =~= all);
    r
}

/// The entry of an application, where it is shown and can be started;
/// `terminal_command` starts the applications that ask for a terminal.
pub fn to_entry(e: &DesktopEntryInfo, terminal_command: Option<String>, desktop: &str) -> (r: Option<Entry>)
    ensures
        match r {
            Some(entry) => app_entry(*e, desktop@, opt_view(terminal_command)) == Some(entry@),
            None => app_entry(*e, desktop@, opt_view(terminal_command)) is None,
        },
        !visible(*e, desktop@) ==> r is None,
        r matches Some(entry) ==> entry.id@ == e.appid@ && entry.title@ == entry_name(*e),
{
    let title = name(e);
    if !is_visible(e, desktop) {
        return None;
    }
    let exec = match &e.exec_line {
        Some(x) => x,
        None => {
            return None;
        },
    };
    let mut cmd = command_words(exec.as_str());
    if e.terminal {
        match terminal_command {
            None => {
                return None;
            },
            Some(t) => {
                let ghost rest = strings_view(cmd@);
                let ghost tv = t@;
                cmd.insert(0, t);
                cmd.insert(1, String::from_str("-e"));
                assert(strings_view(cmd@) =~= seq![tv, "-e"@] + rest);
            },
        }
    }
    let mut meta = match &e.keywords {
        Some(k) => replace_all_char(k.as_str(), ';', ' '),
        None => replace_all_char("", ';', ' '),
    };
    meta.append(" Applications Apps");
    proof {
        if e.keywords is None {
            reveal_strlit("");
            assert(""@ =~= Seq::<char>::empty());
        }
    }
    Some(Entry { id: e.appid.clone(), title, action: String::from_str("open"), meta, command: Some(cmd) })
}

/// Sorts applications by name, keeping equal names in their order.
pub fn sort_by_name(v: Vec<DesktopEntryInfo>) -> (r: Vec<DesktopEntryInfo>)
    ensures
        is_stable_sort(r@, v@, name_key(), chars_order()),
{
    let ghost s = v@;
    let mut v = v;
    let mut r: Vec<DesktopEntryInfo> = Vec::new();
    proof {
        lemma_chars_order_total();
        assert(s.skip(s.len() as int) =~= Seq::<DesktopEntryInfo>::empty());
    }
    while v.len() > 0
        invariant
            v@ == s.take(v.len() as int),
            v.len() <= s.len(),
            is_stable_sort(r@, s.skip(v.len() as int), name_key(), chars_order()),
            strict_total_order(chars_order()),
        decreases v.len(),
    {
        let x = v.pop().unwrap();
        let xn = name(&x);
        let xc = chars_of(xn.as_str());
        let mut pos: usize = 0;
        while pos < r.len()
            invariant
                pos <= r.len(),
                xc@ == entry_name(x),
                forall|i: int| 0 <= i < pos ==> chars_order()(name_key()(#[trigger] r@[i]), name_key()(x)),
            ensures
                pos <= r.len(),
                forall|i: int| 0 <= i < pos ==> chars_order()(name_key()(#[trigger] r@[i]), name_key()(x)),
                pos < r.len() ==> !chars_order()(name_key()(r@[pos as int]), name_key()(x)),
            decreases r.len() - pos,
        {
            let rn = name(&r[pos]);
            let rc = chars_of(rn.as_str());
            if !lt_chars(&rc, &xc) {
                break;
            }
            pos = pos + 1;
        }
        proof {
            let rest = s.skip(v.len() + 1);
            assert(s.take(v.len() + 1).last() == x);
            assert(seq![x] + rest =~= s.skip(v.len() as int));
            lemma_insert_front_stable(r@, rest, x, pos as int, name_key(), chars_order());
        }
        r.insert(pos, x);
    }
    proof {
        assert(s.skip(0) =~= s);
    }
    r
}

/// Removes each application whose name equals the name of the one before it.
pub fn dedup_by_name(v: Vec<DesktopEntryInfo>) -> (r: Vec<DesktopEntryInfo>)
    ensures
        r@ == dedup_by_key(v@, name_key()),
{
    let ghost s = v@;
    let mut v = v;
    let mut r: Vec<DesktopEntryInfo> = Vec::new();
    let mut last_name = String::new();
    let n = v.len();
    let mut k: usize = 0;
    assert(s.skip(0) =~= s);
    assert(s.take(0) =~= Seq::<DesktopEntryInfo>::empty());
    while v.len() > 0
        invariant
            k <= s.len(),
            k + v.len() == s.len(),
            s.len() == n,
            v@ == s.skip(k as int),
            r@ == dedup_by_key(s.take(k as int), name_key()),
            k > 0 ==> last_name@ == entry_name(s[k - 1]),
        decreases v.len(),
    {
        let x = v.remove(0);
        let xn = name(&x);
        assert(s[k as int] == x);
        assert(s.take(k + 1).drop_last() =~= s.take(k as int));
        if k > 0 && str_eq(xn.as_str(), last_name.as_str()) {
            assert(s.take(k + 1)[k - 1] == s[k - 1]);
        } else {
            r.push(x);
            proof {
                if k > 0 {
                    assert(s.take(k + 1)[k - 1] == s[k - 1]);
                } else {
                    assert(s.take(1) =~= seq![x]);
                }
            }
        }
        last_name = xn;
        k = k + 1;
        assert(v@ =~= s.skip(k as int));
    }
    assert(s.take(k as int) =~= s);
    r
}

/// `r` lists the applications of `input` as shown on `desktop`: sorted by
/// name, each name once, those that need a terminal started in the first
/// terminal emulator among them, and the entries sorted by title.
pub open spec fn applications_listed(r: Seq<Entry>, input: Seq<DesktopEntryInfo>, desktop: Seq<char>) -> bool {
    exists|sorted: Seq<DesktopEntryInfo>, listed: Seq<Entry>|
        #![trigger is_stable_sort(sorted, input, name_key(), chars_order()), entries_view(listed)]
        {
            let unique = dedup_by_key(sorted, name_key());
            &&& is_stable_sort(sorted, input, name_key(), chars_order())
            &&& entries_view(listed) == app_entries(unique, desktop, first_terminal(unique))
            &&& is_stable_sort(r, listed, title_key(), chars_order())
        }
}

proof fn lemma_app_entries_titles_increase(s: Seq<DesktopEntryInfo>, desktop: Seq<char>, terminal: Option<Seq<char>>)
    requires
        forall|i: int, j: int| 0 <= i < j < s.len() ==> chars_lt(entry_name(#[trigger] s[i]), entry_name(#[trigger] s[j])),
    ensures
        forall|k: int| 0 <= k < app_entries(s, desktop, terminal).len() ==> exists|m: int|
            0 <= m < s.len() && (#[trigger] app_entries(s, desktop, terminal)[k]).title == entry_name(#[trigger] s[m]),
        forall|k: int, l: int| 0 <= k < l < app_entries(s, desktop, terminal).len() ==> chars_lt(
            (#[trigger] app_entries(s, desktop, terminal)[k]).title,
            (#[trigger] app_entries(s, desktop, terminal)[l]).title,
        ),
    decreases s.len(),
{
    if s.len() > 0 {
        let t = s.drop_last();
        assert forall|i: int, j: int| 0 <= i < j < t.len() implies chars_lt(entry_name(#[trigger] t[i]), entry_name(#[trigger] t[j])) by {
            assert(t[i] == s[i] && t[j] == s[j]);
        }
        lemma_app_entries_titles_increase(t, desktop, terminal);
        let before = app_entries(t, desktop, terminal);
        let all = app_entries(s, desktop, terminal);
        assert forall|k: int| 0 <= k < all.len() implies exists|m: int| 0 <= m < s.len() && (#[trigger] all[k]).title == entry_name(#[trigger] s[m]) by {
            if k < before.len() {
                assert(all[k] == before[k]);
                let m = choose|m: int| 0 <= m < t.len() && before[k].title == entry_name(t[m]);
                assert(s[m] == t[m]);
            } else {
                assert(s[s.len() - 1] == s.last());
            }
        }
        assert forall|k: int, l: int| 0 <= k < l < all.len() implies chars_lt((#[trigger] all[k]).title, (#[trigger] all[l]).title) by {
            assert(all[k] == before[k]);
            if l < before.len() {
                assert(all[l] == before[l]);
            } else {
                let m = choose|m: int| 0 <= m < t.len() && before[k].title == entry_name(t[m]);
                assert(s[m] == t[m]);
                assert(s[s.len() - 1] == s.last());
            }
        }
    }
}

/// The applications are listed each under its own title: no two entries
/// have the same title.
pub proof fn lemma_applications_listed_once(r: Seq<Entry>, input: Seq<DesktopEntryInfo>, desktop: Seq<char>)
    requires
        applications_listed(r, input, desktop),
    ensures
        forall|i: int, j: int| 0 <= i < j < r.len() ==> (#[trigger] r[i]).title@ != (#[trigger] r[j]).title@,
{
    let (sorted, listed) = choose|sorted: Seq<DesktopEntryInfo>, listed: Seq<Entry>|
        #![trigger is_stable_sort(sorted, input, name_key(), chars_order()), entries_view(listed)]
        {
            let unique = dedup_by_key(sorted, name_key());
            &&& is_stable_sort(sorted, input, name_key(), chars_order())
            &&& entries_view(listed) == app_entries(unique, desktop, first_terminal(unique))
            &&& is_stable_sort(r, listed, title_key(), chars_order())
        };
    let unique = dedup_by_key(sorted, name_key());
    lemma_chars_order_total();
    lemma_dedup_sorted_strict(sorted, name_key(), chars_order());
    lemma_app_entries_titles_increase(unique, desktop, first_terminal(unique));
    let views = app_entries(unique, desktop, first_terminal(unique));
    assert forall|i: int, j: int| 0 <= i < j < listed.len() implies title_key()(#[trigger] listed[i]) != title_key()(#[trigger] listed[j]) by {
        assert(entries_view(listed)[i] == listed[i]@ && entries_view(listed)[j] == listed[j]@);
        assert(chars_lt(views[i].title, views[j].title));
        lemma_chars_lt_irreflexive(views[i].title);
    }
    lemma_stable_sort_distinct_keys(r, listed, title_key(), chars_order());
}

/// The desktop applications installed.
#[derive(Debug)]
pub struct ApplicationsPlugin {
    pub entries: Vec<Entry>,
}

impl ApplicationsPlugin {
    /// The plugin's id.
    pub fn id() -> (r: &'static str)
        ensures
            r@ == "applications"@,
    {
        "applications"
    }

    /// Where the plugin is listed: higher priorities come first.
    pub fn priority() -> (r: u32)
        ensures
            r == 29,
    {
        29
    }

    /// The heading shown above the plugin's entries.
    pub fn title() -> (r: &'static str)
        ensures
            r@ == "󰀻 Apps"@,
    {
        "󰀻 Apps"
    }

    /// Copies of the plugin's entries.
    pub fn entries(&self) -> (r: Vec<Entry>)
        ensures
            entries_view(r@) == entries_view(self.entries@),
    {
        copy_entries(&self.entries)
    }

    /// Replaces the plugin's entries.
    pub fn set_entries(&mut self, entries: Vec<Entry>)
        ensures
            final(self).entries == entries,
    {
        self.entries = entries;
    }

    /// The plugin as the launcher lists it.
    pub fn plugin(&self) -> (r: Plugin)
        ensures
            r.id@ == "applications"@,
            r.priority == 29,
            r.title@ == "󰀻 Apps"@,
            entries_view(r.entries@) == entries_view(self.entries@),
    {
        Plugin {
            id: String::from_str(Self::id()),
            priority: Self::priority(),
            title: String::from_str(Self::title()),
            entries: self.entries(),
        }
    }

    /// The message that answers a search for `query` among the entries.
    pub fn search(&self, query: &String) -> (r: Message)
        ensures
            search_message(r, "applications"@, entries_view(self.entries@), query@),
    {
        let shown = self.entries();
        let ghost src = shown@;
        let found = search(shown, query);
        let r = Message::UpdateEntries(String::from_str(Self::id()), found);
        assert(entries_view(src) == entries_view(self.entries@));
        r
    }
}

impl ApplicationsPlugin {
    /// A plugin with no entries yet.
    pub fn new() -> (r: Self)
        ensures
            r.entries@.len() == 0,
    {
        Self { entries: Vec::new() }
    }

    /// Lists the entries by title, keeping entries of equal title in order.
    pub fn sort(&mut self)
        ensures
            is_stable_sort(final(self).entries@, old(self).entries@, title_key(), chars_order()),
    {
        let mut taken: Vec<Entry> = Vec::new();
        core::mem::swap(&mut taken, &mut self.entries);
        self.entries = sort_by_title(taken);
    }

    /// Lists the applications shown on `desktop`: sorted by name with
    /// repeated names dropped, applications that need a terminal started in
    /// the first terminal emulator found, and the entries sorted by title.
    pub fn update_entries(&mut self, desktop_entries: Vec<DesktopEntryInfo>, desktop: &str)
        ensures
            applications_listed(final(self).entries@, desktop_entries@, desktop@),
    {
        let sorted = sort_by_name(desktop_entries);
        let ghost sv = sorted@;
        let unique = dedup_by_name(sorted);
        let ghost u = unique@;
        let mut terminal: Option<String> = None;
        let mut i: usize = 0;
        assert(u.skip(0) =~= u);
        assert(u.skip(u.len() as int) =~= Seq::<DesktopEntryInfo>::empty());
        while i < unique.len()
            invariant_except_break
                i <= unique.len(),
                first_terminal(u.skip(u.len() as int)) is None,
                terminal is None,
                first_terminal(u) == first_terminal(u.skip(i as int)),
            invariant
                u == unique@,
            ensures
                first_terminal(u) == opt_view(terminal),
            decreases unique.len() - i,
        {
            let t = terminal_command(&unique[i]);
            proof {
                lemma_first_terminal_skip(u, i as int);
            }
            if t.is_some() {
                terminal = t;
                break;
            }
            i = i + 1;
        }
        let mut listed: Vec<Entry> = Vec::new();
        let mut k: usize = 0;
        while k < unique.len()
            invariant
                k <= unique.len(),
                u == unique@,
                entries_view(listed@) == app_entries(u.take(k as int), desktop@, opt_view(terminal)),
            decreases unique.len() - k,
        {
            let e = to_entry(&unique[k], copy_terminal(&terminal), desktop);
            let ghost l0 = entries_view(listed@);
            assert(u.take(k + 1).drop_last() =~= u.take(k as int));
            match e {
                Some(entry) => {
                    listed.push(entry);
                    assert(entries_view(listed@) =~= l0.push(entry@));
                    assert(entries_view(listed@) =~= app_entries(u.take(k + 1), desktop@, opt_view(terminal)));
                },
                None => {
                    assert(app_entries(u.take(k + 1), desktop@, opt_view(terminal)) =~= l0);
                },
            }
            k = k + 1;
        }
                assert(u.take(k as int) =~= u);
        let ghost lv = listed@;
        self.entries = listed;
        self.sort();
    }

    /// Starts the application.
    pub fn activate(&self, entry: Entry) -> (r: Result<Activation, ActivationError>)
        requires
            entry.command matches Some(c) ==> c@.len() > 0,
        ensures
            entry.command matches Some(c) ==> (r matches Ok(a) && spawns(a, strings_view(c@))),
            entry.command is None ==> (r matches Err(ActivationError::MissingCommand(id)) && id@ == entry.id@),
    {
        command_activation(entry)
    }
}

/// A copy of an optional text.
fn copy_terminal(t: &Option<String>) -> (r: Option<String>)
    ensures
        opt_view(r) == opt_view(*t),
{
    match t {
        Some(s) => Some(s.clone()),
        None => None,
    }
}

pub proof fn lemma_first_terminal_skip(s: Seq<DesktopEntryInfo>, i: int)
    requires
        0 <= i < s.len(),
    ensures
        first_terminal(s.skip(i)) == match terminal_command_of(s[i]) {
            Some(t) => Some(t),
            None => first_terminal(s.skip(i + 1)),
        },
{
    assert(s.skip(i)[0] == s[i]);
    assert(s.skip(i).drop_first() =~= s.skip(i + 1));
}

/// What `freedesktop_desktop_entry::DesktopEntry::from_str` reads from a
/// file at `path` with `content`, keeping the translations for `locale`,
/// and the keys the launcher uses of it; `None` where the file is refused.
pub uninterp spec fn decoded_entry(path: Seq<char>, content: Seq<char>, locale: Seq<char>) -> Option<DesktopEntryInfo>;

/// Calls `freedesktop_desktop_entry::DesktopEntry::from_str` and copies the
/// keys the launcher uses. The name is the one the "Desktop Entry" group
/// gives for the locale (`Group::localized_entry`); the gettext lookup that
/// `DesktopEntry::name` adds for entries with an Ubuntu gettext domain is
/// left out, as it reads the machine's message catalogs. The contract claims
/// that the result is a function of the path, the content and the locale
/// (named `decoded_entry`): the decoder reads nothing else.
#[verifier::external_body]
fn decode_desktop_entry(path: &str, content: &str, locale: &str) -> (r: Option<DesktopEntryInfo>)
    ensures
        r == decoded_entry(path@, content@, locale@),
{
    let locales = [locale];
    let e = freedesktop_desktop_entry::DesktopEntry::from_str(path, content, Some(&locales[..])).ok()?;
    let key = |k: &str| e.desktop_entry(k).map(String::from);
    let name = e.groups.desktop_entry().and_then(|g| g.localized_entry("Name", &locales)).map(String::from);
    Some(DesktopEntryInfo {
        appid: e.appid.clone(), name, type_: key("Type"), hidden: key("Hidden"), no_display: e.no_display(),
        exec_line: key("Exec"), not_show_in: key("NotShowIn"), only_show_in: key("OnlyShowIn"),
        categories: key("Categories"), terminal: e.terminal(), keywords: key("Keywords"),
    })
}

/// The desktop entries that the files (path and content) decode to for
/// `locale`, in the order of the files; files that are refused are skipped.
pub open spec fn decoded_entries(files: Seq<(String, String)>, locale: Seq<char>) -> Seq<DesktopEntryInfo>
    decreases files.len(),
{
    if files.len() == 0 {
        Seq::empty()
    } else {
        let rest = decoded_entries(files.drop_last(), locale);
        match decoded_entry(files.last().0@, files.last().1@, locale) {
            Some(e) => rest.push(e),
            None => rest,
        }
    }
}

/// Decodes the files (path and content) for `locale`, skipping those that
/// are refused, in order.
pub fn decode_desktop_entries(files: &Vec<(String, String)>, locale: &str) -> (r: Vec<DesktopEntryInfo>)
    ensures
        r@ == decoded_entries(files@, locale@),
{
    let mut r: Vec<DesktopEntryInfo> = Vec::new();
    let mut i: usize = 0;
    while i < files.len()
        invariant
            i <= files.len(),
            r@ == decoded_entries(files@.take(i as int), locale@),
        decreases files.len() - i,
    {
        assert(files@.take(i + 1).drop_last() =~= files@.take(i as int));
        assert(files@.take(i + 1).last() == files@[i as int]);
        match decode_desktop_entry(files[i].0.as_str(), files[i].1.as_str(), locale) {
            Some(e) => r.push(e),
            None => {},
        }
        i = i + 1;
    }
    assert(files@.take(files.len() as int) =~= files@);
    r
}

impl ApplicationsPlugin {
    /// Lists the applications that the desktop entry files (path and
    /// content) describe, decoded for `locale`, as shown on `desktop`:
    /// files that are refused are skipped, and the rest listed as
    /// `update_entries` lists them.
    pub fn update_entries_from_files(&mut self, files: &Vec<(String, String)>, locale: &str, desktop: &str)
        ensures
            applications_listed(final(self).entries@, decoded_entries(files@, locale@), desktop@),
    {
        let decoded = decode_desktop_entries(files, locale);
        self.update_entries(decoded, desktop);
    }
}

} // verus!
