use vstd::prelude::*;
use crate::model::{Entry, Message, Plugin, copy_entries, entries_view};
use crate::search::{search, search_message};
use crate::model::{Activation, EntryView, spawn_with, spawns};

verus! {

/// A JSON value as the session file holds it; numbers are kept as their
/// text, and the members of an object in order.
#[derive(Debug)]
pub enum JsonValue {
    Null,
    Bool(bool),
    Number(String),
    Text(String),
    Array(Vec<JsonValue>),
    Object(Vec<(String, JsonValue)>),
}

/// The member `key` of an object, or `Null` where the value is no object or
/// has no such member (indexing a `serde_json::Value` by a key).
pub open spec fn member(v: JsonValue, key: Seq<char>) -> JsonValue {
    match v {
        JsonValue::Object(members) => member_in(members@, key, 0),
        _ => JsonValue::Null,
    }
}

/// The first of `members[i..]` named `key`, or `Null`.
pub open spec fn member_in(members: Seq<(String, JsonValue)>, key: Seq<char>, i: int) -> JsonValue
    decreases members.len() - i,
{
    if i < 0 || i >= members.len() {
        JsonValue::Null
    } else if members[i].0@ == key {
        members[i].1
    } else {
        member_in(members, key, i + 1)
    }
}

/// The elements of an array, or none where the value is no array.
pub open spec fn elements(v: JsonValue) -> Seq<JsonValue> {
    match v {
        JsonValue::Array(items) => items@,
        _ => Seq::empty(),
    }
}

/// The text of a string value, or the stand-in for a tab without title.
pub open spec fn text_or_placeholder(v: JsonValue) -> Seq<char> {
    match v {
        JsonValue::Text(s) => s@,
        _ => "Tab without Title"@,
    }
}

/// The entry of an open tab: its current page, the last of its history.
pub open spec fn tab_entry(tab: JsonValue) -> EntryView {
    let info = elements(member(tab, "entries"@)).last();
    EntryView {
        id: text_or_placeholder(member(info, "url"@)),
        title: text_or_placeholder(member(info, "title"@)),
        action: "open"@,
        meta: "History"@,
        command: None,
    }
}

/// A tab is listed by its current page, the last of its history: the
/// entry's id is that page's link and its title that page's title, with a
/// stand-in where the page has no title text.
pub proof fn lemma_tab_shows_its_last_page(tab: JsonValue)
    ensures
        ({
            let pages = elements(member(tab, "entries"@));
            let page = pages[pages.len() - 1];
            &&& member(page, "url"@) matches JsonValue::Text(u) ==> tab_entry(tab).id == u@
            &&& member(page, "title"@) matches JsonValue::Text(t) ==> tab_entry(tab).title == t@
            &&& !(member(page, "title"@) is Text) ==> tab_entry(tab).title == "Tab without Title"@
            &&& tab_entry(tab).action == "open"@
        }),
{
}

/// Every tab has a page in its history.
pub open spec fn tabs_complete(session: JsonValue) -> bool {
    forall|w: int, t: int|
        0 <= w < elements(member(session, "windows"@)).len()
        && 0 <= t < elements(member(elements(member(session, "windows"@))[w], "tabs"@)).len()
        ==> #[trigger] elements(member(elements(member(elements(member(session, "windows"@))[w], "tabs"@))[t], "entries"@)).len() > 0
}

/// The tabs of one window.
pub open spec fn window_tabs(window: JsonValue) -> Seq<EntryView> {
    elements(member(window, "tabs"@)).map_values(|tab: JsonValue| tab_entry(tab))
}

/// The tabs of the windows `ws[..n]`, window after window.
pub open spec fn tabs_of(ws: Seq<JsonValue>, n: int) -> Seq<EntryView>
    decreases n,
{
    if n <= 0 || n > ws.len() {
        Seq::empty()
    } else {
        tabs_of(ws, n - 1) + window_tabs(ws[n - 1])
    }
}

/// The member of an object with the given name.
pub fn get_member<'a>(v: &'a JsonValue, key: &str) -> (r: &'a JsonValue)
    ensures
        *r == member(*v, key@),
{
    match v {
        JsonValue::Object(members) => {
            let mut i: usize = 0;
            while i < members.len()
                invariant
                    i <= members.len(),
                    member(*v, key@) == member_in(members@, key@, i as int),
                    *v == JsonValue::Object(*members),
                decreases members.len() - i,
            {
                if crate::text::str_eq(members[i].0.as_str(), key) {
                    return &members[i].1;
                }
                i = i + 1;
            }
            &JSON_NULL
        },
        _ => &JSON_NULL,
    }
}

/// The JSON null.
pub const JSON_NULL: JsonValue = JsonValue::Null;

/// The elements of an array value; none for any other value.
pub fn get_elements(v: &JsonValue) -> (r: &[JsonValue])
    ensures
        r@ == elements(*v),
{
    match v {
        JsonValue::Array(items) => items.as_slice(),
        _ => &[],
    }
}

/// The text of a string value, or the stand-in for a tab without title.
fn text_or_placeholder_of(v: &JsonValue) -> (r: String)
    ensures
        r@ == text_or_placeholder(*v),
{
    match v {
        JsonValue::Text(s) => s.clone(),
        _ => String::from_str("Tab without Title"),
    }
}

/// Whether every tab of the session has a page in its history.
pub fn session_is_complete(session: &JsonValue) -> (r: bool)
    ensures
        r == tabs_complete(*session),
{
    let windows = get_elements(get_member(session, "windows"));
    let mut w: usize = 0;
    while w < windows.len()
        invariant
            w <= windows.len(),
            windows@ == elements(member(*session, "windows"@)),
            forall|a: int, t: int| 0 <= a < w && 0 <= t < elements(member(windows@[a], "tabs"@)).len()
                ==> #[trigger] elements(member(elements(member(windows@[a], "tabs"@))[t], "entries"@)).len() > 0,
        decreases windows.len() - w,
    {
        let tabs = get_elements(get_member(&windows[w], "tabs"));
        let mut t: usize = 0;
        while t < tabs.len()
            invariant
                w < windows.len(),
                t <= tabs.len(),
                windows@ == elements(member(*session, "windows"@)),
                tabs@ == elements(member(windows@[w as int], "tabs"@)),
                forall|b: int| 0 <= b < t ==> #[trigger] elements(member(tabs@[b], "entries"@)).len() > 0,
            decreases tabs.len() - t,
        {
            let history = get_elements(get_member(&tabs[t], "entries"));
            if history.len() == 0 {
                assert(elements(member(elements(member(elements(member(*session, "windows"@))[w as int], "tabs"@))[t as int], "entries"@)).len() == 0);
                return false;
            }
            t = t + 1;
        }
        w = w + 1;
    }
    true
}

/// The tabs open in Firefox.
#[derive(Debug)]
pub struct TabsPlugin {
    pub entries: Vec<Entry>,
}

impl TabsPlugin {
    /// The plugin's id.
    pub fn id() -> (r: &'static str)
        ensures
            r@ == "firefox_tabs"@,
    {
        "firefox_tabs"
    }

    /// Where the plugin is listed: higher priorities come first.
    pub fn priority() -> (r: u32)
        ensures
            r == 30,
    {
        30
    }

    /// The heading shown above the plugin's entries.
    pub fn title() -> (r: &'static str)
        ensures
            r@ == "󰋚 Browser Tabs"@,
    {
        "󰋚 Browser Tabs"
    }

    /// Copies of the plugin's entries.
    pub fn entries(&self) -> (r: Vec<Entry>)
        ensures
            entries_view(r@) == entries_view(self.entries@),
    {
        copy_entries(&self.entries)
    }

    /// Replaces the plugin's entries.
    pub fn set_entries(&mut self, entries: Vec<Entry>)
        ensures
            final(self).entries == entries,
    {
        self.entries = entries;
    }

    /// The plugin as the launcher lists it.
    pub fn plugin(&self) -> (r: Plugin)
        ensures
            r.id@ == "firefox_tabs"@,
            r.priority == 30,
            r.title@ == "󰋚 Browser Tabs"@,
            entries_view(r.entries@) == entries_view(self.entries@),
    {
        Plugin {
            id: String::from_str(Self::id()),
            priority: Self::priority(),
            title: String::from_str(Self::title()),
            entries: self.entries(),
        }
    }

    /// The message that answers a search for `query` among the entries.
    pub fn search(&self, query: &String) -> (r: Message)
        ensures
            search_message(r, "firefox_tabs"@, entries_view(self.entries@), query@),
    {
        let shown = self.entries();
        let ghost src = shown@;
        let found = search(shown, query);
        let r = Message::UpdateEntries(String::from_str(Self::id()), found);
        assert(entries_view(src) == entries_view(self.entries@));
        r
    }
}

impl TabsPlugin {
    /// A plugin with no entries yet.
    pub fn new() -> (r: Self)
        ensures
            r.entries@.len() == 0,
    {
        Self { entries: Vec::new() }
    }

    /// Lists the open tabs of the session, window after window, each with
    /// the link and title of its current page.
    pub fn update_entries(&mut self, session: &JsonValue)
        requires
            tabs_complete(*session),
        ensures
            ({
                let ws = elements(member(*session, "windows"@));
                entries_view(final(self).entries@) == tabs_of(ws, ws.len() as int)
            }),
    {
        let windows = get_elements(get_member(session, "windows"));
        let ghost ws = windows@;
        let mut entries: Vec<Entry> = Vec::new();
        let mut w: usize = 0;
        while w < windows.len()
            invariant
                w <= windows.len(),
                ws == windows@,
                ws == elements(member(*session, "windows"@)),
                tabs_complete(*session),
                entries_view(entries@) == tabs_of(ws, w as int),
            decreases windows.len() - w,
        {
            let tabs = get_elements(get_member(&windows[w], "tabs"));
            let ghost before = entries_view(entries@);
            let mut t: usize = 0;
            while t < tabs.len()
                invariant
                    w < windows.len(),
                    ws == windows@,
                    ws == elements(member(*session, "windows"@)),
                    tabs_complete(*session),
                    t <= tabs.len(),
                    tabs@ == elements(member(ws[w as int], "tabs"@)),
                    entries_view(entries@) == before + tabs@.subrange(0, t as int).map_values(|tab: JsonValue| tab_entry(tab)),
                decreases tabs.len() - t,
            {
                let history = get_elements(get_member(&tabs[t], "entries"));
                assert(history@.len() > 0) by {
                    assert(elements(member(elements(member(elements(member(*session, "windows"@))[w as int], "tabs"@))[t as int], "entries"@)).len() > 0);
                }
                let info = &history[history.len() - 1];
                let url = text_or_placeholder_of(get_member(info, "url"));
                let title = text_or_placeholder_of(get_member(info, "title"));
                let ghost e0 = entries_view(entries@);
                let e = Entry {
                    id: url,
                    title,
                    action: String::from_str("open"),
                    meta: String::from_str("History"),
                    command: None,
                };
                assert(e@ == tab_entry(tabs@[t as int]));
                entries.push(e);
                assert(entries_view(entries@) =~= e0.push(tab_entry(tabs@[t as int])));
                assert(tabs@.subrange(0, t + 1) =~= tabs@.subrange(0, t as int).push(tabs@[t as int]));
                assert(entries_view(entries@) =~= before + tabs@.subrange(0, t + 1).map_values(|tab: JsonValue| tab_entry(tab)));
                t = t + 1;
            }
            assert(tabs@.subrange(0, tabs@.len() as int) =~= tabs@);
            assert(entries_view(entries@) =~= tabs_of(ws, w + 1));
            w = w + 1;
        }
        self.entries = entries;
    }

    /// Opens the tab's page in the browser.
    pub fn activate(&self, entry: Entry) -> (r: Activation)
        ensures
            spawns(r, seq!["firefox"@, entry.id@]),
    {
        spawn_with("firefox", entry.id)
    }
}

/// The content of a compressed block with its size in front, as
/// `lz4_flex::decompress_size_prepended` gives it, or `None` where the block
/// is refused.
pub uninterp spec fn lz4_decompressed(block: Seq<u8>) -> Option<Seq<u8>>;

/// Calls `lz4_flex::block::decompress_size_prepended`. The contract claims
/// that the result is a function of the block (named `lz4_decompressed`)
/// and that a block shorter than its four-byte size is refused, as the
/// crate's source shows.
#[verifier::external_body]
fn decompress_block(block: &[u8]) -> (r: Option<Vec<u8>>)
    ensures
        match r {
            Some(v) => lz4_decompressed(block@) == Some(v@),
            None => lz4_decompressed(block@) is None,
        },
        block@.len() < 4 ==> r is None,
{
    lz4_flex::block::decompress_size_prepended(block).ok()
}

/// The JSON text of a session file: the file's bytes after Mozilla's
/// eight-byte header, decompressed. `None` where the block is refused.
pub fn session_payload(raw: &[u8]) -> (r: Option<Vec<u8>>)
    requires
        raw@.len() >= 8,
    ensures
        match r {
            Some(v) => lz4_decompressed(raw@.skip(8)) == Some(v@),
            None => lz4_decompressed(raw@.skip(8)) is None,
        },
{
    let mut block: Vec<u8> = Vec::new();
    let mut i: usize = 8;
    while i < raw.len()
        invariant
            8 <= i <= raw@.len(),
            block@ == raw@.subrange(8, i as int),
        decreases raw.len() - i,
    {
        block.push(raw[i]);
        assert(block@ =~= raw@.subrange(8, i + 1));
        i = i + 1;
    }
    assert(block@ =~= raw@.skip(8));
    decompress_block(block.as_slice())
}

/// The value that `serde_json::from_slice::<serde_json::Value>` reads from
/// the bytes, copied member for member; `None` where they are no JSON text.
pub uninterp spec fn parsed_json(bytes: Seq<u8>) -> Option<JsonValue>;

#[verifier::external_type_specification]
#[verifier::external_body]
pub struct ExJsonValue(serde_json::Value);

/// Copies a `serde_json::Value` member for member: numbers as their text,
/// object members in the order the value holds them. This is the second
/// half of `parse_json`, which alone calls it.
#[verifier::external_body]
fn json_value_of(v: &serde_json::Value) -> JsonValue {
    match v {
        serde_json::Value::Null => JsonValue::Null,
        serde_json::Value::Bool(b) => JsonValue::Bool(*b),
        serde_json::Value::Number(n) => JsonValue::Number(n.to_string()),
        serde_json::Value::String(t) => JsonValue::Text(t.clone()),
        serde_json::Value::Array(items) => JsonValue::Array(items.iter().map(json_value_of).collect()),
        serde_json::Value::Object(members) => {
            JsonValue::Object(members.iter().map(|(k, m)| (k.clone(), json_value_of(m))).collect())
        },
    }
}

/// Calls `serde_json::from_slice::<serde_json::Value>` and copies the value
/// it reads. The contract claims that the result is a function of the
/// bytes (named `parsed_json`): serde_json reads no state but its input.
#[verifier::external_body]
pub fn parse_json(bytes: &[u8]) -> (r: Option<JsonValue>)
    ensures
        r == parsed_json(bytes@),
{
    serde_json::from_slice::<serde_json::Value>(bytes).ok().map(|v| json_value_of(&v))
}

/// The session a session file holds: its bytes after the eight-byte
/// header, decompressed and read as JSON. `None` where the block is refused
/// or its content is no JSON text.
pub fn session_of(raw: &[u8]) -> (r: Option<JsonValue>)
    requires
        raw@.len() >= 8,
    ensures
        r == match lz4_decompressed(raw@.skip(8)) {
            Some(p) => parsed_json(p),
            None => None,
        },
{
    match session_payload(raw) {
        Some(payload) => parse_json(payload.as_slice()),
        None => None,
    }
}

} // verus!
