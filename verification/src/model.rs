use vstd::prelude::*;

verus! {

/// One item that a plugin offers in the launcher list.
#[derive(Debug)]
pub struct Entry {
    pub id: String,
    pub title: String,
    pub action: String,
    pub meta: String,
    pub command: Option<Vec<String>>,
}

/// The mathematical value of an entry: its texts as character sequences.
pub struct EntryView {
    pub id: Seq<char>,
    pub title: Seq<char>,
    pub action: Seq<char>,
    pub meta: Seq<char>,
    pub command: Option<Seq<Seq<char>>>,
}

/// The character sequences of a list of strings.
pub open spec fn strings_view(v: Seq<String>) -> Seq<Seq<char>> {
    v.map_values(|s: String| s@)
}

impl View for Entry {
    type V = EntryView;

    open spec fn view(&self) -> EntryView {
        EntryView {
            id: self.id@,
            title: self.title@,
            action: self.action@,
            meta: self.meta@,
            command: match self.command {
                Some(parts) => Some(strings_view(parts@)),
                None => None,
            },
        }
    }
}

/// Copies a list of strings element by element.
pub fn copy_strings(v: &Vec<String>) -> (r: Vec<String>)
    ensures
        r@ == v@,
{
    let mut r: Vec<String> = Vec::new();
    let mut i: usize = 0;
    while i < v.len()
        invariant
            i <= v.len(),
            r@ == v@.subrange(0, i as int),
        decreases v.len() - i,
    {
        r.push(v[i].clone());
        i = i + 1;
    }
    r
}

impl Entry {
    /// A field-by-field copy of the entry.
    pub fn copy(&self) -> (r: Entry)
        ensures
            r@ == self@,
    {
        let command = match &self.command {
            Some(parts) => Some(copy_strings(parts)),
            None => None,
        };
        Entry {
            id: self.id.clone(),
            title: self.title.clone(),
            action: self.action.clone(),
            meta: self.meta.clone(),
            command,
        }
    }
}

impl PartialEq for Entry {
    fn eq(&self, other: &Self) -> (r: bool) {
        self.id == other.id
    }
}

impl vstd::std_specs::cmp::PartialEqSpecImpl for Entry {
    open spec fn obeys_eq_spec() -> bool {
        true
    }

    open spec fn eq_spec(&self, other: &Self) -> bool {
        self.id@ == other.id@
    }
}

impl Eq for Entry {}

} // verus!

verus! {

/// A plugin as the launcher sees it: who it is, where it is listed, and
/// the entries it currently shows.
#[derive(Debug)]
pub struct Plugin {
    pub id: String,
    pub priority: u32,
    pub title: String,
    pub entries: Vec<Entry>,
}

/// What the launcher asks of a plugin.
#[derive(Debug)]
pub enum PluginRequest {
    Search(String),
    Timeout,
    Activate(Entry),
}

/// What a plugin tells the launcher.
#[derive(Debug)]
pub enum Message {
    RegisterPlugin(Plugin),
    UpdateEntries(String, Vec<Entry>),
    Exit,
}

/// A request addressed to the plugin with the given id.
#[derive(Debug)]
pub struct Outgoing {
    pub plugin_id: String,
    pub request: PluginRequest,
}

/// Outside work that the launcher decides on: send a request to a
/// plugin, leave, or report a message for an unknown plugin.
#[derive(Debug)]
pub enum Effect {
    Send(Outgoing),
    Exit,
    UnknownPlugin(String),
}

/// The request searches for `q`.
pub open spec fn is_search_for(r: PluginRequest, q: Seq<char>) -> bool {
    r matches PluginRequest::Search(s) && s@ == q
}

} // verus!

verus! {

/// Outside work that activating an entry calls for.
#[derive(Debug)]
pub enum Activation {
    /// Start a program: the first word names it, the others are its arguments.
    Spawn(Vec<String>),
    /// Run a command of the sway window manager.
    SwayCommand(String),
    /// Focus the window with this id in the niri window manager.
    NiriFocus(u64),
    /// Clear the music player's queue, load the named playlist and play it.
    MpdLoadPlaylist(String),
}

/// Why an entry could not be activated.
#[derive(Debug, PartialEq, Eq)]
pub enum ActivationError {
    /// The entry carries no command to run; the entry's id.
    MissingCommand(String),
    /// The entry's id is not a window id; the entry's id.
    InvalidWindowId(String),
}

/// The program start that runs the given words.
pub open spec fn spawns(a: Activation, words: Seq<Seq<char>>) -> bool {
    a matches Activation::Spawn(w) && strings_view(w@) == words
}

/// An entry whose texts are given, with no command.
pub fn plain_entry(id: String, title: String, action: &str, meta: &str) -> (r: Entry)
    ensures
        r.id == id,
        r.title == title,
        r.action@ == action@,
        r.meta@ == meta@,
        r.command is None,
{
    Entry { id, title, action: String::from_str(action), meta: String::from_str(meta), command: None }
}

/// The views of a list of entries.
pub open spec fn entries_view(s: Seq<Entry>) -> Seq<EntryView> {
    s.map_values(|e: Entry| e@)
}

/// Copies a list of entries.
pub fn copy_entries(v: &Vec<Entry>) -> (r: Vec<Entry>)
    ensures
        r@.len() == v@.len(),
        forall|i: int| 0 <= i < v@.len() ==> (#[trigger] r@[i])@ == v@[i]@,
        entries_view(r@) == entries_view(v@),
{
    let mut r: Vec<Entry> = Vec::new();
    let mut i: usize = 0;
    while i < v.len()
        invariant
            i <= v.len(),
            r@.len() == i,
            forall|k: int| 0 <= k < i ==> (#[trigger] r@[k])@ == v@[k]@,
        decreases v.len() - i,
    {
        r.push(v[i].copy());
        i = i + 1;
    }
    assert(entries_view(r@) =~= entries_view(v@));
    r
}

/// The spawn of an entry's own command; where the entry has none, the
/// error that names it.
pub fn command_activation(entry: Entry) -> (r: Result<Activation, ActivationError>)
    requires
        entry.command matches Some(c) ==> c@.len() > 0,
    ensures
        entry.command matches Some(c) ==> (r matches Ok(a) && spawns(a, strings_view(c@))),
        entry.command is None ==> (r matches Err(ActivationError::MissingCommand(id)) && id@ == entry.id@),
{
    match entry.command {
        Some(command) => Ok(Activation::Spawn(command)),
        None => Err(ActivationError::MissingCommand(entry.id)),
    }
}

/// The spawn of `program` with a single argument.
pub fn spawn_with(program: &str, argument: String) -> (r: Activation)
    ensures
        spawns(r, seq![program@, argument@]),
{
    let mut words: Vec<String> = Vec::new();
    words.push(String::from_str(program));
    words.push(argument);
    assert(strings_view(words@) =~= seq![program@, argument@]);
    Activation::Spawn(words)
}

} // verus!
