use vstd::prelude::*;
use crate::model::{Entry, Message, Plugin, copy_entries, entries_view};
use crate::search::{search, search_message};
use crate::model::{Activation, ActivationError, EntryView, command_activation, spawns, strings_view};

verus! {

/// Commands that lock, restart, shut down or suspend the machine.
#[derive(Debug)]
pub struct SystemPlugin {
    pub entries: Vec<Entry>,
}

impl SystemPlugin {
    /// The plugin's id.
    pub fn id() -> (r: &'static str)
        ensures
            r@ == "system"@,
    {
        "system"
    }

    /// Where the plugin is listed: higher priorities come first.
    pub fn priority() -> (r: u32)
        ensures
            r == 15,
    {
        15
    }

    /// The heading shown above the plugin's entries.
    pub fn title() -> (r: &'static str)
        ensures
            r@ == "󰌢 System"@,
    {
        "󰌢 System"
    }

    /// Copies of the plugin's entries.
    pub fn entries(&self) -> (r: Vec<Entry>)
        ensures
            entries_view(r@) == entries_view(self.entries@),
    {
        copy_entries(&self.entries)
    }

    /// Replaces the plugin's entries.
    pub fn set_entries(&mut self, entries: Vec<Entry>)
        ensures
            final(self).entries == entries,
    {
        self.entries = entries;
    }

    /// The plugin as the launcher lists it.
    pub fn plugin(&self) -> (r: Plugin)
        ensures
            r.id@ == "system"@,
            r.priority == 15,
            r.title@ == "󰌢 System"@,
            entries_view(r.entries@) == entries_view(self.entries@),
    {
        Plugin {
            id: String::from_str(Self::id()),
            priority: Self::priority(),
            title: String::from_str(Self::title()),
            entries: self.entries(),
        }
    }

    /// The message that answers a search for `query` among the entries.
    pub fn search(&self, query: &String) -> (r: Message)
        ensures
            search_message(r, "system"@, entries_view(self.entries@), query@),
    {
        let shown = self.entries();
        let ghost src = shown@;
        let found = search(shown, query);
        let r = Message::UpdateEntries(String::from_str(Self::id()), found);
        assert(entries_view(src) == entries_view(self.entries@));
        r
    }
}

/// The view of a system entry.
pub open spec fn system_entry(id: Seq<char>, title: Seq<char>, meta: Seq<char>, command: Seq<char>) -> EntryView {
    EntryView { id, title, action: ""@, meta, command: Some(seq![command]) }
}

/// The four system entries.
pub open spec fn system_entries() -> Seq<EntryView> {
    seq![
        system_entry("lock"@, "Lock"@, "System"@, "lock"@),
        system_entry("restart"@, "Restart"@, "System"@, "reboot"@),
        system_entry("shutdown"@, "Shutdown"@, "System"@, "poweroff"@),
        system_entry("sleep"@, "Sleep"@, "System Hibernate Suspend"@, "systemctl suspend"@),
    ]
}

/// The system entries lock the screen, restart, shut down and suspend the
/// machine, each by running one command.
pub proof fn lemma_system_commands()
    ensures
        system_entries().len() == 4,
        system_entries()[0].title == "Lock"@ && system_entries()[0].command == Some(seq!["lock"@]),
        system_entries()[1].title == "Restart"@ && system_entries()[1].command == Some(seq!["reboot"@]),
        system_entries()[2].title == "Shutdown"@ && system_entries()[2].command == Some(seq!["poweroff"@]),
        system_entries()[3].title == "Sleep"@ && system_entries()[3].command == Some(seq!["systemctl suspend"@]),
        forall|i: int| 0 <= i < 4 ==> (#[trigger] system_entries()[i]).action == ""@,
{
}

/// A system entry that runs a one-word command.
fn system_command_entry(id: &str, title: &str, meta: &str, command: &str) -> (r: Entry)
    ensures
        r@ == system_entry(id@, title@, meta@, command@),
{
    let mut words: Vec<String> = Vec::new();
    words.push(String::from_str(command));
    assert(strings_view(words@) =~= seq![command@]);
    Entry {
        id: String::from_str(id),
        title: String::from_str(title),
        action: String::from_str(""),
        meta: String::from_str(meta),
        command: Some(words),
    }
}

impl SystemPlugin {
    /// A plugin with no entries yet.
    pub fn new() -> (r: Self)
        ensures
            r.entries@.len() == 0,
    {
        Self { entries: Vec::new() }
    }

    /// Lists the four system commands.
    pub fn update_entries(&mut self)
        ensures
            entries_view(final(self).entries@) == system_entries(),
    {
        let mut entries: Vec<Entry> = Vec::new();
        entries.push(system_command_entry("lock", "Lock", "System", "lock"));
        entries.push(system_command_entry("restart", "Restart", "System", "reboot"));
        entries.push(system_command_entry("shutdown", "Shutdown", "System", "poweroff"));
        entries.push(system_command_entry("sleep", "Sleep", "System Hibernate Suspend", "systemctl suspend"));
        assert(entries_view(entries@) =~= system_entries());
        self.entries = entries;
    }

    /// Runs the command of the entry.
    pub fn activate(&self, entry: Entry) -> (r: Result<Activation, ActivationError>)
        requires
            entry.command matches Some(c) ==> c@.len() > 0,
        ensures
            entry.command matches Some(c) ==> (r matches Ok(a) && spawns(a, strings_view(c@))),
            entry.command is None ==> (r matches Err(ActivationError::MissingCommand(id)) && id@ == entry.id@),
    {
        command_activation(entry)
    }
}

} // verus!
