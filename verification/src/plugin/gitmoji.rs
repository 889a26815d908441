use vstd::prelude::*;
use crate::model::{Entry, Message, Plugin, copy_entries, entries_view};
use crate::search::{search, search_message};
use crate::model::{Activation, EntryView, spawn_with, spawns};

verus! {

/// A gitmoji: an emoji for commit messages and what it means.
#[derive(Debug)]
pub struct Gitmoji {
    pub emoji: String,
    pub description: String,
}

/// The table of gitmojis: each emoji with its description.
pub open spec fn gitmoji_table() -> Seq<(Seq<char>, Seq<char>)> {
    seq![
        ("🎨"@, "🎨 Improve structure / format of the code."@),
        ("⚡️"@, "⚡️ Improve performance."@),
        ("🔥"@, "🔥 Remove code or files."@),
        ("🐛"@, "🐛 Fix a bug."@),
        ("🚑️"@, "🚑️ Critical hotfix."@),
        ("✨"@, "✨ Introduce new features."@),
        ("📝"@, "📝 Add or update documentation."@),
        ("🚀"@, "🚀 Deploy stuff."@),
        ("💄"@, "💄 Add or update the UI and style files."@),
        ("🎉"@, "🎉 Begin a project."@),
        ("✅"@, "✅ Add, update, or pass tests."@),
        ("🔒️"@, "🔒️ Fix security or privacy issues."@),
        ("🔐"@, "🔐 Add or update secrets."@),
        ("🔖"@, "🔖 Release / Version tags."@),
        ("🚨"@, "🚨 Fix compiler / linter warnings."@),
        ("🚧"@, "🚧 Work in progress."@),
        ("💚"@, "💚 Fix CI Build."@),
        ("⬇️"@, "⬇️ Downgrade dependencies."@),
        ("⬆️"@, "⬆️ Upgrade dependencies."@),
        ("📌"@, "📌 Pin dependencies to specific versions."@),
        ("👷"@, "👷 Add or update CI build system."@),
        ("📈"@, "📈 Add or update analytics or track code."@),
        ("♻️"@, "♻️ Refactor code."@),
        ("➕"@, "➕ Add a dependency."@),
        ("➖"@, "➖ Remove a dependency."@),
        ("🔧"@, "🔧 Add or update configuration files."@),
        ("🔨"@, "🔨 Add or update development scripts."@),
        ("🌐"@, "🌐 Internationalization and localization."@),
        ("✏️"@, "✏️ Fix typos."@),
        ("💩"@, "💩 Write bad code that needs to be improved."@),
        ("⏪️"@, "⏪️ Revert changes."@),
        ("🔀"@, "🔀 Merge branches."@),
        ("📦️"@, "📦️ Add or update compiled files or packages."@),
        ("👽️"@, "👽️ Update code due to external API changes."@),
        ("🚚"@, "🚚 Move or rename resources (e.g.): files, paths, routes)."@),
        ("📄"@, "📄 Add or update license."@),
        ("💥"@, "💥 Introduce breaking changes."@),
        ("🍱"@, "🍱 Add or update assets."@),
        ("♿️"@, "♿️ Improve accessibility."@),
        ("💡"@, "💡 Add or update comments in source code."@),
        ("🍻"@, "🍻 Write code drunkenly."@),
        ("💬"@, "💬 Add or update text and literals."@),
        ("🗃️"@, "🗃️ Perform database related changes."@),
        ("🔊"@, "🔊 Add or update logs."@),
        ("🔇"@, "🔇 Remove logs."@),
        ("👥"@, "👥 Add or update contributor(s)."@),
        ("🚸"@, "🚸 Improve user experience / usability."@),
        ("🏗️"@, "🏗️ Make architectural changes."@),
        ("📱"@, "📱 Work on responsive design."@),
        ("🤡"@, "🤡 Mock things."@),
        ("🥚"@, "🥚 Add or update an easter egg."@),
        ("🙈"@, "🙈 Add or update a .gitignore file."@),
        ("📸"@, "📸 Add or update snapshots."@),
        ("⚗️"@, "⚗️ Perform experiments."@),
        ("🔍️"@, "🔍️ Improve SEO."@),
        ("🏷️"@, "🏷️ Add or update types."@),
        ("🌱"@, "🌱 Add or update seed files."@),
        ("🚩"@, "🚩 Add, update, or remove feature flags."@),
        ("🥅"@, "🥅 Catch errors."@),
        ("💫"@, "💫 Add or update animations and transitions."@),
        ("🗑️"@, "🗑️ Deprecate code that needs to be cleaned up."@),
        ("🛂"@, "🛂 Work on code related to authorization, roles and permissions."@),
        ("🩹"@, "🩹 Simple fix for a non-critical issue."@),
        ("🧐"@, "🧐 Data exploration/inspection."@),
        ("⚰️"@, "⚰️ Remove dead code."@),
        ("🧪"@, "🧪 Add a failing test."@),
        ("👔"@, "👔 Add or update business logic."@),
        ("🩺"@, "🩺 Add or update healthcheck."@),
        ("🧱"@, "🧱 Infrastructure related changes."@),
        ("🧑‍💻"@, "🧑‍💻 Improve developer experience."@),
        ("💸"@, "💸 Add sponsorships or money related infrastructure."@),
        ("🧵"@, "🧵 Add or update code related to multithreading or concurrency."@),
        ("🦺"@, "🦺 Add or update code related to validation."@),
    ]
}

/// The emoji and description of a gitmoji.
pub open spec fn gitmoji_view(g: Gitmoji) -> (Seq<char>, Seq<char>) {
    (g.emoji@, g.description@)
}

fn gitmoji(emoji: &str, description: &str) -> (r: Gitmoji)
    ensures
        gitmoji_view(r) == (emoji@, description@),
{
    Gitmoji { emoji: String::from_str(emoji), description: String::from_str(description) }
}

/// All gitmojis, in the order of the table.
pub fn gitmojis() -> (r: Vec<Gitmoji>)
    ensures
        r@.map_values(|g: Gitmoji| gitmoji_view(g)) == gitmoji_table(),
{
    let mut r: Vec<Gitmoji> = Vec::new();
    r.push(gitmoji("🎨", "🎨 Improve structure / format of the code."));
    r.push(gitmoji("⚡️", "⚡️ Improve performance."));
    r.push(gitmoji("🔥", "🔥 Remove code or files."));
    r.push(gitmoji("🐛", "🐛 Fix a bug."));
    r.push(gitmoji("🚑️", "🚑️ Critical hotfix."));
    r.push(gitmoji("✨", "✨ Introduce new features."));
    r.push(gitmoji("📝", "📝 Add or update documentation."));
    r.push(gitmoji("🚀", "🚀 Deploy stuff."));
    r.push(gitmoji("💄", "💄 Add or update the UI and style files."));
    r.push(gitmoji("🎉", "🎉 Begin a project."));
    r.push(gitmoji("✅", "✅ Add, update, or pass tests."));
    r.push(gitmoji("🔒️", "🔒️ Fix security or privacy issues."));
    r.push(gitmoji("🔐", "🔐 Add or update secrets."));
    r.push(gitmoji("🔖", "🔖 Release / Version tags."));
    r.push(gitmoji("🚨", "🚨 Fix compiler / linter warnings."));
    r.push(gitmoji("🚧", "🚧 Work in progress."));
    r.push(gitmoji("💚", "💚 Fix CI Build."));
    r.push(gitmoji("⬇️", "⬇️ Downgrade dependencies."));
    r.push(gitmoji("⬆️", "⬆️ Upgrade dependencies."));
    r.push(gitmoji("📌", "📌 Pin dependencies to specific versions."));
    r.push(gitmoji("👷", "👷 Add or update CI build system."));
    r.push(gitmoji("📈", "📈 Add or update analytics or track code."));
    r.push(gitmoji("♻️", "♻️ Refactor code."));
    r.push(gitmoji("➕", "➕ Add a dependency."));
    r.push(gitmoji("➖", "➖ Remove a dependency."));
    r.push(gitmoji("🔧", "🔧 Add or update configuration files."));
    r.push(gitmoji("🔨", "🔨 Add or update development scripts."));
    r.push(gitmoji("🌐", "🌐 Internationalization and localization."));
    r.push(gitmoji("✏️", "✏️ Fix typos."));
    r.push(gitmoji("💩", "💩 Write bad code that needs to be improved."));
    r.push(gitmoji("⏪️", "⏪️ Revert changes."));
    r.push(gitmoji("🔀", "🔀 Merge branches."));
    r.push(gitmoji("📦️", "📦️ Add or update compiled files or packages."));
    r.push(gitmoji("👽️", "👽️ Update code due to external API changes."));
    r.push(gitmoji("🚚", "🚚 Move or rename resources (e.g.): files, paths, routes)."));
    r.push(gitmoji("📄", "📄 Add or update license."));
    r.push(gitmoji("💥", "💥 Introduce breaking changes."));
    r.push(gitmoji("🍱", "🍱 Add or update assets."));
    r.push(gitmoji("♿️", "♿️ Improve accessibility."));
    r.push(gitmoji("💡", "💡 Add or update comments in source code."));
    r.push(gitmoji("🍻", "🍻 Write code drunkenly."));
    r.push(gitmoji("💬", "💬 Add or update text and literals."));
    r.push(gitmoji("🗃️", "🗃️ Perform database related changes."));
    r.push(gitmoji("🔊", "🔊 Add or update logs."));
    r.push(gitmoji("🔇", "🔇 Remove logs."));
    r.push(gitmoji("👥", "👥 Add or update contributor(s)."));
    r.push(gitmoji("🚸", "🚸 Improve user experience / usability."));
    r.push(gitmoji("🏗️", "🏗️ Make architectural changes."));
    r.push(gitmoji("📱", "📱 Work on responsive design."));
    r.push(gitmoji("🤡", "🤡 Mock things."));
    r.push(gitmoji("🥚", "🥚 Add or update an easter egg."));
    r.push(gitmoji("🙈", "🙈 Add or update a .gitignore file."));
    r.push(gitmoji("📸", "📸 Add or update snapshots."));
    r.push(gitmoji("⚗️", "⚗️ Perform experiments."));
    r.push(gitmoji("🔍️", "🔍️ Improve SEO."));
    r.push(gitmoji("🏷️", "🏷️ Add or update types."));
    r.push(gitmoji("🌱", "🌱 Add or update seed files."));
    r.push(gitmoji("🚩", "🚩 Add, update, or remove feature flags."));
    r.push(gitmoji("🥅", "🥅 Catch errors."));
    r.push(gitmoji("💫", "💫 Add or update animations and transitions."));
    r.push(gitmoji("🗑️", "🗑️ Deprecate code that needs to be cleaned up."));
    r.push(gitmoji("🛂", "🛂 Work on code related to authorization, roles and permissions."));
    r.push(gitmoji("🩹", "🩹 Simple fix for a non-critical issue."));
    r.push(gitmoji("🧐", "🧐 Data exploration/inspection."));
    r.push(gitmoji("⚰️", "⚰️ Remove dead code."));
    r.push(gitmoji("🧪", "🧪 Add a failing test."));
    r.push(gitmoji("👔", "👔 Add or update business logic."));
    r.push(gitmoji("🩺", "🩺 Add or update healthcheck."));
    r.push(gitmoji("🧱", "🧱 Infrastructure related changes."));
    r.push(gitmoji("🧑‍💻", "🧑‍💻 Improve developer experience."));
    r.push(gitmoji("💸", "💸 Add sponsorships or money related infrastructure."));
    r.push(gitmoji("🧵", "🧵 Add or update code related to multithreading or concurrency."));
    r.push(gitmoji("🦺", "🦺 Add or update code related to validation."));
    assert(r@.map_values(|g: Gitmoji| gitmoji_view(g)) =~= gitmoji_table());
    r
}

/// Gitmojis to copy into a commit message.
#[derive(Debug)]
pub struct GitmojiPlugin {
    pub entries: Vec<Entry>,
}

impl GitmojiPlugin {
    /// The plugin's id.
    pub fn id() -> (r: &'static str)
        ensures
            r@ == "gitmoji"@,
    {
        "gitmoji"
    }

    /// Where the plugin is listed: higher priorities come first.
    pub fn priority() -> (r: u32)
        ensures
            r == 13,
    {
        13
    }

    /// The heading shown above the plugin's entries.
    pub fn title() -> (r: &'static str)
        ensures
            r@ == "󰞅 Gitmoji"@,
    {
        "󰞅 Gitmoji"
    }

    /// Copies of the plugin's entries.
    pub fn entries(&self) -> (r: Vec<Entry>)
        ensures
            entries_view(r@) == entries_view(self.entries@),
    {
        copy_entries(&self.entries)
    }

    /// Replaces the plugin's entries.
    pub fn set_entries(&mut self, entries: Vec<Entry>)
        ensures
            final(self).entries == entries,
    {
        self.entries = entries;
    }

    /// The plugin as the launcher lists it.
    pub fn plugin(&self) -> (r: Plugin)
        ensures
            r.id@ == "gitmoji"@,
            r.priority == 13,
            r.title@ == "󰞅 Gitmoji"@,
            entries_view(r.entries@) == entries_view(self.entries@),
    {
        Plugin {
            id: String::from_str(Self::id()),
            priority: Self::priority(),
            title: String::from_str(Self::title()),
            entries: self.entries(),
        }
    }

    /// The message that answers a search for `query` among the entries.
    pub fn search(&self, query: &String) -> (r: Message)
        ensures
            search_message(r, "gitmoji"@, entries_view(self.entries@), query@),
    {
        let shown = self.entries();
        let ghost src = shown@;
        let found = search(shown, query);
        let r = Message::UpdateEntries(String::from_str(Self::id()), found);
        assert(entries_view(src) == entries_view(self.entries@));
        r
    }
}

/// The entry of a gitmoji: its emoji is copied when activated.
pub open spec fn gitmoji_entry(g: (Seq<char>, Seq<char>)) -> EntryView {
    EntryView { id: g.0, title: g.1, action: "copy"@, meta: "Gitmoji"@, command: None }
}

/// A gitmoji is listed under its emoji, which is what choosing it copies,
/// and shown by its description.
pub proof fn lemma_gitmoji_entry(g: (Seq<char>, Seq<char>))
    ensures
        gitmoji_entry(g).id == g.0,
        gitmoji_entry(g).title == g.1,
        gitmoji_entry(g).action == "copy"@,
{
}

impl GitmojiPlugin {
    /// A plugin with no entries yet.
    pub fn new() -> (r: Self)
        ensures
            r.entries@.len() == 0,
    {
        Self { entries: Vec::new() }
    }

    /// Lists one entry per gitmoji, in the order of the table.
    pub fn update_entries(&mut self)
        ensures
            entries_view(final(self).entries@) == gitmoji_table().map_values(|g: (Seq<char>, Seq<char>)| gitmoji_entry(g)),
    {
        let table = gitmojis();
        let mut entries: Vec<Entry> = Vec::new();
        let mut i: usize = 0;
        while i < table.len()
            invariant
                i <= table.len(),
                table@.map_values(|g: Gitmoji| gitmoji_view(g)) == gitmoji_table(),
                entries@.len() == i,
                forall|k: int| 0 <= k < i ==> (#[trigger] entries@[k])@ == gitmoji_entry(gitmoji_view(table@[k])),
            decreases table.len() - i,
        {
            let g = &table[i];
            let e = Entry {
                id: g.emoji.clone(),
                title: g.description.clone(),
                action: String::from_str("copy"),
                meta: String::from_str("Gitmoji"),
                command: None,
            };
            entries.push(e);
            i = i + 1;
        }
        proof {
            assert forall|k: int| 0 <= k < entries@.len() implies #[trigger] entries_view(entries@)[k]
                == gitmoji_table().map_values(|g: (Seq<char>, Seq<char>)| gitmoji_entry(g))[k] by {
                assert(gitmoji_table()[k] == table@.map_values(|g: Gitmoji| gitmoji_view(g))[k]);
            }
            assert(entries_view(entries@) =~= gitmoji_table().map_values(|g: (Seq<char>, Seq<char>)| gitmoji_entry(g)));
        }
        self.entries = entries;
    }

    /// Copies the emoji of the entry to the clipboard.
    pub fn activate(&self, entry: Entry) -> (r: Activation)
        ensures
            spawns(r, seq!["wl-copy"@, entry.id@]),
    {
        spawn_with("wl-copy", entry.id)
    }
}

} // verus!
