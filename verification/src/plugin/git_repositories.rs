use vstd::prelude::*;
use crate::model::{Entry, Message, Plugin, copy_entries, entries_view};
use crate::search::{search, search_message};
use crate::search::{sort_by_title, title_key};
use crate::sorting::is_stable_sort;
use crate::text::chars_order;
use crate::model::{Activation, EntryView, spawns, strings_view};
use crate::settings::{Settings, commands_view};
use crate::text::{chars_of, lines_of, occurs_at, replace_first, replacen_first, split_once_at, split_once_chars, text_lines, trim_chars, trim_ws};

verus! {

/// The last component of a path as `std::path::Path::file_name` gives it,
/// or `None` where the path has none.
pub uninterp spec fn path_file_name(path: Seq<char>) -> Option<Seq<char>>;

/// The text after the last '/' of a path (all of it where it has none).
pub open spec fn after_last_slash(path: Seq<char>) -> Seq<char>
    decreases path.len(),
{
    if path.len() == 0 {
        path
    } else if path.last() == '/' {
        Seq::empty()
    } else {
        after_last_slash(path.drop_last()).push(path.last())
    }
}

/// A path component that names a file or directory: not empty, "." or "..".
pub open spec fn is_name(c: Seq<char>) -> bool {
    c.len() > 0 && c != seq!['.'] && c != seq!['.', '.']
}

/// Calls `std::path::Path::file_name` and returns the component as text.
/// The contract claims that the result is a function of the path (named
/// `path_file_name`), and, as the documentation says of a path whose last
/// component is a name, that the text after the last '/' is given where it
/// is a name: not empty, "." or "..". What the function gives for a path
/// ending in '/', "." or ".." (it skips trailing separators and "."
/// components) is left to the name.
#[verifier::external_body]
fn file_name_of(path: &str) -> (r: Option<String>)
    ensures
        match r {
            Some(name) => path_file_name(path@) == Some(name@),
            None => path_file_name(path@) is None,
        },
        is_name(after_last_slash(path@)) ==> r is Some && r.unwrap()@ == after_last_slash(path@),
{
    match std::path::Path::new(path).file_name() {
        Some(name) => Some(name.to_string_lossy().into_owned()),
        None => None,
    }
}

/// The score text and the path of a line that `zoxide query --score --list`
/// prints: the line without white space at its ends, split at its first
/// space. `None` where it has no space.
pub open spec fn score_line_parts(line: Seq<char>) -> Option<(Seq<char>, Seq<char>)> {
    split_once_at(trim_ws(line), ' ')
}

/// The view of a pair of strings.
pub open spec fn pair_view(p: (String, String)) -> (Seq<char>, Seq<char>) {
    (p.0@, p.1@)
}

/// Splits a line of zoxide's output into its score text and its path.
pub fn score_and_path(line: &str) -> (r: Option<(String, String)>)
    ensures
        match r {
            Some(p) => score_line_parts(line@) == Some(pair_view(p)),
            None => score_line_parts(line@) is None,
        },
{
    let cs = chars_of(line);
    let trimmed = trim_chars(&cs);
    split_once_chars(&trimmed, ' ')
}

/// Every line of zoxide's output has a space.
pub open spec fn all_lines_split(output: Seq<char>) -> bool {
    forall|i: int| 0 <= i < text_lines(output).len() ==> (#[trigger] score_line_parts(text_lines(output)[i])) is Some
}

/// Splits every line of zoxide's output into score text and path; `None`
/// where a line has no space.
pub fn score_lines(output: &str) -> (r: Option<Vec<(String, String)>>)
    ensures
        r is Some <==> all_lines_split(output@),
        r matches Some(v) ==> v@.len() == text_lines(output@).len() && forall|i: int| 0 <= i < v@.len()
            ==> score_line_parts(text_lines(output@)[i]) == Some(pair_view(#[trigger] v@[i])),
{
    let lines = lines_of(output);
    let ghost ls = text_lines(output@);
    let mut r: Vec<(String, String)> = Vec::new();
    let mut i: usize = 0;
    while i < lines.len()
        invariant
            i <= lines.len(),
            ls == text_lines(output@),
            ls == crate::model::strings_view(lines@),
            r@.len() == i,
            forall|k: int| 0 <= k < i ==> score_line_parts(ls[k]) == Some(pair_view(#[trigger] r@[k])),
        decreases lines.len() - i,
    {
        match score_and_path(lines[i].as_str()) {
            Some(p) => r.push(p),
            None => {
                assert(score_line_parts(ls[i as int]) is None);
                return None;
            },
        }
        i = i + 1;
    }
    assert forall|k: int| 0 <= k < ls.len() implies (#[trigger] score_line_parts(ls[k])) is Some by {
        assert(score_line_parts(ls[k]) == Some(pair_view(r@[k])));
    }
    Some(r)
}

/// The git repositories found under the home directory.
#[derive(Debug)]
pub struct GitRepositoriesPlugin {
    pub entries: Vec<Entry>,
    pub settings: Settings,
}

impl GitRepositoriesPlugin {
    /// The plugin's id.
    pub fn id() -> (r: &'static str)
        ensures
            r@ == "git_repositories"@,
    {
        "git_repositories"
    }

    /// Where the plugin is listed: higher priorities come first.
    pub fn priority() -> (r: u32)
        ensures
            r == 28,
    {
        28
    }

    /// The heading shown above the plugin's entries.
    pub fn title() -> (r: &'static str)
        ensures
            r@ == "󰘬 Git Repositories"@,
    {
        "󰘬 Git Repositories"
    }

    /// Copies of the plugin's entries.
    pub fn entries(&self) -> (r: Vec<Entry>)
        ensures
            entries_view(r@) == entries_view(self.entries@),
    {
        copy_entries(&self.entries)
    }

    /// Replaces the plugin's entries.
    pub fn set_entries(&mut self, entries: Vec<Entry>)
        ensures
            final(self).entries == entries,
    {
        self.entries = entries;
    }

    /// The plugin as the launcher lists it.
    pub fn plugin(&self) -> (r: Plugin)
        ensures
            r.id@ == "git_repositories"@,
            r.priority == 28,
            r.title@ == "󰘬 Git Repositories"@,
            entries_view(r.entries@) == entries_view(self.entries@),
    {
        Plugin {
            id: String::from_str(Self::id()),
            priority: Self::priority(),
            title: String::from_str(Self::title()),
            entries: self.entries(),
        }
    }

    /// The message that answers a search for `query` among the entries.
    pub fn search(&self, query: &String) -> (r: Message)
        ensures
            search_message(r, "git_repositories"@, entries_view(self.entries@), query@),
    {
        let shown = self.entries();
        let ghost src = shown@;
        let found = search(shown, query);
        let r = Message::UpdateEntries(String::from_str(Self::id()), found);
        assert(entries_view(src) == entries_view(self.entries@));
        r
    }
}

/// The entry of a repository: its path, shown with the home directory
/// written as "~".
pub open spec fn repository_entry(path: Seq<char>, home: Seq<char>) -> EntryView {
    EntryView {
        id: path,
        title: replace_first(path, home, "~"@),
        action: "focus"@,
        meta: "Git Repositories"@,
        command: None,
    }
}

/// A word of a command with the placeholders for the repository filled in.
pub open spec fn expand_word(word: Seq<char>, dir: Seq<char>, name: Option<Seq<char>>) -> Seq<char> {
    if word == "$GIT_DIRECTORY"@ {
        dir
    } else if word == "$GIT_DIRECTORY_NAME"@ {
        name.unwrap()
    } else {
        word
    }
}

/// A repository is listed under its path, and shown with the home
/// directory at its start written as "~"; a path that does not hold the
/// home directory is shown as it is.
pub proof fn lemma_repository_entry(path: Seq<char>, home: Seq<char>)
    ensures
        repository_entry(path, home).id == path,
        home.len() <= path.len() && path.take(home.len() as int) == home ==> repository_entry(path, home).title
            == "~"@ + path.skip(home.len() as int),
        (forall|i: int| !occurs_at(path, home, i)) ==> repository_entry(path, home).title == path,
{
    if home.len() <= path.len() && path.take(home.len() as int) == home {
        assert(path.subrange(0, 0int + home.len()) =~= path.take(home.len() as int));
        assert(occurs_at(path, home, 0));
        let i = choose|i: int| occurs_at(path, home, i) && forall|j: int| 0 <= j < i ==> !occurs_at(path, home, j);
        assert(occurs_at(path, home, 0) && forall|j: int| 0 <= j < 0 ==> !occurs_at(path, home, j));
        assert(i == 0);
        assert(path.subrange(0, 0) + "~"@ + path.subrange(home.len() as int, path.len() as int) =~= "~"@ + path.skip(home.len() as int));
    }
}

/// The words of a command other than the two placeholders are kept as
/// they are; "$GIT_DIRECTORY" becomes the repository's path and
/// "$GIT_DIRECTORY_NAME" its name.
pub proof fn lemma_expand_word(word: Seq<char>, dir: Seq<char>, name: Option<Seq<char>>)
    ensures
        word != "$GIT_DIRECTORY"@ && word != "$GIT_DIRECTORY_NAME"@ ==> expand_word(word, dir, name) == word,
        word == "$GIT_DIRECTORY"@ ==> expand_word(word, dir, name) == dir,
        name matches Some(n) ==> (word == "$GIT_DIRECTORY_NAME"@ ==> expand_word(word, dir, name) == n),
{
    reveal_strlit("$GIT_DIRECTORY");
    reveal_strlit("$GIT_DIRECTORY_NAME");
    assert("$GIT_DIRECTORY_NAME"@.len() != "$GIT_DIRECTORY"@.len());
}

/// A command with the placeholders for the repository filled in.
pub open spec fn expand_command(words: Seq<Seq<char>>, dir: Seq<char>, name: Option<Seq<char>>) -> Seq<Seq<char>> {
    words.map_values(|w: Seq<char>| expand_word(w, dir, name))
}

/// Some word of some command asks for the repository's name.
pub open spec fn asks_for_name(commands: Seq<Seq<Seq<char>>>) -> bool {
    exists|i: int, j: int| 0 <= i < commands.len() && 0 <= j < commands[i].len() && #[trigger] commands[i][j] == "$GIT_DIRECTORY_NAME"@
}

impl GitRepositoriesPlugin {
    /// A plugin with no entries yet, working with the given settings.
    pub fn new(settings: Settings) -> (r: Self)
        ensures
            r.entries@.len() == 0,
            r.settings == settings,
    {
        Self { entries: Vec::new(), settings }
    }

    /// Whether the repositories are ranked by zoxide after sorting by title.
    pub fn use_zoxide(&self) -> (r: bool)
        ensures
            r == self.settings.plugin.git_repositories.zoxide,
    {
        self.settings.plugin.git_repositories.zoxide
    }

    /// Lists the entries by title, keeping entries of equal title in order.
    pub fn sort(&mut self)
        ensures
            is_stable_sort(final(self).entries@, old(self).entries@, title_key(), chars_order()),
            final(self).settings == old(self).settings,
    {
        let mut taken: Vec<Entry> = Vec::new();
        core::mem::swap(&mut taken, &mut self.entries);
        self.entries = sort_by_title(taken);
    }

    /// Lists the repositories of the index by their display path, with the
    /// home directory `home` shown as "~".
    pub fn update_entries(&mut self, paths: Vec<String>, home: &str)
        ensures
            final(self).settings == old(self).settings,
            exists|listed: Seq<Entry>|
                #![trigger entries_view(listed)]
                entries_view(listed) == paths@.map_values(|p: String| repository_entry(p@, home@))
                    && is_stable_sort(final(self).entries@, listed, title_key(), chars_order()),
    {
        let ghost all = paths@;
        let mut paths = paths;
        let mut listed: Vec<Entry> = Vec::new();
        while paths.len() > 0
            invariant
                listed@.len() <= all.len(),
                all == all.take(listed@.len() as int) + paths@,
                entries_view(listed@) == all.take(listed@.len() as int).map_values(|p: String| repository_entry(p@, home@)),
            decreases paths.len(),
        {
            let path = paths.remove(0);
            let title = replacen_first(path.as_str(), home, "~");
            let ghost l0 = listed@;
            let ghost p0 = path;
            listed.push(Entry {
                id: path,
                title,
                action: String::from_str("focus"),
                meta: String::from_str("Git Repositories"),
                command: None,
            });
            proof {
                assert(all[listed@.len() - 1] == p0);
                assert(all.take(listed@.len() as int) =~= all.take(listed@.len() - 1).push(p0));
                assert(entries_view(listed@) =~= entries_view(l0).push(repository_entry(p0@, home@)));
                assert(entries_view(listed@) =~= all.take(listed@.len() as int).map_values(|p: String| repository_entry(p@, home@)));
                assert(all =~= all.take(listed@.len() as int) + paths@);
            }
        }
        proof {
            assert(all.take(listed@.len() as int) =~= all);
        }
        let ghost l = listed@;
        self.entries = listed;
        self.sort();
    }

    /// The programs to start for the repository of the entry: each
    /// configured command with "$GIT_DIRECTORY" replaced by the
    /// repository's path and "$GIT_DIRECTORY_NAME" by its last component.
    /// `None` where a command asks for the name and the path has none. The
    /// name of a path ending in a name is the text after its last '/'.
    pub fn activate(&self, entry: &Entry) -> (r: Option<Vec<Activation>>)
        requires
            forall|i: int| 0 <= i < self.settings.plugin.git_repositories.commands@.len()
                ==> (#[trigger] self.settings.plugin.git_repositories.commands@[i])@.len() > 0,
        ensures
            ({
                let commands = commands_view(self.settings.plugin.git_repositories.commands@);
                let name = path_file_name(entry.id@);
                &&& r is None <==> (asks_for_name(commands) && name is None)
                &&& r matches Some(acts) ==> (acts@.len() == commands.len() && forall|i: int| 0 <= i < acts@.len()
                    ==> spawns(#[trigger] acts@[i], expand_command(commands[i], entry.id@, name)))
            }),
            is_name(after_last_slash(entry.id@)) ==> path_file_name(entry.id@) == Some(after_last_slash(entry.id@)),
    {
        let ghost commands = commands_view(self.settings.plugin.git_repositories.commands@);
        let name = file_name_of(entry.id.as_str());
        let ghost nm = path_file_name(entry.id@);
        let templates = &self.settings.plugin.git_repositories.commands;
        let mut acts: Vec<Activation> = Vec::new();
        let mut i: usize = 0;
        while i < templates.len()
            invariant
                i <= templates.len(),
                commands == commands_view(templates@),
                commands == commands_view(self.settings.plugin.git_repositories.commands@),
                nm == path_file_name(entry.id@),
                is_name(after_last_slash(entry.id@)) ==> nm == Some(after_last_slash(entry.id@)),
                match name {
                    Some(n) => nm == Some(n@),
                    None => nm is None,
                },
                nm is None ==> forall|a: int, b: int| 0 <= a < i && 0 <= b < commands[a].len() ==> #[trigger] commands[a][b] != "$GIT_DIRECTORY_NAME"@,
                acts@.len() == i,
                forall|k: int| 0 <= k < i ==> spawns(#[trigger] acts@[k], expand_command(commands[k], entry.id@, nm)),
            decreases templates.len() - i,
        {
            let template = &templates[i];
            let ghost cv = commands[i as int];
            assert(cv == strings_view(template@));
            let mut words: Vec<String> = Vec::new();
            let mut j: usize = 0;
            while j < template.len()
                invariant
                    i < templates.len(),
                    commands == commands_view(templates@),
                    cv == commands[i as int],
                    commands == commands_view(self.settings.plugin.git_repositories.commands@),
                    nm == path_file_name(entry.id@),
                    is_name(after_last_slash(entry.id@)) ==> nm == Some(after_last_slash(entry.id@)),
                    *template == templates@[i as int],
                    j <= template.len(),
                    cv == strings_view(template@),
                    match name {
                        Some(n) => nm == Some(n@),
                        None => nm is None,
                    },
                    nm is None ==> forall|b: int| 0 <= b < j ==> cv[b] != "$GIT_DIRECTORY_NAME"@,
                    strings_view(words@) == expand_command(cv.subrange(0, j as int), entry.id@, nm),
                decreases template.len() - j,
            {
                let word = &template[j];
                let ghost w0 = words@;
                assert(word@ == cv[j as int]);
                let filled = if *word == String::from_str("$GIT_DIRECTORY") {
                    entry.id.clone()
                } else if *word == String::from_str("$GIT_DIRECTORY_NAME") {
                    match &name {
                        Some(n) => n.clone(),
                        None => {
                            proof {
                                assert(commands[i as int][j as int] == "$GIT_DIRECTORY_NAME"@);
                                assert(asks_for_name(commands));
                            }
                            return None;
                        },
                    }
                } else {
                    word.clone()
                };
                words.push(filled);
                proof {
                    reveal_strlit("$GIT_DIRECTORY");
                    reveal_strlit("$GIT_DIRECTORY_NAME");
                    assert("$GIT_DIRECTORY"@ != "$GIT_DIRECTORY_NAME"@) by {
                        assert("$GIT_DIRECTORY"@.len() != "$GIT_DIRECTORY_NAME"@.len());
                    }
                    assert(cv.subrange(0, j + 1) =~= cv.subrange(0, j as int).push(cv[j as int]));
                    assert(strings_view(words@) =~= strings_view(w0).push(expand_word(cv[j as int], entry.id@, nm)));
                    assert(expand_command(cv.subrange(0, j + 1), entry.id@, nm) =~= expand_command(cv.subrange(0, j as int), entry.id@, nm).push(expand_word(cv[j as int], entry.id@, nm)));
                }
                j = j + 1;
            }
            assert(cv.subrange(0, template.len() as int) =~= cv);
            acts.push(Activation::Spawn(words));
            i = i + 1;
        }
        Some(acts)
    }
}

} // verus!
