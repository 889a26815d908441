use vstd::prelude::*;
use crate::groups::{ItemGroup, ListItem, ListItemView, grouped, items_view, make_group, make_shell_item, shell_item};
use crate::text::{opt_view, replace_all, replace_every};

verus! {

/// What `regex::Regex` finds of `pattern` in `text`: `None` where the
/// pattern does not compile; else the text of capture group `group` of the
/// leftmost match, `Some(None)` where there is no match or the group took no
/// part in it.
pub uninterp spec fn regex_capture(pattern: Seq<char>, text: Seq<char>, group: nat) -> Option<Option<Seq<char>>>;

/// The character sequences of an optional optional string.
pub open spec fn opt_opt_view(o: Option<Option<String>>) -> Option<Option<Seq<char>>> {
    match o {
        Some(inner) => Some(opt_view(inner)),
        None => None,
    }
}

/// `regex::Regex::new(pattern)`, then `captures(text)` and `get(group)` on
/// the captures: the text of the group in the leftmost match. The result is
/// named, not spelled out.
#[verifier::external_body]
fn capture_group(pattern: &str, text: &str, group: usize) -> (r: Option<Option<String>>)
    ensures
        opt_opt_view(r) == regex_capture(pattern@, text@, group as nat),
{
    match regex::Regex::new(pattern) {
        Ok(re) => match re.captures(text) {
            Some(caps) => match caps.get(group) {
                Some(m) => Some(Some(m.as_str().to_string())),
                None => Some(None),
            },
            None => Some(None),
        },
        Err(_) => None,
    }
}

/// The pattern that finds a project's name in the path of its git
/// directory: the last path part before "/.git".
pub open spec fn project_name_pattern() -> Seq<char> {
    "/([^/]+)/.git$"@
}

/// The name of the project whose git directory is `git_dir`.
pub open spec fn project_name(git_dir: Seq<char>) -> Option<Seq<char>> {
    match regex_capture(project_name_pattern(), git_dir, 1) {
        Some(Some(name)) => Some(name),
        _ => None,
    }
}

/// The item that opens the project in the editor.
pub open spec fn project_item(git_dir: Seq<char>, name: Seq<char>) -> ListItemView {
    shell_item(name, "open"@, "code "@ + replace_all(git_dir, "/.git"@, ""@))
}

/// A project is shown by its name and opened in the editor: its one
/// action runs "code" on the repository's directory, the git directory
/// with "/.git" taken out.
pub proof fn lemma_project_item(git_dir: Seq<char>, name: Seq<char>)
    ensures
        project_item(git_dir, name).title == name,
        project_item(git_dir, name).actions.len() == 1,
        project_item(git_dir, name).actions[0].program == "sh"@,
        project_item(git_dir, name).actions[0].args == seq!["-c"@, "code "@ + replace_all(git_dir, "/.git"@, ""@)],
{
}

/// The item of a git directory, where its project has a name.
pub open spec fn git_dir_item(git_dir: Seq<char>) -> Option<ListItemView> {
    match project_name(git_dir) {
        Some(name) => Some(project_item(git_dir, name)),
        None => None,
    }
}

/// The items of the git directories that have a project name, in order.
pub open spec fn project_items(git_dirs: Seq<Seq<char>>) -> Seq<ListItemView>
    decreases git_dirs.len(),
{
    if git_dirs.len() == 0 {
        Seq::empty()
    } else {
        match git_dir_item(git_dirs[0]) {
            Some(item) => seq![item] + project_items(git_dirs.drop_first()),
            None => project_items(git_dirs.drop_first()),
        }
    }
}

/// The name of the project whose git directory is `git_dir`.
pub fn get_project_name(git_dir: &String) -> (r: Option<String>)
    ensures
        opt_view(r) == project_name(git_dir@),
{
    proof {
        reveal_strlit("/([^/]+)/.git$");
    }
    match capture_group("/([^/]+)/.git$", git_dir.as_str(), 1) {
        Some(Some(name)) => Some(name),
        _ => None,
    }
}

/// The item for the git directory `git_dir` of a project called `name`, if
/// it has a name.
pub fn list_item_for(git_dir: String, name: Option<String>) -> (r: Option<ListItem>)
    ensures
        match name {
            Some(n) => r matches Some(item) && item@ == project_item(git_dir@, n@),
            None => r is None,
        },
{
    match name {
        Some(n) => {
            proof {
                reveal_strlit("/.git");
            }
            let path = replace_every(git_dir.as_str(), "/.git", "");
            let mut script = String::from_str("code ");
            script.append(path.as_str());
            Some(make_shell_item(n, "open", script))
        },
        None => None,
    }
}

/// The item of a git directory, where its project has a name.
pub fn to_list_item(git_dir: String) -> (r: Option<ListItem>)
    ensures
        match git_dir_item(git_dir@) {
            Some(item) => r matches Some(i) && i@ == item,
            None => r is None,
        },
{
    let name = get_project_name(&git_dir);
    list_item_for(git_dir, name)
}

/// The group of git projects found under the given git directories: their
/// items taken in reverse order, then listed by name with case ignored,
/// once per name.
pub fn get_git_projects_group(git_dirs: &Vec<String>) -> (r: ItemGroup)
    ensures
        r.name@ == "Git Repositories"@,
        r.icon@ == "folder"@,
        exists|items: Seq<ListItem>|
            #![trigger items_view(items)]
            items_view(items) == project_items(git_dirs@.map_values(|d: String| d@)).reverse() && grouped(
                r.items@,
                items,
            ),
{
    let ghost dirs = git_dirs@.map_values(|d: String| d@);
    let mut items: Vec<ListItem> = Vec::new();
    let mut k: usize = git_dirs.len();
    assert(dirs.skip(k as int) =~= Seq::<Seq<char>>::empty());
    while k > 0
        invariant
            k <= git_dirs.len(),
            dirs == git_dirs@.map_values(|d: String| d@),
            items_view(items@) == project_items(dirs.skip(k as int)).reverse(),
        decreases k,
    {
        let ghost before = items@;
        let ghost tail = dirs.skip(k as int);
        let item = to_list_item(git_dirs[k - 1].clone());
        proof {
            assert(dirs.skip(k - 1).drop_first() =~= tail);
            assert(dirs.skip(k - 1)[0] == git_dirs@[k - 1]@);
        }
        match item {
            Some(i) => {
                let ghost iv = i@;
                items.push(i);
                proof {
                    assert(items_view(items@) =~= items_view(before).push(iv));
                    assert((seq![iv] + project_items(tail)).reverse() =~= project_items(tail).reverse().push(iv));
                }
            },
            None => {},
        }
        k = k - 1;
    }
    assert(dirs.skip(0) =~= dirs);
    let ghost listed = items@;
    let r = make_group("Git Repositories", "folder", items);
    assert(items_view(listed) == project_items(dirs).reverse() && grouped(r.items@, listed));
    r
}

} // verus!
