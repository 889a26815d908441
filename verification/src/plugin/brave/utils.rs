use vstd::prelude::*;
use crate::model::{Entry, EntryView, entries_view, strings_view};

verus! {

/// A node of the browser's bookmark tree: a folder or a link.
#[derive(Debug)]
pub enum Bookmark {
    Folder(FolderBookark),
    Url(UrlBookmark),
}

/// A named folder of bookmarks.
#[derive(Debug)]
pub struct FolderBookark {
    pub name: String,
    pub children: Vec<Bookmark>,
}

/// A named link.
#[derive(Debug)]
pub struct UrlBookmark {
    pub name: String,
    pub url: String,
}

/// The three roots of the bookmarks file.
#[derive(Debug)]
pub struct BookmarksRoot {
    pub bookmark_bar: Bookmark,
    pub other: Bookmark,
    pub synced: Bookmark,
}

/// The first folder named `name` in a depth-first walk that visits a
/// folder before its children, the children in order.
pub open spec fn find_folder(b: Bookmark, name: Seq<char>) -> Option<Bookmark>
    decreases b,
{
    match b {
        Bookmark::Folder(f) => if f.name@ == name {
            Some(b)
        } else {
            find_folder_in(f.children@, name, 0)
        },
        Bookmark::Url(_) => None,
    }
}

/// The first folder named `name` among the trees `children[i..]`.
pub open spec fn find_folder_in(children: Seq<Bookmark>, name: Seq<char>, i: int) -> Option<Bookmark>
    decreases children, children.len() - i,
{
    if i < 0 || i >= children.len() {
        None
    } else {
        match find_folder(children[i], name) {
            Some(found) => Some(found),
            None => find_folder_in(children, name, i + 1),
        }
    }
}

/// The links in a tree, in depth-first order, leaving out every folder
/// whose name is among `exclude` together with all it holds.
pub open spec fn links(b: Bookmark, exclude: Seq<Seq<char>>) -> Seq<UrlBookmark>
    decreases b,
{
    match b {
        Bookmark::Folder(f) => if exclude.contains(f.name@) {
            Seq::empty()
        } else {
            links_in(f.children@, exclude, 0)
        },
        Bookmark::Url(u) => seq![u],
    }
}

/// The links in the trees `children[i..]`, tree after tree.
pub open spec fn links_in(children: Seq<Bookmark>, exclude: Seq<Seq<char>>, i: int) -> Seq<UrlBookmark>
    decreases children, children.len() - i,
{
    if i < 0 || i >= children.len() {
        Seq::empty()
    } else {
        links(children[i], exclude) + links_in(children, exclude, i + 1)
    }
}

/// The folder that a search by name finds is a folder with that name.
pub proof fn lemma_found_folder_has_name(b: Bookmark, name: Seq<char>)
    ensures
        find_folder(b, name) matches Some(found) ==> (found matches Bookmark::Folder(f) && f.name@ == name),
    decreases b,
{
    match b {
        Bookmark::Folder(f) => if f.name@ != name {
            lemma_found_folder_in_has_name(f.children@, name, 0);
        },
        Bookmark::Url(_) => {},
    }
}

proof fn lemma_found_folder_in_has_name(children: Seq<Bookmark>, name: Seq<char>, i: int)
    ensures
        find_folder_in(children, name, i) matches Some(found) ==> (found matches Bookmark::Folder(f) && f.name@ == name),
    decreases children, children.len() - i,
{
    if 0 <= i < children.len() {
        assert(decreases_to!(children => children[i]));
        lemma_found_folder_has_name(children[i], name);
        lemma_found_folder_in_has_name(children, name, i + 1);
    }
}

/// Whether `name` is among `names`.
pub fn contains_name(names: &Vec<String>, name: &String) -> (r: bool)
    ensures
        r == strings_view(names@).contains(name@),
{
    let ghost views = strings_view(names@);
    let mut i: usize = 0;
    while i < names.len()
        invariant
            i <= names.len(),
            views == strings_view(names@),
            forall|k: int| 0 <= k < i ==> views[k] != name@,
        decreases names.len() - i,
    {
        if names[i] == *name {
            assert(views[i as int] == name@);
            return true;
        }
        i = i + 1;
    }
    false
}

/// The folder found is a folder with the name asked for; a folder with
/// that name is itself what is found.
pub proof fn lemma_find_folder_named(b: Bookmark, name: Seq<char>)
    ensures
        find_folder(b, name) matches Some(f) ==> (f matches Bookmark::Folder(ff) && ff.name@ == name),
        (b matches Bookmark::Folder(ff) && ff.name@ == name) ==> find_folder(b, name) == Some(b),
    decreases b,
{
    match b {
        Bookmark::Folder(f) => {
            if f.name@ != name {
                lemma_find_folder_in_named(f.children@, name, 0);
            }
        },
        Bookmark::Url(_) => {},
    }
}

proof fn lemma_find_folder_in_named(children: Seq<Bookmark>, name: Seq<char>, i: int)
    ensures
        find_folder_in(children, name, i) matches Some(f) ==> (f matches Bookmark::Folder(ff) && ff.name@ == name),
    decreases children, children.len() - i,
{
    if 0 <= i < children.len() {
        lemma_find_folder_named(children[i], name);
        lemma_find_folder_in_named(children, name, i + 1);
    }
}

/// A bookmark is listed under its link, which the browser opens, and
/// shown by its name.
pub proof fn lemma_url_entry(u: UrlBookmark)
    ensures
        url_entry(u).id == u.url@,
        url_entry(u).title == u.name@,
        url_entry(u).action == "open"@,
{
}

impl Bookmark {
    /// The first folder with the given name, searching the tree depth
    /// first, a folder before its children.
    pub fn find_bookmarks_folder_recursive(&self, folder_name: &String) -> (r: Option<&Bookmark>)
        ensures
            r matches Some(found) ==> find_folder(*self, folder_name@) == Some(*found),
            r is None ==> find_folder(*self, folder_name@) is None,
        decreases self,
    {
        match self {
            Bookmark::Folder(folder) => {
                if folder.name == *folder_name {
                    return Some(self);
                }
                let mut i: usize = 0;
                while i < folder.children.len()
                    invariant
                        i <= folder.children.len(),
                        *self == Bookmark::Folder(*folder),
                        folder.name@ != folder_name@,
                        find_folder(*self, folder_name@) == find_folder_in(folder.children@, folder_name@, i as int),
                    decreases folder.children.len() - i,
                {
                    let child = &folder.children[i];
                    assert(decreases_to!(*self => *child));
                    let found = child.find_bookmarks_folder_recursive(folder_name);
                    if found.is_some() {
                        return found;
                    }
                    i = i + 1;
                }
                None
            },
            Bookmark::Url(_bookmark) => None,
        }
    }

    /// The links of the tree in depth-first order, skipping the folders
    /// named in `exclude_folders` with everything in them.
    pub fn get_bookmarks_recursive(&self, exclude_folders: &Vec<String>) -> (r: Vec<&UrlBookmark>)
        ensures
            r@.len() == links(*self, strings_view(exclude_folders@)).len(),
            forall|k: int| 0 <= k < r@.len() ==> *r@[k] == #[trigger] links(*self, strings_view(exclude_folders@))[k],
        decreases self,
    {
        let ghost ex = strings_view(exclude_folders@);
        match self {
            Bookmark::Folder(folder) => {
                if contains_name(exclude_folders, &folder.name) {
                    return Vec::new();
                }
                let mut r: Vec<&UrlBookmark> = Vec::new();
                let mut i: usize = 0;
                while i < folder.children.len()
                    invariant
                        i <= folder.children.len(),
                        *self == Bookmark::Folder(*folder),
                        !ex.contains(folder.name@),
                        ex == strings_view(exclude_folders@),
                        links(*self, ex) == ({
                            let done = r@.map_values(|u: &UrlBookmark| *u);
                            done + links_in(folder.children@, ex, i as int)
                        }),
                    decreases folder.children.len() - i,
                {
                    let child = &folder.children[i];
                    assert(decreases_to!(*self => *child));
                    let found = child.get_bookmarks_recursive(exclude_folders);
                    let ghost before = r@;
                    let mut k: usize = 0;
                    while k < found.len()
                        invariant
                            k <= found.len(),
                            r@ == before + found@.subrange(0, k as int),
                        decreases found.len() - k,
                    {
                        r.push(found[k]);
                        k = k + 1;
                    }
                    proof {
                        let l = links(folder.children@[i as int], ex);
                        assert(found@.map_values(|u: &UrlBookmark| *u) =~= l);
                        assert(r@.map_values(|u: &UrlBookmark| *u) =~= before.map_values(|u: &UrlBookmark| *u) + l);
                        assert(links_in(folder.children@, ex, i as int) == l + links_in(folder.children@, ex, i + 1));
                        assert(before.map_values(|u: &UrlBookmark| *u) + (l + links_in(folder.children@, ex, i + 1))
                            =~= before.map_values(|u: &UrlBookmark| *u) + l + links_in(folder.children@, ex, i + 1));
                    }
                    i = i + 1;
                }
                proof {
                    assert(r@.map_values(|u: &UrlBookmark| *u) + links_in(folder.children@, ex, i as int)
                        =~= r@.map_values(|u: &UrlBookmark| *u));
                }
                r
            },
            Bookmark::Url(url_bookmark) => {
                let mut r: Vec<&UrlBookmark> = Vec::new();
                r.push(url_bookmark);
                r
            },
        }
    }

    /// The single folder named "roots" that holds the three roots of the
    /// bookmarks file.
    pub fn from_root(root: BookmarksRoot) -> (r: Bookmark)
        ensures
            r matches Bookmark::Folder(f) && f.name@ == "roots"@ && f.children@ == seq![
                root.bookmark_bar,
                root.other,
                root.synced,
            ],
    {
        let mut children = Vec::new();
        children.push(root.bookmark_bar);
        children.push(root.other);
        children.push(root.synced);
        Bookmark::Folder(FolderBookark { name: String::from_str("roots"), children })
    }
}

impl UrlBookmark {
    /// The launcher entry of a bookmark: it opens the link.
    pub fn to_entry(&self) -> (r: Entry)
        ensures
            r.id@ == self.url@,
            r.title@ == self.name@,
            r.action@ == "open"@,
            r.meta@ == "Bookmarks"@,
            r.command is None,
    {
        Entry {
            id: self.url.clone(),
            title: self.name.clone(),
            action: String::from_str("open"),
            meta: String::from_str("Bookmarks"),
            command: None,
        }
    }
}


/// The view of the entry of a bookmark.
pub open spec fn url_entry(u: UrlBookmark) -> EntryView {
    EntryView { id: u.url@, title: u.name@, action: "open"@, meta: "Bookmarks"@, command: None }
}

/// The entries of a list of bookmarks, in order.
pub fn url_entries(links: &Vec<&UrlBookmark>) -> (r: Vec<Entry>)
    ensures
        entries_view(r@) == links@.map_values(|u: &UrlBookmark| url_entry(*u)),
{
    let mut r: Vec<Entry> = Vec::new();
    let mut i: usize = 0;
    while i < links.len()
        invariant
            i <= links.len(),
            entries_view(r@) == links@.subrange(0, i as int).map_values(|u: &UrlBookmark| url_entry(*u)),
        decreases links.len() - i,
    {
        let e = links[i].to_entry();
        assert(e@ == url_entry(*links@[i as int]));
        let ghost r0 = r@;
        r.push(e);
        assert(entries_view(r@) =~= entries_view(r0).push(url_entry(*links@[i as int])));
        assert(links@.subrange(0, i + 1) =~= links@.subrange(0, i as int).push(links@[i as int]));
        assert(entries_view(r@) =~= links@.subrange(0, i + 1).map_values(|u: &UrlBookmark| url_entry(*u)));
        i = i + 1;
    }
    assert(links@.subrange(0, links.len() as int) =~= links@);
    r
}

} // verus!
