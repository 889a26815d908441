//! The index of git repositories: the repositories whose git directories a
//! search of the home directory found.

use vstd::prelude::*;
use crate::model::strings_view;
use crate::text::{chars_of, opt_view, str_eq, strip_suffix_of, without_suffix};

verus! {

/// The directories the search of the home directory keeps: git
/// directories, and those whose name does not start with a dot.
pub open spec fn searched_name(name: Seq<char>) -> bool {
    name == ".git"@ || !(name.len() > 0 && name[0] == '.')
}

/// Whether the search keeps a directory with this name.
pub fn is_searched(name: &str) -> (r: bool)
    ensures
        r == searched_name(name@),
{
    if str_eq(name, ".git") {
        return true;
    }
    let cs = chars_of(name);
    !(cs.len() > 0 && cs[0] == '.')
}

/// The repositories of the git directories, in order: each directory path
/// without its "/.git" at the end; paths that do not end so are left out.
pub open spec fn repository_paths(git_dirs: Seq<Seq<char>>) -> Seq<Seq<char>>
    decreases git_dirs.len(),
{
    if git_dirs.len() == 0 {
        Seq::empty()
    } else {
        let rest = repository_paths(git_dirs.drop_last());
        match without_suffix(git_dirs.last(), "/.git"@) {
            Some(p) => rest.push(p),
            None => rest,
        }
    }
}

/// Each repository listed is the directory of a git directory found: with
/// "/.git" added it is one of them; and every git directory found that
/// ends in "/.git" has its repository listed.
pub proof fn lemma_repository_paths(git_dirs: Seq<Seq<char>>)
    ensures
        forall|k: int| 0 <= k < repository_paths(git_dirs).len() ==> git_dirs.contains(
            #[trigger] repository_paths(git_dirs)[k] + "/.git"@,
        ),
        forall|j: int| 0 <= j < git_dirs.len() && (#[trigger] without_suffix(git_dirs[j], "/.git"@)) is Some
            ==> repository_paths(git_dirs).contains(without_suffix(git_dirs[j], "/.git"@).unwrap()),
    decreases git_dirs.len(),
{
    if git_dirs.len() > 0 {
        let init = git_dirs.drop_last();
        let last = git_dirs.last();
        lemma_repository_paths(init);
        let rest = repository_paths(init);
        let r = repository_paths(git_dirs);
        assert forall|k: int| 0 <= k < r.len() implies git_dirs.contains(#[trigger] r[k] + "/.git"@) by {
            if k < rest.len() {
                assert(r[k] == rest[k]);
                let j = choose|j: int| 0 <= j < init.len() && init[j] == rest[k] + "/.git"@;
                assert(git_dirs[j] == init[j]);
            } else {
                let p = without_suffix(last, "/.git"@).unwrap();
                assert(r[k] == p);
                assert(p + "/.git"@ =~= last);
                assert(git_dirs[git_dirs.len() - 1] == last);
            }
        }
        assert forall|j: int| 0 <= j < git_dirs.len() && (#[trigger] without_suffix(git_dirs[j], "/.git"@)) is Some
            implies r.contains(without_suffix(git_dirs[j], "/.git"@).unwrap()) by {
            let x = without_suffix(git_dirs[j], "/.git"@).unwrap();
            if j < git_dirs.len() - 1 {
                assert(init[j] == git_dirs[j]);
                assert(rest.contains(x));
                let k = choose|k: int| 0 <= k < rest.len() && rest[k] == x;
                assert(r[k] == x);
            } else {
                assert(r[r.len() - 1] == x);
            }
        }
    }
}

/// The repositories of the git directories that the search found.
pub fn git_repository_paths(git_dirs: &Vec<String>) -> (r: Vec<String>)
    ensures
        strings_view(r@) == repository_paths(strings_view(git_dirs@)),
{
    let ghost all = strings_view(git_dirs@);
    let mut r: Vec<String> = Vec::new();
    let mut i: usize = 0;
    while i < git_dirs.len()
        invariant
            i <= git_dirs.len(),
            all == strings_view(git_dirs@),
            strings_view(r@) == repository_paths(all.subrange(0, i as int)),
        decreases git_dirs.len() - i,
    {
        proof {
            let s = all.subrange(0, i + 1);
            assert(s.drop_last() =~= all.subrange(0, i as int));
            assert(s.last() == git_dirs@[i as int]@);
        }
        match strip_suffix_of(git_dirs[i].as_str(), "/.git") {
            Some(p) => {
                let ghost r0 = strings_view(r@);
                r.push(p);
                assert(strings_view(r@) =~= r0.push(p@));
            },
            None => {},
        }
        i = i + 1;
    }
    assert(all.subrange(0, git_dirs.len() as int) =~= all);
    r
}

} // verus!
