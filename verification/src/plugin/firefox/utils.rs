use vstd::prelude::*;
use crate::text::str_eq;

verus! {

/// A section of Firefox's profiles.ini.
#[derive(Debug)]
#[allow(inconsistent_fields)]
pub enum Section {
    Profile { name: String, is_relative: String, path: String, default: Option<String> },
    General { start_with_last_profile: String, version: Option<String> },
    Install { default: String, locked: String },
}

/// There is no profile section in profiles.ini.
#[derive(Debug, PartialEq, Eq)]
pub struct NoProfile;

/// The section is a profile marked as the default one ("Default=1").
pub open spec fn is_default_profile(s: Section) -> bool {
    s matches Section::Profile { default, .. } && match default {
        Some(d) => d@ == "1"@,
        None => false,
    }
}

/// The first section from `i` on for which `pred` holds.
pub open spec fn first_from(ss: Seq<Section>, pred: spec_fn(Section) -> bool, i: int) -> Option<int>
    decreases ss.len() - i,
{
    if i < 0 || i >= ss.len() {
        None
    } else if pred(ss[i]) {
        Some(i)
    } else {
        first_from(ss, pred, i + 1)
    }
}

/// The profile to use: the first default profile, or else the first profile.
pub open spec fn chosen_profile(ss: Seq<Section>) -> Option<int> {
    match first_from(ss, |s: Section| is_default_profile(s), 0) {
        Some(i) => Some(i),
        None => first_from(ss, |s: Section| s is Profile, 0),
    }
}

/// The directory of a profile: under the home's Firefox directory where
/// its path is relative ("IsRelative=1"), else its path as it stands.
pub open spec fn profile_directory(s: Section, home: Seq<char>) -> Seq<char> {
    match s {
        Section::Profile { is_relative, path, .. } => if is_relative@ == "1"@ {
            home + "/.mozilla/firefox/"@ + path@
        } else {
            path@
        },
        _ => Seq::empty(),
    }
}

/// Whether a section is a profile marked as the default one.
fn default_profile(s: &Section) -> (r: bool)
    ensures
        r == is_default_profile(*s),
{
    match s {
        Section::Profile { default, .. } => match default {
            Some(d) => str_eq(d.as_str(), "1"),
            None => false,
        },
        _ => false,
    }
}

/// The directory of the profile to use, from the sections of
/// profiles.ini in the order given, with `home` the home directory.
pub fn profile_path(home: &str, sections: &Vec<Section>) -> (r: Result<String, NoProfile>)
    ensures
        match chosen_profile(sections@) {
            Some(i) => r matches Ok(p) && p@ == profile_directory(sections@[i], home@),
            None => r is Err,
        },
{
    let ghost ss = sections@;
    let ghost is_default = |s: Section| is_default_profile(s);
    let ghost is_profile = |s: Section| s is Profile;
    let mut chosen: Option<usize> = None;
    let mut i: usize = 0;
    while i < sections.len()
        invariant_except_break
            chosen is None,
        invariant
            i <= sections.len(),
            ss == sections@,
            is_default == (|s: Section| is_default_profile(s)),
            first_from(ss, is_default, 0) == first_from(ss, is_default, i as int),
        ensures
            match chosen {
                Some(k) => first_from(ss, is_default, 0) == Some(k as int) && k < ss.len(),
                None => first_from(ss, is_default, 0) is None,
            },
        decreases sections.len() - i,
    {
        if default_profile(&sections[i]) {
            chosen = Some(i);
            break;
        }
        i = i + 1;
    }
    if chosen.is_none() {
        let mut j: usize = 0;
        while j < sections.len()
            invariant_except_break
                chosen is None,
            invariant
                j <= sections.len(),
                ss == sections@,
                is_profile == (|s: Section| s is Profile),
                first_from(ss, is_profile, 0) == first_from(ss, is_profile, j as int),
            ensures
                match chosen {
                    Some(k) => first_from(ss, is_profile, 0) == Some(k as int) && k < ss.len(),
                    None => first_from(ss, is_profile, 0) is None,
                },
            decreases sections.len() - j,
        {
            if let Section::Profile { .. } = &sections[j] {
                chosen = Some(j);
                break;
            }
            j = j + 1;
        }
    }
    match chosen {
        None => Err(NoProfile),
        Some(k) => match &sections[k] {
            Section::Profile { is_relative, path, .. } => {
                if str_eq(is_relative.as_str(), "1") {
                    let mut dir = String::from_str(home);
                    dir.append("/.mozilla/firefox/");
                    dir.append(path.as_str());
                    Ok(dir)
                } else {
                    Ok(path.clone())
                }
            },
            _ => {
                proof {
                    lemma_first_from_holds(ss, is_default, 0);
                    lemma_first_from_holds(ss, is_profile, 0);
                }
                Err(NoProfile)
            },
        },
    }
}

pub proof fn lemma_first_from_holds(ss: Seq<Section>, pred: spec_fn(Section) -> bool, i: int)
    ensures
        first_from(ss, pred, i) matches Some(k) ==> 0 <= k < ss.len() && pred(ss[k]),
    decreases ss.len() - i,
{
    if !(i < 0 || i >= ss.len()) && !pred(ss[i]) {
        lemma_first_from_holds(ss, pred, i + 1);
    }
}

} // verus!
