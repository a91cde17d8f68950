//! The projects that the user has opened, by their directories.

use crate::json;
use crate::pairs;
use crate::text::{chars_of, starts_with};
use vstd::prelude::*;

verus! {

/// What `str::to_lowercase` makes of a text.
pub uninterp spec fn lowercase(s: Seq<char>) -> Seq<char>;

/// `str::to_lowercase`: the text in lower case, by the rules of Unicode.
#[verifier::external_body]
fn to_lower(s: &str) -> (r: String)
    ensures
        r@ == lowercase(s@),
{
    s.to_lowercase()
}

/// A text with every slash replaced by a backslash.
pub open spec fn backslashed(s: Seq<char>) -> Seq<char> {
    s.map_values(
        |c: char|
            if c == '/' {
                '\\'
            } else {
                c
            },
    )
}

/// Whether a path lies under a directory, by how the two texts begin once slashes
/// and backslashes are the same. Both are in lower case.
pub open spec fn begins_with_dir(path: Seq<char>, dir: Seq<char>) -> bool {
    backslashed(dir).is_prefix_of(backslashed(path))
}

/// The place of the directory that a path lies under: the longest such, and of
/// equally long ones the first. All are in lower case.
pub open spec fn longest_dir(dirs: Seq<Seq<char>>, path: Seq<char>) -> Option<int>
    decreases dirs.len(),
{
    if dirs.len() == 0 {
        None
    } else {
        let best = longest_dir(dirs.drop_last(), path);
        if begins_with_dir(path, dirs.last()) && (match best {
            Some(i) => dirs.last().len() > dirs[i].len(),
            None => true,
        }) {
            Some(dirs.len() - 1)
        } else {
            best
        }
    }
}

/// The directories of projects, in lower case.
pub open spec fn lower_dirs(projects: Seq<(Seq<char>, Seq<char>)>) -> Seq<Seq<char>> {
    projects.map_values(|project: (Seq<char>, Seq<char>)| lowercase(project.0))
}

/// The directory of the project that a path belongs to: the longest that the path
/// lies under, upper and lower case being the same. An empty path belongs to none.
pub open spec fn project_path_of(
    projects: Seq<(Seq<char>, Seq<char>)>,
    path: Seq<char>,
) -> Option<Seq<char>> {
    if path.len() == 0 {
        None
    } else {
        match longest_dir(lower_dirs(projects), lowercase(path)) {
            Some(i) => Some(projects[i].0),
            None => None,
        }
    }
}

/// The names of the projects in a text, by their directories. What is no JSON
/// holds none.
pub open spec fn projects_in(raw: Option<Seq<char>>) -> Map<Seq<char>, Seq<char>> {
    match raw {
        Some(text) => match json::parsed_json(text) {
            Some(value) => match value.member("projects"@) {
                Some(list) => list.str_members(),
                None => Map::empty(),
            },
            None => Map::empty(),
        },
        None => Map::empty(),
    }
}

/// The projects in a text, each with its directory; `None` stands for a text
/// that could not be had.
pub fn read_projects(raw: Option<&str>) -> (r: Vec<(String, String)>)
    ensures
        pairs::pairs_map(r.deep_view()) == projects_in(raw.deep_view()),
        pairs::distinct_keys(r.deep_view()),
{
    match raw {
        Some(text) => match json::value_from_str(text) {
            Some(value) => match json::member(&value, "projects") {
                Some(list) => json::str_members(list),
                None => Vec::new(),
            },
            None => Vec::new(),
        },
        None => Vec::new(),
    }
}

/// A copy of projects.
pub(crate) fn copy_projects(projects: &Vec<(String, String)>) -> (r: Vec<(String, String)>)
    ensures
        r.deep_view() == projects.deep_view(),
{
    let mut out: Vec<(String, String)> = Vec::new();
    let mut i: usize = 0;
    while i < projects.len()
        invariant
            i <= projects@.len(),
            out@.len() == i,
            forall|j: int|
                #![trigger out@[j]]
                0 <= j < i ==> out@[j].deep_view() == projects@[j].deep_view(),
        decreases projects@.len() - i,
    {
        out.push((projects[i].0.clone(), projects[i].1.clone()));
        i = i + 1;
    }
    assert(out.deep_view() =~= projects.deep_view());
    out
}

fn to_backslashes(path: &str) -> (r: Vec<char>)
    ensures
        r@ == backslashed(path@),
{
    let chars = chars_of(path);
    let mut out: Vec<char> = Vec::new();
    let mut i: usize = 0;
    while i < chars.len()
        invariant
            chars@ == path@,
            i <= chars@.len(),
            out@ == backslashed(chars@.take(i as int)),
        decreases chars@.len() - i,
    {
        let c = if chars[i] == '/' {
            '\\'
        } else {
            chars[i]
        };
        out.push(c);
        i = i + 1;
        assert(out@ =~= backslashed(chars@.take(i as int)));
    }
    assert(chars@.take(i as int) =~= chars@);
    out
}

/// The place of the directory that a path lies under: the longest such, and of
/// equally long ones the first. All are in lower case.
pub fn find_longest_dir(dirs: &Vec<String>, path: &str) -> (r: Option<usize>)
    ensures
        match r {
            Some(i) => longest_dir(dirs.deep_view(), path@) == Some(i as int) && i < dirs@.len(),
            None => longest_dir(dirs.deep_view(), path@) is None,
        },
{
    let ghost all = dirs.deep_view();
    let wanted = to_backslashes(path);
    let mut best: Option<usize> = None;
    let mut best_len: usize = 0;
    let mut i: usize = 0;
    while i < dirs.len()
        invariant
            i <= dirs@.len(),
            all == dirs.deep_view(),
            wanted@ == backslashed(path@),
            match best {
                Some(k) => {
                    &&& k < i
                    &&& longest_dir(all.take(i as int), path@) == Some(k as int)
                    &&& best_len == all[k as int].len()
                },
                None => longest_dir(all.take(i as int), path@) is None,
            },
        decreases dirs@.len() - i,
    {
        let ghost next = all.take(i + 1);
        assert(next.drop_last() =~= all.take(i as int));
        assert(next.last() == dirs@[i as int]@);
        let dir = to_backslashes(dirs[i].as_str());
        if starts_with(wanted.as_slice(), dir.as_slice()) && (best.is_none() || dir.len()
            > best_len) {
            best = Some(i);
            best_len = dir.len();
        }
        i = i + 1;
    }
    assert(all.take(i as int) =~= all);
    best
}

/// The directory of the project that a path belongs to.
pub fn find_project_path(projects: &Vec<(String, String)>, path: &str) -> (r: Option<String>)
    ensures
        r.deep_view() == project_path_of(projects.deep_view(), path@),
{
    if path.is_empty() {
        return None;
    }
    let mut dirs: Vec<String> = Vec::new();
    let mut i: usize = 0;
    while i < projects.len()
        invariant
            i <= projects@.len(),
            dirs@.len() == i,
            forall|j: int|
                #![trigger dirs@[j]]
                0 <= j < i ==> dirs@[j]@ == lowercase(projects@[j].0@),
        decreases projects@.len() - i,
    {
        dirs.push(to_lower(projects[i].0.as_str()));
        i = i + 1;
    }
    assert(dirs.deep_view() =~= lower_dirs(projects.deep_view()));
    match find_longest_dir(&dirs, to_lower(path).as_str()) {
        Some(k) => Some(projects[k].0.clone()),
        None => None,
    }
}

} // verus!
