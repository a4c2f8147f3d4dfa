//! Locating the project's Mago configuration file.

use vstd::prelude::*;

verus! {

/// The names of Mago's configuration files, in the order in which they are
/// looked for in a directory.
pub open spec fn config_file_names() -> Seq<Seq<char>> {
    seq!["mago.toml"@, "mago.yaml"@, "mago.json"@]
}

/// The names of Mago's configuration files, in the order in which they are
/// looked for.
pub fn mago_config_files() -> (r: Vec<&'static str>)
    ensures
        r@.len() == 3,
        forall|i: int| 0 <= i < 3 ==> #[trigger] r@[i]@ == config_file_names()[i],
{
    let r = vec!["mago.toml", "mago.yaml", "mago.json"];
    assert(r@[0]@ == config_file_names()[0]);
    assert(r@[1]@ == config_file_names()[1]);
    assert(r@[2]@ == config_file_names()[2]);
    r
}

/// `r` is the first present entry of `candidates`, `None` when none is.
pub open spec fn is_first_present(candidates: Seq<Option<String>>, r: Option<String>) -> bool {
    match r {
        Some(p) => exists|i: int| {
            &&& 0 <= i < candidates.len()
            &&& #[trigger] candidates[i] == Some(p)
            &&& forall|j: int| 0 <= j < i ==> candidates[j] is None
        },
        None => forall|j: int| 0 <= j < candidates.len() ==> candidates[j] is None,
    }
}

/// Picks the configuration file to use: `candidates[i]` is the path of the
/// `i`-th configuration file name in the directory searched, present when the
/// file exists and its path is valid Unicode. The first present one wins.
pub fn select_config(candidates: &Vec<Option<String>>) -> (r: Option<String>)
    ensures
        is_first_present(candidates@, r),
{
    let mut i: usize = 0;
    while i < candidates.len()
        invariant
            i <= candidates@.len(),
            forall|j: int| 0 <= j < i ==> candidates@[j] is None,
        decreases candidates@.len() - i,
    {
        match &candidates[i] {
            Some(p) => {
                let r = Some(p.clone());
                assert(candidates@[i as int] == r);
                return r;
            },
            None => {},
        }
        i = i + 1;
    }
    None
}

/// The names whose presence in a directory marks it as a project root, in
/// the order in which they are looked for.
pub open spec fn project_marker_names() -> Seq<Seq<char>> {
    seq!["composer.json"@, "mago.toml"@, ".git"@]
}

/// The names whose presence in a directory marks it as a project root.
pub fn project_markers() -> (r: Vec<&'static str>)
    ensures
        r@.len() == 3,
        forall|i: int| 0 <= i < 3 ==> #[trigger] r@[i]@ == project_marker_names()[i],
{
    let r = vec!["composer.json", "mago.toml", ".git"];
    assert(r@[0]@ == project_marker_names()[0]);
    assert(r@[1]@ == project_marker_names()[1]);
    assert(r@[2]@ == project_marker_names()[2]);
    r
}

/// `r` is the project root chosen among `ancestors` (each a directory and
/// whether it holds a project marker, nearest first): the first marked one;
/// where none is, the workspace root, or else the current directory.
pub open spec fn is_project_root<P>(ancestors: Seq<(P, bool)>, workspace_root: Option<P>, current_dir: P, r: P) -> bool {
    if exists|i: int| 0 <= i < ancestors.len() && ancestors[i].1 {
        exists|i: int| {
            &&& 0 <= i < ancestors.len()
            &&& #[trigger] ancestors[i].1
            &&& r == ancestors[i].0
            &&& forall|j: int| 0 <= j < i ==> !ancestors[j].1
        }
    } else {
        r == match workspace_root {
            Some(w) => w,
            None => current_dir,
        }
    }
}

/// Picks the project root of a file from its ancestor directories, nearest
/// first, each with whether it holds one of the project markers; the
/// workspace root, or else the current directory, where none does.
pub fn select_project_root<P>(ancestors: Vec<(P, bool)>, workspace_root: Option<P>, current_dir: P) -> (r: P)
    ensures
        is_project_root(ancestors@, workspace_root, current_dir, r),
{
    let mut dirs = ancestors;
    let ghost all = dirs@;
    let mut i: usize = 0;
    while i < dirs.len()
        invariant
            dirs@ == all,
            all == ancestors@,
            i <= all.len(),
            forall|j: int| 0 <= j < i ==> !all[j].1,
        decreases all.len() - i,
    {
        if dirs[i].1 {
            let entry = dirs.remove(i);
            assert(0 <= i < all.len() && all[i as int].1);
            return entry.0;
        }
        i = i + 1;
    }
    match workspace_root {
        Some(w) => w,
        None => current_dir,
    }
}

} // verus!
