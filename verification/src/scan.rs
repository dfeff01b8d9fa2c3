//! Finding projects under the projects root, one directory at a time: the
//! caller lists each directory the scan asks for, and the scan decides what
//! it holds, whether it is a project, and which directories come next.
use crate::collections::{views, PathSet};
use crate::projects::{is_skipped_scan_dir, should_skip_project_scan_dir, Project};
use crate::text::{contains_seq, contains_str, opt_str, str_eq};
use vstd::prelude::*;
use vstd::string::*;

verus! {

/// An entry of a listed directory.
#[derive(Debug)]
pub struct ScanEntry {
    /// Its file name, when it is valid UTF-8.
    pub name: Option<String>,
    pub is_dir: bool,
    /// Its full path.
    pub path: String,
}

/// What a directory's listing tells.
#[derive(Debug)]
pub struct DirSummary {
    /// It holds a `.git` directory.
    pub has_git_dir: bool,
    /// It holds a `Cargo.toml` file.
    pub has_cargo_toml: bool,
    /// The directories to look into, in listing order: all but `.git` and
    /// the skipped ones (see `is_skipped_scan_dir`).
    pub children: Vec<String>,
}

/// The entry is the directory `.git`.
pub open spec fn is_git_dir(e: ScanEntry) -> bool {
    e.is_dir && opt_str(e.name) == Some(".git"@)
}

/// The entry is the file `Cargo.toml`.
pub open spec fn is_manifest(e: ScanEntry) -> bool {
    !e.is_dir && opt_str(e.name) == Some("Cargo.toml"@)
}

/// The entry is a directory to look into.
pub open spec fn is_child_dir(e: ScanEntry) -> bool {
    e.is_dir && !is_git_dir(e) && !(opt_str(e.name) matches Some(n) && is_skipped_scan_dir(n))
}

/// The paths of the directories to look into, in listing order.
pub open spec fn child_paths(es: Seq<ScanEntry>) -> Seq<Seq<char>>
    decreases es.len(),
{
    if es.len() == 0 {
        Seq::empty()
    } else if is_child_dir(es.last()) {
        child_paths(es.drop_last()).push(es.last().path@)
    } else {
        child_paths(es.drop_last())
    }
}

/// A path among `child_paths(es)` is the path of an entry that is a
/// directory to look into.
pub proof fn lemma_child_path_entry(es: Seq<ScanEntry>, p: Seq<char>)
    requires
        child_paths(es).contains(p),
    ensures
        exists|k: int| 0 <= k < es.len() && is_child_dir(#[trigger] es[k]) && es[k].path@ == p,
    decreases es.len(),
{
    let last = es.len() - 1;
    if is_child_dir(es.last()) && es.last().path@ == p {
        assert(is_child_dir(es[last]) && es[last].path@ == p);
    } else {
        let rest = es.drop_last();
        if is_child_dir(es.last()) {
            let i = choose|i: int| 0 <= i < child_paths(es).len() && child_paths(es)[i] == p;
            assert(i < child_paths(rest).len());
            assert(child_paths(rest)[i] == p);
        }
        lemma_child_path_entry(rest, p);
        let k = choose|k: int| 0 <= k < rest.len() && is_child_dir(#[trigger] rest[k]) && rest[k].path@ == p;
        assert(es[k] == rest[k]);
    }
}

/// What a directory's listing tells (see `DirSummary`).
pub fn summarize_listing(entries: &Vec<ScanEntry>) -> (r: DirSummary)
    ensures
        r.has_git_dir == exists|k: int| 0 <= k < entries@.len() && is_git_dir(#[trigger] entries@[k]),
        r.has_cargo_toml == exists|k: int| 0 <= k < entries@.len() && is_manifest(#[trigger] entries@[k]),
        views(r.children@) == child_paths(entries@),
{
    let mut has_git_dir = false;
    let mut has_cargo_toml = false;
    let mut children: Vec<String> = Vec::new();
    let mut i: usize = 0;
    while i < entries.len()
        invariant
            i <= entries@.len(),
            has_git_dir == exists|k: int| 0 <= k < i && is_git_dir(#[trigger] entries@[k]),
            has_cargo_toml == exists|k: int| 0 <= k < i && is_manifest(#[trigger] entries@[k]),
            views(children@) == child_paths(entries@.take(i as int)),
        decreases entries@.len() - i,
    {
        proof {
            assert(entries@.take(i + 1).drop_last() =~= entries@.take(i as int));
            assert(entries@.take(i + 1).last() == entries@[i as int]);
        }
        let e = &entries[i];
        let git = e.is_dir && match &e.name {
            Some(n) => str_eq(n.as_str(), ".git"),
            None => false,
        };
        let manifest = !e.is_dir && match &e.name {
            Some(n) => str_eq(n.as_str(), "Cargo.toml"),
            None => false,
        };
        let skipped = match &e.name {
            Some(n) => should_skip_project_scan_dir(n.as_str()),
            None => false,
        };
        if git {
            has_git_dir = true;
        }
        if manifest {
            has_cargo_toml = true;
        }
        if e.is_dir && !git && !skipped {
            let ghost before = views(children@);
            children.push(e.path.clone());
            assert(views(children@) =~= before.push(e.path@));
        }
        i += 1;
    }
    assert(entries@.take(entries@.len() as int) =~= entries@);
    DirSummary { has_git_dir, has_cargo_toml, children }
}

/// A manifest declares a workspace when its text holds `[workspace]`; one
/// that could not be read does not.
pub fn is_workspace_manifest(text: Option<String>) -> (r: bool)
    ensures
        r == (opt_str(text) matches Some(t) && contains_seq(t, "[workspace]"@)),
{
    match text {
        Some(t) => contains_str(t.as_str(), "[workspace]"),
        None => false,
    }
}

/// A listed directory is a workspace root when it holds a `Cargo.toml`
/// whose text, `manifest`, declares a workspace.
pub open spec fn listing_is_workspace(listing: Option<DirSummary>, manifest: Option<Seq<char>>) -> bool {
    &&& listing matches Some(l)
    &&& l.has_cargo_toml
    &&& manifest matches Some(t)
    &&& contains_seq(t, "[workspace]"@)
}

/// Whether a directory with this listing and manifest text is a workspace
/// root (see `listing_is_workspace`).
pub fn is_workspace_listing(listing: &Option<DirSummary>, manifest: Option<String>) -> (r: bool)
    ensures
        r == listing_is_workspace(*listing, opt_str(manifest)),
{
    match listing {
        Some(l) => l.has_cargo_toml && is_workspace_manifest(manifest),
        None => false,
    }
}

/// A scan of the directories under a root, depth first.
pub struct ProjectScan {
    /// Directories still to look into; the last one comes next.
    pub pending: Vec<String>,
    /// The projects found, in the order found.
    pub projects: Vec<Project>,
    /// The directories already taken as projects.
    pub seen: PathSet,
}

/// What looking into the directory `dir` (named `dir_name`, when its name is
/// valid UTF-8) does to the scan: with no listing (it could not be read)
/// nothing; otherwise a directory holding `.git` or `Cargo.toml` and not
/// seen before is seen and, when it has a name, found as a project; unless
/// it is a workspace root, its child directories are looked into next, in
/// listing order.
pub open spec fn dir_recorded(
    pre: ProjectScan,
    post: ProjectScan,
    dir: Seq<char>,
    dir_name: Option<Seq<char>>,
    listing: Option<DirSummary>,
    is_workspace: bool,
) -> bool {
    match listing {
        None => post == pre,
        Some(l) => {
            let marks = l.has_git_dir || l.has_cargo_toml;
            let fresh = marks && !pre.seen@.contains(dir);
            &&& post.seen@ == if marks {
                pre.seen@.insert(dir)
            } else {
                pre.seen@
            }
            &&& post.projects@ == if fresh && dir_name is Some {
                pre.projects@.push(
                    Project {
                        name: post.projects@.last().name,
                        path: post.projects@.last().path,
                        has_git_dir: l.has_git_dir,
                        is_workspace,
                    },
                )
            } else {
                pre.projects@
            }
            &&& fresh && dir_name is Some ==> post.projects@.last().name@ == dir_name->0
                && post.projects@.last().path@ == dir
            &&& views(post.pending@) == if is_workspace {
                views(pre.pending@)
            } else {
                views(pre.pending@) + views(l.children@).reverse()
            }
        },
    }
}

/// One step of a walk: the directory `dir` that came next was taken off the
/// pending ones and looked into, with `listing` (none when unreadable) and
/// `is_workspace` telling whether it is a workspace root. Its children, in
/// listing order, come next unless it is one; at most the project at `dir`
/// was found.
pub open spec fn scan_step(
    pre: ProjectScan,
    post: ProjectScan,
    dir: Seq<char>,
    listing: Option<DirSummary>,
    is_workspace: bool,
) -> bool {
    let pend = views(pre.pending@);
    &&& pend.len() > 0
    &&& dir == pend.last()
    &&& views(post.pending@) == match listing {
        Some(l) => if is_workspace {
            pend.drop_last()
        } else {
            pend.drop_last() + views(l.children@).reverse()
        },
        None => pend.drop_last(),
    }
    &&& post.projects@ == pre.projects@ || (post.projects@.len() == pre.projects@.len() + 1
        && post.projects@.drop_last() == pre.projects@ && post.projects@.last().path@ == dir)
}

/// `next_dir` then `record_dir` make one step of a walk (see `scan_step`).
pub proof fn lemma_next_and_record_step(
    pre: ProjectScan,
    mid: ProjectScan,
    post: ProjectScan,
    dir: Seq<char>,
    dir_name: Option<Seq<char>>,
    listing: Option<DirSummary>,
    is_workspace: bool,
)
    requires
        pre.pending@.len() > 0,
        dir == pre.pending@.last()@,
        mid.pending@ == pre.pending@.drop_last(),
        mid.projects == pre.projects,
        dir_recorded(mid, post, dir, dir_name, listing, is_workspace),
    ensures
        scan_step(pre, post, dir, listing, is_workspace),
{
    assert(views(mid.pending@) =~= views(pre.pending@).drop_last());
    if post.projects@ != pre.projects@ {
        assert(post.projects@.drop_last() =~= pre.projects@);
    }
}

impl ProjectScan {
    /// Every project found is seen, and no two have the same path: each
    /// directory is listed once however often the walk reaches it.
    pub open spec fn well_formed(&self) -> bool {
        &&& forall|i: int| 0 <= i < self.projects@.len() ==> self.seen@.contains(#[trigger] self.projects@[i].path@)
        &&& forall|i: int, j: int|
            0 <= i < j < self.projects@.len() ==> #[trigger] self.projects@[i].path@ != #[trigger] self.projects@[j].path@
    }

    /// A scan that looks into `root` first.
    pub fn new(root: String) -> (r: ProjectScan)
        ensures
            views(r.pending@) == seq![root@],
            r.projects@.len() == 0,
            r.seen@ == Set::<Seq<char>>::empty(),
            r.well_formed(),
    {
        let mut pending: Vec<String> = Vec::new();
        pending.push(root);
        assert(views(pending@) =~= seq![pending@[0]@]);
        ProjectScan { pending, projects: Vec::new(), seen: PathSet::new() }
    }

    /// The next directory to look into, taken off the pending ones; none
    /// when the scan is done.
    pub fn next_dir(&mut self) -> (r: Option<String>)
        ensures
            match r {
                Some(d) => old(self).pending@.len() > 0 && d == old(self).pending@.last()
                    && final(self).pending@ == old(self).pending@.drop_last(),
                None => old(self).pending@.len() == 0 && final(self).pending@ == old(self).pending@,
            },
            final(self).projects == old(self).projects,
            final(self).seen == old(self).seen,
    {
        self.pending.pop()
    }

    /// Looks into the directory `dir`, whose `Cargo.toml`, if read, holds
    /// `manifest` (see `dir_recorded` and `listing_is_workspace`).
    pub fn record_dir(&mut self, dir: String, dir_name: Option<String>, listing: Option<DirSummary>, manifest: Option<String>)
        requires
            old(self).well_formed(),
        ensures
            dir_recorded(
                *old(self),
                *final(self),
                dir@,
                opt_str(dir_name),
                listing,
                listing_is_workspace(listing, opt_str(manifest)),
            ),
            final(self).well_formed(),
    {
        let is_workspace = is_workspace_listing(&listing, manifest);
        let l = match listing {
            Some(l) => l,
            None => return,
        };
        let ghost lv = l;
        let marks = l.has_git_dir || l.has_cargo_toml;
        if marks {
            let fresh = self.seen.insert(dir.clone());
            if fresh {
                match dir_name {
                    Some(name) => {
                        self.projects.push(
                            Project { name, path: dir, has_git_dir: l.has_git_dir, is_workspace },
                        );
                    },
                    None => {},
                }
            }
        }
        if !is_workspace {
            let ghost before = views(self.pending@);
            let ghost mid = *self;
            let mut k = l.children.len();
            while k > 0
                invariant
                    self.projects == mid.projects,
                    self.seen == mid.seen,
                    k <= l.children@.len(),
                    views(self.pending@) == before + views(l.children@).reverse().take(
                        (l.children@.len() - k) as int,
                    ),
                decreases k,
            {
                let ghost prev = views(self.pending@);
                self.pending.push(l.children[k - 1].clone());
                proof {
                    let rv = views(l.children@).reverse();
                    assert(rv.take((l.children@.len() - k + 1) as int) =~= rv.take(
                        (l.children@.len() - k) as int,
                    ).push(l.children@[k - 1]@));
                    assert(views(self.pending@) =~= prev.push(l.children@[k - 1]@));
                }
                k -= 1;
            }
            assert(views(l.children@).reverse().take(l.children@.len() as int) =~= views(l.children@).reverse());
        }
    }
}

} // verus!
