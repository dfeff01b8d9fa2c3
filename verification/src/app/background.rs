//! Asking for background work and taking in what it reports.
use crate::app::moves::{listed_project_position, visible};
use crate::app::project_ops::{position_listed, project_opened, projects_reloaded};
use crate::app::{
    ci_refiltered, request_views, target_views, targets_refiltered, targets_refreshed, App,
    BackgroundRequest, BackgroundResult, RequestKind, Target,
};
use crate::collections::{views, PathMap, PathSet};
use crate::projects::Project;
use vstd::prelude::*;

verus! {

/// What asking for `kind` work on `path` does: nothing when the answer is
/// cached; otherwise the path is marked loading, and the request is queued
/// unless it already was loading.
pub open spec fn asked<V>(
    cache: PathMap<V>,
    loading_pre: PathSet,
    loading_post: PathSet,
    requests_pre: Seq<BackgroundRequest>,
    requests_post: Seq<BackgroundRequest>,
    kind: RequestKind,
    path: Seq<char>,
) -> bool {
    if cache@.contains_key(path) || loading_pre@.contains(path) {
        loading_post == loading_pre && requests_post == requests_pre
    } else {
        &&& loading_post@ == loading_pre@.insert(path)
        &&& request_views(requests_post) == request_views(requests_pre).push((kind, path))
    }
}

/// What taking in one background result does. The cache of its kind gets
/// the value for its path and the path stops loading; CI runs of the
/// selected project are filtered anew and its targets shown and filtered. A
/// created project (at `path`, if it was made) is marked opened at `now`,
/// the projects replaced by `discovered` and the new project selected, with
/// its targets, when listed. A cleaned project's size is dropped and asked
/// for again.
pub open spec fn result_applied(
    pre: App,
    post: App,
    result: BackgroundResult,
    now: u64,
    discovered: Seq<Project>,
) -> bool {
    match result {
        BackgroundResult::Metadata(path, m) => {
            &&& post == (App {
                loading_metadata: post.loading_metadata,
                metadata_cache: post.metadata_cache,
                ..pre
            })
            &&& post.loading_metadata@ == pre.loading_metadata@.remove(path@)
            &&& post.metadata_cache@ == pre.metadata_cache@.insert(path@, m)
        },
        BackgroundResult::GitStatus(path, status) => {
            &&& post == (App {
                loading_git_statuses: post.loading_git_statuses,
                git_status_cache: post.git_status_cache,
                ..pre
            })
            &&& post.loading_git_statuses@ == pre.loading_git_statuses@.remove(path@)
            &&& post.git_status_cache@ == pre.git_status_cache@.insert(path@, status)
        },
        BackgroundResult::Size(path, size) => {
            &&& post == (App { loading_sizes: post.loading_sizes, size_cache: post.size_cache, ..pre })
            &&& post.loading_sizes@ == pre.loading_sizes@.remove(path@)
            &&& post.size_cache@ == pre.size_cache@.insert(path@, size)
        },
        BackgroundResult::Languages(path, languages) => {
            &&& post == (App {
                loading_languages: post.loading_languages,
                languages_cache: post.languages_cache,
                ..pre
            })
            &&& post.loading_languages@ == pre.loading_languages@.remove(path@)
            &&& post.languages_cache@ == pre.languages_cache@.insert(path@, languages)
        },
        BackgroundResult::CiRuns(path, ci) => ci_runs_taken(pre, post, path@, ci),
        BackgroundResult::Targets(path, ts) => targets_taken(pre, post, path@, ts),
        BackgroundResult::ProjectCreated(created) => creation_taken(
            pre,
            post,
            crate::text::opt_str(created),
            now,
            discovered,
        ),
        BackgroundResult::ProjectCleaned(path) => {
            &&& post == (App {
                size_cache: post.size_cache,
                loading_sizes: post.loading_sizes,
                requests: post.requests,
                ..pre
            })
            &&& post.size_cache@ == pre.size_cache@.remove(path@)
            &&& post.loading_sizes@ == pre.loading_sizes@.insert(path@)
            &&& request_views(post.requests@) == request_views(pre.requests@).push(
                (RequestKind::Size, path@),
            )
        },
    }
}

/// CI runs for `path` were cached; those of the selected project are
/// filtered anew.
pub open spec fn ci_runs_taken(pre: App, post: App, path: Seq<char>, ci: Option<crate::providers::CiRunsData>) -> bool {
    exists|mid: App|
        #![trigger mid.ci_runs_cache]
        {
            &&& mid == (App { loading_ci_runs: mid.loading_ci_runs, ci_runs_cache: mid.ci_runs_cache, ..pre })
            &&& mid.loading_ci_runs@ == pre.loading_ci_runs@.remove(path)
            &&& mid.ci_runs_cache@ == pre.ci_runs_cache@.insert(path, ci)
            &&& if pre.current_project_path() == Some(path) {
                ci_refiltered(mid, post)
            } else {
                post == mid
            }
        }
}

/// Targets for `path` were cached; those of the selected project are shown
/// and filtered.
pub open spec fn targets_taken(pre: App, post: App, path: Seq<char>, ts: Vec<Target>) -> bool {
    exists|mid: App|
        #![trigger mid.target_cache]
        {
            &&& mid == (App { loading_targets: mid.loading_targets, target_cache: mid.target_cache, ..pre })
            &&& mid.loading_targets@ == pre.loading_targets@.remove(path)
            &&& mid.target_cache@ == pre.target_cache@.insert(path, ts)
            &&& if pre.current_project_path() == Some(path) {
                exists|shown: App|
                    #![trigger targets_refiltered(shown, post)]
                    shown == (App { targets: shown.targets, ..mid }) && target_views(shown.targets@)
                        == target_views(ts@) && targets_refiltered(shown, post)
            } else {
                post == mid
            }
        }
}

/// The background creation of a project ended (with its path, if it was
/// made): it is marked opened at `now`, the projects are replaced by
/// `discovered`, and the new project is selected, with its targets, when
/// listed.
pub open spec fn creation_taken(
    pre: App,
    post: App,
    created: Option<Seq<char>>,
    now: u64,
    discovered: Seq<Project>,
) -> bool {
    exists|m1: App, m2: App|
        #![trigger projects_reloaded(m1, m2, discovered)]
        {
            let m0 = App { creating_project_in_background: false, ..pre };
            &&& match created {
                Some(path) => project_opened(m0, m1, path, now),
                None => m1 == m0,
            }
            &&& projects_reloaded(m1, m2, discovered)
            &&& match created {
                Some(path) => match listed_project_position(m2.filtered_projects@, m2.projects@, path) {
                    Some(k) => targets_refreshed(App { cursor: k as isize, ..m2 }, post),
                    None => post == m2,
                },
                None => post == m2,
            }
        }
}

/// The paths that asking for work on `paths` in turn queues: those neither
/// cached, nor loading, nor met earlier in `paths`.
pub open spec fn fresh_paths(cached: Set<Seq<char>>, loading: Set<Seq<char>>, paths: Seq<Seq<char>>) -> Seq<
    Seq<char>,
>
    decreases paths.len(),
{
    if paths.len() == 0 {
        Seq::empty()
    } else {
        let earlier = paths.drop_last();
        let p = paths.last();
        if cached.contains(p) || loading.contains(p) || earlier.contains(p) {
            fresh_paths(cached, loading, earlier)
        } else {
            fresh_paths(cached, loading, earlier).push(p)
        }
    }
}

/// What asking for `kind` work on each of `paths` in turn does: the paths
/// not cached are loading, and the fresh ones are queued in order.
pub open spec fn asked_all<V>(
    cache: PathMap<V>,
    loading_pre: PathSet,
    loading_post: PathSet,
    requests_pre: Seq<BackgroundRequest>,
    requests_post: Seq<BackgroundRequest>,
    kind: RequestKind,
    paths: Seq<Seq<char>>,
) -> bool {
    &&& loading_post@ == loading_pre@ + Set::new(|p: Seq<char>| paths.contains(p) && !cache@.contains_key(p))
    &&& request_views(requests_post) == request_views(requests_pre) + fresh_paths(
        cache@.dom(),
        loading_pre@,
        paths,
    ).map_values(|p: Seq<char>| (kind, p))
}

/// The path of each project.
pub open spec fn project_paths(ps: Seq<Project>) -> Seq<Seq<char>> {
    ps.map_values(|p: Project| p.path@)
}

/// The cache and loading set of `kind` work, and the queue, are all that
/// asking for it may change.
pub open spec fn only_asked(pre: App, post: App, kind: RequestKind) -> bool {
    match kind {
        RequestKind::Metadata => post == (App {
            loading_metadata: post.loading_metadata,
            requests: post.requests,
            ..pre
        }),
        RequestKind::GitStatus => post == (App {
            loading_git_statuses: post.loading_git_statuses,
            requests: post.requests,
            ..pre
        }),
        RequestKind::Size => post == (App { loading_sizes: post.loading_sizes, requests: post.requests, ..pre }),
        RequestKind::CiRuns => post == (App {
            loading_ci_runs: post.loading_ci_runs,
            requests: post.requests,
            ..pre
        }),
        RequestKind::Languages => post == (App {
            loading_languages: post.loading_languages,
            requests: post.requests,
            ..pre
        }),
        RequestKind::Targets => post == (App {
            loading_targets: post.loading_targets,
            requests: post.requests,
            ..pre
        }),
    }
}

/// The next position of the git status scan, wrapping at the end of `usize`.
pub open spec fn next_scan(x: usize) -> usize {
    if x == usize::MAX {
        0
    } else {
        (x + 1) as usize
    }
}

/// The scan position `j` steps after `start`.
pub open spec fn scan_pos(start: usize, j: nat) -> usize
    decreases j,
{
    if j == 0 {
        start
    } else {
        next_scan(scan_pos(start, (j - 1) as nat))
    }
}

/// The paths that a batch of `n` git status requests starting at scan
/// position `start` asks for, in turn: each position taken modulo the number
/// of projects.
pub open spec fn batch_paths(ps: Seq<Project>, start: usize, n: nat) -> Seq<Seq<char>> {
    Seq::new(n, |j: int| ps[(scan_pos(start, j as nat) as int) % (ps.len() as int)].path@)
}

/// What asking for `kind` work on `path` does to the cache, loading set and
/// queue of that kind (see `asked`).
pub open spec fn kind_asked(pre: App, post: App, kind: RequestKind, path: Seq<char>) -> bool {
    match kind {
        RequestKind::Metadata => asked(
            pre.metadata_cache,
            pre.loading_metadata,
            post.loading_metadata,
            pre.requests@,
            post.requests@,
            kind,
            path,
        ),
        RequestKind::GitStatus => asked(
            pre.git_status_cache,
            pre.loading_git_statuses,
            post.loading_git_statuses,
            pre.requests@,
            post.requests@,
            kind,
            path,
        ),
        RequestKind::Size => asked(
            pre.size_cache,
            pre.loading_sizes,
            post.loading_sizes,
            pre.requests@,
            post.requests@,
            kind,
            path,
        ),
        RequestKind::CiRuns => asked(
            pre.ci_runs_cache,
            pre.loading_ci_runs,
            post.loading_ci_runs,
            pre.requests@,
            post.requests@,
            kind,
            path,
        ),
        RequestKind::Languages => asked(
            pre.languages_cache,
            pre.loading_languages,
            post.loading_languages,
            pre.requests@,
            post.requests@,
            kind,
            path,
        ),
        RequestKind::Targets => asked(
            pre.target_cache,
            pre.loading_targets,
            post.loading_targets,
            pre.requests@,
            post.requests@,
            kind,
            path,
        ),
    }
}

/// What asking for `kind` work on each of `paths` in turn does to the
/// cache, loading set and queue of that kind (see `asked_all`).
pub open spec fn kind_asked_all(pre: App, post: App, kind: RequestKind, paths: Seq<Seq<char>>) -> bool {
    match kind {
        RequestKind::Metadata => asked_all(
            pre.metadata_cache,
            pre.loading_metadata,
            post.loading_metadata,
            pre.requests@,
            post.requests@,
            kind,
            paths,
        ),
        RequestKind::GitStatus => asked_all(
            pre.git_status_cache,
            pre.loading_git_statuses,
            post.loading_git_statuses,
            pre.requests@,
            post.requests@,
            kind,
            paths,
        ),
        RequestKind::Size => asked_all(
            pre.size_cache,
            pre.loading_sizes,
            post.loading_sizes,
            pre.requests@,
            post.requests@,
            kind,
            paths,
        ),
        RequestKind::CiRuns => asked_all(
            pre.ci_runs_cache,
            pre.loading_ci_runs,
            post.loading_ci_runs,
            pre.requests@,
            post.requests@,
            kind,
            paths,
        ),
        RequestKind::Languages => asked_all(
            pre.languages_cache,
            pre.loading_languages,
            post.loading_languages,
            pre.requests@,
            post.requests@,
            kind,
            paths,
        ),
        RequestKind::Targets => asked_all(
            pre.target_cache,
            pre.loading_targets,
            post.loading_targets,
            pre.requests@,
            post.requests@,
            kind,
            paths,
        ),
    }
}

/// `kind` work was asked for the selected project, if any.
pub open spec fn current_asked(pre: App, post: App, kind: RequestKind) -> bool {
    match pre.current_project_path() {
        Some(p) => only_asked(pre, post, kind) && kind_asked(pre, post, kind, p),
        None => post == pre,
    }
}

/// The paths of the first `n` listed projects.
pub open spec fn first_visible_paths(app: App, n: nat) -> Seq<Seq<char>> {
    let shown = visible(app.filtered_projects@, app.projects@);
    project_paths(shown.take(if n < shown.len() { n as int } else { shown.len() as int }))
}

/// `kind` work was asked for the first `n` listed projects, in turn.
pub open spec fn visible_asked(pre: App, post: App, kind: RequestKind, n: nat) -> bool {
    only_asked(pre, post, kind) && kind_asked_all(pre, post, kind, first_visible_paths(pre, n))
}

/// A batch of `n` git status requests of the round-robin scan: nothing
/// without projects; otherwise the scan moves on by `n` positions and the
/// projects at the positions passed are asked for, in turn.
pub open spec fn git_batch_asked(pre: App, post: App, n: nat) -> bool {
    if pre.projects@.len() == 0 {
        post == pre
    } else {
        &&& post.git_status_scan_index == scan_pos(pre.git_status_scan_index, n)
        &&& only_asked(
            App { git_status_scan_index: post.git_status_scan_index, ..pre },
            post,
            RequestKind::GitStatus,
        )
        &&& kind_asked_all(pre, post, RequestKind::GitStatus, batch_paths(pre.projects@, pre.git_status_scan_index, n))
    }
}

fn ask<V>(
    cache: &PathMap<V>,
    loading: &mut PathSet,
    requests: &mut Vec<BackgroundRequest>,
    kind: RequestKind,
    path: String,
)
    ensures
        asked(*cache, *old(loading), *final(loading), old(requests)@, final(requests)@, kind, path@),
{
    if cache.contains_key(path.as_str()) {
        return;
    }
    if !loading.insert(path.clone()) {
        return;
    }
    requests.push(BackgroundRequest { kind, path });
    proof {
        assert(request_views(requests@) =~= request_views(old(requests)@).push((kind, path@)));
    }
}

fn ask_all<V>(
    cache: &PathMap<V>,
    loading: &mut PathSet,
    requests: &mut Vec<BackgroundRequest>,
    kind: RequestKind,
    paths: &Vec<String>,
)
    ensures
        asked_all(*cache, *old(loading), *final(loading), old(requests)@, final(requests)@, kind, views(paths@)),
{
    let ghost lp = loading@;
    let ghost rp = request_views(requests@);
    let ghost ps = views(paths@);
    let mut i: usize = 0;
    while i < paths.len()
        invariant
            i <= paths@.len(),
            ps == views(paths@),
            lp == old(loading)@,
            rp == request_views(old(requests)@),
            loading@ == lp + Set::new(|p: Seq<char>| ps.take(i as int).contains(p) && !cache@.contains_key(p)),
            request_views(requests@) == rp + fresh_paths(cache@.dom(), lp, ps.take(i as int)).map_values(
                |p: Seq<char>| (kind, p),
            ),
        decreases paths@.len() - i,
    {
        let ghost lc = loading@;
        let ghost rc = request_views(requests@);
        let path = paths[i].clone();
        let ghost p = path@;
        ask(cache, loading, requests, kind, path);
        proof {
            let t = ps.take(i + 1);
            assert(t.drop_last() =~= ps.take(i as int));
            assert(t.last() == p);
            assert(forall|q: Seq<char>| t.contains(q) <==> (ps.take(i as int).contains(q) || q == p)) by {
                assert forall|q: Seq<char>| t.contains(q) implies (ps.take(i as int).contains(q) || q == p) by {
                    let k = choose|k: int| 0 <= k < t.len() && t[k] == q;
                    if k < i {
                        assert(ps.take(i as int)[k] == q);
                    }
                }
                assert forall|q: Seq<char>| ps.take(i as int).contains(q) implies t.contains(q) by {
                    let k = choose|k: int| 0 <= k < i && ps.take(i as int)[k] == q;
                    assert(t[k] == q);
                }
                assert(t[i as int] == p);
            }
            let fresh = fresh_paths(cache@.dom(), lp, ps.take(i as int));
            if cache@.contains_key(p) || lc.contains(p) {
                assert(loading@ =~= lp + Set::new(|q: Seq<char>| t.contains(q) && !cache@.contains_key(q)));
                assert(fresh_paths(cache@.dom(), lp, t) == fresh);
            } else {
                assert(loading@ =~= lp + Set::new(|q: Seq<char>| t.contains(q) && !cache@.contains_key(q)));
                assert(fresh_paths(cache@.dom(), lp, t) == fresh.push(p));
                assert(fresh.push(p).map_values(|q: Seq<char>| (kind, q)) =~= fresh.map_values(
                    |q: Seq<char>| (kind, q),
                ).push((kind, p)));
                assert(request_views(requests@) =~= rp + fresh.push(p).map_values(|q: Seq<char>| (kind, q)));
            }
        }
        i += 1;
    }
    assert(ps.take(paths@.len() as int) =~= ps);
}

/// The paths of the first `n` projects of `ps`.
fn first_paths(ps: &Vec<Project>, n: usize) -> (r: Vec<String>)
    ensures
        views(r@) == project_paths(ps@.take(if n < ps@.len() { n as int } else { ps@.len() as int })),
{
    let end = if n < ps.len() {
        n
    } else {
        ps.len()
    };
    let mut r: Vec<String> = Vec::new();
    let mut i: usize = 0;
    while i < end
        invariant
            i <= end,
            end <= ps@.len(),
            r@.len() == i,
            forall|j: int| 0 <= j < i ==> (#[trigger] r@[j])@ == ps@[j].path@,
        decreases end - i,
    {
        r.push(ps[i].path.clone());
        i += 1;
    }
    assert(views(r@) =~= project_paths(ps@.take(end as int)));
    r
}

impl App {
    /// Asks for the targets of the project at `path`.
    pub fn request_targets(&mut self, path: String)
        ensures
            *final(self) == (App {
                loading_targets: final(self).loading_targets,
                requests: final(self).requests,
                ..*old(self)
            }),
            asked(
                old(self).target_cache,
                old(self).loading_targets,
                final(self).loading_targets,
                old(self).requests@,
                final(self).requests@,
                RequestKind::Targets,
                path@,
            ),
    {
        ask(&self.target_cache, &mut self.loading_targets, &mut self.requests, RequestKind::Targets, path);
    }

    /// Asks for the package metadata of the project at `path`.
    pub fn request_metadata(&mut self, path: String)
        ensures
            *final(self) == (App {
                loading_metadata: final(self).loading_metadata,
                requests: final(self).requests,
                ..*old(self)
            }),
            asked(
                old(self).metadata_cache,
                old(self).loading_metadata,
                final(self).loading_metadata,
                old(self).requests@,
                final(self).requests@,
                RequestKind::Metadata,
                path@,
            ),
    {
        ask(&self.metadata_cache, &mut self.loading_metadata, &mut self.requests, RequestKind::Metadata, path);
    }

    /// Asks for the git status of the project at `path`.
    pub fn request_git_status(&mut self, path: String)
        ensures
            *final(self) == (App {
                loading_git_statuses: final(self).loading_git_statuses,
                requests: final(self).requests,
                ..*old(self)
            }),
            asked(
                old(self).git_status_cache,
                old(self).loading_git_statuses,
                final(self).loading_git_statuses,
                old(self).requests@,
                final(self).requests@,
                RequestKind::GitStatus,
                path@,
            ),
    {
        ask(&self.git_status_cache, &mut self.loading_git_statuses, &mut self.requests, RequestKind::GitStatus, path);
    }

    /// Asks for the size on disk of the project at `path`.
    pub fn request_size(&mut self, path: String)
        ensures
            *final(self) == (App {
                loading_sizes: final(self).loading_sizes,
                requests: final(self).requests,
                ..*old(self)
            }),
            asked(
                old(self).size_cache,
                old(self).loading_sizes,
                final(self).loading_sizes,
                old(self).requests@,
                final(self).requests@,
                RequestKind::Size,
                path@,
            ),
    {
        ask(&self.size_cache, &mut self.loading_sizes, &mut self.requests, RequestKind::Size, path);
    }

    /// Asks for the CI runs of the project at `path`.
    pub fn request_ci_runs(&mut self, path: String)
        ensures
            *final(self) == (App {
                loading_ci_runs: final(self).loading_ci_runs,
                requests: final(self).requests,
                ..*old(self)
            }),
            asked(
                old(self).ci_runs_cache,
                old(self).loading_ci_runs,
                final(self).loading_ci_runs,
                old(self).requests@,
                final(self).requests@,
                RequestKind::CiRuns,
                path@,
            ),
    {
        ask(&self.ci_runs_cache, &mut self.loading_ci_runs, &mut self.requests, RequestKind::CiRuns, path);
    }

    /// Asks for the language statistics of the project at `path`.
    pub fn request_languages(&mut self, path: String)
        ensures
            *final(self) == (App {
                loading_languages: final(self).loading_languages,
                requests: final(self).requests,
                ..*old(self)
            }),
            asked(
                old(self).languages_cache,
                old(self).loading_languages,
                final(self).loading_languages,
                old(self).requests@,
                final(self).requests@,
                RequestKind::Languages,
                path@,
            ),
    {
        ask(&self.languages_cache, &mut self.loading_languages, &mut self.requests, RequestKind::Languages, path);
    }

    /// Asks for the package metadata of the selected project.
    pub fn request_current_project_metadata(&mut self)
        ensures
            current_asked(*old(self), *final(self), RequestKind::Metadata),
    {
        match self.current_project() {
            Some(project) => {
                let path = project.path.clone();
                self.request_metadata(path);
            },
            None => {},
        }
    }

    /// Asks for the CI runs of the selected project.
    pub fn request_current_project_ci_runs(&mut self)
        ensures
            current_asked(*old(self), *final(self), RequestKind::CiRuns),
    {
        match self.current_project() {
            Some(project) => {
                let path = project.path.clone();
                self.request_ci_runs(path);
            },
            None => {},
        }
    }

    /// Asks for the language statistics of the selected project.
    pub fn request_current_project_languages(&mut self)
        ensures
            current_asked(*old(self), *final(self), RequestKind::Languages),
    {
        match self.current_project() {
            Some(project) => {
                let path = project.path.clone();
                self.request_languages(path);
            },
            None => {},
        }
    }

    /// Asks for the sizes of the first eight listed projects.
    pub fn request_visible_project_data(&mut self)
        ensures
            visible_asked(*old(self), *final(self), RequestKind::Size, 8),
    {
        let shown = self.visible_projects();
        let paths = first_paths(&shown, 8);
        ask_all(&self.size_cache, &mut self.loading_sizes, &mut self.requests, RequestKind::Size, &paths);
    }

    /// Asks for the git status of the first sixteen listed projects.
    pub fn request_visible_git_statuses(&mut self)
        ensures
            visible_asked(*old(self), *final(self), RequestKind::GitStatus, 16),
    {
        let shown = self.visible_projects();
        let paths = first_paths(&shown, 16);
        ask_all(
            &self.git_status_cache,
            &mut self.loading_git_statuses,
            &mut self.requests,
            RequestKind::GitStatus,
            &paths,
        );
    }

    /// Asks for the size of every project.
    pub fn request_all_project_sizes(&mut self)
        ensures
            only_asked(*old(self), *final(self), RequestKind::Size),
            asked_all(
                old(self).size_cache,
                old(self).loading_sizes,
                final(self).loading_sizes,
                old(self).requests@,
                final(self).requests@,
                RequestKind::Size,
                project_paths(old(self).projects@),
            ),
    {
        let paths = first_paths(&self.projects, self.projects.len());
        assert(self.projects@.take(self.projects@.len() as int) =~= self.projects@);
        ask_all(&self.size_cache, &mut self.loading_sizes, &mut self.requests, RequestKind::Size, &paths);
    }

    /// Asks for the git status of the next `batch_size` projects of the
    /// round-robin scan, which moves on by as many positions (see
    /// `batch_paths`); nothing happens without projects.
    pub fn request_next_git_status_batch(&mut self, batch_size: usize)
        ensures
            git_batch_asked(*old(self), *final(self), batch_size as nat),
    {
        if self.projects.len() == 0 {
            return;
        }
        let n = self.projects.len();
        let ghost start = self.git_status_scan_index;
        let mut paths: Vec<String> = Vec::new();
        let mut k: usize = 0;
        while k < batch_size
            invariant
                k <= batch_size,
                n == self.projects@.len(),
                n > 0,
                self.git_status_scan_index == scan_pos(start, k as nat),
                *self == (App { git_status_scan_index: self.git_status_scan_index, ..*old(self) }),
                paths@.len() == k,
                forall|j: int|
                    0 <= j < k ==> (#[trigger] paths@[j])@ == self.projects@[(scan_pos(start, j as nat) as int)
                        % (n as int)].path@,
            decreases batch_size - k,
        {
            let index = self.git_status_scan_index % n;
            self.git_status_scan_index = self.git_status_scan_index.wrapping_add(1);
            paths.push(self.projects[index].path.clone());
            k += 1;
        }
        assert(views(paths@) =~= batch_paths(self.projects@, start, batch_size as nat));
        ask_all(
            &self.git_status_cache,
            &mut self.loading_git_statuses,
            &mut self.requests,
            RequestKind::GitStatus,
            &paths,
        );
    }

    /// Takes in one result of background work (see `result_applied`). `now`
    /// is the time in seconds since the Unix epoch and `discovered` the
    /// projects found under the root; both are read only for a created
    /// project.
    pub fn apply_background_result(&mut self, result: BackgroundResult, now: u64, discovered: Vec<Project>)
        requires
            old(self).matchers_ok(),
        ensures
            final(self).matchers_ok(),
            result_applied(*old(self), *final(self), result, now, discovered@),
    {
        let ghost pre = *self;
        let ghost r = result;
        match result {
            BackgroundResult::Metadata(path, m) => {
                self.loading_metadata.remove(path.as_str());
                self.metadata_cache.insert(path, m);
            },
            BackgroundResult::GitStatus(path, status) => {
                self.loading_git_statuses.remove(path.as_str());
                self.git_status_cache.insert(path, status);
            },
            BackgroundResult::Size(path, size) => {
                self.loading_sizes.remove(path.as_str());
                self.size_cache.insert(path, size);
            },
            BackgroundResult::Languages(path, languages) => {
                self.loading_languages.remove(path.as_str());
                self.languages_cache.insert(path, languages);
            },
            BackgroundResult::CiRuns(path, ci) => self.take_ci_runs(path, ci),
            BackgroundResult::Targets(path, ts) => self.take_targets(path, ts),
            BackgroundResult::ProjectCreated(created) => self.take_creation(created, now, discovered),
            BackgroundResult::ProjectCleaned(path) => {
                self.size_cache.remove(path.as_str());
                self.loading_sizes.remove(path.as_str());
                let ghost p = path@;
                self.request_size(path);
                assert(self.loading_sizes@ =~= pre.loading_sizes@.insert(p));
            },
        }
    }
    fn take_ci_runs(&mut self, path: String, ci: Option<crate::providers::CiRunsData>)
        ensures
            ci_runs_taken(*old(self), *final(self), path@, ci),
    {
        let is_current = match self.current_project() {
            Some(p) => crate::text::str_eq(p.path.as_str(), path.as_str()),
            None => false,
        };
        self.loading_ci_runs.remove(path.as_str());
        self.ci_runs_cache.insert(path, ci);
        let ghost mid = *self;
        assert(is_current == (old(self).current_project_path() == Some(path@)));
        assert(mid == (App { loading_ci_runs: mid.loading_ci_runs, ci_runs_cache: mid.ci_runs_cache, ..*old(self) }));
        if is_current {
            self.update_ci_filter();
            assert(ci_refiltered(mid, *self));
        }
        assert(mid.ci_runs_cache == mid.ci_runs_cache);
    }

    fn take_targets(&mut self, path: String, ts: Vec<Target>)
        requires
            old(self).matchers_ok(),
        ensures
            final(self).matchers_ok(),
            targets_taken(*old(self), *final(self), path@, ts),
    {
        let is_current = match self.current_project() {
            Some(p) => crate::text::str_eq(p.path.as_str(), path.as_str()),
            None => false,
        };
        let shown = clone_targets(&ts);
        self.loading_targets.remove(path.as_str());
        self.target_cache.insert(path, ts);
        let ghost mid = *self;
        assert(mid.target_cache == mid.target_cache);
        if is_current {
            self.targets = shown;
            let ghost sh = *self;
            self.rebuild_target_matcher();
            assert(targets_refiltered(sh, *self));
        }
    }

    fn take_creation(&mut self, created: Option<String>, now: u64, discovered: Vec<Project>)
        requires
            old(self).matchers_ok(),
        ensures
            final(self).matchers_ok(),
            creation_taken(*old(self), *final(self), crate::text::opt_str(created), now, discovered@),
    {
        self.creating_project_in_background = false;
        match &created {
            Some(path) => self.mark_project_opened(path.as_str(), now),
            None => {},
        }
        let ghost m1 = *self;
        self.reload_projects(discovered);
        let ghost m2 = *self;
        assert(projects_reloaded(m1, m2, discovered@));
        match &created {
            Some(path) => match position_listed(&self.filtered_projects, &self.projects, path.as_str()) {
                Some(k) => {
                    self.cursor = k as isize;
                    self.refresh_targets();
                },
                None => {},
            },
            None => {},
        }
    }
}

fn clone_targets(ts: &Vec<Target>) -> (r: Vec<Target>)
    ensures
        target_views(r@) == target_views(ts@),
{
    let mut r: Vec<Target> = Vec::new();
    let mut i: usize = 0;
    while i < ts.len()
        invariant
            i <= ts@.len(),
            r@.len() == i,
            forall|j: int| 0 <= j < i ==> (#[trigger] r@[j])@ == ts@[j]@,
        decreases ts@.len() - i,
    {
        r.push(ts[i].clone());
        i += 1;
    }
    assert(target_views(r@) =~= target_views(ts@));
    r
}

} // verus!
