//! Adding, bookmarking, cleaning, rescanning, deleting and opening projects.
use crate::app::background::asked;
use crate::app::editing::field_empty;
use crate::app::filters::{indices_len, lemma_matchers_ready, lemma_no_targets_listed};
use crate::app::moves::{edge_row, listed_project_position};
use crate::app::{
    fresh, clamp_cursor, projects_refiltered, request_views, targets_refreshed, App, RequestKind,
    Target, TargetStatus,
};
use crate::collections::views;
use crate::persistence::{BookmarkedProjects, RecentProjects};
use crate::navigation::{trim, trimmed};
use crate::projects::{
    cloned_path, cloned_project_path, is_git_url, listed_order, looks_like_git_url, sort_projects,
    Project,
};
use crate::text::{opt_str, path_join, path_join_exec, str_eq};
use vstd::prelude::*;

verus! {

/// A project to be created under the projects root: the name or URL typed,
/// where the new project will be, and the program to run in the root with
/// its arguments (see `creation_command`).
#[derive(Debug)]
pub struct ProjectCreation {
    pub value: String,
    pub path: Option<String>,
    pub program: String,
    pub args: Vec<String>,
}

/// The program and arguments that create a project from the typed `value`:
/// `git clone value` for a git URL, otherwise `cargo new value`.
pub open spec fn creation_command(value: Seq<char>) -> (Seq<char>, Seq<Seq<char>>) {
    if is_git_url(value) {
        ("git"@, seq!["clone"@, value])
    } else {
        ("cargo"@, seq!["new"@, value])
    }
}

/// The projects not at `path`, in order.
pub open spec fn projects_without(ps: Seq<Project>, path: Seq<char>) -> Seq<Project>
    decreases ps.len(),
{
    if ps.len() == 0 {
        ps
    } else if ps.last().path@ == path {
        projects_without(ps.drop_last(), path)
    } else {
        projects_without(ps.drop_last(), path).push(ps.last())
    }
}

/// The launched targets not of the project at `path`, in order.
pub open spec fn statuses_without(ss: Seq<TargetStatus>, path: Seq<char>) -> Seq<TargetStatus>
    decreases ss.len(),
{
    if ss.len() == 0 {
        ss
    } else if ss.last().project_path@ == path {
        statuses_without(ss.drop_last(), path)
    } else {
        statuses_without(ss.drop_last(), path).push(ss.last())
    }
}

/// Keys of the launched targets of the project at `path`, in order.
pub open spec fn status_keys_at(ss: Seq<TargetStatus>, path: Seq<char>) -> Seq<Seq<char>>
    decreases ss.len(),
{
    if ss.len() == 0 {
        Seq::empty()
    } else if ss.last().project_path@ == path {
        status_keys_at(ss.drop_last(), path).push(ss.last().key@)
    } else {
        status_keys_at(ss.drop_last(), path)
    }
}

/// Where a project made from the typed `value` lands: the clone directory of
/// a git URL, otherwise `value` joined onto the root.
pub open spec fn created_path(root: Seq<char>, value: Seq<char>) -> Option<Seq<char>> {
    if is_git_url(value) {
        cloned_path(root, value)
    } else {
        Some(path_join(root, value))
    }
}

/// After the add-project dialog was closed.
pub open spec fn create_dialog_closed(pre: App, post: App) -> bool {
    &&& post == (App {
        creating_project: false,
        create_project_input: post.create_project_input,
        ..pre
    })
    &&& field_empty(post.create_project_input)
}

/// After the state forgot everything cached about the project at `path`.
pub open spec fn caches_forgotten(pre: App, post: App, path: Seq<char>) -> bool {
    &&& post == (App {
        metadata_cache: post.metadata_cache,
        ci_runs_cache: post.ci_runs_cache,
        languages_cache: post.languages_cache,
        git_status_cache: post.git_status_cache,
        size_cache: post.size_cache,
        target_cache: post.target_cache,
        loading_metadata: post.loading_metadata,
        loading_ci_runs: post.loading_ci_runs,
        loading_languages: post.loading_languages,
        loading_git_statuses: post.loading_git_statuses,
        loading_sizes: post.loading_sizes,
        loading_targets: post.loading_targets,
        ..pre
    })
    &&& post.metadata_cache@ == pre.metadata_cache@.remove(path)
    &&& post.ci_runs_cache@ == pre.ci_runs_cache@.remove(path)
    &&& post.languages_cache@ == pre.languages_cache@.remove(path)
    &&& post.git_status_cache@ == pre.git_status_cache@.remove(path)
    &&& post.size_cache@ == pre.size_cache@.remove(path)
    &&& post.target_cache@ == pre.target_cache@.remove(path)
    &&& post.loading_metadata@ == pre.loading_metadata@.remove(path)
    &&& post.loading_ci_runs@ == pre.loading_ci_runs@.remove(path)
    &&& post.loading_languages@ == pre.loading_languages@.remove(path)
    &&& post.loading_git_statuses@ == pre.loading_git_statuses@.remove(path)
    &&& post.loading_sizes@ == pre.loading_sizes@.remove(path)
    &&& post.loading_targets@ == pre.loading_targets@.remove(path)
}

/// After the add-project dialog was opened with an empty field.
pub open spec fn create_dialog_opened(pre: App, post: App) -> bool {
    &&& post == (App { creating_project: true, create_project_input: post.create_project_input, ..pre })
    &&& field_empty(post.create_project_input)
}

/// After the selected project's bookmark, if any project is selected, was
/// toggled; the bookmarks are then to be saved.
pub open spec fn bookmark_toggled(pre: App, post: App) -> bool {
    match pre.current_project_path() {
        None => post == pre,
        Some(p) => {
            &&& post == (App {
                bookmarked_projects: post.bookmarked_projects,
                bookmarks_dirty: true,
                ..pre
            })
            &&& post.bookmarked_projects.entries@ == if pre.bookmarked_projects.entries@.contains(p) {
                pre.bookmarked_projects.entries@.remove(p)
            } else {
                pre.bookmarked_projects.entries@.insert(p)
            }
        },
    }
}

/// After the selected project, if any, was rescanned: everything known
/// about it dropped, its targets refreshed, and its metadata, CI runs,
/// languages, git status and size asked for again.
pub open spec fn rescanned(pre: App, post: App) -> bool {
    match pre.current_project_path() {
        None => post == pre,
        Some(p) => exists|m0: App, m1: App|
            #![trigger caches_forgotten(pre, m0, p), targets_refreshed(m0, m1)]
            caches_forgotten(pre, m0, p) && targets_refreshed(m0, m1) && post
                == (App {
                loading_metadata: post.loading_metadata,
                loading_ci_runs: post.loading_ci_runs,
                loading_languages: post.loading_languages,
                loading_git_statuses: post.loading_git_statuses,
                loading_sizes: post.loading_sizes,
                requests: post.requests,
                ..m1
            }) && post.loading_metadata@ == m1.loading_metadata@.insert(p)
                && post.loading_ci_runs@ == m1.loading_ci_runs@.insert(p)
                && post.loading_languages@ == m1.loading_languages@.insert(p)
                && post.loading_git_statuses@ == m1.loading_git_statuses@.insert(p)
                && post.loading_sizes@ == m1.loading_sizes@.insert(p)
                && request_views(post.requests@) == request_views(m1.requests@).push(
                (RequestKind::Metadata, p),
            ).push((RequestKind::CiRuns, p)).push((RequestKind::Languages, p)).push(
                (RequestKind::GitStatus, p),
            ).push((RequestKind::Size, p)),
    }
}

/// The dashboard as it starts, rooted at `root` with the saved recently
/// opened and bookmarked projects and the projects `discovered` under the
/// root: the projects put in listing order and filtered; with any listed,
/// the first selected and its targets refreshed; then every project's size
/// asked for.
pub open spec fn started(
    post: App,
    root: Seq<char>,
    recent: RecentProjects,
    bookmarked: BookmarkedProjects,
    discovered: Seq<Project>,
) -> bool {
    exists|m0: App, m1: App, m2: App|
        #![trigger projects_refiltered(m0, m1), crate::app::background::only_asked(m2, post, RequestKind::Size)]
        {
            &&& fresh(m0, root)
            &&& m0.recent_projects == recent
            &&& m0.bookmarked_projects == bookmarked
            &&& m0.projects@ == listed_order(discovered, recent.entries@)
            &&& projects_refiltered(m0, m1)
            &&& if m1.filtered_projects@.len() > 0 {
                targets_refreshed(App { cursor: 0, ..m1 }, m2)
            } else {
                m2 == m1
            }
            &&& crate::app::background::only_asked(m2, post, RequestKind::Size)
            &&& crate::app::background::asked_all(
                m2.size_cache,
                m2.loading_sizes,
                post.loading_sizes,
                m2.requests@,
                post.requests@,
                RequestKind::Size,
                crate::app::background::project_paths(m2.projects@),
            )
        }
}

/// After a project was marked opened at `now`: its time recorded (to be
/// saved), the projects put in listing order and filtered anew, and the
/// project selected before selected again where the list shows it.
pub open spec fn project_opened(pre: App, post: App, path: Seq<char>, now: u64) -> bool {
    exists|m0: App, m1: App|
        #![trigger projects_refiltered(m0, m1)]
        m0 == (App {
            recent_projects: m0.recent_projects,
            recent_dirty: true,
            projects: m0.projects,
            ..pre
        }) && m0.recent_projects.entries@ == pre.recent_projects.entries@.insert(path, now)
            && m0.projects@ == listed_order(pre.projects@, m0.recent_projects.entries@)
            && projects_refiltered(m0, m1) && post == match pre.current_project_path() {
            Some(sp) => match listed_project_position(m1.filtered_projects@, m1.projects@, sp) {
                Some(k) => App { cursor: k as isize, ..m1 },
                None => m1,
            },
            None => m1,
        }
}

/// After the projects were replaced by a fresh discovery: put in listing
/// order and filtered; the selected project stays selected when listed,
/// otherwise the first one is; then the targets are refreshed.
pub open spec fn projects_reloaded(pre: App, post: App, discovered: Seq<Project>) -> bool {
    exists|m0: App, m1: App|
        #![trigger projects_refiltered(m0, m1)]
        m0 == (App { projects: m0.projects, ..pre }) && m0.projects@ == listed_order(
            discovered,
            pre.recent_projects.entries@,
        ) && projects_refiltered(m0, m1) && targets_refreshed(
            App {
                cursor: reselect(m1.filtered_projects@, m1.projects@, pre.current_project_path()),
                ..m1
            },
            post,
        )
}

/// After the project at `path` was deleted from disk: its bookmark and
/// open time dropped (both to be saved), the project, its cached data and its
/// launched targets dropped (`removed` holds their keys), the confirmation
/// closed and the projects filtered anew; with projects left the cursor is
/// kept inside the list and the targets refreshed, otherwise every list is
/// emptied.
pub open spec fn project_deleted(pre: App, post: App, path: Seq<char>, removed: Seq<Seq<char>>) -> bool {
    &&& removed == status_keys_at(pre.target_statuses@, path)
    &&& exists|ma: App, mb: App, m0: App, m1: App|
        #![trigger caches_forgotten(ma, mb, path), projects_refiltered(m0, m1)]
        ma == (App {
            bookmarked_projects: ma.bookmarked_projects,
            recent_projects: ma.recent_projects,
            bookmarks_dirty: true,
            recent_dirty: true,
            projects: ma.projects,
            ..pre
        }) && ma.bookmarked_projects.entries@ == pre.bookmarked_projects.entries@.remove(path)
            && ma.recent_projects.entries@ == pre.recent_projects.entries@.remove(path)
            && ma.projects@ == projects_without(pre.projects@, path) && caches_forgotten(ma, mb, path)
            && m0 == (App { target_statuses: m0.target_statuses, confirm_delete_project: false, ..mb })
            && m0.target_statuses@ == statuses_without(pre.target_statuses@, path)
            && projects_refiltered(m0, m1) && if m1.filtered_projects@.len() == 0 {
            &&& post == (App {
                targets: post.targets,
                filtered_targets: post.filtered_targets,
                filtered_ci_runs: post.filtered_ci_runs,
                cursor: -1isize,
                target_cursor: -1isize,
                ci_cursor: -1isize,
                ..m1
            })
            &&& post.targets@.len() == 0
            &&& post.filtered_targets@.len() == 0
            &&& post.filtered_ci_runs@.len() == 0
        } else {
            targets_refreshed(
                App {
                    cursor: clamp_cursor(m1.cursor as int, m1.filtered_projects@.len()) as isize,
                    ..m1
                },
                post,
            )
        }
}

fn forget_project(app: &mut App, path: &str)
    ensures
        caches_forgotten(*old(app), *final(app), path@),
{
    app.metadata_cache.remove(path);
    app.ci_runs_cache.remove(path);
    app.languages_cache.remove(path);
    app.git_status_cache.remove(path);
    app.size_cache.remove(path);
    app.target_cache.remove(path);
    app.loading_metadata.remove(path);
    app.loading_ci_runs.remove(path);
    app.loading_languages.remove(path);
    app.loading_git_statuses.remove(path);
    app.loading_sizes.remove(path);
    app.loading_targets.remove(path);
}

pub(crate) fn position_listed(filtered: &Vec<usize>, ps: &Vec<Project>, path: &str) -> (r: Option<usize>)
    ensures
        r matches Some(k) ==> listed_project_position(filtered@, ps@, path@) == Some(k as int) && k < filtered@.len(),
        r is None ==> listed_project_position(filtered@, ps@, path@) is None,
{
    let mut k: usize = 0;
    while k < filtered.len()
        invariant
            k <= filtered@.len(),
            listed_project_position(filtered@.take(k as int), ps@, path@) is None,
        decreases filtered@.len() - k,
    {
        let i = filtered[k];
        proof {
            assert(filtered@.take(k + 1).drop_last() =~= filtered@.take(k as int));
        }
        if i < ps.len() && str_eq(ps[i].path.as_str(), path) {
            proof {
                lemma_listed_prefix(filtered@, ps@, path@, k + 1);
            }
            return Some(k);
        }
        k += 1;
    }
    proof {
        assert(filtered@.take(filtered@.len() as int) =~= filtered@);
    }
    None
}

/// The cursor that selects `selected` again where listed, else the top.
pub open spec fn reselect(filtered: Seq<usize>, ps: Seq<Project>, selected: Option<Seq<char>>) -> isize {
    match selected {
        Some(sp) => match listed_project_position(filtered, ps, sp) {
            Some(k) => k as isize,
            None => edge_row(filtered.len(), true) as isize,
        },
        None => edge_row(filtered.len(), true) as isize,
    }
}

fn reselected_cursor(filtered: &Vec<usize>, ps: &Vec<Project>, selected: &Option<String>) -> (r: isize)
    ensures
        r == reselect(filtered@, ps@, opt_str(*selected)),
{
    let len = indices_len(filtered);
    let found = match selected {
        Some(sp) => position_listed(filtered, ps, sp.as_str()),
        None => None,
    };
    match found {
        Some(k) => k as isize,
        None => if len == 0 {
            -1
        } else {
            0
        },
    }
}

proof fn lemma_listed_prefix(filtered: Seq<usize>, ps: Seq<Project>, path: Seq<char>, k: int)
    requires
        0 <= k <= filtered.len(),
        listed_project_position(filtered.take(k), ps, path) is Some,
    ensures
        listed_project_position(filtered, ps, path) == listed_project_position(filtered.take(k), ps, path),
    decreases filtered.len() - k,
{
    if k < filtered.len() {
        assert(filtered.take(k + 1).drop_last() =~= filtered.take(k));
        lemma_listed_prefix(filtered, ps, path, k + 1);
    } else {
        assert(filtered.take(k) =~= filtered);
    }
}

impl App {
    /// The dashboard as it starts (see `started`).
    #[verifier::rlimit(40)]
    pub fn new(
        projects_root: String,
        recent_projects: RecentProjects,
        bookmarked_projects: BookmarkedProjects,
        discovered: Vec<Project>,
    ) -> (app: App)
        ensures
            app.matchers_ok(),
            started(app, projects_root@, recent_projects, bookmarked_projects, discovered@),
    {
        let ghost recent = recent_projects;
        let ghost bookmarked = bookmarked_projects;
        let mut app = App::empty(projects_root);
        app.recent_projects = recent_projects;
        app.bookmarked_projects = bookmarked_projects;
        app.projects = discovered;
        sort_projects(&mut app.projects, &app.recent_projects);
        let ghost m0 = app;
        app.rebuild_project_matcher();
        let ghost m1 = app;
        if indices_len(&app.filtered_projects) > 0 {
            app.cursor = 0;
            app.refresh_targets();
        }
        let ghost m2 = app;
        app.request_all_project_sizes();
        assert(projects_refiltered(m0, m1) && crate::app::background::only_asked(m2, app, RequestKind::Size));
        app
    }

    /// Opens the add-project dialog with an empty field.
    pub fn start_create_project(&mut self)
        ensures
            create_dialog_opened(*old(self), *final(self)),
    {
        self.creating_project = true;
        self.create_project_input.reset();
    }

    /// Closes the add-project dialog and empties its field.
    pub fn cancel_create_project(&mut self)
        ensures
            create_dialog_closed(*old(self), *final(self)),
    {
        self.creating_project = false;
        self.create_project_input.reset();
    }

    /// What the add-project dialog asks to create: the typed text without
    /// surrounding whitespace and the path of the new project. Empty text
    /// just closes the dialog.
    pub fn prepare_create_project(&mut self) -> (r: Option<ProjectCreation>)
        ensures
            r is Some == (trimmed(old(self).create_project_input.value@).len() > 0),
            r is None ==> create_dialog_closed(*old(self), *final(self)),
            r matches Some(c) ==> (*final(self) == *old(self) && c.value@ == trimmed(
                old(self).create_project_input.value@,
            ) && opt_str(c.path) == created_path(old(self).projects_root@, c.value@) && (c.program@, views(
                c.args@,
            )) == creation_command(c.value@)),
    {
        let value = trim(self.create_project_input.value.as_str());
        if value.as_str().is_empty() {
            self.cancel_create_project();
            return None;
        }
        let git = looks_like_git_url(value.as_str());
        let path = if git {
            cloned_project_path(self.projects_root.as_str(), value.as_str())
        } else {
            Some(path_join_exec(self.projects_root.as_str(), value.as_str()))
        };
        let (program, verb) = if git {
            (String::from_str("git"), String::from_str("clone"))
        } else {
            (String::from_str("cargo"), String::from_str("new"))
        };
        let mut args: Vec<String> = Vec::new();
        args.push(verb);
        args.push(value.clone());
        proof {
            reveal_strlit("git");
            reveal_strlit("clone");
            reveal_strlit("cargo");
            reveal_strlit("new");
            assert(views(args@) =~= creation_command(value@).1);
        }
        Some(ProjectCreation { value, path, program, args })
    }

    /// The add-project dialog closes while the project is being created.
    pub fn begin_project_creation(&mut self)
        ensures
            *final(self) == (App {
                creating_project: false,
                create_project_input: final(self).create_project_input,
                creating_project_in_background: true,
                ..*old(self)
            }),
            field_empty(final(self).create_project_input),
    {
        self.cancel_create_project();
        self.creating_project_in_background = true;
    }

    /// Bookmarks the selected project, or drops its bookmark; the bookmarks
    /// are then to be saved.
    pub fn toggle_selected_project_bookmark(&mut self)
        ensures
            bookmark_toggled(*old(self), *final(self)),
    {
        let key = match self.current_project() {
            Some(p) => p.path.clone(),
            None => return,
        };
        if !self.bookmarked_projects.entries.insert(key.clone()) {
            self.bookmarked_projects.entries.remove(key.as_str());
        }
        self.bookmarks_dirty = true;
    }

    /// Forgets the measured size of the project at `path`, before it is
    /// cleaned and measured again.
    pub fn forget_project_size(&mut self, path: &str)
        ensures
            *final(self) == (App {
                size_cache: final(self).size_cache,
                loading_sizes: final(self).loading_sizes,
                ..*old(self)
            }),
            final(self).size_cache@ == old(self).size_cache@.remove(path@),
            final(self).loading_sizes@ == old(self).loading_sizes@.remove(path@),
    {
        self.size_cache.remove(path);
        self.loading_sizes.remove(path);
    }

    /// Drops everything known about the selected project and asks for it
    /// again: targets, metadata, CI runs, languages, git status and size.
    pub fn rescan_selected_project(&mut self)
        requires
            old(self).matchers_ok(),
        ensures
            final(self).matchers_ok(),
            rescanned(*old(self), *final(self)),
    {
        let path = match self.current_project() {
            Some(p) => p.path.clone(),
            None => return,
        };
        forget_project(self, path.as_str());
        let ghost m0 = *self;
        self.refresh_targets();
        let ghost m1 = *self;
        self.request_metadata(path.clone());
        self.request_ci_runs(path.clone());
        self.request_languages(path.clone());
        self.request_git_status(path.clone());
        self.request_size(path);
        proof {
            assert(request_views(self.requests@) =~= request_views(m1.requests@).push(
                (RequestKind::Metadata, path@),
            ).push((RequestKind::CiRuns, path@)).push((RequestKind::Languages, path@)).push(
                (RequestKind::GitStatus, path@),
            ).push((RequestKind::Size, path@)));
            assert(caches_forgotten(*old(self), m0, path@) && targets_refreshed(m0, m1));
        }
    }

    /// Records that the project at `project_path` was opened at `now`
    /// (see `project_opened`).
    pub fn mark_project_opened(&mut self, project_path: &str, now: u64)
        requires
            old(self).matchers_ok(),
        ensures
            final(self).matchers_ok(),
            project_opened(*old(self), *final(self), project_path@, now),
    {
        let selected = match self.current_project() {
            Some(p) => Some(p.path.clone()),
            None => None,
        };
        self.recent_projects.entries.insert(String::from_str(project_path), now);
        self.recent_dirty = true;
        sort_projects(&mut self.projects, &self.recent_projects);
        let ghost m0 = *self;
        self.rebuild_project_matcher();
        let ghost m1 = *self;
        let _len = indices_len(&self.filtered_projects);
        match selected {
            Some(sp) => match position_listed(&self.filtered_projects, &self.projects, sp.as_str()) {
                Some(k) => {
                    self.cursor = k as isize;
                },
                None => {},
            },
            None => {},
        }
        assert(projects_refiltered(m0, m1));
    }

    /// Replaces the projects by a fresh discovery (see `projects_reloaded`).
    #[verifier::rlimit(40)]
    pub fn reload_projects(&mut self, discovered: Vec<Project>)
        requires
            old(self).matchers_ok(),
        ensures
            final(self).matchers_ok(),
            projects_reloaded(*old(self), *final(self), discovered@),
    {
        let selected = match self.current_project() {
            Some(p) => Some(p.path.clone()),
            None => None,
        };
        assert(opt_str(selected) == old(self).current_project_path());
        self.projects = discovered;
        sort_projects(&mut self.projects, &self.recent_projects);
        let ghost m0 = *self;
        self.rebuild_project_matcher();
        let ghost m1 = *self;
        let c = reselected_cursor(&self.filtered_projects, &self.projects, &selected);
        self.cursor = c;
        proof {
            assert(projects_refiltered(m0, m1));
        }
        self.refresh_targets();
    }

    /// Takes the project at `path`, already deleted from disk, out of the
    /// state (see `project_deleted`); returns the keys of its launched
    /// targets, whose sessions are to be dropped.
    pub fn finish_delete_project(&mut self, path: &str) -> (removed: Vec<String>)
        requires
            old(self).matchers_ok(),
        ensures
            final(self).matchers_ok(),
            project_deleted(*old(self), *final(self), path@, views(removed@)),
    {
        let ghost pre = *self;
        self.bookmarked_projects.entries.remove(path);
        self.recent_projects.entries.remove(path);
        self.bookmarks_dirty = true;
        self.recent_dirty = true;
        let mut kept: Vec<Project> = Vec::new();
        let mut i: usize = 0;
        while i < self.projects.len()
            invariant
                i <= self.projects@.len(),
                self.projects@ == pre.projects@,
                kept@ == projects_without(pre.projects@.take(i as int), path@),
            decreases self.projects@.len() - i,
        {
            proof {
                assert(pre.projects@.take(i + 1).drop_last() =~= pre.projects@.take(i as int));
            }
            if !str_eq(self.projects[i].path.as_str(), path) {
                kept.push(self.projects[i].clone());
            }
            i += 1;
        }
        proof {
            assert(pre.projects@.take(pre.projects@.len() as int) =~= pre.projects@);
        }
        self.projects = kept;
        let ghost ma = *self;
        forget_project(self, path);
        let ghost mb = *self;
        let mut statuses: Vec<TargetStatus> = Vec::new();
        let mut removed: Vec<String> = Vec::new();
        let mut j: usize = 0;
        while j < self.target_statuses.len()
            invariant
                j <= self.target_statuses@.len(),
                self.target_statuses@ == pre.target_statuses@,
                statuses@ == statuses_without(pre.target_statuses@.take(j as int), path@),
                views(removed@) == status_keys_at(pre.target_statuses@.take(j as int), path@),
            decreases self.target_statuses@.len() - j,
        {
            proof {
                assert(pre.target_statuses@.take(j + 1).drop_last() =~= pre.target_statuses@.take(j as int));
            }
            let status = &self.target_statuses[j];
            if str_eq(status.project_path.as_str(), path) {
                let ghost before = removed@;
                removed.push(status.key.clone());
                proof {
                    assert(views(removed@) =~= views(before).push(status.key@));
                }
            } else {
                statuses.push(status.clone());
            }
            j += 1;
        }
        proof {
            assert(pre.target_statuses@.take(pre.target_statuses@.len() as int) =~= pre.target_statuses@);
        }
        self.target_statuses = statuses;
        self.confirm_delete_project = false;
        let ghost m0 = *self;
        self.rebuild_project_matcher();
        let ghost m1 = *self;
        let len = indices_len(&self.filtered_projects);
        if len == 0 {
            proof {
                lemma_matchers_ready(*self);
            }
            self.cursor = -1;
            self.targets.clear();
            self.filtered_targets.clear();
            self.target_cursor = -1;
            self.filtered_ci_runs.clear();
            self.ci_cursor = -1;
            proof {
                lemma_no_targets_listed(self.target_query@, self.target_matcher);
                assert(self.targets@ =~= Seq::<Target>::empty());
                assert(self.filtered_targets@ =~= Seq::<usize>::empty());
            }
        } else {
            self.cursor = if self.cursor < 0 {
                0
            } else if self.cursor as usize >= len {
                (len - 1) as isize
            } else {
                self.cursor
            };
            self.refresh_targets();
        }
        assert(caches_forgotten(ma, mb, path@) && projects_refiltered(m0, m1));
        removed
    }
}

} // verus!
