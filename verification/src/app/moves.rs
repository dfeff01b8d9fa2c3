//! Moving the cursors through the lists, and reading what they select.
use crate::app::filters::{indices_len, statuses_len};
use crate::app::{
    indices_below, selected_index, target_views, targets_refreshed, App, Focus, Target,
    TargetStatus,
};
use crate::projects::Project;
use crate::providers::{CiRun, LanguagesData, ProjectMetadataSummary};
use crate::text::str_eq;
use vstd::prelude::*;

verus! {

/// The cursor after moving down a list of `len > 0` rows, wrapping to the
/// top; an unset cursor goes to the first row.
pub open spec fn next_cursor(c: int, len: nat) -> int {
    if c < 0 {
        0
    } else {
        (c + 1) % (len as int)
    }
}

/// The cursor after moving up a list of `len > 0` rows, wrapping to the
/// bottom; an unset cursor goes to the last row.
pub open spec fn previous_cursor(c: int, len: nat) -> int {
    if c < 0 {
        len - 1
    } else {
        (c - 1) % (len as int)
    }
}

/// Moving down and then up a non-empty list returns to the same row.
pub proof fn lemma_next_then_previous(c: int, len: nat)
    requires
        0 <= c < len,
    ensures
        previous_cursor(next_cursor(c, len), len) == c,
{
    if c + 1 == len {
        assert((c + 1) % (len as int) == 0) by (nonlinear_arith)
            requires
                c + 1 == len,
                len > 0,
        ;
        assert((0 - 1) % (len as int) == len - 1) by (nonlinear_arith)
            requires
                len > 0,
        ;
    } else {
        assert((c + 1) % (len as int) == c + 1) by (nonlinear_arith)
            requires
                0 <= c + 1 < len,
        ;
        assert((c + 1 - 1) % (len as int) == c) by (nonlinear_arith)
            requires
                0 <= c < len,
        ;
    }
}

/// Moving up and then down a non-empty list returns to the same row.
pub proof fn lemma_previous_then_next(c: int, len: nat)
    requires
        0 <= c < len,
    ensures
        next_cursor(previous_cursor(c, len), len) == c,
{
    if c == 0 {
        assert((0 - 1) % (len as int) == len - 1) by (nonlinear_arith)
            requires
                len > 0,
        ;
        assert((len - 1 + 1) % (len as int) == 0) by (nonlinear_arith)
            requires
                len > 0,
        ;
    } else {
        assert((c - 1) % (len as int) == c - 1) by (nonlinear_arith)
            requires
                0 <= c - 1 < len,
        ;
        assert((c - 1 + 1) % (len as int) == c) by (nonlinear_arith)
            requires
                0 <= c < len,
        ;
    }
}

/// Either move keeps a cursor of a non-empty list on one of its rows.
pub proof fn lemma_moves_stay_in_list(c: int, len: nat)
    requires
        len > 0,
    ensures
        0 <= next_cursor(c, len) < len,
        0 <= previous_cursor(c, len) < len,
{
    if c >= 0 {
        assert(0 <= (c + 1) % (len as int) < len) by (nonlinear_arith)
            requires
                len > 0,
        ;
        assert(0 <= (c - 1) % (len as int) < len) by (nonlinear_arith)
            requires
                len > 0,
        ;
    }
}

fn next_exec(c: isize, len: usize) -> (r: isize)
    requires
        0 < len <= isize::MAX,
    ensures
        r as int == next_cursor(c as int, len as nat),
{
    proof {
        lemma_moves_stay_in_list(c as int, len as nat);
    }
    if c < 0 {
        0
    } else {
        let l = len as isize;
        let m = c % l;
        assert((c + 1) % (l as int) == (m + 1) % (l as int)) by (nonlinear_arith)
            requires
                c >= 0,
                l > 0,
                m == c % l,
        ;
        (m + 1) % l
    }
}

fn previous_exec(c: isize, len: usize) -> (r: isize)
    requires
        0 < len <= isize::MAX,
    ensures
        r as int == previous_cursor(c as int, len as nat),
{
    proof {
        lemma_moves_stay_in_list(c as int, len as nat);
    }
    let l = len as isize;
    if c < 0 {
        l - 1
    } else if c == 0 {
        assert((0 - 1) % (l as int) == l - 1) by (nonlinear_arith)
            requires
                l > 0,
        ;
        l - 1
    } else {
        (c - 1) % l
    }
}

impl App {
    /// Moves the target cursor down, wrapping; nothing happens without
    /// targets.
    pub fn select_next_target(&mut self)
        ensures
            *final(self) == (App {
                target_cursor: if old(self).filtered_targets@.len() == 0 {
                    old(self).target_cursor
                } else {
                    next_cursor(
                        old(self).target_cursor as int,
                        old(self).filtered_targets@.len(),
                    ) as isize
                },
                ..*old(self)
            }),
    {
        let len = indices_len(&self.filtered_targets);
        if len == 0 {
            return;
        }
        self.target_cursor = next_exec(self.target_cursor, len);
    }

    /// Moves the target cursor up, wrapping; nothing happens without targets.
    pub fn select_previous_target(&mut self)
        ensures
            *final(self) == (App {
                target_cursor: if old(self).filtered_targets@.len() == 0 {
                    old(self).target_cursor
                } else {
                    previous_cursor(
                        old(self).target_cursor as int,
                        old(self).filtered_targets@.len(),
                    ) as isize
                },
                ..*old(self)
            }),
    {
        let len = indices_len(&self.filtered_targets);
        if len == 0 {
            return;
        }
        self.target_cursor = previous_exec(self.target_cursor, len);
    }

    /// Moves the CI cursor down, wrapping; without runs it is unset.
    pub fn select_next_ci_run(&mut self)
        ensures
            *final(self) == (App {
                ci_cursor: if old(self).filtered_ci_runs@.len() == 0 {
                    -1isize
                } else {
                    next_cursor(old(self).ci_cursor as int, old(self).filtered_ci_runs@.len()) as isize
                },
                ..*old(self)
            }),
    {
        let len = indices_len(&self.filtered_ci_runs);
        if len == 0 {
            self.ci_cursor = -1;
            return;
        }
        self.ci_cursor = next_exec(self.ci_cursor, len);
    }

    /// Moves the CI cursor up, wrapping; without runs it is unset.
    pub fn select_previous_ci_run(&mut self)
        ensures
            *final(self) == (App {
                ci_cursor: if old(self).filtered_ci_runs@.len() == 0 {
                    -1isize
                } else {
                    previous_cursor(old(self).ci_cursor as int, old(self).filtered_ci_runs@.len()) as isize
                },
                ..*old(self)
            }),
    {
        let len = indices_len(&self.filtered_ci_runs);
        if len == 0 {
            self.ci_cursor = -1;
            return;
        }
        self.ci_cursor = previous_exec(self.ci_cursor, len);
    }

    /// Moves the project cursor down, wrapping, and shows that project's
    /// targets; nothing happens without projects.
    pub fn select_next_project(&mut self)
        requires
            old(self).matchers_ok(),
        ensures
            final(self).matchers_ok(),
            old(self).filtered_projects@.len() == 0 ==> *final(self) == *old(self),
            old(self).filtered_projects@.len() > 0 ==> targets_refreshed(
                App {
                    cursor: next_cursor(old(self).cursor as int, old(self).filtered_projects@.len()) as isize,
                    ..*old(self)
                },
                *final(self),
            ),
    {
        let len = indices_len(&self.filtered_projects);
        if len == 0 {
            return;
        }
        self.cursor = next_exec(self.cursor, len);
        self.refresh_targets();
    }

    /// Moves the project cursor up, wrapping, and shows that project's
    /// targets; nothing happens without projects.
    pub fn select_previous_project(&mut self)
        requires
            old(self).matchers_ok(),
        ensures
            final(self).matchers_ok(),
            old(self).filtered_projects@.len() == 0 ==> *final(self) == *old(self),
            old(self).filtered_projects@.len() > 0 ==> targets_refreshed(
                App {
                    cursor: previous_cursor(old(self).cursor as int, old(self).filtered_projects@.len()) as isize,
                    ..*old(self)
                },
                *final(self),
            ),
    {
        let len = indices_len(&self.filtered_projects);
        if len == 0 {
            return;
        }
        self.cursor = previous_exec(self.cursor, len);
        self.refresh_targets();
    }

    /// Every launched target, whether building, running or failed, is
    /// listed as running.
    pub fn running_target_statuses(&self) -> (r: &Vec<TargetStatus>)
        ensures
            r@ == self.target_statuses@,
    {
        &self.target_statuses
    }

    /// The running target under the running cursor.
    pub fn current_running_target_status(&self) -> (r: Option<&TargetStatus>)
        ensures
            r matches Some(s) ==> (self.current_running_index() matches Some(i) && *s
                == self.target_statuses@[i]),
            r is None ==> self.current_running_index() is None,
    {
        if self.running_cursor < 0 {
            return None;
        }
        let i = self.running_cursor as usize;
        if i >= self.target_statuses.len() {
            return None;
        }
        Some(&self.target_statuses[i])
    }

    /// The first launched target of `project` with the kind and name of
    /// `target`.
    pub fn target_status_for(&self, project: &Project, target: &Target) -> (r: Option<&TargetStatus>)
        ensures
            r matches Some(s) ==> (first_status_for(
                self.target_statuses@,
                project.path@,
                target.name@,
                target.kind@,
            ) matches Some(i) && *s == self.target_statuses@[i]),
            r is None ==> first_status_for(
                self.target_statuses@,
                project.path@,
                target.name@,
                target.kind@,
            ) is None,
    {
        let mut i: usize = 0;
        while i < self.target_statuses.len()
            invariant
                i <= self.target_statuses@.len(),
                forall|j: int| 0 <= j < i ==> !status_is_for(
                    #[trigger] self.target_statuses@[j],
                    project.path@,
                    target.name@,
                    target.kind@,
                ),
            decreases self.target_statuses@.len() - i,
        {
            let s = &self.target_statuses[i];
            if str_eq(s.project_path.as_str(), project.path.as_str()) && str_eq(
                s.target_name.as_str(),
                target.name.as_str(),
            ) && str_eq(s.target_kind.as_str(), target.kind.as_str()) {
                proof {
                    lemma_first_status_for(self.target_statuses@, project.path@, target.name@, target.kind@, i as int);
                }
                return Some(s);
            }
            i += 1;
        }
        proof {
            lemma_first_status_none(self.target_statuses@, project.path@, target.name@, target.kind@);
        }
        None
    }

    /// The description of the selected target, while the targets pane has
    /// the focus.
    pub fn current_target_description(&self) -> (r: Option<&str>)
        ensures
            r matches Some(d) ==> shown_description(*self) == Some(d@),
            r is None ==> shown_description(*self) is None,
    {
        if self.focus != Focus::Targets {
            return None;
        }
        match self.current_target() {
            Some(t) => match &t.description {
                Some(d) => Some(d.as_str()),
                None => None,
            },
            None => None,
        }
    }

    /// Whether the targets of the selected project are being loaded.
    pub fn targets_loading(&self) -> (r: bool)
        ensures
            r == (self.current_project_path() matches Some(p) && self.loading_targets@.contains(p)),
    {
        match self.current_project() {
            Some(p) => self.loading_targets.contains(p.path.as_str()),
            None => false,
        }
    }

    /// The projects the filter keeps, in filter order.
    pub fn visible_projects(&self) -> (r: Vec<Project>)
        ensures
            r@ == visible(self.filtered_projects@, self.projects@),
    {
        let mut r: Vec<Project> = Vec::new();
        let mut k: usize = 0;
        while k < self.filtered_projects.len()
            invariant
                k <= self.filtered_projects@.len(),
                r@ == visible(self.filtered_projects@.take(k as int), self.projects@),
            decreases self.filtered_projects@.len() - k,
        {
            let i = self.filtered_projects[k];
            proof {
                assert(self.filtered_projects@.take(k + 1).drop_last() =~= self.filtered_projects@.take(k as int));
            }
            if i < self.projects.len() {
                r.push(self.projects[i].clone());
            }
            k += 1;
        }
        assert(self.filtered_projects@.take(self.filtered_projects@.len() as int) =~= self.filtered_projects@);
        r
    }

    /// The targets the filter keeps, in filter order.
    pub fn visible_targets(&self) -> (r: Vec<Target>)
        ensures
            target_views(r@) == target_views(visible(self.filtered_targets@, self.targets@)),
    {
        let mut r: Vec<Target> = Vec::new();
        let mut k: usize = 0;
        while k < self.filtered_targets.len()
            invariant
                k <= self.filtered_targets@.len(),
                target_views(r@) == target_views(visible(self.filtered_targets@.take(k as int), self.targets@)),
            decreases self.filtered_targets@.len() - k,
        {
            let i = self.filtered_targets[k];
            proof {
                assert(self.filtered_targets@.take(k + 1).drop_last() =~= self.filtered_targets@.take(k as int));
            }
            if i < self.targets.len() {
                let t = self.targets[i].clone();
                let ghost before = r@;
                r.push(t);
                proof {
                    assert(target_views(r@) =~= target_views(before).push(t@));
                    assert(target_views(visible(self.filtered_targets@.take(k + 1), self.targets@))
                        =~= target_views(visible(self.filtered_targets@.take(k as int), self.targets@)).push(self.targets@[i as int]@));
                }
            }
            k += 1;
        }
        assert(self.filtered_targets@.take(self.filtered_targets@.len() as int) =~= self.filtered_targets@);
        r
    }

    /// The CI runs the CI filter keeps, in order.
    pub fn visible_ci_runs(&self) -> (r: Vec<CiRun>)
        ensures
            r@ == match self.ci_runs_shown() {
                Some(ci) => visible(self.filtered_ci_runs@, ci.runs@),
                None => Seq::<CiRun>::empty(),
            },
    {
        let mut r: Vec<CiRun> = Vec::new();
        match self.project_ci_runs() {
            Some(ci) => {
                let mut k: usize = 0;
                while k < self.filtered_ci_runs.len()
                    invariant
                        k <= self.filtered_ci_runs@.len(),
                        r@ == visible(self.filtered_ci_runs@.take(k as int), ci.runs@),
                    decreases self.filtered_ci_runs@.len() - k,
                {
                    let i = self.filtered_ci_runs[k];
                    proof {
                        assert(self.filtered_ci_runs@.take(k + 1).drop_last() =~= self.filtered_ci_runs@.take(k as int));
                    }
                    if i < ci.runs.len() {
                        r.push(ci.runs[i].clone());
                    }
                    k += 1;
                }
                assert(self.filtered_ci_runs@.take(self.filtered_ci_runs@.len() as int) =~= self.filtered_ci_runs@);
            },
            None => {
                assert(r@ =~= Seq::<CiRun>::empty());
            },
        }
        r
    }

    /// The CI run under the CI cursor.
    pub fn current_ci_run(&self) -> (r: Option<&CiRun>)
        ensures
            r matches Some(run) ==> (self.ci_runs_shown() matches Some(ci) && selected_index(
                self.ci_cursor as int,
                self.filtered_ci_runs@,
                ci.runs@.len(),
            ) matches Some(i) && *run == ci.runs@[i]),
            r is None ==> (self.ci_runs_shown() is None || selected_index(
                self.ci_cursor as int,
                self.filtered_ci_runs@,
                self.ci_runs_shown()->0.runs@.len(),
            ) is None),
    {
        if self.ci_cursor < 0 {
            return None;
        }
        let visible = self.ci_cursor as usize;
        if visible >= self.filtered_ci_runs.len() {
            return None;
        }
        let index = self.filtered_ci_runs[visible];
        match self.project_ci_runs() {
            Some(ci) => {
                if index < ci.runs.len() {
                    Some(&ci.runs[index])
                } else {
                    None
                }
            },
            None => None,
        }
    }

    /// Package and git facts of the selected project, once fetched.
    pub fn project_metadata(&self) -> (r: Option<&ProjectMetadataSummary>)
        ensures
            r matches Some(m) ==> (self.current_project_path() matches Some(p)
                && self.metadata_cache@.contains_key(p) && *m == self.metadata_cache@[p]),
            r is None ==> (self.current_project_path() is None
                || !self.metadata_cache@.contains_key(self.current_project_path()->0)),
    {
        match self.current_project() {
            Some(p) => self.metadata_cache.get(p.path.as_str()),
            None => None,
        }
    }

    /// Language statistics of the selected project, once fetched and found.
    pub fn project_languages(&self) -> (r: Option<&LanguagesData>)
        ensures
            r matches Some(l) ==> (self.current_project_path() matches Some(p)
                && self.languages_cache@.contains_key(p) && self.languages_cache@[p] == Some(*l)),
            r is None ==> (self.current_project_path() is None
                || !self.languages_cache@.contains_key(self.current_project_path()->0)
                || self.languages_cache@[self.current_project_path()->0] is None),
    {
        match self.current_project() {
            Some(p) => match self.languages_cache.get(p.path.as_str()) {
                Some(Some(l)) => Some(l),
                _ => None,
            },
            None => None,
        }
    }

    /// Whether `project` is bookmarked.
    pub fn is_bookmarked(&self, project: &Project) -> (r: bool)
        ensures
            r == self.bookmarked_projects.entries@.contains(project.path@),
    {
        self.bookmarked_projects.entries.contains(project.path.as_str())
    }

    /// When `project` was last opened, in seconds since the Unix epoch.
    pub fn project_last_opened(&self, project: &Project) -> (r: Option<u64>)
        ensures
            r == (if self.recent_projects.entries@.contains_key(project.path@) {
                Some(self.recent_projects.entries@[project.path@])
            } else {
                None
            }),
    {
        match self.recent_projects.entries.get(project.path.as_str()) {
            Some(t) => Some(*t),
            None => None,
        }
    }

    /// The size of `project` on disk, once measured.
    pub fn cached_project_size_bytes(&self, project: &Project) -> (r: Option<u64>)
        ensures
            r == (if self.size_cache@.contains_key(project.path@) {
                Some(self.size_cache@[project.path@])
            } else {
                None
            }),
    {
        match self.size_cache.get(project.path.as_str()) {
            Some(t) => Some(*t),
            None => None,
        }
    }

    /// Whether the focused pane's search query holds text.
    pub fn active_filter_is_non_empty(&self) -> (r: bool)
        ensures
            r == active_query_non_empty(*self),
    {
        match self.focus {
            Focus::Projects => !self.project_query.as_str().is_empty(),
            Focus::RunningTargets => false,
            Focus::CiRuns => !self.ci_query.as_str().is_empty(),
            Focus::Targets => !self.target_query.as_str().is_empty(),
        }
    }
}

/// The description shown for the selected target: only while the targets
/// pane has the focus.
pub open spec fn shown_description(app: App) -> Option<Seq<char>> {
    if app.focus != Focus::Targets {
        None
    } else {
        match app.current_target_index() {
            Some(i) => match app.targets@[i].description {
                Some(d) => Some(d@),
                None => None,
            },
            None => None,
        }
    }
}

/// Position in `filtered` of the first listed project at `path`.
pub open spec fn listed_project_position(filtered: Seq<usize>, ps: Seq<Project>, path: Seq<char>) -> Option<int>
    decreases filtered.len(),
{
    if filtered.len() == 0 {
        None
    } else {
        match listed_project_position(filtered.drop_last(), ps, path) {
            Some(k) => Some(k),
            None => if filtered.last() < ps.len() && ps[filtered.last() as int].path@ == path {
                Some(filtered.len() - 1)
            } else {
                None
            },
        }
    }
}

/// Position in `filtered` of the first listed target with this name and
/// kind.
pub open spec fn listed_target_position(filtered: Seq<usize>, ts: Seq<Target>, name: Seq<char>, kind: Seq<char>) -> Option<int>
    decreases filtered.len(),
{
    if filtered.len() == 0 {
        None
    } else {
        match listed_target_position(filtered.drop_last(), ts, name, kind) {
            Some(k) => Some(k),
            None => if filtered.last() < ts.len() && ts[filtered.last() as int].name@ == name
                && ts[filtered.last() as int].kind@ == kind {
                Some(filtered.len() - 1)
            } else {
                None
            },
        }
    }
}

/// After the project and target selection followed the selected running
/// target: its project, when listed, is selected and its targets refreshed,
/// and then its target, when listed, is selected too.
pub open spec fn selection_follows_running(pre: App, post: App) -> bool {
    match pre.current_running_index() {
        None => post == pre,
        Some(r) => {
            let st = pre.target_statuses@[r];
            match listed_project_position(pre.filtered_projects@, pre.projects@, st.project_path@) {
                None => post == pre,
                Some(k) => exists|mid: App|
                    #[trigger] targets_refreshed(App { cursor: k as isize, ..pre }, mid) && post
                        == match listed_target_position(
                        mid.filtered_targets@,
                        mid.targets@,
                        st.target_name@,
                        st.target_kind@,
                    ) {
                        Some(t) => App { target_cursor: t as isize, ..mid },
                        None => mid,
                    },
            }
        },
    }
}

/// The focused pane has a search query (the running pane has none).
pub open spec fn active_query_non_empty(app: App) -> bool {
    match app.focus {
        Focus::Projects => app.project_query@.len() > 0,
        Focus::RunningTargets => false,
        Focus::CiRuns => app.ci_query@.len() > 0,
        Focus::Targets => app.target_query@.len() > 0,
    }
}

/// The items at the given indices, in order; indices past the end are
/// skipped.
pub open spec fn visible<T>(filtered: Seq<usize>, items: Seq<T>) -> Seq<T>
    decreases filtered.len(),
{
    if filtered.len() == 0 {
        Seq::empty()
    } else if filtered.last() < items.len() {
        visible(filtered.drop_last(), items).push(items[filtered.last() as int])
    } else {
        visible(filtered.drop_last(), items)
    }
}

/// A launched target of the project at `path` with the given target name
/// and kind.
pub open spec fn status_is_for(s: TargetStatus, path: Seq<char>, name: Seq<char>, kind: Seq<char>) -> bool {
    s.project_path@ == path && s.target_name@ == name && s.target_kind@ == kind
}

/// Index of the first such launched target.
pub open spec fn first_status_for(ss: Seq<TargetStatus>, path: Seq<char>, name: Seq<char>, kind: Seq<char>) -> Option<int>
    decreases ss.len(),
{
    if ss.len() == 0 {
        None
    } else {
        match first_status_for(ss.drop_last(), path, name, kind) {
            Some(i) => Some(i),
            None => if status_is_for(ss.last(), path, name, kind) {
                Some(ss.len() - 1)
            } else {
                None
            },
        }
    }
}

fn position_listed_project(filtered: &Vec<usize>, ps: &Vec<Project>, path: &str) -> (r: Option<usize>)
    ensures
        r matches Some(k) ==> listed_project_position(filtered@, ps@, path@) == Some(k as int) && k < filtered@.len(),
        r is None ==> listed_project_position(filtered@, ps@, path@) is None,
{
    let mut k: usize = 0;
    while k < filtered.len()
        invariant
            k <= filtered@.len(),
            listed_project_position(filtered@.take(k as int), ps@, path@) is None,
        decreases filtered@.len() - k,
    {
        let i = filtered[k];
        proof {
            assert(filtered@.take(k + 1).drop_last() =~= filtered@.take(k as int));
        }
        if i < ps.len() && str_eq(ps[i].path.as_str(), path) {
            proof {
                lemma_listed_project_prefix(filtered@, ps@, path@, k + 1);
            }
            return Some(k);
        }
        k += 1;
    }
    proof {
        assert(filtered@.take(filtered@.len() as int) =~= filtered@);
    }
    None
}

proof fn lemma_listed_project_prefix(filtered: Seq<usize>, ps: Seq<Project>, path: Seq<char>, k: int)
    requires
        0 <= k <= filtered.len(),
        listed_project_position(filtered.take(k), ps, path) is Some,
    ensures
        listed_project_position(filtered, ps, path) == listed_project_position(filtered.take(k), ps, path),
    decreases filtered.len() - k,
{
    if k < filtered.len() {
        assert(filtered.take(k + 1).drop_last() =~= filtered.take(k));
        lemma_listed_project_prefix(filtered, ps, path, k + 1);
    } else {
        assert(filtered.take(k) =~= filtered);
    }
}

fn position_listed_target(filtered: &Vec<usize>, ts: &Vec<Target>, name: &str, kind: &str) -> (r: Option<usize>)
    ensures
        r matches Some(k) ==> listed_target_position(filtered@, ts@, name@, kind@) == Some(k as int) && k < filtered@.len(),
        r is None ==> listed_target_position(filtered@, ts@, name@, kind@) is None,
{
    let mut k: usize = 0;
    while k < filtered.len()
        invariant
            k <= filtered@.len(),
            listed_target_position(filtered@.take(k as int), ts@, name@, kind@) is None,
        decreases filtered@.len() - k,
    {
        let i = filtered[k];
        proof {
            assert(filtered@.take(k + 1).drop_last() =~= filtered@.take(k as int));
        }
        if i < ts.len() && str_eq(ts[i].name.as_str(), name) && str_eq(ts[i].kind.as_str(), kind) {
            proof {
                lemma_listed_target_prefix(filtered@, ts@, name@, kind@, k + 1);
            }
            return Some(k);
        }
        k += 1;
    }
    proof {
        assert(filtered@.take(filtered@.len() as int) =~= filtered@);
    }
    None
}

proof fn lemma_listed_target_prefix(filtered: Seq<usize>, ts: Seq<Target>, name: Seq<char>, kind: Seq<char>, k: int)
    requires
        0 <= k <= filtered.len(),
        listed_target_position(filtered.take(k), ts, name, kind) is Some,
    ensures
        listed_target_position(filtered, ts, name, kind) == listed_target_position(filtered.take(k), ts, name, kind),
    decreases filtered.len() - k,
{
    if k < filtered.len() {
        assert(filtered.take(k + 1).drop_last() =~= filtered.take(k));
        lemma_listed_target_prefix(filtered, ts, name, kind, k + 1);
    } else {
        assert(filtered.take(k) =~= filtered);
    }
}

pub(crate) proof fn lemma_first_status_for(ss: Seq<TargetStatus>, path: Seq<char>, name: Seq<char>, kind: Seq<char>, i: int)
    requires
        0 <= i < ss.len(),
        status_is_for(ss[i], path, name, kind),
        forall|j: int| 0 <= j < i ==> !status_is_for(#[trigger] ss[j], path, name, kind),
    ensures
        first_status_for(ss, path, name, kind) == Some(i),
    decreases ss.len(),
{
    if i < ss.len() - 1 {
        lemma_first_status_for(ss.drop_last(), path, name, kind, i);
    } else {
        lemma_first_status_none(ss.drop_last(), path, name, kind);
    }
}

pub(crate) proof fn lemma_first_status_none(ss: Seq<TargetStatus>, path: Seq<char>, name: Seq<char>, kind: Seq<char>)
    requires
        forall|j: int| 0 <= j < ss.len() ==> !status_is_for(#[trigger] ss[j], path, name, kind),
    ensures
        first_status_for(ss, path, name, kind) is None,
    decreases ss.len(),
{
    if ss.len() > 0 {
        lemma_first_status_none(ss.drop_last(), path, name, kind);
    }
}

impl App {
    /// Selects the project, and then the target, of the selected running
    /// target, where the lists show them.
    pub fn sync_project_selection_to_running_target(&mut self)
        requires
            old(self).matchers_ok(),
        ensures
            final(self).matchers_ok(),
            selection_follows_running(*old(self), *final(self)),
    {
        let status = match self.current_running_target_status() {
            Some(s) => s.clone(),
            None => return,
        };
        let _len = indices_len(&self.filtered_projects);
        let k = match position_listed_project(&self.filtered_projects, &self.projects, status.project_path.as_str()) {
            Some(k) => k,
            None => return,
        };
        let ghost pre = *self;
        self.cursor = k as isize;
        self.refresh_targets();
        let ghost mid = *self;
        let _tlen = indices_len(&self.filtered_targets);
        match position_listed_target(&self.filtered_targets, &self.targets, status.target_name.as_str(), status.target_kind.as_str()) {
            Some(t) => {
                self.target_cursor = t as isize;
            },
            None => {},
        }
        assert(targets_refreshed(App { cursor: k as isize, ..pre }, mid));
    }

    /// Moves the running cursor down, wrapping, and selects the project and
    /// target it runs; without running targets the cursor is unset.
    pub fn select_next_running_target(&mut self)
        requires
            old(self).matchers_ok(),
        ensures
            final(self).matchers_ok(),
            old(self).target_statuses@.len() == 0 ==> *final(self) == (App { running_cursor: -1isize, ..*old(self) }),
            old(self).target_statuses@.len() > 0 ==> selection_follows_running(
                App {
                    running_cursor: next_cursor(old(self).running_cursor as int, old(self).target_statuses@.len()) as isize,
                    ..*old(self)
                },
                *final(self),
            ),
    {
        let len = statuses_len(&self.target_statuses);
        if len == 0 {
            self.running_cursor = -1;
            return;
        }
        self.running_cursor = next_exec(self.running_cursor, len);
        self.sync_project_selection_to_running_target();
    }

    /// Moves the running cursor up, wrapping, and selects the project and
    /// target it runs; without running targets the cursor is unset.
    pub fn select_previous_running_target(&mut self)
        requires
            old(self).matchers_ok(),
        ensures
            final(self).matchers_ok(),
            old(self).target_statuses@.len() == 0 ==> *final(self) == (App { running_cursor: -1isize, ..*old(self) }),
            old(self).target_statuses@.len() > 0 ==> selection_follows_running(
                App {
                    running_cursor: previous_cursor(old(self).running_cursor as int, old(self).target_statuses@.len()) as isize,
                    ..*old(self)
                },
                *final(self),
            ),
    {
        let len = statuses_len(&self.target_statuses);
        if len == 0 {
            self.running_cursor = -1;
            return;
        }
        self.running_cursor = previous_exec(self.running_cursor, len);
        self.sync_project_selection_to_running_target();
    }

    /// Puts the focused pane's cursor on its first row (unset when empty);
    /// moving among projects also refreshes the targets.
    pub fn go_to_top(&mut self)
        requires
            old(self).matchers_ok(),
        ensures
            final(self).matchers_ok(),
            jumped(*old(self), *final(self), true),
    {
        match self.focus {
            Focus::Projects => {
                self.cursor = if self.filtered_projects.len() == 0 {
                    -1
                } else {
                    0
                };
                self.refresh_targets();
            },
            Focus::RunningTargets => {
                self.running_cursor = if self.target_statuses.len() == 0 {
                    -1
                } else {
                    0
                };
            },
            Focus::CiRuns => {
                self.ci_cursor = if self.filtered_ci_runs.len() == 0 {
                    -1
                } else {
                    0
                };
            },
            Focus::Targets => {
                self.target_cursor = if self.filtered_targets.len() == 0 {
                    -1
                } else {
                    0
                };
            },
        }
    }

    /// Puts the focused pane's cursor on its last row (unset when empty);
    /// moving among projects also refreshes the targets.
    pub fn go_to_bottom(&mut self)
        requires
            old(self).matchers_ok(),
        ensures
            final(self).matchers_ok(),
            jumped(*old(self), *final(self), false),
    {
        match self.focus {
            Focus::Projects => {
                let len = indices_len(&self.filtered_projects);
                self.cursor = if len == 0 {
                    -1
                } else {
                    len as isize - 1
                };
                self.refresh_targets();
            },
            Focus::RunningTargets => {
                let len = statuses_len(&self.target_statuses);
                self.running_cursor = if len == 0 {
                    -1
                } else {
                    len as isize - 1
                };
            },
            Focus::CiRuns => {
                let len = indices_len(&self.filtered_ci_runs);
                self.ci_cursor = if len == 0 {
                    -1
                } else {
                    len as isize - 1
                };
            },
            Focus::Targets => {
                let len = indices_len(&self.filtered_targets);
                self.target_cursor = if len == 0 {
                    -1
                } else {
                    len as isize - 1
                };
            },
        }
    }
}

/// First (`top`) or last row of a list of `len` rows; `-1` when empty.
pub open spec fn edge_row(len: nat, top: bool) -> int {
    if len == 0 {
        -1
    } else if top {
        0
    } else {
        len - 1
    }
}

/// After jumping to the top or bottom of the focused pane.
pub open spec fn jumped(pre: App, post: App, top: bool) -> bool {
    match pre.focus {
        Focus::Projects => targets_refreshed(
            App { cursor: edge_row(pre.filtered_projects@.len(), top) as isize, ..pre },
            post,
        ),
        Focus::RunningTargets => post == (App {
            running_cursor: edge_row(pre.target_statuses@.len(), top) as isize,
            ..pre
        }),
        Focus::CiRuns => post == (App { ci_cursor: edge_row(pre.filtered_ci_runs@.len(), top) as isize, ..pre }),
        Focus::Targets => post == (App {
            target_cursor: edge_row(pre.filtered_targets@.len(), top) as isize,
            ..pre
        }),
    }
}

} // verus!
