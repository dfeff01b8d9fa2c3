//! The periodic tick: the launched targets brought up to date with what
//! their sessions report, the matchers' progress and the background results
//! taken in, and the next background work asked for.
use crate::app::background::{current_asked, git_batch_asked, result_applied, visible_asked};
use crate::app::filters::{
    lemma_matchers_ready, lemma_project_listing_same_model, lemma_target_listing_same_model, statuses_len,
};
use crate::app::matcher::matcher_tick;
use crate::app::{
    clamp_cursor, projects_refiltered, targets_refiltered, App, BackgroundResult, Focus, RequestKind,
    TargetStatus, TargetStatusKind,
};
use crate::projects::Project;
use crate::collections::views;
use crate::text::str_eq;
use vstd::prelude::*;

verus! {

/// What a running session reports on one tick.
#[derive(Debug)]
pub struct SessionReport {
    /// The key of the launched target the session runs.
    pub key: String,
    /// `Some(success)` once the process has exited.
    pub exit: Option<bool>,
    /// The process id, when the session knows it.
    pub pid: Option<u32>,
}

/// Milliseconds after its launch from which a building target counts as
/// running.
pub const SETTLE_MS: u64 = 750;

/// Keys of the sessions that exited successfully, in report order.
pub open spec fn finished_list(reports: Seq<SessionReport>) -> Seq<Seq<char>>
    decreases reports.len(),
{
    if reports.len() == 0 {
        Seq::empty()
    } else if reports.last().exit == Some(true) {
        finished_list(reports.drop_last()).push(reports.last().key@)
    } else {
        finished_list(reports.drop_last())
    }
}

/// Index of the first launched target with this key.
pub open spec fn first_with_status_key(ss: Seq<TargetStatus>, key: Seq<char>) -> Option<int>
    decreases ss.len(),
{
    if ss.len() == 0 {
        None
    } else {
        match first_with_status_key(ss.drop_last(), key) {
            Some(i) => Some(i),
            None => if ss.last().key@ == key {
                Some(ss.len() - 1)
            } else {
                None
            },
        }
    }
}

/// Index of the first report of the session with this key.
pub open spec fn first_report(reports: Seq<SessionReport>, key: Seq<char>) -> Option<int>
    decreases reports.len(),
{
    if reports.len() == 0 {
        None
    } else {
        match first_report(reports.drop_last(), key) {
            Some(i) => Some(i),
            None => if reports.last().key@ == key {
                Some(reports.len() - 1)
            } else {
                None
            },
        }
    }
}

/// The first launched target with this key has failed and lost its process.
pub open spec fn mark_failed(ss: Seq<TargetStatus>, key: Seq<char>) -> Seq<TargetStatus> {
    match first_with_status_key(ss, key) {
        Some(i) => ss.update(i, TargetStatus { kind: TargetStatusKind::Failed, pid: None, ..ss[i] }),
        None => ss,
    }
}

/// Each session that exited with a failure, in report order, marks its
/// target failed.
pub open spec fn failures_marked(ss: Seq<TargetStatus>, reports: Seq<SessionReport>) -> Seq<TargetStatus>
    decreases reports.len(),
{
    if reports.len() == 0 {
        ss
    } else {
        let marked = failures_marked(ss, reports.drop_last());
        if reports.last().exit == Some(false) {
            mark_failed(marked, reports.last().key@)
        } else {
            marked
        }
    }
}

/// A launched target that neither finished nor failed: it counts as running
/// once more than `SETTLE_MS` passed since its launch, and takes the process
/// id that its session reports, if any.
pub open spec fn status_refreshed(
    s: TargetStatus,
    reports: Seq<SessionReport>,
    finished: Seq<Seq<char>>,
    clock_ms: u64,
) -> TargetStatus {
    if finished.contains(s.key@) || s.kind == TargetStatusKind::Failed {
        s
    } else {
        TargetStatus {
            kind: match s.started_ms {
                Some(t) => if clock_ms >= t && clock_ms - t > SETTLE_MS {
                    TargetStatusKind::Running
                } else {
                    s.kind
                },
                None => s.kind,
            },
            pid: match first_report(reports, s.key@) {
                Some(j) => if reports[j].pid is Some {
                    reports[j].pid
                } else {
                    s.pid
                },
                None => s.pid,
            },
            ..s
        }
    }
}

/// The launched targets whose key is not among `finished`.
pub open spec fn statuses_kept(ss: Seq<TargetStatus>, finished: Seq<Seq<char>>) -> Seq<TargetStatus>
    decreases ss.len(),
{
    if ss.len() == 0 {
        ss
    } else if finished.contains(ss.last().key@) {
        statuses_kept(ss.drop_last(), finished)
    } else {
        statuses_kept(ss.drop_last(), finished).push(ss.last())
    }
}

/// The launched targets after a tick: failures marked, the others
/// refreshed, the finished ones dropped.
pub open spec fn refreshed_statuses(ss: Seq<TargetStatus>, reports: Seq<SessionReport>, clock_ms: u64) -> Seq<
    TargetStatus,
> {
    let finished = finished_list(reports);
    statuses_kept(
        failures_marked(ss, reports).map_values(
            |s: TargetStatus| status_refreshed(s, reports, finished, clock_ms),
        ),
        finished,
    )
}

/// The launched targets were brought up to date (see `refreshed_statuses`)
/// and the running cursor kept inside their list.
pub open spec fn statuses_refreshed(pre: App, post: App, reports: Seq<SessionReport>, clock_ms: u64) -> bool {
    &&& post.target_statuses@ == refreshed_statuses(pre.target_statuses@, reports, clock_ms)
    &&& post == (App {
        target_statuses: post.target_statuses,
        running_cursor: clamp_cursor(pre.running_cursor as int, post.target_statuses@.len()) as isize,
        ..pre
    })
}

/// With nothing launched, a focused running pane hands the focus to the CI
/// runs when shown, else to the projects.
pub open spec fn focus_settled(pre: App, post: App) -> bool {
    post == if pre.focus == Focus::RunningTargets && pre.target_statuses@.len() == 0 {
        App {
            focus: if pre.ci_runs_shown() is Some {
                Focus::CiRuns
            } else {
                Focus::Projects
            },
            ..pre
        }
    } else {
        pre
    }
}

/// The project matcher took in its worker's progress; when its matches
/// changed, the projects were filtered anew.
pub open spec fn project_matcher_ticked(pre: App, post: App) -> bool {
    exists|mid: App|
        #![trigger mid.project_matcher]
        mid == (App { project_matcher: mid.project_matcher, ..pre })
            && mid.project_matcher.column_count() == pre.project_matcher.column_count() && (post == mid
            || projects_refiltered(mid, post))
}

/// The target matcher took in its worker's progress; when its matches
/// changed, the targets were filtered anew.
pub open spec fn target_matcher_ticked(pre: App, post: App) -> bool {
    exists|mid: App|
        #![trigger mid.target_matcher]
        mid == (App { target_matcher: mid.target_matcher, ..pre })
            && mid.target_matcher.column_count() == pre.target_matcher.column_count() && (post == mid
            || targets_refiltered(mid, post))
}

/// Each result was taken in, in order (see `result_applied`).
pub open spec fn results_applied(
    pre: App,
    post: App,
    results: Seq<BackgroundResult>,
    now: u64,
    discovered: Seq<Project>,
) -> bool
    decreases results.len(),
{
    if results.len() == 0 {
        post == pre
    } else {
        exists|mid: App|
            #![trigger result_applied(mid, post, results.last(), now, discovered)]
            results_applied(pre, mid, results.drop_last(), now, discovered) && result_applied(
                mid,
                post,
                results.last(),
                now,
                discovered,
            )
    }
}

/// The background work of a tick was asked for, in turn: sizes of the first
/// eight listed projects, git statuses of the first sixteen, a batch of four
/// of the round-robin scan, then metadata, CI runs and languages of the
/// selected project.
pub open spec fn tick_requests(pre: App, post: App) -> bool {
    exists|a: App, b: App, c: App, d: App, e: App|
        #![trigger visible_asked(pre, a, RequestKind::Size, 8), visible_asked(a, b, RequestKind::GitStatus, 16), git_batch_asked(b, c, 4), current_asked(c, d, RequestKind::Metadata), current_asked(d, e, RequestKind::CiRuns)]
        visible_asked(pre, a, RequestKind::Size, 8) && visible_asked(a, b, RequestKind::GitStatus, 16)
            && git_batch_asked(b, c, 4) && current_asked(c, d, RequestKind::Metadata) && current_asked(
            d,
            e,
            RequestKind::CiRuns,
        ) && current_asked(e, post, RequestKind::Languages)
}

/// One tick: the launched targets refreshed, the focus settled, the
/// matchers ticked, the background results taken in and the next work
/// asked for.
pub open spec fn ticked(
    pre: App,
    post: App,
    reports: Seq<SessionReport>,
    clock_ms: u64,
    results: Seq<BackgroundResult>,
    now: u64,
    discovered: Seq<Project>,
) -> bool {
    exists|m1: App, m2: App, m3: App, m4: App, m5: App|
        #![trigger statuses_refreshed(pre, m1, reports, clock_ms), focus_settled(m1, m2), project_matcher_ticked(m2, m3), target_matcher_ticked(m3, m4), results_applied(m4, m5, results, now, discovered)]
        statuses_refreshed(pre, m1, reports, clock_ms) && focus_settled(m1, m2) && project_matcher_ticked(
            m2,
            m3,
        ) && target_matcher_ticked(m3, m4) && results_applied(m4, m5, results, now, discovered)
            && tick_requests(m5, post)
}

fn contains_text(v: &Vec<String>, k: &str) -> (r: bool)
    ensures
        r == views(v@).contains(k@),
{
    let mut i: usize = 0;
    while i < v.len()
        invariant
            i <= v@.len(),
            forall|j: int| 0 <= j < i ==> v@[j]@ != k@,
        decreases v@.len() - i,
    {
        if str_eq(v[i].as_str(), k) {
            assert(views(v@)[i as int] == k@);
            return true;
        }
        i += 1;
    }
    proof {
        if views(v@).contains(k@) {
            let j = choose|j: int| 0 <= j < views(v@).len() && views(v@)[j] == k@;
            assert(v@[j]@ == k@);
        }
    }
    false
}

fn finished_keys(reports: &Vec<SessionReport>) -> (r: Vec<String>)
    ensures
        views(r@) == finished_list(reports@),
{
    let mut r: Vec<String> = Vec::new();
    let mut i: usize = 0;
    while i < reports.len()
        invariant
            i <= reports@.len(),
            views(r@) == finished_list(reports@.take(i as int)),
        decreases reports@.len() - i,
    {
        proof {
            assert(reports@.take(i + 1).drop_last() =~= reports@.take(i as int));
        }
        if reports[i].exit == Some(true) {
            r.push(reports[i].key.clone());
            proof {
                assert(views(r@) =~= finished_list(reports@.take(i as int)).push(reports@[i as int].key@));
            }
        }
        i += 1;
    }
    assert(reports@.take(reports@.len() as int) =~= reports@);
    r
}

fn status_index_with_key(ss: &Vec<TargetStatus>, key: &str) -> (r: Option<usize>)
    ensures
        r matches Some(i) ==> first_with_status_key(ss@, key@) == Some(i as int) && i < ss@.len(),
        r is None ==> first_with_status_key(ss@, key@) is None,
{
    let mut i: usize = 0;
    while i < ss.len()
        invariant
            i <= ss@.len(),
            first_with_status_key(ss@.take(i as int), key@) is None,
        decreases ss@.len() - i,
    {
        proof {
            assert(ss@.take(i + 1).drop_last() =~= ss@.take(i as int));
        }
        if str_eq(ss[i].key.as_str(), key) {
            proof {
                lemma_first_status_key_prefix(ss@, key@, i + 1);
            }
            return Some(i);
        }
        i += 1;
    }
    assert(ss@.take(ss@.len() as int) =~= ss@);
    None
}

proof fn lemma_first_status_key_prefix(ss: Seq<TargetStatus>, key: Seq<char>, k: int)
    requires
        0 <= k <= ss.len(),
        first_with_status_key(ss.take(k), key) is Some,
    ensures
        first_with_status_key(ss, key) == first_with_status_key(ss.take(k), key),
    decreases ss.len() - k,
{
    if k < ss.len() {
        assert(ss.take(k + 1).drop_last() =~= ss.take(k));
        lemma_first_status_key_prefix(ss, key, k + 1);
    } else {
        assert(ss.take(k) =~= ss);
    }
}

fn report_index_with_key(reports: &Vec<SessionReport>, key: &str) -> (r: Option<usize>)
    ensures
        r matches Some(i) ==> first_report(reports@, key@) == Some(i as int) && i < reports@.len(),
        r is None ==> first_report(reports@, key@) is None,
{
    let mut i: usize = 0;
    while i < reports.len()
        invariant
            i <= reports@.len(),
            first_report(reports@.take(i as int), key@) is None,
        decreases reports@.len() - i,
    {
        proof {
            assert(reports@.take(i + 1).drop_last() =~= reports@.take(i as int));
        }
        if str_eq(reports[i].key.as_str(), key) {
            proof {
                lemma_first_report_prefix(reports@, key@, i + 1);
            }
            return Some(i);
        }
        i += 1;
    }
    assert(reports@.take(reports@.len() as int) =~= reports@);
    None
}

proof fn lemma_first_report_prefix(reports: Seq<SessionReport>, key: Seq<char>, k: int)
    requires
        0 <= k <= reports.len(),
        first_report(reports.take(k), key) is Some,
    ensures
        first_report(reports, key) == first_report(reports.take(k), key),
    decreases reports.len() - k,
{
    if k < reports.len() {
        assert(reports.take(k + 1).drop_last() =~= reports.take(k));
        lemma_first_report_prefix(reports, key, k + 1);
    } else {
        assert(reports.take(k) =~= reports);
    }
}

fn refreshed_status(
    s: &TargetStatus,
    reports: &Vec<SessionReport>,
    finished: &Vec<String>,
    clock_ms: u64,
) -> (r: TargetStatus)
    ensures
        r == status_refreshed(*s, reports@, views(finished@), clock_ms),
{
    if contains_text(finished, s.key.as_str()) || s.kind == TargetStatusKind::Failed {
        return s.clone();
    }
    let kind = match s.started_ms {
        Some(t) => if clock_ms >= t && clock_ms - t > SETTLE_MS {
            TargetStatusKind::Running
        } else {
            s.kind
        },
        None => s.kind,
    };
    let pid = match report_index_with_key(reports, s.key.as_str()) {
        Some(j) => match reports[j].pid {
            Some(p) => Some(p),
            None => s.pid,
        },
        None => s.pid,
    };
    let mut r = s.clone();
    r.kind = kind;
    r.pid = pid;
    r
}

impl App {
    /// Brings the launched targets up to date with what their sessions
    /// report (see `refreshed_statuses`) at `clock_ms` of the dashboard's
    /// monotonic clock, and keeps the running cursor inside the list. Returns
    /// the keys of the sessions that finished, whose sessions are to be
    /// dropped.
    pub fn refresh_target_status(&mut self, reports: &Vec<SessionReport>, clock_ms: u64) -> (finished: Vec<
        String,
    >)
        ensures
            views(finished@) == finished_list(reports@),
            final(self).target_statuses@ == refreshed_statuses(old(self).target_statuses@, reports@, clock_ms),
            *final(self) == (App {
                target_statuses: final(self).target_statuses,
                running_cursor: clamp_cursor(
                    old(self).running_cursor as int,
                    final(self).target_statuses@.len(),
                ) as isize,
                ..*old(self)
            }),
    {
        let finished = finished_keys(reports);
        let ghost fin = views(finished@);
        let mut statuses = self.target_statuses.clone();
        assert(statuses@ =~= old(self).target_statuses@);
        let mut i: usize = 0;
        while i < reports.len()
            invariant
                i <= reports@.len(),
                statuses@ == failures_marked(old(self).target_statuses@, reports@.take(i as int)),
            decreases reports@.len() - i,
        {
            proof {
                assert(reports@.take(i + 1).drop_last() =~= reports@.take(i as int));
            }
            if reports[i].exit == Some(false) {
                match status_index_with_key(&statuses, reports[i].key.as_str()) {
                    Some(k) => {
                        let mut failed = statuses[k].clone();
                        failed.kind = TargetStatusKind::Failed;
                        failed.pid = None;
                        statuses.set(k, failed);
                    },
                    None => {},
                }
            }
            i += 1;
        }
        assert(reports@.take(reports@.len() as int) =~= reports@);
        let ghost marked = statuses@;
        let mut refreshed: Vec<TargetStatus> = Vec::new();
        let mut j: usize = 0;
        while j < statuses.len()
            invariant
                j <= statuses@.len(),
                statuses@ == marked,
                fin == views(finished@),
                refreshed@.len() == j,
                forall|k: int|
                    0 <= k < j ==> #[trigger] refreshed@[k] == status_refreshed(marked[k], reports@, fin, clock_ms),
            decreases statuses@.len() - j,
        {
            refreshed.push(refreshed_status(&statuses[j], reports, &finished, clock_ms));
            j += 1;
        }
        let ghost mapped = marked.map_values(|s: TargetStatus| status_refreshed(s, reports@, fin, clock_ms));
        assert(refreshed@ =~= mapped);
        let mut kept: Vec<TargetStatus> = Vec::new();
        let mut m: usize = 0;
        while m < refreshed.len()
            invariant
                m <= refreshed@.len(),
                refreshed@ == mapped,
                fin == views(finished@),
                kept@ == statuses_kept(mapped.take(m as int), fin),
            decreases refreshed@.len() - m,
        {
            proof {
                assert(mapped.take(m + 1).drop_last() =~= mapped.take(m as int));
            }
            if !contains_text(&finished, refreshed[m].key.as_str()) {
                kept.push(refreshed[m].clone());
            }
            m += 1;
        }
        assert(mapped.take(mapped.len() as int) =~= mapped);
        let count = statuses_len(&kept);
        self.target_statuses = kept;
        self.running_cursor = if count == 0 {
            -1
        } else if self.running_cursor < 0 {
            0
        } else if self.running_cursor as usize >= count {
            (count - 1) as isize
        } else {
            self.running_cursor
        };
        finished
    }

    fn settle_focus(&mut self)
        requires
            old(self).matchers_ok(),
        ensures
            final(self).matchers_ok(),
            focus_settled(*old(self), *final(self)),
    {
        if self.focus == Focus::RunningTargets && statuses_len(&self.target_statuses) == 0 {
            self.focus = if self.project_ci_runs().is_some() {
                Focus::CiRuns
            } else {
                Focus::Projects
            };
        }
    }

    /// Lets the project matcher take in its worker's progress and, when its
    /// matches changed, filters the projects anew (see `project_matcher_ticked`).
    /// Whether they changed depends on how far the worker got, so an
    /// unchanged dashboard is one of the outcomes.
    fn tick_project_matcher(&mut self)
        requires
            old(self).matchers_ok(),
        ensures
            final(self).matchers_ok(),
            project_matcher_ticked(*old(self), *final(self)),
    {
        proof {
            lemma_matchers_ready(*self);
        }
        let ghost pre = *self;
        let changed = matcher_tick(&mut self.project_matcher, 0);
        let ghost mid = *self;
        assert(mid.project_matcher == mid.project_matcher);
        proof {
            lemma_project_listing_same_model(
                pre.projects@,
                pre.project_query@,
                pre.project_matcher,
                mid.project_matcher,
                pre.filtered_projects@,
            );
        }
        if changed {
            self.sync_filtered_projects();
        }
    }

    /// Lets the target matcher take in its worker's progress and, when its
    /// matches changed, filters the targets anew (see `target_matcher_ticked`).
    /// Whether they changed depends on how far the worker got, so an
    /// unchanged dashboard is one of the outcomes.
    fn tick_target_matcher(&mut self)
        requires
            old(self).matchers_ok(),
        ensures
            final(self).matchers_ok(),
            target_matcher_ticked(*old(self), *final(self)),
    {
        proof {
            lemma_matchers_ready(*self);
        }
        let ghost pre = *self;
        let changed = matcher_tick(&mut self.target_matcher, 0);
        let ghost mid = *self;
        assert(mid.target_matcher == mid.target_matcher);
        proof {
            lemma_target_listing_same_model(
                pre.targets@,
                pre.target_query@,
                pre.target_matcher,
                mid.target_matcher,
                pre.filtered_targets@,
            );
        }
        if changed {
            self.sync_filtered_targets();
        }
    }

    /// Whether taking in `results` needs a fresh discovery of the projects:
    /// so it does when one of them reports a project creation, which reloads
    /// the projects (see `creation_taken`).
    pub fn results_need_discovery(results: &Vec<BackgroundResult>) -> (r: bool)
        ensures
            r == exists|i: int| 0 <= i < results@.len() && #[trigger] results@[i] is ProjectCreated,
    {
        let mut i: usize = 0;
        while i < results.len()
            invariant
                i <= results@.len(),
                forall|j: int| 0 <= j < i ==> !(#[trigger] results@[j] is ProjectCreated),
            decreases results@.len() - i,
        {
            if let BackgroundResult::ProjectCreated(_) = &results[i] {
                assert(results@[i as int] is ProjectCreated);
                return true;
            }
            i += 1;
        }
        false
    }

    /// Takes in each result, in order (see `results_applied`).
    pub fn apply_background_results(&mut self, results: Vec<BackgroundResult>, now: u64, discovered: &Vec<Project>)
        requires
            old(self).matchers_ok(),
        ensures
            final(self).matchers_ok(),
            results_applied(*old(self), *final(self), results@, now, discovered@),
    {
        let ghost all = results@;
        let mut rest = results;
        let mut k: usize = 0;
        let total = rest.len();
        assert(all.take(0) =~= Seq::<BackgroundResult>::empty());
        while rest.len() > 0
            invariant
                self.matchers_ok(),
                all.len() == total,
                k <= all.len(),
                rest@ == all.skip(k as int),
                results_applied(*old(self), *self, all.take(k as int), now, discovered@),
            decreases rest@.len(),
        {
            let result = rest.remove(0);
            let ghost mid = *self;
            let fresh = discovered.clone();
            proof {
                assert(fresh@ =~= discovered@);
                assert(result == all[k as int]);
            }
            self.apply_background_result(result, now, fresh);
            proof {
                let t = all.take(k + 1);
                assert(t.drop_last() =~= all.take(k as int));
                assert(t.last() == all[k as int]);
                assert(result_applied(mid, *self, t.last(), now, discovered@));
                assert(rest@ =~= all.skip(k + 1));
            }
            k += 1;
        }
        assert(all.take(k as int) =~= all);
    }

    /// Asks for the background work of a tick (see `tick_requests`).
    pub fn request_tick_data(&mut self)
        requires
            old(self).matchers_ok(),
        ensures
            final(self).matchers_ok(),
            tick_requests(*old(self), *final(self)),
    {
        self.request_visible_project_data();
        let ghost a = *self;
        self.request_visible_git_statuses();
        let ghost b = *self;
        self.request_next_git_status_batch(4);
        let ghost c = *self;
        self.request_current_project_metadata();
        let ghost d = *self;
        self.request_current_project_ci_runs();
        let ghost e = *self;
        self.request_current_project_languages();
        assert(visible_asked(*old(self), a, RequestKind::Size, 8) && visible_asked(a, b, RequestKind::GitStatus, 16)
            && git_batch_asked(b, c, 4) && current_asked(c, d, RequestKind::Metadata) && current_asked(
            d,
            e,
            RequestKind::CiRuns,
        ));
    }

    /// One tick of the dashboard (see `ticked`): `reports` are what the
    /// sessions report at `clock_ms` of the monotonic clock, `results` the
    /// background results that arrived, `now` the time in seconds since the
    /// Unix epoch and `discovered` the projects found under the root. Returns
    /// the keys of the sessions that finished, to be dropped.
    pub fn tick(
        &mut self,
        reports: &Vec<SessionReport>,
        clock_ms: u64,
        results: Vec<BackgroundResult>,
        now: u64,
        discovered: &Vec<Project>,
    ) -> (finished: Vec<String>)
        requires
            old(self).matchers_ok(),
        ensures
            final(self).matchers_ok(),
            views(finished@) == finished_list(reports@),
            ticked(*old(self), *final(self), reports@, clock_ms, results@, now, discovered@),
    {
        let finished = self.refresh_target_status(reports, clock_ms);
        let ghost m1 = *self;
        self.settle_focus();
        let ghost m2 = *self;
        self.tick_project_matcher();
        let ghost m3 = *self;
        self.tick_target_matcher();
        let ghost m4 = *self;
        self.apply_background_results(results, now, discovered);
        let ghost m5 = *self;
        self.request_tick_data();
        assert(statuses_refreshed(*old(self), m1, reports@, clock_ms) && focus_settled(m1, m2)
            && project_matcher_ticked(m2, m3) && target_matcher_ticked(m3, m4) && results_applied(
            m4,
            m5,
            results@,
            now,
            discovered@,
        ));
        finished
    }

}

} // verus!
