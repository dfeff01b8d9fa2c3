//! Filtering projects, targets and CI runs, and keeping the selected
//! project's targets up to date.
use crate::app::matcher::{
    SearchMatcher,
    inject_project, inject_target, matched_project_paths, matched_target_keys, matcher_reparse,
    matcher_restart, matcher_tick, project_item_path, target_item_key,
};
use crate::app::{
    ci_filtered, ci_refiltered, ci_run_matches, clamp_cursor, first_at_path, first_with_key,
    indices_below, key_views, project_positions, projects_refiltered, request_views,
    target_key, target_positions, target_views, targets_refiltered, targets_refreshed, App,
    BackgroundRequest, RequestKind, Target, TargetStatus, TargetView, PROJECT_SEARCH_COLUMNS,
    TARGET_SEARCH_COLUMNS,
};
use crate::collections::views;
use crate::navigation::{column_names, scoped, scoped_queries};
use crate::projects::Project;
use crate::providers::{CiRun, CiRunsData};
use crate::text::{ascii_lower, ascii_lowercase, contains_str, str_eq};
use vstd::prelude::*;
use vstd::string::*;

verus! {

proof fn lemma_first_at_path_range(ps: Seq<Project>, p: Seq<char>)
    ensures
        first_at_path(ps, p) matches Some(i) ==> 0 <= i < ps.len() && ps[i].path@ == p,
    decreases ps.len(),
{
    if ps.len() > 0 {
        lemma_first_at_path_range(ps.drop_last(), p);
    }
}

proof fn lemma_first_at_path_prefix(ps: Seq<Project>, p: Seq<char>, k: int)
    requires
        0 <= k <= ps.len(),
    ensures
        first_at_path(ps.take(k), p) is Some ==> first_at_path(ps, p) == first_at_path(ps.take(k), p),
        first_at_path(ps.take(k), p) is None && (forall|j: int| k <= j < ps.len() ==> ps[j].path@ != p)
            ==> first_at_path(ps, p) is None,
    decreases ps.len() - k,
{
    if k < ps.len() {
        lemma_first_at_path_prefix(ps, p, k + 1);
        assert(ps.take(k + 1).drop_last() =~= ps.take(k));
    } else {
        assert(ps.take(k) =~= ps);
    }
}

proof fn lemma_first_with_key_range(ts: Seq<Target>, key: (Seq<char>, Seq<char>, Seq<char>))
    ensures
        first_with_key(ts, key) matches Some(i) ==> 0 <= i < ts.len() && target_key(ts[i]) == key,
    decreases ts.len(),
{
    if ts.len() > 0 {
        lemma_first_with_key_range(ts.drop_last(), key);
    }
}

proof fn lemma_first_with_key_prefix(ts: Seq<Target>, key: (Seq<char>, Seq<char>, Seq<char>), k: int)
    requires
        0 <= k <= ts.len(),
    ensures
        first_with_key(ts.take(k), key) is Some ==> first_with_key(ts, key) == first_with_key(ts.take(k), key),
        first_with_key(ts.take(k), key) is None && (forall|j: int| k <= j < ts.len() ==> target_key(ts[j]) != key)
            ==> first_with_key(ts, key) is None,
    decreases ts.len() - k,
{
    if k < ts.len() {
        lemma_first_with_key_prefix(ts, key, k + 1);
        assert(ts.take(k + 1).drop_last() =~= ts.take(k));
    } else {
        assert(ts.take(k) =~= ts);
    }
}

proof fn lemma_project_positions_below(matched: Seq<Seq<char>>, ps: Seq<Project>)
    requires
        ps.len() <= usize::MAX,
    ensures
        indices_below(project_positions(matched, ps), ps.len()),
    decreases matched.len(),
{
    if matched.len() > 0 {
        lemma_project_positions_below(matched.drop_last(), ps);
        lemma_first_at_path_range(ps, matched.last());
        let prev = project_positions(matched.drop_last(), ps);
        match first_at_path(ps, matched.last()) {
            Some(i) => {
                assert(prev.push(i as usize)[prev.len() as int] == i as usize);
            },
            None => {},
        }
    }
}

proof fn lemma_target_positions_below(matched: Seq<(Seq<char>, Seq<char>, Seq<char>)>, ts: Seq<Target>)
    requires
        ts.len() <= usize::MAX,
    ensures
        indices_below(target_positions(matched, ts), ts.len()),
    decreases matched.len(),
{
    if matched.len() > 0 {
        lemma_target_positions_below(matched.drop_last(), ts);
        lemma_first_with_key_range(ts, matched.last());
        let prev = target_positions(matched.drop_last(), ts);
        match first_with_key(ts, matched.last()) {
            Some(i) => {
                assert(prev.push(i as usize)[prev.len() as int] == i as usize);
            },
            None => {},
        }
    }
}

fn clamp_exec(c: isize, len: usize) -> (r: isize)
    requires
        len <= isize::MAX,
    ensures
        r as int == clamp_cursor(c as int, len as nat),
{
    if len == 0 {
        -1
    } else if c < 0 {
        0
    } else if c as usize >= len {
        (len - 1) as isize
    } else {
        c
    }
}

/// `Vec::len` of std for a list of indices. A vector never holds more than
/// `isize::MAX` bytes (std documents this of `Vec`'s allocation), so a list of
/// `usize` is shorter than `isize::MAX`.
#[verifier::external_body]
pub(crate) fn indices_len(v: &Vec<usize>) -> (n: usize)
    ensures
        n == v@.len(),
        n <= isize::MAX,
{
    v.len()
}

/// `Vec::len` of std for the launched targets; as with `indices_len`, the
/// length of a vector of non-empty items stays below `isize::MAX`.
#[verifier::external_body]
pub(crate) fn statuses_len(v: &Vec<TargetStatus>) -> (n: usize)
    ensures
        n == v@.len(),
        n <= isize::MAX,
{
    v.len()
}

impl App {
    /// The selected project.
    pub fn current_project(&self) -> (r: Option<&Project>)
        ensures
            r matches Some(p) ==> (self.current_project_index() matches Some(i) && *p
                == self.projects@[i]),
            r is None ==> self.current_project_index() is None,
    {
        if self.cursor < 0 {
            return None;
        }
        let visible = self.cursor as usize;
        if visible >= self.filtered_projects.len() {
            return None;
        }
        let index = self.filtered_projects[visible];
        if index >= self.projects.len() {
            return None;
        }
        Some(&self.projects[index])
    }

    /// The selected target.
    pub fn current_target(&self) -> (r: Option<&Target>)
        ensures
            r matches Some(t) ==> (self.current_target_index() matches Some(i) && *t
                == self.targets@[i]),
            r is None ==> self.current_target_index() is None,
    {
        if self.target_cursor < 0 {
            return None;
        }
        let visible = self.target_cursor as usize;
        if visible >= self.filtered_targets.len() {
            return None;
        }
        let index = self.filtered_targets[visible];
        if index >= self.targets.len() {
            return None;
        }
        Some(&self.targets[index])
    }

    /// The CI runs of the selected project, when fetched and not empty.
    pub fn project_ci_runs(&self) -> (r: Option<&CiRunsData>)
        ensures
            r matches Some(ci) ==> self.ci_runs_shown() == Some(*ci),
            r is None ==> self.ci_runs_shown() is None,
    {
        let project = match self.current_project() {
            Some(p) => p,
            None => return None,
        };
        match self.ci_runs_cache.get(project.path.as_str()) {
            Some(Some(ci)) => {
                if ci.runs.len() > 0 {
                    Some(ci)
                } else {
                    None
                }
            },
            _ => None,
        }
    }

    /// Keeps the CI runs of the selected project that the CI query matches;
    /// keeps the CI and running cursors inside their lists.
    pub fn update_ci_filter(&mut self)
        ensures
            ci_refiltered(*old(self), *final(self)),
    {
        let query = ascii_lowercase(self.ci_query.as_str());
        let ghost q = ascii_lower(self.ci_query@);
        let mut kept: Vec<usize> = Vec::new();
        match self.project_ci_runs() {
            Some(ci) => {
                let mut i: usize = 0;
                while i < ci.runs.len()
                    invariant
                        i <= ci.runs@.len(),
                        query@ == q,
                        kept@ == ci_filtered(ci.runs@.take(i as int), q),
                    decreases ci.runs@.len() - i,
                {
                    let run = &ci.runs[i];
                    let keep = query.as_str().is_empty() || contains_str(
                        ascii_lowercase(run.branch.as_str()).as_str(),
                        query.as_str(),
                    ) || contains_str(ascii_lowercase(run.title.as_str()).as_str(), query.as_str())
                        || contains_str(ascii_lowercase(run.status.as_str()).as_str(), query.as_str())
                        || contains_str(
                        ascii_lowercase(run.created_at.as_str()).as_str(),
                        query.as_str(),
                    );
                    proof {
                        let t = ci.runs@.take(i + 1);
                        assert(t.drop_last() =~= ci.runs@.take(i as int));
                        assert(t.last() == *run);
                        assert(keep == ci_run_matches(*run, q));
                    }
                    if keep {
                        kept.push(i);
                    }
                    i += 1;
                }
                assert(ci.runs@.take(ci.runs@.len() as int) =~= ci.runs@);
            },
            None => {},
        }
        let ghost before = *self;
        assert(kept@ == before.ci_filter_result());
        let len = indices_len(&kept);
        let statuses = statuses_len(&self.target_statuses);
        self.filtered_ci_runs = kept;
        self.running_cursor = clamp_exec(self.running_cursor, statuses);
        self.ci_cursor = clamp_exec(self.ci_cursor, len);
    }
}

fn position_of_path(ps: &Vec<Project>, p: &str) -> (r: Option<usize>)
    ensures
        r matches Some(i) ==> first_at_path(ps@, p@) == Some(i as int),
        r is None ==> first_at_path(ps@, p@) is None,
{
    let mut i: usize = 0;
    while i < ps.len()
        invariant
            i <= ps@.len(),
            first_at_path(ps@.take(i as int), p@) is None,
            forall|j: int| 0 <= j < i ==> ps@[j].path@ != p@,
        decreases ps@.len() - i,
    {
        if str_eq(ps[i].path.as_str(), p) {
            proof {
                assert(ps@.take(i + 1).drop_last() =~= ps@.take(i as int));
                lemma_first_at_path_prefix(ps@, p@, i + 1);
            }
            return Some(i);
        }
        proof {
            assert(ps@.take(i + 1).drop_last() =~= ps@.take(i as int));
        }
        i += 1;
    }
    proof {
        lemma_first_at_path_prefix(ps@, p@, ps@.len() as int);
    }
    None
}

fn position_of_key(ts: &Vec<Target>, kind: &str, name: &str, path: &str) -> (r: Option<usize>)
    ensures
        r matches Some(i) ==> first_with_key(ts@, (kind@, name@, path@)) == Some(i as int),
        r is None ==> first_with_key(ts@, (kind@, name@, path@)) is None,
{
    let ghost key = (kind@, name@, path@);
    let mut i: usize = 0;
    while i < ts.len()
        invariant
            i <= ts@.len(),
            key == (kind@, name@, path@),
            first_with_key(ts@.take(i as int), key) is None,
            forall|j: int| 0 <= j < i ==> target_key(ts@[j]) != key,
        decreases ts@.len() - i,
    {
        let t = &ts[i];
        if str_eq(t.kind.as_str(), kind) && str_eq(t.name.as_str(), name) && str_eq(
            t.path.as_str(),
            path,
        ) {
            proof {
                assert(ts@.take(i + 1).drop_last() =~= ts@.take(i as int));
                lemma_first_with_key_prefix(ts@, key, i + 1);
            }
            return Some(i);
        }
        proof {
            assert(ts@.take(i + 1).drop_last() =~= ts@.take(i as int));
        }
        i += 1;
    }
    proof {
        lemma_first_with_key_prefix(ts@, key, ts@.len() as int);
    }
    None
}

/// Texts of a project's search columns: name and path together, name, path.
pub fn project_search_texts(p: &Project) -> (r: (String, String, String))
    ensures
        r.0@ == p.name@ + seq![' '] + p.path@,
        r.1@ == p.name@,
        r.2@ == p.path@,
{
    let mut all = p.name.clone();
    all.append(" ");
    all.append(p.path.as_str());
    proof {
        reveal_strlit(" ");
        assert(" "@ =~= seq![' ']);
    }
    (all, p.name.clone(), p.path.clone())
}

/// Texts of a target's search columns: kind, name and path together, kind,
/// name, path.
pub fn target_search_texts(t: &Target) -> (r: (String, String, String, String))
    ensures
        r.0@ == t.kind@ + seq![' '] + t.name@ + seq![' '] + t.path@,
        r.1@ == t.kind@,
        r.2@ == t.name@,
        r.3@ == t.path@,
{
    let mut all = t.kind.clone();
    all.append(" ");
    all.append(t.name.as_str());
    all.append(" ");
    all.append(t.path.as_str());
    proof {
        reveal_strlit(" ");
        assert(" "@ =~= seq![' ']);
    }
    (all, t.kind.clone(), t.name.clone(), t.path.clone())
}

/// The project search columns a `%` token can name.
pub open spec fn project_columns() -> Seq<Seq<char>> {
    seq!["name"@, "path"@]
}

/// The target search columns a `%` token can name.
pub open spec fn target_columns() -> Seq<Seq<char>> {
    seq!["kind"@, "name"@, "path"@]
}

/// The texts of a project's search columns (see `project_search_texts`).
pub open spec fn project_texts(p: Project) -> Seq<Seq<char>> {
    seq![p.name@ + seq![' '] + p.path@, p.name@, p.path@]
}

/// The texts of a target's search columns (see `target_search_texts`).
pub open spec fn target_texts(t: TargetView) -> Seq<Seq<char>> {
    seq![t.kind + seq![' '] + t.name + seq![' '] + t.path, t.kind, t.name, t.path]
}

/// The matcher items are the projects `ps`, in order, with their texts.
pub open spec fn project_items_are(items: Seq<(Project, Seq<Seq<char>>)>, ps: Seq<Project>) -> bool {
    &&& items.len() == ps.len()
    &&& forall|i: int| 0 <= i < ps.len() ==> #[trigger] items[i] == (ps[i], project_texts(ps[i]))
}

/// The matcher items are the targets `ts`, in order, with their texts.
pub open spec fn target_items_are(items: Seq<(Target, Seq<Seq<char>>)>, ts: Seq<Target>) -> bool {
    &&& items.len() == ts.len()
    &&& forall|i: int|
        0 <= i < ts.len() ==> (#[trigger] items[i]).0@ == ts[i]@ && items[i].1 == target_texts(ts[i]@)
}

/// The listed projects of `app` are those at paths that its matcher
/// matched, each path one of the matcher's items, in match order.
pub open spec fn projects_from_matches(app: App) -> bool {
    exists|m: Seq<Seq<char>>|
        #![trigger project_positions(m, app.projects@)]
        (forall|k: int| 0 <= k < m.len() ==> project_item_path(app.project_matcher.items(), #[trigger] m[k]))
            && app.filtered_projects@ == project_positions(m, app.projects@)
}

/// The listed targets of `app` are those with the kind, name and path that
/// its matcher matched, each one of the matcher's items, in match order.
pub open spec fn targets_from_matches(app: App) -> bool {
    exists|m: Seq<(Seq<char>, Seq<char>, Seq<char>)>|
        #![trigger target_positions(m, app.targets@)]
        (forall|k: int| 0 <= k < m.len() ==> target_item_key(app.target_matcher.items(), #[trigger] m[k]))
            && app.filtered_targets@ == target_positions(m, app.targets@)
}

/// The project listing agrees with the project matcher: the matcher holds
/// the projects, in order, with their search texts, and the query of each
/// column as the project query scopes it; the listed projects are those at
/// paths the matcher matched, each one of its items, in match order.
#[verifier::opaque]
pub open spec fn project_listing_ok(
    projects: Seq<Project>,
    query: Seq<char>,
    matcher: SearchMatcher<Project>,
    filtered: Seq<usize>,
) -> bool {
    &&& project_items_are(matcher.items(), projects)
    &&& matcher.queries() == scoped(query, project_columns())
    &&& exists|m: Seq<Seq<char>>|
        #![trigger project_positions(m, projects)]
        (forall|k: int| 0 <= k < m.len() ==> project_item_path(matcher.items(), #[trigger] m[k]))
            && filtered == project_positions(m, projects)
}

/// The target listing agrees with the target matcher: when there are
/// targets, the matcher holds them, in order, with their search texts; the
/// query of each column is as the target query scopes it; the listed
/// targets are those with a kind, name and path the matcher matched, each
/// one of its items, in match order.
#[verifier::opaque]
pub open spec fn target_listing_ok(
    targets: Seq<Target>,
    query: Seq<char>,
    matcher: SearchMatcher<Target>,
    filtered: Seq<usize>,
) -> bool {
    &&& targets.len() > 0 ==> target_items_are(matcher.items(), targets)
    &&& matcher.queries() == scoped(query, target_columns())
    &&& exists|m: Seq<(Seq<char>, Seq<char>, Seq<char>)>|
        #![trigger target_positions(m, targets)]
        (forall|k: int| 0 <= k < m.len() ==> target_item_key(matcher.items(), #[trigger] m[k]))
            && filtered == target_positions(m, targets)
}

/// With no targets and none listed, the target listing agrees with a
/// matcher whose queries are those of `query`.
pub proof fn lemma_no_targets_listed(query: Seq<char>, matcher: SearchMatcher<Target>)
    requires
        matcher.queries() == scoped(query, target_columns()),
    ensures
        target_listing_ok(Seq::empty(), query, matcher, Seq::empty()),
{
    reveal(target_listing_ok);
    let m = Seq::<(Seq<char>, Seq<char>, Seq<char>)>::empty();
    assert(target_positions(m, Seq::empty()) =~= Seq::<usize>::empty());
}

/// Fresh matchers, with no items and empty queries, agree with empty
/// listings under empty search queries.
pub proof fn lemma_empty_listings(pm: SearchMatcher<Project>, tm: SearchMatcher<Target>)
    requires
        pm.items().len() == 0,
        pm.queries() == Seq::new(3, |c: int| Seq::<char>::empty()),
        tm.queries() == Seq::new(4, |c: int| Seq::<char>::empty()),
    ensures
        project_listing_ok(Seq::empty(), Seq::empty(), pm, Seq::empty()),
        target_listing_ok(Seq::empty(), Seq::empty(), tm, Seq::empty()),
{
    reveal(project_listing_ok);
    assert(crate::navigation::word_scan(Seq::<char>::empty()) == (Seq::<Seq<char>>::empty(), Seq::<char>::empty()));
    assert(crate::navigation::words(Seq::<char>::empty()) =~= Seq::<Seq<char>>::empty());
    assert(scoped(Seq::empty(), project_columns()) =~= pm.queries());
    assert(scoped(Seq::empty(), target_columns()) =~= tm.queries());
    let m = Seq::<Seq<char>>::empty();
    assert(project_positions(m, Seq::empty()) =~= Seq::<usize>::empty());
    lemma_no_targets_listed(Seq::empty(), tm);
}

/// The project listing depends on the matcher's items and queries only.
pub proof fn lemma_project_listing_same_model(
    ps: Seq<Project>,
    query: Seq<char>,
    m1: SearchMatcher<Project>,
    m2: SearchMatcher<Project>,
    filtered: Seq<usize>,
)
    requires
        m1.items() == m2.items(),
        m1.queries() == m2.queries(),
        project_listing_ok(ps, query, m1, filtered),
    ensures
        project_listing_ok(ps, query, m2, filtered),
{
    reveal(project_listing_ok);
}

/// The target listing depends on the matcher's items and queries only.
pub proof fn lemma_target_listing_same_model(
    ts: Seq<Target>,
    query: Seq<char>,
    m1: SearchMatcher<Target>,
    m2: SearchMatcher<Target>,
    filtered: Seq<usize>,
)
    requires
        m1.items() == m2.items(),
        m1.queries() == m2.queries(),
        target_listing_ok(ts, query, m1, filtered),
    ensures
        target_listing_ok(ts, query, m2, filtered),
{
    reveal(target_listing_ok);
}

/// What `matchers_ok` gives, spelled out: the shapes, the matchers' items
/// and queries.
pub proof fn lemma_matchers_ready(app: App)
    requires
        app.matchers_ok(),
    ensures
        app.matcher_shapes_ok(),
        project_items_are(app.project_matcher.items(), app.projects@),
        app.project_matcher.queries() == scoped(app.project_query@, project_columns()),
        app.targets@.len() > 0 ==> target_items_are(app.target_matcher.items(), app.targets@),
        app.target_matcher.queries() == scoped(app.target_query@, target_columns()),
{
    reveal(project_listing_ok);
    reveal(target_listing_ok);
}

impl App {
    /// Shows the projects at the matched paths, in match order, and keeps
    /// the cursor inside the list; an empty list also clears the targets.
    pub fn sync_filtered_projects_with(&mut self, matched: &Vec<String>)
        ensures
            final(self).filtered_projects@ == project_positions(views(matched@), old(self).projects@),
            final(self).project_matcher == old(self).project_matcher,
            projects_refiltered(*old(self), *final(self)),
    {
        let ghost m = views(matched@);
        let mut filtered: Vec<usize> = Vec::new();
        let mut k: usize = 0;
        while k < matched.len()
            invariant
                k <= matched@.len(),
                m == views(matched@),
                filtered@ == project_positions(m.take(k as int), self.projects@),
            decreases matched@.len() - k,
        {
            let pos = position_of_path(&self.projects, matched[k].as_str());
            proof {
                assert(m.take(k + 1).drop_last() =~= m.take(k as int));
                assert(m.take(k + 1).last() == matched@[k as int]@);
            }
            match pos {
                Some(i) => filtered.push(i),
                None => {},
            }
            k += 1;
        }
        let _n = self.projects.len();
        proof {
            assert(m.take(matched@.len() as int) =~= m);
            lemma_project_positions_below(m, self.projects@);
        }
        let len = indices_len(&filtered);
        self.filtered_projects = filtered;
        if len == 0 {
            self.cursor = -1;
            self.targets.clear();
            self.filtered_targets.clear();
            self.target_cursor = -1;
        } else {
            self.cursor = clamp_exec(self.cursor, len);
        }
    }

    /// Reads the project matches and shows them (see
    /// `sync_filtered_projects_with`).
    pub fn sync_filtered_projects(&mut self)
        requires
            project_items_are(old(self).project_matcher.items(), old(self).projects@),
            old(self).project_matcher.queries() == scoped(old(self).project_query@, project_columns()),
            target_listing_ok(old(self).targets@, old(self).target_query@, old(self).target_matcher, old(self).filtered_targets@),
        ensures
            projects_refiltered(*old(self), *final(self)),
            final(self).project_matcher == old(self).project_matcher,
            projects_from_matches(*final(self)),
            project_listing_ok(final(self).projects@, final(self).project_query@, final(self).project_matcher, final(self).filtered_projects@),
            target_listing_ok(final(self).targets@, final(self).target_query@, final(self).target_matcher, final(self).filtered_targets@),
    {
        let ghost pre = *self;
        let matched = matched_project_paths(&self.project_matcher);
        self.sync_filtered_projects_with(&matched);
        proof {
            let m = views(matched@);
            assert forall|k: int| 0 <= k < m.len() implies project_item_path(
                self.project_matcher.items(),
                #[trigger] m[k],
            ) by {
                assert(m[k] == matched@[k]@);
            }
            assert(self.filtered_projects@ == project_positions(m, self.projects@));
            reveal(project_listing_ok);
            reveal(target_listing_ok);
            if self.filtered_projects@.len() == 0 {
                lemma_no_targets_listed(self.target_query@, self.target_matcher);
                assert(self.targets@ =~= Seq::<Target>::empty());
                assert(self.filtered_targets@ =~= Seq::<usize>::empty());
            }
        }
    }

    /// Shows the matched targets, in match order, and keeps the target
    /// cursor inside the list.
    pub fn sync_filtered_targets_with(&mut self, matched: &Vec<(String, String, String)>)
        ensures
            final(self).filtered_targets@ == target_positions(key_views(matched@), old(self).targets@),
            final(self).target_matcher == old(self).target_matcher,
            targets_refiltered(*old(self), *final(self)),
    {
        let ghost m = key_views(matched@);
        let mut filtered: Vec<usize> = Vec::new();
        let mut k: usize = 0;
        while k < matched.len()
            invariant
                k <= matched@.len(),
                m == key_views(matched@),
                filtered@ == target_positions(m.take(k as int), self.targets@),
            decreases matched@.len() - k,
        {
            let key = &matched[k];
            let pos = position_of_key(&self.targets, key.0.as_str(), key.1.as_str(), key.2.as_str());
            proof {
                assert(m.take(k + 1).drop_last() =~= m.take(k as int));
                assert(m.take(k + 1).last() == (key.0@, key.1@, key.2@));
            }
            match pos {
                Some(i) => filtered.push(i),
                None => {},
            }
            k += 1;
        }
        let _n = self.targets.len();
        proof {
            assert(m.take(matched@.len() as int) =~= m);
            lemma_target_positions_below(m, self.targets@);
        }
        let len = indices_len(&filtered);
        self.filtered_targets = filtered;
        self.target_cursor = clamp_exec(self.target_cursor, len);
    }

    /// Reads the target matches and shows them (see
    /// `sync_filtered_targets_with`).
    pub fn sync_filtered_targets(&mut self)
        requires
            old(self).targets@.len() > 0 ==> target_items_are(old(self).target_matcher.items(), old(self).targets@),
            old(self).target_matcher.queries() == scoped(old(self).target_query@, target_columns()),
        ensures
            targets_refiltered(*old(self), *final(self)),
            final(self).target_matcher == old(self).target_matcher,
            targets_from_matches(*final(self)),
            target_listing_ok(final(self).targets@, final(self).target_query@, final(self).target_matcher, final(self).filtered_targets@),
    {
        let matched = matched_target_keys(&self.target_matcher);
        self.sync_filtered_targets_with(&matched);
        proof {
            let m = key_views(matched@);
            assert forall|k: int| 0 <= k < m.len() implies target_item_key(
                self.target_matcher.items(),
                #[trigger] m[k],
            ) by {
                assert(m[k] == (matched@[k].0@, matched@[k].1@, matched@[k].2@));
            }
            assert(self.filtered_targets@ == target_positions(m, self.targets@));
            reveal(target_listing_ok);
        }
    }

    /// Hands the project query, split by column (see `scoped`), to the
    /// matcher and shows what it matches.
    pub fn update_project_filter(&mut self)
        requires
            old(self).matcher_shapes_ok(),
            project_items_are(old(self).project_matcher.items(), old(self).projects@),
            target_listing_ok(old(self).targets@, old(self).target_query@, old(self).target_matcher, old(self).filtered_targets@),
        ensures
            final(self).matchers_ok(),
            projects_refiltered(*old(self), *final(self)),
            final(self).project_matcher.queries() == scoped(old(self).project_query@, project_columns()),
            final(self).project_matcher.items() == old(self).project_matcher.items(),
            projects_from_matches(*final(self)),
    {
        let cols: [&str; 2] = ["name", "path"];
        let queries = scoped_queries(self.project_query.as_str(), cols.as_slice());
        proof {
            reveal_strlit("name");
            reveal_strlit("path");
            assert(column_names(cols@) =~= project_columns());
        }
        let ghost pre = *self;
        let mut c: usize = 0;
        while c < queries.len()
            invariant
                queries@.len() == 3,
                c <= 3,
                self.project_matcher.column_count() == PROJECT_SEARCH_COLUMNS,
                self.project_matcher.queries().len() == 3,
                self.project_matcher.items() == pre.project_matcher.items(),
                forall|d: int| 0 <= d < c ==> #[trigger] self.project_matcher.queries()[d] == queries@[d]@,
                *self == (App { project_matcher: self.project_matcher, ..pre }),
            decreases queries@.len() - c,
        {
            matcher_reparse(&mut self.project_matcher, c, queries[c].as_str());
            c += 1;
        }
        let _ = matcher_tick(&mut self.project_matcher, 10);
        proof {
            assert(self.project_matcher.queries() =~= views(queries@));
        }
        self.sync_filtered_projects();
    }

    /// Hands the target query, split by column (see `scoped`), to the
    /// matcher and shows what it matches.
    pub fn update_target_filter(&mut self)
        requires
            old(self).matcher_shapes_ok(),
            old(self).targets@.len() > 0 ==> target_items_are(old(self).target_matcher.items(), old(self).targets@),
            project_listing_ok(old(self).projects@, old(self).project_query@, old(self).project_matcher, old(self).filtered_projects@),
        ensures
            final(self).matchers_ok(),
            targets_refiltered(*old(self), *final(self)),
            final(self).target_matcher.queries() == scoped(old(self).target_query@, target_columns()),
            final(self).target_matcher.items() == old(self).target_matcher.items(),
            targets_from_matches(*final(self)),
    {
        let cols: [&str; 3] = ["kind", "name", "path"];
        let queries = scoped_queries(self.target_query.as_str(), cols.as_slice());
        proof {
            reveal_strlit("kind");
            reveal_strlit("name");
            reveal_strlit("path");
            assert(column_names(cols@) =~= target_columns());
        }
        let ghost pre = *self;
        let mut c: usize = 0;
        while c < queries.len()
            invariant
                queries@.len() == 4,
                c <= 4,
                self.target_matcher.column_count() == TARGET_SEARCH_COLUMNS,
                self.target_matcher.queries().len() == 4,
                self.target_matcher.items() == pre.target_matcher.items(),
                forall|d: int| 0 <= d < c ==> #[trigger] self.target_matcher.queries()[d] == queries@[d]@,
                *self == (App { target_matcher: self.target_matcher, ..pre }),
            decreases queries@.len() - c,
        {
            matcher_reparse(&mut self.target_matcher, c, queries[c].as_str());
            c += 1;
        }
        let _ = matcher_tick(&mut self.target_matcher, 10);
        proof {
            assert(self.target_matcher.queries() =~= views(queries@));
        }
        self.sync_filtered_targets();
    }

    /// Gives the project matcher the current projects with their search
    /// texts, then filters them.
    pub fn rebuild_project_matcher(&mut self)
        requires
            old(self).matcher_shapes_ok(),
            target_listing_ok(old(self).targets@, old(self).target_query@, old(self).target_matcher, old(self).filtered_targets@),
        ensures
            final(self).matchers_ok(),
            projects_refiltered(*old(self), *final(self)),
            final(self).project_matcher.queries() == scoped(old(self).project_query@, project_columns()),
            project_items_are(final(self).project_matcher.items(), old(self).projects@),
            projects_from_matches(*final(self)),
    {
        let ghost pre = *self;
        matcher_restart(&mut self.project_matcher);
        let mut i: usize = 0;
        while i < self.projects.len()
            invariant
                i <= self.projects@.len(),
                self.project_matcher.column_count() == PROJECT_SEARCH_COLUMNS,
                self.project_matcher.queries() == pre.project_matcher.queries(),
                project_items_are(self.project_matcher.items(), self.projects@.take(i as int)),
                *self == (App { project_matcher: self.project_matcher, ..pre }),
            decreases self.projects@.len() - i,
        {
            let project = self.projects[i].clone();
            let texts = project_search_texts(&project);
            inject_project(&mut self.project_matcher, project, texts.0, texts.1, texts.2);
            proof {
                let ps = self.projects@.take(i + 1);
                assert forall|j: int| 0 <= j < ps.len() implies #[trigger] self.project_matcher.items()[j] == (
                    ps[j],
                    project_texts(ps[j]),
                ) by {
                    if j == i {
                        assert(project_texts(ps[j]) =~= seq![texts.0@, texts.1@, texts.2@]);
                    }
                }
            }
            i += 1;
        }
        proof {
            assert(self.projects@.take(self.projects@.len() as int) =~= self.projects@);
        }
        self.update_project_filter();
    }

    /// Gives the target matcher the current targets with their search
    /// texts, then filters them.
    pub fn rebuild_target_matcher(&mut self)
        requires
            old(self).matcher_shapes_ok(),
            project_listing_ok(old(self).projects@, old(self).project_query@, old(self).project_matcher, old(self).filtered_projects@),
        ensures
            final(self).matchers_ok(),
            targets_refiltered(*old(self), *final(self)),
            final(self).target_matcher.queries() == scoped(old(self).target_query@, target_columns()),
            target_items_are(final(self).target_matcher.items(), old(self).targets@),
            targets_from_matches(*final(self)),
    {
        let ghost pre = *self;
        matcher_restart(&mut self.target_matcher);
        let mut i: usize = 0;
        while i < self.targets.len()
            invariant
                i <= self.targets@.len(),
                self.target_matcher.column_count() == TARGET_SEARCH_COLUMNS,
                self.target_matcher.queries() == pre.target_matcher.queries(),
                target_items_are(self.target_matcher.items(), self.targets@.take(i as int)),
                *self == (App { target_matcher: self.target_matcher, ..pre }),
            decreases self.targets@.len() - i,
        {
            let target = self.targets[i].clone();
            let texts = target_search_texts(&target);
            inject_target(&mut self.target_matcher, target, texts.0, texts.1, texts.2, texts.3);
            proof {
                let ts = self.targets@.take(i + 1);
                assert forall|j: int| 0 <= j < ts.len() implies (#[trigger] self.target_matcher.items()[j]).0@
                    == ts[j]@ && self.target_matcher.items()[j].1 == target_texts(ts[j]@) by {
                    if j == i {
                        assert(target_texts(ts[j]@) =~= seq![texts.0@, texts.1@, texts.2@, texts.3@]);
                    }
                }
            }
            i += 1;
        }
        proof {
            assert(self.targets@.take(self.targets@.len() as int) =~= self.targets@);
        }
        self.update_target_filter();
    }

    /// Brings the targets of the selected project up to date: cached ones
    /// are shown and filtered, otherwise they are asked for; then the CI runs
    /// are filtered anew.
    pub fn refresh_targets(&mut self)
        requires
            old(self).matchers_ok(),
        ensures
            final(self).matchers_ok(),
            targets_refreshed(*old(self), *final(self)),
    {
        let path = match self.current_project() {
            Some(p) => p.path.clone(),
            None => {
                proof {
                    lemma_matchers_ready(*self);
                }
                self.targets.clear();
                self.filtered_targets.clear();
                self.target_cursor = -1;
                self.filtered_ci_runs.clear();
                self.ci_cursor = -1;
                proof {
                    lemma_no_targets_listed(self.target_query@, self.target_matcher);
                    assert(self.targets@ =~= Seq::<Target>::empty());
                    assert(self.filtered_targets@ =~= Seq::<usize>::empty());
                }
                return;
            },
        };
        let ghost pre = *self;
        self.refresh_target_list(path);
        let ghost mid = *self;
        assert(mid.current_project_path() == pre.current_project_path());
        assert(mid.ci_filter_result() == pre.ci_filter_result());
        self.update_ci_filter();
    }

    fn refresh_target_list(&mut self, path: String)
        requires
            old(self).matchers_ok(),
            old(self).current_project_path() == Some(path@),
        ensures
            final(self).matchers_ok(),
            old(self).target_cache@.contains_key(path@) ==> {
                &&& *final(self) == (App {
                    targets: final(self).targets,
                    filtered_targets: final(self).filtered_targets,
                    target_cursor: final(self).target_cursor,
                    target_matcher: final(self).target_matcher,
                    ..*old(self)
                })
                &&& target_views(final(self).targets@) == target_views(old(self).target_cache@[path@]@)
                &&& indices_below(final(self).filtered_targets@, final(self).targets@.len())
                &&& final(self).target_cursor == clamp_cursor(
                    old(self).target_cursor as int,
                    final(self).filtered_targets@.len(),
                )
            },
            !old(self).target_cache@.contains_key(path@) ==> {
                &&& *final(self) == (App {
                    targets: final(self).targets,
                    filtered_targets: final(self).filtered_targets,
                    target_cursor: -1isize,
                    loading_targets: final(self).loading_targets,
                    requests: final(self).requests,
                    ..*old(self)
                })
                &&& final(self).targets@.len() == 0
                &&& final(self).filtered_targets@.len() == 0
                &&& crate::app::background::asked(
                    old(self).target_cache,
                    old(self).loading_targets,
                    final(self).loading_targets,
                    old(self).requests@,
                    final(self).requests@,
                    RequestKind::Targets,
                    path@,
                )
            },
    {
        let cached = match self.target_cache.get(path.as_str()) {
            Some(ts) => {
                let c = ts.clone();
                proof {
                    assert(target_views(c@) =~= target_views(ts@));
                }
                Some(c)
            },
            None => None,
        };
        match cached {
            Some(ts) => {
                self.targets = ts;
                let ghost shown = *self;
                self.rebuild_target_matcher();
                assert(targets_refiltered(shown, *self));
            },
            None => {
                proof {
                    lemma_matchers_ready(*self);
                }
                self.targets.clear();
                self.filtered_targets.clear();
                self.target_cursor = -1;
                proof {
                    lemma_no_targets_listed(self.target_query@, self.target_matcher);
                    assert(self.targets@ =~= Seq::<Target>::empty());
                    assert(self.filtered_targets@ =~= Seq::<usize>::empty());
                }
                self.request_targets(path);
            },
        }
    }
}

} // verus!
