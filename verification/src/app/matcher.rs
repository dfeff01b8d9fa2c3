//! The fuzzy matchers that filter projects and targets. Matching runs on
//! nucleo's worker threads; the dashboard only hands it items and query
//! columns and reads back what matched.
use crate::app::Target;
use crate::projects::Project;
use nucleo::{Config, Nucleo, Utf32String};
use nucleo::pattern::{CaseMatching, Normalization};
use vstd::prelude::*;

verus! {

#[verifier::external_type_specification]
#[verifier::external_body]
#[verifier::reject_recursive_types(T)]
pub struct ExNucleo<T: Sync + Send + 'static>(Nucleo<T>);

/// A nucleo matcher together with the number of columns it was made with,
/// the query text of each column and the items handed to it since it was
/// last restarted, each with the texts of its columns.
#[verifier::reject_recursive_types(T)]
pub struct SearchMatcher<T: Sync + Send + 'static> {
    inner: Nucleo<T>,
    columns: usize,
    queries: Ghost<Seq<Seq<char>>>,
    items: Ghost<Seq<(T, Seq<Seq<char>>)>>,
}

impl<T: Sync + Send + 'static> SearchMatcher<T> {
    /// Number of columns of the items and of the query.
    pub closed spec fn column_count(&self) -> nat {
        self.columns as nat
    }

    /// The query text of each column, as last handed over.
    pub closed spec fn queries(&self) -> Seq<Seq<char>> {
        self.queries@
    }

    /// The items handed over since the last restart, in order, each with
    /// the texts of its columns.
    pub closed spec fn items(&self) -> Seq<(T, Seq<Seq<char>>)> {
        self.items@
    }
}

/// `Nucleo::new` of nucleo: a matcher with the default configuration, one
/// worker thread and `columns` columns; nucleo needs at least one column. A
/// new nucleo matcher has no items, and each column's pattern is parsed from
/// the empty query (`MultiPattern::new`).
#[verifier::external_body]
fn nucleo_new<T: Sync + Send + 'static>(columns: usize) -> (m: SearchMatcher<T>)
    requires
        1 <= columns <= u32::MAX,
    ensures
        m.column_count() == columns,
        m.queries() == Seq::new(columns as nat, |c: int| Seq::<char>::empty()),
        m.items() == Seq::<(T, Seq<Seq<char>>)>::empty(),
{
    SearchMatcher {
        inner: Nucleo::new(Config::DEFAULT, std::sync::Arc::new(|| {}), Some(1), columns as u32),
        columns,
        queries: Ghost(Seq::new(columns as nat, |c: int| Seq::<char>::empty())),
        items: Ghost(Seq::empty()),
    }
}

/// A matcher with `columns` columns, every column query empty and no items.
pub(crate) fn new_matcher<T: Sync + Send + 'static>(columns: usize) -> (m: SearchMatcher<T>)
    requires
        1 <= columns <= u32::MAX,
    ensures
        m.column_count() == columns,
        m.queries() == Seq::new(columns as nat, |c: int| Seq::<char>::empty()),
        m.items() == Seq::<(T, Seq<Seq<char>>)>::empty(),
{
    nucleo_new(columns)
}

/// `Nucleo::restart(true)` of nucleo: drops all items and the snapshot; the
/// column queries stay.
#[verifier::external_body]
pub(crate) fn matcher_restart<T: Sync + Send + 'static>(m: &mut SearchMatcher<T>)
    ensures
        final(m).column_count() == old(m).column_count(),
        final(m).queries() == old(m).queries(),
        final(m).items() == Seq::<(T, Seq<Seq<char>>)>::empty(),
{
    m.inner.restart(true);
}

/// `Injector::push` of nucleo, through an injector of `m`, for a project
/// with the texts of its three columns. Nucleo hands the column filler one
/// slot per column of the matcher, so `m` needs at least three.
#[verifier::external_body]
pub(crate) fn inject_project(m: &mut SearchMatcher<Project>, project: Project, c0: String, c1: String, c2: String)
    requires
        old(m).column_count() >= 3,
    ensures
        final(m).column_count() == old(m).column_count(),
        final(m).queries() == old(m).queries(),
        final(m).items() == old(m).items().push((project, seq![c0@, c1@, c2@])),
{
    m.inner.injector().push(
        project,
        move |_, cols| {
            cols[0] = Utf32String::from(c0.as_str());
            cols[1] = Utf32String::from(c1.as_str());
            cols[2] = Utf32String::from(c2.as_str());
        },
    );
}

/// `Injector::push` of nucleo, through an injector of `m`, for a target
/// with the texts of its four columns; `m` needs at least four columns.
#[verifier::external_body]
pub(crate) fn inject_target(
    m: &mut SearchMatcher<Target>,
    target: Target,
    c0: String,
    c1: String,
    c2: String,
    c3: String,
)
    requires
        old(m).column_count() >= 4,
    ensures
        final(m).column_count() == old(m).column_count(),
        final(m).queries() == old(m).queries(),
        final(m).items() == old(m).items().push((target, seq![c0@, c1@, c2@, c3@])),
{
    m.inner.injector().push(
        target,
        move |_, cols| {
            cols[0] = Utf32String::from(c0.as_str());
            cols[1] = Utf32String::from(c1.as_str());
            cols[2] = Utf32String::from(c2.as_str());
            cols[3] = Utf32String::from(c3.as_str());
        },
    );
}

/// `MultiPattern::reparse` of nucleo with smart case and normalization:
/// sets the query of one column. It indexes the pattern's columns, so
/// `column` must be below the count the matcher was made with.
#[verifier::external_body]
pub(crate) fn matcher_reparse<T: Sync + Send + 'static>(m: &mut SearchMatcher<T>, column: usize, query: &str)
    requires
        column < old(m).column_count(),
    ensures
        final(m).column_count() == old(m).column_count(),
        final(m).queries() == old(m).queries().update(column as int, query@),
        final(m).items() == old(m).items(),
{
    m.inner.pattern.reparse(column, query, CaseMatching::Smart, Normalization::Smart, false);
}

/// `Nucleo::tick` of nucleo: waits up to `timeout` milliseconds for the
/// worker and reports whether the matches changed. What matches depends on
/// the worker's progress, so nothing is stated of the result; the queries
/// and items stay.
#[verifier::external_body]
pub(crate) fn matcher_tick<T: Sync + Send + 'static>(m: &mut SearchMatcher<T>, timeout: u64) -> (changed: bool)
    ensures
        final(m).column_count() == old(m).column_count(),
        final(m).queries() == old(m).queries(),
        final(m).items() == old(m).items(),
{
    m.inner.tick(timeout).changed
}

/// Whether `path` is the path of one of the project items `items`.
pub open spec fn project_item_path(items: Seq<(Project, Seq<Seq<char>>)>, path: Seq<char>) -> bool {
    exists|i: int| 0 <= i < items.len() && #[trigger] items[i].0.path@ == path
}

/// Whether `key` is the kind, name and path of one of the target items
/// `items`.
pub open spec fn target_item_key(items: Seq<(Target, Seq<Seq<char>>)>, key: (Seq<char>, Seq<char>, Seq<char>)) -> bool {
    exists|i: int|
        0 <= i < items.len() && (#[trigger] items[i].0).kind@ == key.0 && items[i].0.name@ == key.1
            && items[i].0.path@ == key.2
}

/// `Snapshot::matched_items` of nucleo: the paths of the matched projects,
/// best match first, as of the last tick. Which ones match depends on the
/// worker's progress; each is an item handed over since the last restart,
/// whose snapshot restarting cleared.
#[verifier::external_body]
pub(crate) fn matched_project_paths(m: &SearchMatcher<Project>) -> (paths: Vec<String>)
    ensures
        forall|k: int| 0 <= k < paths@.len() ==> project_item_path(m.items(), #[trigger] paths@[k]@),
{
    m.inner.snapshot().matched_items(..).map(|item| item.data.path.clone()).collect()
}

/// `Snapshot::matched_items` of nucleo: kind, name and path of the matched
/// targets, best match first, as of the last tick; each is an item handed
/// over since the last restart.
#[verifier::external_body]
pub(crate) fn matched_target_keys(m: &SearchMatcher<Target>) -> (keys: Vec<(String, String, String)>)
    ensures
        forall|k: int| 0 <= k < keys@.len() ==> target_item_key(m.items(), (#[trigger] keys@[k].0@, keys@[k].1@, keys@[k].2@)),
{
    m.inner.snapshot().matched_items(..).map(
        |item| (item.data.kind.clone(), item.data.name.clone(), item.data.path.clone()),
    ).collect()
}

} // verus!
