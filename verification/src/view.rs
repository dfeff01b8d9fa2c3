//! What the screen shows: which sections and dialogs, and the rows of each
//! pane with how each row is marked. Drawing them is left to the caller.
use crate::app::moves::{shown_description, visible};
use crate::app::{target_views, App, Focus, RunProfile, Target, TargetStatus, TargetStatusKind};
use crate::format::{
    duration_text, format_duration, language_label_of, language_label_text, scroll_offset, scroll_start,
    truncate, truncated,
};
use crate::projects::Project;
use crate::providers::{CiRun, LanguageStat, ProjectMetadataSummary};
use crate::app::running::{join_strings, joined};
use crate::collections::views;
use crate::text::{chars_of, opt_str, str_eq};
use nucleo::pattern::{CaseMatching, Normalization, Pattern};
use nucleo::{Config, Matcher, Utf32String};
use vstd::prelude::*;
use vstd::string::*;

verus! {

/// A section of the left column.
#[derive(Debug, Clone, Copy, PartialEq, Eq, Structural)]
pub enum Section {
    Metadata,
    Running,
    CiRuns,
    Languages,
}

/// What the screen is made of.
#[derive(Debug)]
pub struct ScreenPlan {
    /// The sections of the left column, top to bottom, sharing its height.
    pub left: Vec<Section>,
    /// The selected running target's terminal takes the middle and right
    /// columns.
    pub show_terminal: bool,
    /// A search field above the projects.
    pub show_project_search: bool,
    /// The targets pane, with a search field above it when this holds.
    pub show_target_search: bool,
    pub delete_dialog: bool,
    pub create_dialog: bool,
    pub creating_dialog: bool,
    pub help_dialog: bool,
}

/// The languages of the selected project were counted.
pub open spec fn languages_shown(app: App) -> bool {
    match app.current_project_path() {
        Some(p) => app.languages_cache@.contains_key(p) && app.languages_cache@[p] is Some,
        None => false,
    }
}

/// The left column: the metadata, then the running targets when any, the CI
/// runs when shown and the languages when counted.
pub open spec fn left_sections(app: App) -> Seq<Section> {
    seq![Section::Metadata] + (if app.target_statuses@.len() > 0 {
        seq![Section::Running]
    } else {
        Seq::empty()
    }) + (if app.ci_runs_shown() is Some {
        seq![Section::CiRuns]
    } else {
        Seq::empty()
    }) + (if languages_shown(app) {
        seq![Section::Languages]
    } else {
        Seq::empty()
    })
}

/// The terminal is shown while the running pane has the focus and a running
/// target is selected.
pub open spec fn terminal_shown(app: App) -> bool {
    app.focus == Focus::RunningTargets && app.current_running_index() is Some
}

/// Which sections and dialogs make the screen.
pub fn screen_plan(app: &App) -> (r: ScreenPlan)
    ensures
        r.left@ == left_sections(*app),
        r.show_terminal == terminal_shown(*app),
        r.show_project_search == (!terminal_shown(*app) && (app.project_query@.len() > 0 || (app.focus
            == Focus::Projects && app.filter_mode))),
        r.show_target_search == (!terminal_shown(*app) && (app.target_query@.len() > 0 || (app.focus
            == Focus::Targets && app.filter_mode))),
        r.delete_dialog == app.confirm_delete_project,
        r.create_dialog == app.creating_project,
        r.creating_dialog == app.creating_project_in_background,
        r.help_dialog == app.show_help,
{
    let mut left: Vec<Section> = Vec::new();
    left.push(Section::Metadata);
    if app.target_statuses.len() > 0 {
        left.push(Section::Running);
    }
    if app.project_ci_runs().is_some() {
        left.push(Section::CiRuns);
    }
    if app.project_languages().is_some() {
        left.push(Section::Languages);
    }
    assert(left@ =~= left_sections(*app));
    let show_terminal = app.focus == Focus::RunningTargets && app.current_running_target_status().is_some();
    let show_project_search = !show_terminal && (!app.project_query.as_str().is_empty() || (app.focus
        == Focus::Projects && app.filter_mode));
    let show_target_search = !show_terminal && (!app.target_query.as_str().is_empty() || (app.focus
        == Focus::Targets && app.filter_mode));
    ScreenPlan {
        left,
        show_terminal,
        show_project_search,
        show_target_search,
        delete_dialog: app.confirm_delete_project,
        create_dialog: app.creating_project,
        creating_dialog: app.creating_project_in_background,
        help_dialog: app.show_help,
    }
}

/// The title of the metadata section: the package name, its version after
/// ` v`, and the git branch after a branch icon, each unless unknown (`—`).
pub open spec fn metadata_title_of(m: ProjectMetadataSummary) -> Seq<char> {
    m.package_name@ + (if m.package_version@ == "\u{2014}"@ {
        Seq::empty()
    } else {
        " v"@ + m.package_version@
    }) + (if m.git_branch@ == "\u{2014}"@ {
        Seq::empty()
    } else {
        " \u{e725} "@ + m.git_branch@
    })
}

/// The title of the metadata section (see `metadata_title_of`).
pub fn metadata_title(m: &ProjectMetadataSummary) -> (r: String)
    ensures
        r@ == metadata_title_of(*m),
{
    let mut r = m.package_name.clone();
    if !str_eq(m.package_version.as_str(), "\u{2014}") {
        r.append(" v");
        r.append(m.package_version.as_str());
    }
    if !str_eq(m.git_branch.as_str(), "\u{2014}") {
        r.append(" \u{e725} ");
        r.append(m.git_branch.as_str());
    }
    proof {
        reveal_strlit("\u{2014}");
    }
    r
}

/// How a project's size is marked.
#[derive(Debug, Clone, Copy, PartialEq, Eq, Structural)]
pub enum SizeLevel {
    Plain,
    /// One GiB or more.
    Large,
    /// Five GiB or more.
    Huge,
}

/// Bytes in a GiB.
pub const GIB: u64 = 1073741824;

/// The mark of a size; the selected row marks none.
pub open spec fn size_level_of(selected: bool, size: Option<u64>) -> SizeLevel {
    if selected {
        SizeLevel::Plain
    } else {
        match size {
            Some(s) => if s >= 5 * GIB {
                SizeLevel::Huge
            } else if s >= GIB {
                SizeLevel::Large
            } else {
                SizeLevel::Plain
            },
            None => SizeLevel::Plain,
        }
    }
}

/// A row of the projects pane.
#[derive(Debug)]
pub struct ProjectRow {
    /// Position in the filtered list.
    pub index: usize,
    pub name: String,
    pub path: String,
    pub selected: bool,
    pub bookmarked: bool,
    /// The measured size, once known.
    pub size: Option<u64>,
    pub size_level: SizeLevel,
    /// When the project was last opened, in seconds since the Unix epoch.
    pub last_opened: Option<u64>,
}

/// The projects pane.
#[derive(Debug)]
pub struct ProjectPane {
    pub focused: bool,
    /// No project passes the filter.
    pub empty: bool,
    /// Position in the filtered list of the first row shown.
    pub offset: usize,
    pub rows: Vec<ProjectRow>,
}

/// The rows shown of a list of `len` items from `offset` on, at most
/// `visible_rows` of them.
pub open spec fn window_len(len: nat, offset: nat, visible_rows: nat) -> nat {
    if offset >= len {
        0
    } else if len - offset <= visible_rows {
        (len - offset) as nat
    } else {
        visible_rows
    }
}

/// `row` shows project `p` at position `index` of the filtered list.
pub open spec fn project_row_of(app: App, row: ProjectRow, p: Project, index: int, focused: bool) -> bool {
    let selected = focused && app.cursor == index;
    let size = if app.size_cache@.contains_key(p.path@) {
        Some(app.size_cache@[p.path@])
    } else {
        None
    };
    &&& row.index == index
    &&& row.name@ == p.name@
    &&& row.path@ == p.path@
    &&& row.selected == selected
    &&& row.bookmarked == app.bookmarked_projects.entries@.contains(p.path@)
    &&& row.size == size
    &&& row.size_level == size_level_of(selected, size)
    &&& row.last_opened == if app.recent_projects.entries@.contains_key(p.path@) {
        Some(app.recent_projects.entries@[p.path@])
    } else {
        None
    }
}

/// The projects pane with `visible_rows` rows: focused while it has the
/// focus outside search mode; scrolled so the cursor sits mid-screen; one
/// row for each listed project in the window.
pub open spec fn project_pane_of(app: App, pane: ProjectPane, visible_rows: nat) -> bool {
    let shown = visible(app.filtered_projects@, app.projects@);
    let focused = app.focus == Focus::Projects && !app.filter_mode;
    let offset = scroll_start(app.filtered_projects@.len(), app.cursor as int, visible_rows);
    &&& pane.focused == focused
    &&& pane.empty == (app.filtered_projects@.len() == 0)
    &&& pane.offset == offset
    &&& pane.rows@.len() == window_len(shown.len(), offset, visible_rows)
    &&& forall|k: int|
        0 <= k < pane.rows@.len() ==> project_row_of(app, #[trigger] pane.rows@[k], shown[offset + k], offset + k, focused)
}

impl App {
    /// The projects pane with `visible_rows` rows (see `project_pane_of`).
    pub fn project_pane(&self, visible_rows: usize) -> (r: ProjectPane)
        ensures
            project_pane_of(*self, r, visible_rows as nat),
    {
        let shown = self.visible_projects();
        let focused = self.focus == Focus::Projects && !self.filter_mode;
        let offset = scroll_offset(self.filtered_projects.len(), self.cursor, visible_rows);
        let mut rows: Vec<ProjectRow> = Vec::new();
        let mut k: usize = 0;
        while offset + k < shown.len() && k < visible_rows
            invariant
                shown@ == visible(self.filtered_projects@, self.projects@),
                focused == (self.focus == Focus::Projects && !self.filter_mode),
                offset as nat == scroll_start(self.filtered_projects@.len(), self.cursor as int, visible_rows as nat),
                k <= visible_rows,
                offset + k <= shown@.len() || k == 0,
                rows@.len() == k,
                forall|j: int|
                    0 <= j < k ==> project_row_of(*self, #[trigger] rows@[j], shown@[offset + j], offset + j, focused),
            decreases visible_rows - k,
        {
            let index = offset + k;
            let p = &shown[index];
            let selected = focused && self.cursor >= 0 && self.cursor as usize == index;
            let size = match self.size_cache.get(p.path.as_str()) {
                Some(s) => Some(*s),
                None => None,
            };
            let size_level = if selected {
                SizeLevel::Plain
            } else {
                match size {
                    Some(s) => if s >= 5 * GIB {
                        SizeLevel::Huge
                    } else if s >= GIB {
                        SizeLevel::Large
                    } else {
                        SizeLevel::Plain
                    },
                    None => SizeLevel::Plain,
                }
            };
            let last_opened = match self.recent_projects.entries.get(p.path.as_str()) {
                Some(t) => Some(*t),
                None => None,
            };
            rows.push(
                ProjectRow {
                    index,
                    name: p.name.clone(),
                    path: p.path.clone(),
                    selected,
                    bookmarked: self.bookmarked_projects.entries.contains(p.path.as_str()),
                    size,
                    size_level,
                    last_opened,
                },
            );
            k += 1;
        }
        ProjectPane { focused, empty: self.filtered_projects.len() == 0, offset, rows }
    }
}

/// A row of the targets pane.
#[derive(Debug)]
pub struct TargetRow {
    /// Position in the filtered list.
    pub index: usize,
    pub name: String,
    pub kind: String,
    pub path: String,
    pub selected: bool,
    /// The path is shown; it is left out when the target at the position
    /// before in the unfiltered list has the same path.
    pub show_path: bool,
}

/// The targets pane.
#[derive(Debug)]
pub struct TargetPane {
    pub focused: bool,
    /// The selected project's targets are being looked up.
    pub loading: bool,
    /// No target passes the filter.
    pub empty: bool,
    /// Position in the filtered list of the first row shown.
    pub offset: usize,
    pub rows: Vec<TargetRow>,
}

/// `row` shows target `t` at position `index` of the filtered list.
pub open spec fn target_row_of(app: App, row: TargetRow, t: Target, index: int, focused: bool) -> bool {
    &&& row.index == index
    &&& row.name@ == t.name@
    &&& row.kind@ == t.kind@
    &&& row.path@ == t.path@
    &&& row.selected == (focused && app.target_cursor == index)
    &&& row.show_path == !(index > 0 && index - 1 < app.targets@.len() && app.targets@[index - 1].path@
        == t.path@)
}

/// The targets pane with `visible_rows` rows: focused while it has the
/// focus outside search mode; scrolled so the cursor sits mid-screen; one
/// row for each listed target in the window.
pub open spec fn target_pane_of(app: App, pane: TargetPane, visible_rows: nat) -> bool {
    let shown = visible(app.filtered_targets@, app.targets@);
    let focused = app.focus == Focus::Targets && !app.filter_mode;
    let offset = scroll_start(app.filtered_targets@.len(), app.target_cursor as int, visible_rows);
    &&& pane.focused == focused
    &&& pane.loading == (app.current_project_path() matches Some(p) && app.loading_targets@.contains(p))
    &&& pane.empty == (app.filtered_targets@.len() == 0)
    &&& pane.offset == offset
    &&& pane.rows@.len() == window_len(shown.len(), offset, visible_rows)
    &&& forall|k: int|
        0 <= k < pane.rows@.len() ==> target_row_of(app, #[trigger] pane.rows@[k], shown[offset + k], offset + k, focused)
}

/// A row of the running pane.
#[derive(Debug)]
pub struct RunningRow {
    pub index: usize,
    /// Project and target name, with a slash between.
    pub label: String,
    /// A failed target shows a cross, the others a spinner.
    pub failed: bool,
    pub selected: bool,
    pub profile: RunProfile,
    /// Time since the launch, as minutes and seconds.
    pub uptime: String,
}

/// Whole seconds from `started_ms` to `clock_ms`, none before the launch.
pub open spec fn uptime_secs(started_ms: Option<u64>, clock_ms: u64) -> Option<u64> {
    match started_ms {
        Some(t) => Some(
            if clock_ms >= t {
                ((clock_ms - t) / 1000) as u64
            } else {
                0
            },
        ),
        None => None,
    }
}

/// `row` shows the launched target `s` at position `index`, at `clock_ms`.
pub open spec fn running_row_of(app: App, row: RunningRow, s: TargetStatus, index: int, clock_ms: u64) -> bool {
    &&& row.index == index
    &&& row.label@ == s.project_name@ + "/"@ + s.target_name@
    &&& row.failed == (s.kind == TargetStatusKind::Failed)
    &&& row.selected == (app.focus == Focus::RunningTargets && app.running_cursor == index)
    &&& row.profile == s.profile
    &&& row.uptime@ == duration_text(uptime_secs(s.started_ms, clock_ms))
}

/// How a CI run is marked.
#[derive(Debug, Clone, Copy, PartialEq, Eq, Structural)]
pub enum CiStatus {
    Success,
    Failure,
    Cancelled,
    /// Any other status.
    Pending,
}

/// The mark of a CI run's status.
pub open spec fn ci_status_of(status: Seq<char>) -> CiStatus {
    if status == "success"@ {
        CiStatus::Success
    } else if status == "failure"@ {
        CiStatus::Failure
    } else if status == "cancelled"@ {
        CiStatus::Cancelled
    } else {
        CiStatus::Pending
    }
}

/// A row of the CI pane.
#[derive(Debug)]
pub struct CiRow {
    pub index: usize,
    pub selected: bool,
    pub status: CiStatus,
    /// The branch, cut to ten characters.
    pub branch: String,
    /// The commit title, cut to forty-eight characters.
    pub title: String,
    pub created_at: String,
}

/// The CI pane.
#[derive(Debug)]
pub struct CiPane {
    pub focused: bool,
    pub offset: usize,
    pub rows: Vec<CiRow>,
}

/// `row` shows CI run `run` at position `index` of the filtered list.
pub open spec fn ci_row_of(app: App, row: CiRow, run: CiRun, index: int) -> bool {
    &&& row.index == index
    &&& row.selected == (app.focus == Focus::CiRuns && app.ci_cursor == index)
    &&& row.status == ci_status_of(run.status@)
    &&& row.branch@ == truncated(run.branch@, 10)
    &&& row.title@ == truncated(run.title@, 48)
    &&& row.created_at@ == run.created_at@
}

/// The CI runs the filter keeps, when shown.
pub open spec fn shown_ci_runs(app: App) -> Seq<CiRun> {
    match app.ci_runs_shown() {
        Some(ci) => visible(app.filtered_ci_runs@, ci.runs@),
        None => Seq::empty(),
    }
}

/// The CI pane with `visible_rows` rows, scrolled so the cursor sits
/// mid-screen.
pub open spec fn ci_pane_of(app: App, pane: CiPane, visible_rows: nat) -> bool {
    let shown = shown_ci_runs(app);
    let offset = scroll_start(app.filtered_ci_runs@.len(), app.ci_cursor as int, visible_rows);
    &&& pane.focused == (app.focus == Focus::CiRuns)
    &&& pane.offset == offset
    &&& pane.rows@.len() == window_len(shown.len(), offset, visible_rows)
    &&& forall|k: int| 0 <= k < pane.rows@.len() ==> ci_row_of(app, #[trigger] pane.rows@[k], shown[offset + k], offset + k)
}

/// A row of the languages section.
#[derive(Debug)]
pub struct LanguageRow {
    pub label: String,
    pub code: u64,
    pub comments: u64,
    pub blanks: u64,
}

fn ci_status(status: &str) -> (r: CiStatus)
    ensures
        r == ci_status_of(status@),
{
    if str_eq(status, "success") {
        CiStatus::Success
    } else if str_eq(status, "failure") {
        CiStatus::Failure
    } else if str_eq(status, "cancelled") {
        CiStatus::Cancelled
    } else {
        CiStatus::Pending
    }
}

impl App {
    /// The targets pane with `visible_rows` rows (see `target_pane_of`).
    pub fn target_pane(&self, visible_rows: usize) -> (r: TargetPane)
        ensures
            target_pane_of(*self, r, visible_rows as nat),
    {
        let shown = self.visible_targets();
        let ghost sv = visible(self.filtered_targets@, self.targets@);
        assert(shown@.len() == sv.len()) by {
            assert(target_views(shown@).len() == target_views(sv).len());
        }
        let focused = self.focus == Focus::Targets && !self.filter_mode;
        let offset = scroll_offset(self.filtered_targets.len(), self.target_cursor, visible_rows);
        let mut rows: Vec<TargetRow> = Vec::new();
        let mut k: usize = 0;
        while offset + k < shown.len() && k < visible_rows
            invariant
                target_views(shown@) == target_views(sv),
                shown@.len() == sv.len(),
                sv == visible(self.filtered_targets@, self.targets@),
                focused == (self.focus == Focus::Targets && !self.filter_mode),
                offset as nat == scroll_start(self.filtered_targets@.len(), self.target_cursor as int, visible_rows as nat),
                k <= visible_rows,
                offset + k <= shown@.len() || k == 0,
                rows@.len() == k,
                forall|j: int|
                    0 <= j < k ==> target_row_of(*self, #[trigger] rows@[j], sv[offset + j], offset + j, focused),
            decreases visible_rows - k,
        {
            let index = offset + k;
            let t = &shown[index];
            proof {
                assert(target_views(shown@)[index as int] == target_views(sv)[index as int]);
            }
            let selected = focused && self.target_cursor >= 0 && self.target_cursor as usize == index;
            let show_path = !(index > 0 && index - 1 < self.targets.len() && str_eq(
                self.targets[index - 1].path.as_str(),
                t.path.as_str(),
            ));
            rows.push(
                TargetRow {
                    index,
                    name: t.name.clone(),
                    kind: t.kind.clone(),
                    path: t.path.clone(),
                    selected,
                    show_path,
                },
            );
            k += 1;
        }
        TargetPane {
            focused,
            loading: self.targets_loading(),
            empty: self.filtered_targets.len() == 0,
            offset,
            rows,
        }
    }

    /// The rows of the running pane at `clock_ms` of the monotonic clock
    /// (see `running_row_of`), one for each launched target.
    pub fn running_rows(&self, clock_ms: u64) -> (r: Vec<RunningRow>)
        ensures
            r@.len() == self.target_statuses@.len(),
            forall|k: int|
                0 <= k < r@.len() ==> running_row_of(*self, #[trigger] r@[k], self.target_statuses@[k], k, clock_ms),
    {
        let mut rows: Vec<RunningRow> = Vec::new();
        let mut k: usize = 0;
        while k < self.target_statuses.len()
            invariant
                k <= self.target_statuses@.len(),
                rows@.len() == k,
                forall|j: int|
                    0 <= j < k ==> running_row_of(*self, #[trigger] rows@[j], self.target_statuses@[j], j, clock_ms),
            decreases self.target_statuses@.len() - k,
        {
            let s = &self.target_statuses[k];
            let mut label = s.project_name.clone();
            label.append("/");
            label.append(s.target_name.as_str());
            let secs = match s.started_ms {
                Some(t) => Some(
                    if clock_ms >= t {
                        (clock_ms - t) / 1000
                    } else {
                        0
                    },
                ),
                None => None,
            };
            rows.push(
                RunningRow {
                    index: k,
                    label,
                    failed: s.kind == TargetStatusKind::Failed,
                    selected: self.focus == Focus::RunningTargets && self.running_cursor >= 0
                        && self.running_cursor as usize == k,
                    profile: s.profile,
                    uptime: format_duration(secs),
                },
            );
            k += 1;
        }
        rows
    }

    /// The CI pane with `visible_rows` rows (see `ci_pane_of`).
    pub fn ci_pane(&self, visible_rows: usize) -> (r: CiPane)
        ensures
            ci_pane_of(*self, r, visible_rows as nat),
    {
        let shown = self.visible_ci_runs();
        let offset = scroll_offset(self.filtered_ci_runs.len(), self.ci_cursor, visible_rows);
        let mut rows: Vec<CiRow> = Vec::new();
        let mut k: usize = 0;
        while offset + k < shown.len() && k < visible_rows
            invariant
                shown@ == shown_ci_runs(*self),
                offset as nat == scroll_start(self.filtered_ci_runs@.len(), self.ci_cursor as int, visible_rows as nat),
                k <= visible_rows,
                offset + k <= shown@.len() || k == 0,
                rows@.len() == k,
                forall|j: int| 0 <= j < k ==> ci_row_of(*self, #[trigger] rows@[j], shown@[offset + j], offset + j),
            decreases visible_rows - k,
        {
            let index = offset + k;
            let run = &shown[index];
            rows.push(
                CiRow {
                    index,
                    selected: self.focus == Focus::CiRuns && self.ci_cursor >= 0 && self.ci_cursor as usize == index,
                    status: ci_status(run.status.as_str()),
                    branch: truncate(run.branch.as_str(), 10),
                    title: truncate(run.title.as_str(), 48),
                    created_at: run.created_at.clone(),
                },
            );
            k += 1;
        }
        CiPane { focused: self.focus == Focus::CiRuns, offset, rows }
    }

    /// The first `max_rows` languages counted for the selected project,
    /// each with its label (see `language_label_of`) and counts; none when
    /// they were not counted.
    pub fn language_rows(&self, max_rows: usize) -> (r: Vec<LanguageRow>)
        ensures
            match self.project_languages_spec() {
                Some(ls) => {
                    &&& r@.len() == if ls.len() < max_rows { ls.len() } else { max_rows as nat }
                    &&& forall|k: int|
                        0 <= k < r@.len() ==> {
                            &&& (#[trigger] r@[k]).label@ == language_label_of(ls[k].name@)
                            &&& r@[k].code == ls[k].code
                            &&& r@[k].comments == ls[k].comments
                            &&& r@[k].blanks == ls[k].blanks
                        }
                },
                None => r@.len() == 0,
            },
    {
        let mut rows: Vec<LanguageRow> = Vec::new();
        match self.project_languages() {
            Some(data) => {
                let mut k: usize = 0;
                while k < data.languages.len() && k < max_rows
                    invariant
                        Some(data.languages@) == self.project_languages_spec(),
                        k <= max_rows,
                        k <= data.languages@.len(),
                        rows@.len() == k,
                        forall|j: int|
                            0 <= j < k ==> {
                                &&& (#[trigger] rows@[j]).label@ == language_label_of(data.languages@[j].name@)
                                &&& rows@[j].code == data.languages@[j].code
                                &&& rows@[j].comments == data.languages@[j].comments
                                &&& rows@[j].blanks == data.languages@[j].blanks
                            },
                    decreases max_rows - k,
                {
                    let l = &data.languages[k];
                    rows.push(
                        LanguageRow {
                            label: language_label_text(l.name.as_str()),
                            code: l.code,
                            comments: l.comments,
                            blanks: l.blanks,
                        },
                    );
                    k += 1;
                }
            },
            None => {},
        }
        rows
    }

    /// The languages counted for the selected project, if any.
    pub open spec fn project_languages_spec(&self) -> Option<Seq<LanguageStat>> {
        match self.current_project_path() {
            Some(p) => if self.languages_cache@.contains_key(p) {
                match self.languages_cache@[p] {
                    Some(l) => Some(l.languages@),
                    None => None,
                }
            } else {
                None
            },
            None => None,
        }
    }
}

/// The positions in `haystack` that the fuzzy query `query` highlights.
pub uninterp spec fn fuzzy_indices(query: Seq<char>, haystack: Seq<char>) -> Seq<u32>;

/// `Pattern::indices` of nucleo, for the pattern `Pattern::parse` makes of
/// `query` with smart case and normalization and a matcher made with
/// `Config::DEFAULT`: the character positions in `haystack` of each word's
/// match, as far as the words matched. Its value is named by
/// `fuzzy_indices`; of it only this is stated: an empty query has no words
/// and gives no positions.
#[verifier::external_body]
fn pattern_indices(query: &str, haystack: &str) -> (r: Vec<u32>)
    ensures
        r@ == fuzzy_indices(query@, haystack@),
        query@.len() == 0 ==> r@.len() == 0,
{
    let pattern = Pattern::parse(query, CaseMatching::Smart, Normalization::Smart);
    let mut matcher = Matcher::new(Config::DEFAULT);
    let haystack = Utf32String::from(haystack);
    let mut indices = Vec::new();
    let _ = pattern.indices(haystack.slice(..), &mut matcher, &mut indices);
    indices
}

/// Where field `c` starts in the fields joined with single spaces.
pub open spec fn field_start(fields: Seq<Seq<char>>, c: int) -> int
    decreases c,
{
    if c <= 0 {
        0
    } else {
        field_start(fields, c - 1) + fields[c - 1].len() + 1
    }
}

/// Position `pos` of the joined fields is highlighted by the given matches:
/// `whole` holds positions in the joined fields, `per[c]` positions in field
/// `c` alone.
pub open spec fn highlighted_by(fields: Seq<Seq<char>>, whole: Seq<u32>, per: Seq<Seq<u32>>, pos: int) -> bool {
    ||| exists|k: int| 0 <= k < whole.len() && #[trigger] whole[k] == pos
    ||| exists|c: int, k: int|
        0 <= c < fields.len() && 0 <= k < per[c].len() && #[trigger] per[c][k] + field_start(fields, c) == pos
}

/// Position `pos` of the joined fields is highlighted: the query of the
/// whole row (`queries[0]`) matches it in the joined fields, or the query of
/// a field's own column (`queries[c + 1]`) matches it in that field.
pub open spec fn highlighted_at(fields: Seq<Seq<char>>, queries: Seq<Seq<char>>, pos: int) -> bool {
    highlighted_by(
        fields,
        fuzzy_indices(queries[0], joined(fields, " "@)),
        Seq::new(fields.len(), |c: int| fuzzy_indices(queries[c + 1], fields[c])),
        pos,
    )
}

/// The contents of each vector of positions.
pub open spec fn index_views(per: Seq<Vec<u32>>) -> Seq<Seq<u32>> {
    per.map_values(|v: Vec<u32>| v@)
}

fn hit(
    whole: &Vec<u32>,
    per: &Vec<Vec<u32>>,
    starts: &Vec<u64>,
    pos: u64,
    Ghost(fs): Ghost<Seq<Seq<char>>>,
) -> (r: bool)
    requires
        per@.len() == fs.len(),
        starts@.len() == fs.len(),
        forall|c: int| 0 <= c < fs.len() ==> #[trigger] starts@[c] == field_start(fs, c),
        forall|c: int| 0 <= c < fs.len() ==> #[trigger] starts@[c] < u32::MAX,
    ensures
        r == highlighted_by(fs, whole@, index_views(per@), pos as int),
{
    let ghost pv = index_views(per@);
    let mut k: usize = 0;
    while k < whole.len()
        invariant
            k <= whole@.len(),
            forall|j: int| 0 <= j < k ==> whole@[j] != pos,
        decreases whole@.len() - k,
    {
        if whole[k] as u64 == pos {
            assert(whole@[k as int] == pos);
            return true;
        }
        k += 1;
    }
    let mut c: usize = 0;
    while c < per.len()
        invariant
            pv == index_views(per@),
            per@.len() == fs.len(),
            starts@.len() == fs.len(),
            forall|d: int| 0 <= d < fs.len() ==> #[trigger] starts@[d] == field_start(fs, d),
            forall|d: int| 0 <= d < fs.len() ==> #[trigger] starts@[d] < u32::MAX,
            c <= per@.len(),
            forall|j: int| 0 <= j < whole@.len() ==> whole@[j] != pos,
            forall|d: int, j: int| 0 <= d < c && 0 <= j < pv[d].len() ==> #[trigger] pv[d][j] + field_start(fs, d) != pos,
        decreases per@.len() - c,
    {
        let indices = &per[c];
        let start = starts[c];
        assert(pv[c as int] == indices@);
        let mut j: usize = 0;
        while j < indices.len()
            invariant
                c < per@.len(),
                per@.len() == fs.len(),
                pv == index_views(per@),
                indices@ == pv[c as int],
                start == field_start(fs, c as int),
                start < u32::MAX,
                j <= indices@.len(),
                forall|i: int| 0 <= i < j ==> indices@[i] + start != pos,
            decreases indices@.len() - j,
        {
            if indices[j] as u64 + start == pos {
                assert(pv[c as int][j as int] + field_start(fs, c as int) == pos);
                return true;
            }
            j += 1;
        }
        c += 1;
    }
    proof {
        if highlighted_by(fs, whole@, pv, pos as int) {
            if exists|k: int| 0 <= k < whole@.len() && #[trigger] whole@[k] == pos {
                let k = choose|k: int| 0 <= k < whole@.len() && #[trigger] whole@[k] == pos;
                assert(whole@[k] != pos);
            } else {
                let (d, j) = choose|d: int, j: int|
                    0 <= d < fs.len() && 0 <= j < pv[d].len() && #[trigger] pv[d][j] + field_start(fs, d) == pos;
                assert(pv[d][j] + field_start(fs, d) != pos);
            }
        }
    }
    false
}

/// Which characters of each field the given matches highlight (see
/// `highlighted_by`): `whole` holds positions in the fields joined with
/// single spaces, `per[c]` positions in field `c`.
pub fn lines_from_matches(fields: &Vec<String>, whole: &Vec<u32>, per: &Vec<Vec<u32>>) -> (r: Vec<Vec<bool>>)
    requires
        per@.len() == fields@.len(),
        field_start(views(fields@), fields@.len() as int) < u32::MAX,
    ensures
        r@.len() == fields@.len(),
        forall|f: int|
            0 <= f < fields@.len() ==> (#[trigger] r@[f])@.len() == fields@[f]@.len() && forall|i: int|
                0 <= i < fields@[f]@.len() ==> r@[f]@[i] == highlighted_by(
                    views(fields@),
                    whole@,
                    index_views(per@),
                    field_start(views(fields@), f) + i,
                ),
{
    let ghost fs = views(fields@);
    let mut starts: Vec<u64> = Vec::new();
    let mut offset: u64 = 0;
    let mut c: usize = 0;
    while c < fields.len()
        invariant
            fs == views(fields@),
            field_start(fs, fields@.len() as int) < u32::MAX,
            c <= fields@.len(),
            offset == field_start(fs, c as int),
            starts@.len() == c,
            forall|d: int| 0 <= d < c ==> #[trigger] starts@[d] == field_start(fs, d),
        decreases fields@.len() - c,
    {
        proof {
            lemma_field_start_grows(fs, c as int, fields@.len() as int);
            lemma_field_start_grows(fs, c + 1, fields@.len() as int);
        }
        starts.push(offset);
        let n = chars_of(fields[c].as_str()).len() as u64;
        offset = offset + n + 1;
        c += 1;
    }
    let mut r: Vec<Vec<bool>> = Vec::new();
    let mut f: usize = 0;
    while f < fields.len()
        invariant
            fs == views(fields@),
            per@.len() == fields@.len(),
            field_start(fs, fields@.len() as int) < u32::MAX,
            starts@.len() == fields@.len(),
            forall|d: int| 0 <= d < fs.len() ==> #[trigger] starts@[d] == field_start(fs, d),
            f <= fields@.len(),
            r@.len() == f,
            forall|g: int|
                0 <= g < f ==> (#[trigger] r@[g])@.len() == fields@[g]@.len() && forall|i: int|
                    0 <= i < fields@[g]@.len() ==> r@[g]@[i] == highlighted_by(
                        fs,
                        whole@,
                        index_views(per@),
                        field_start(fs, g) + i,
                    ),
        decreases fields@.len() - f,
    {
        proof {
            assert forall|d: int| 0 <= d < fs.len() implies #[trigger] starts@[d] < u32::MAX by {
                lemma_field_start_grows(fs, d, fields@.len() as int);
            }
            lemma_field_start_grows(fs, f + 1, fields@.len() as int);
        }
        let n = chars_of(fields[f].as_str()).len();
        let start = starts[f];
        let mut flags: Vec<bool> = Vec::new();
        let mut i: usize = 0;
        while i < n
            invariant
                per@.len() == fs.len(),
                f < fs.len(),
                n == fs[f as int].len(),
                start == field_start(fs, f as int),
                field_start(fs, f as int) + fs[f as int].len() < u32::MAX,
                starts@.len() == fs.len(),
                forall|d: int| 0 <= d < fs.len() ==> #[trigger] starts@[d] == field_start(fs, d),
                forall|d: int| 0 <= d < fs.len() ==> #[trigger] starts@[d] < u32::MAX,
                i <= n,
                flags@.len() == i,
                forall|j: int|
                    0 <= j < i ==> flags@[j] == highlighted_by(fs, whole@, index_views(per@), field_start(fs, f as int) + j),
            decreases n - i,
        {
            flags.push(hit(whole, per, &starts, start + i as u64, Ghost(fs)));
            i += 1;
        }
        r.push(flags);
        f += 1;
    }
    r
}

/// Which characters of each field a search highlights (see
/// `highlighted_at`): `queries` holds the query of the whole row, then one
/// for each field's column.
pub fn matched_lines(fields: &Vec<String>, queries: &Vec<String>) -> (r: Vec<Vec<bool>>)
    requires
        queries@.len() == fields@.len() + 1,
        field_start(views(fields@), fields@.len() as int) < u32::MAX,
    ensures
        r@.len() == fields@.len(),
        forall|f: int|
            0 <= f < fields@.len() ==> (#[trigger] r@[f])@.len() == fields@[f]@.len() && forall|i: int|
                0 <= i < fields@[f]@.len() ==> r@[f]@[i] == highlighted_at(
                    views(fields@),
                    views(queries@),
                    field_start(views(fields@), f) + i,
                ),
        (forall|c: int| 0 <= c < queries@.len() ==> (#[trigger] queries@[c])@.len() == 0) ==> forall|f: int, i: int|
            0 <= f < fields@.len() && 0 <= i < fields@[f]@.len() ==> !(#[trigger] r@[f]@[i]),
{
    let ghost fs = views(fields@);
    let ghost qs = views(queries@);
    let joined_fields = join_strings(fields, " ");
    let whole = pattern_indices(queries[0].as_str(), joined_fields.as_str());
    let mut per: Vec<Vec<u32>> = Vec::new();
    let mut c: usize = 0;
    while c < fields.len()
        invariant
            qs == views(queries@),
            fs == views(fields@),
            queries@.len() == fields@.len() + 1,
            c <= fields@.len(),
            per@.len() == c,
            forall|d: int| 0 <= d < c ==> (#[trigger] per@[d])@ == fuzzy_indices(qs[d + 1], fs[d]),
            (forall|q: int| 0 <= q < queries@.len() ==> (#[trigger] queries@[q])@.len() == 0) ==> forall|d: int|
                0 <= d < c ==> (#[trigger] per@[d])@.len() == 0,
        decreases fields@.len() - c,
    {
        per.push(pattern_indices(queries[c + 1].as_str(), fields[c].as_str()));
        c += 1;
    }
    let ghost pv = Seq::new(fs.len(), |c: int| fuzzy_indices(qs[c + 1], fs[c]));
    proof {
        assert(index_views(per@) =~= pv);
    }
    let r = lines_from_matches(fields, &whole, &per);
    proof {
        if forall|q: int| 0 <= q < queries@.len() ==> (#[trigger] queries@[q])@.len() == 0 {
            assert(queries@[0]@.len() == 0);
            assert forall|p: int| !highlighted_at(fs, qs, p) by {
                assert forall|c: int| 0 <= c < fs.len() implies #[trigger] pv[c].len() == 0 by {
                    assert(per@[c]@.len() == 0);
                }
            }
        }
    }
    r
}

proof fn lemma_field_start_grows(fs: Seq<Seq<char>>, c: int, d: int)
    requires
        0 <= c <= d <= fs.len(),
    ensures
        field_start(fs, c) + (if c < d { fs[c].len() as int + 1 } else { 0int }) <= field_start(fs, d),
        field_start(fs, c) >= 0,
    decreases d - c,
{
    if c < d {
        lemma_field_start_grows(fs, c + 1, d);
    }
    lemma_field_start_nonneg(fs, c);
}

proof fn lemma_field_start_nonneg(fs: Seq<Seq<char>>, c: int)
    ensures
        field_start(fs, c) >= 0,
    decreases c,
{
    if c > 0 {
        lemma_field_start_nonneg(fs, c - 1);
    }
}

/// The metadata section of the selected project.
#[derive(Debug)]
pub struct MetadataView {
    /// See `metadata_title_of`.
    pub title: String,
    pub path: String,
    pub description: String,
    /// The selected target's description, while the targets pane has the
    /// focus.
    pub target_description: Option<String>,
}

impl App {
    /// The metadata section, once the selected project's metadata was
    /// fetched; none otherwise.
    pub fn metadata_view(&self) -> (r: Option<MetadataView>)
        ensures
            match self.current_project_path() {
                Some(p) => if self.metadata_cache@.contains_key(p) {
                    r matches Some(v) && v.title@ == metadata_title_of(self.metadata_cache@[p]) && v.path@ == p
                        && v.description@ == self.metadata_cache@[p].description@ && opt_str(v.target_description)
                        == shown_description(*self)
                } else {
                    r is None
                },
                None => r is None,
            },
    {
        let m = match self.project_metadata() {
            Some(m) => m,
            None => return None,
        };
        let path = match self.current_project() {
            Some(p) => p.path.clone(),
            None => return None,
        };
        let target_description = match self.current_target_description() {
            Some(d) => Some(String::from_str(d)),
            None => None,
        };
        Some(MetadataView { title: metadata_title(m), path, description: m.description.clone(), target_description })
    }
}

} // verus!
